//! The phrase occurrence counter and the frequency histogram taken from it.

use vstd::prelude::*;
use crate::model::{freq_class, lemma_histogram_total, lemma_phrases, lemma_push, occurrences, phrases, seq_sum};
use crate::table::{
    seen_contents, seen_insert, seen_new, table_contents, table_entries, table_get, table_insert,
    table_len, table_new, PhraseTable, HT,
};

verus! {

/// Room reserved up front in a new counter's map.
pub const INITIAL_CAPACITY: usize = 1_000_000;

/// Counts, for each phrase identifier, the number of parses that contain it,
/// and the number of parses added.
pub struct PhraseFreqMap {
    phrase_map: PhraseTable,
    tot_refs: usize,
    parses: Ghost<Seq<Seq<HT>>>,
}

/// How many distinct phrases occurred in exactly `k` parses, for each `k`
/// from zero to the number of parses.
#[derive(Debug)]
pub struct PhraseHist {
    pub freqs: Vec<u64>,
    pub tot_refs: usize,
}

impl PhraseFreqMap {
    /// The parses added so far, in order, each as the identifiers it supplied.
    pub closed spec fn history(&self) -> Seq<Seq<HT>> {
        self.parses@
    }

    /// The map holds exactly the phrases of the history, each with the number
    /// of parses containing it, and the parse count is the history's length.
    pub closed spec fn wf(&self) -> bool {
        &&& self.tot_refs == self.parses@.len()
        &&& forall|id: HT|
            #[trigger] table_contents(self.phrase_map).contains_key(id) <==> phrases(
                self.parses@,
            ).contains(id)
        &&& forall|id: HT|
            #[trigger] table_contents(self.phrase_map).contains_key(id) ==> table_contents(
                self.phrase_map,
            )[id] == occurrences(self.parses@, id)
    }

    /// An empty counter: no parses, no phrases.
    pub fn new() -> (r: Self)
        ensures
            r.wf(),
            r.history() == Seq::<Seq<HT>>::empty(),
    {
        PhraseFreqMap {
            phrase_map: table_new(INITIAL_CAPACITY),
            tot_refs: 0,
            parses: Ghost(Seq::empty()),
        }
    }

    /// Records one parse: each distinct identifier of `p` gains one
    /// occurrence, however often `p` repeats it, and the parse count grows by
    /// one, also for an empty `p`.
    pub fn add_parse(&mut self, p: &[HT])
        requires
            old(self).wf(),
            old(self).history().len() < usize::MAX,
        ensures
            final(self).wf(),
            final(self).history() == old(self).history().push(p@),
    {
        let ghost h = self.parses@;
        let mut seen = seen_new();
        let mut j: usize = 0;
        while j < p.len()
            invariant
                self.parses@ == h,
                self.tot_refs == h.len(),
                h.len() < usize::MAX,
                j <= p@.len(),
                seen_contents(seen) == p@.take(j as int).to_set(),
                forall|id: HT|
                    #[trigger] table_contents(self.phrase_map).contains_key(id) <==> (phrases(
                        h,
                    ).contains(id) || p@.take(j as int).contains(id)),
                forall|id: HT|
                    #[trigger] table_contents(self.phrase_map).contains_key(id) ==> table_contents(
                        self.phrase_map,
                    )[id] == occurrences(h, id) + if p@.take(j as int).contains(id) {
                        1nat
                    } else {
                        0nat
                    },
            decreases p@.len() - j,
        {
            let phrase = p[j];
            let ghost before = p@.take(j as int);
            assert(p@.take(j + 1) =~= before.push(phrase));
            assert(forall|id: HT| #[trigger] p@.take(j + 1).contains(id) <==> (before.contains(id) || id == phrase)) by {
                assert forall|id: HT| before.contains(id) implies #[trigger] p@.take(j + 1).contains(id) by {
                    let k = choose|k: int| 0 <= k < before.len() && before[k] == id;
                    assert(p@.take(j + 1)[k] == id);
                }
                assert(p@.take(j + 1)[j as int] == phrase);
            }
            let fresh = seen_insert(&mut seen, phrase);
            if fresh {
                proof {
                    lemma_phrases(h, phrase);
                }
                let count = table_get(&self.phrase_map, phrase);
                let next: u64 = match count {
                    Some(c) => c + 1,
                    None => 1,
                };
                table_insert(&mut self.phrase_map, phrase, next);
            }
            j += 1;
            assert(seen_contents(seen) =~= p@.take(j as int).to_set());
        }
        assert(p@.take(p@.len() as int) =~= p@);
        self.tot_refs = self.tot_refs + 1;
        self.parses = Ghost(h.push(p@));
        proof {
            assert forall|id: HT| #[trigger] phrases(h.push(p@)).contains(id) <==> (phrases(h).contains(id) || p@.contains(id)) by {
                lemma_push(h, p@, id);
            }
            assert forall|id: HT| #[trigger] table_contents(self.phrase_map).contains_key(id) implies table_contents(self.phrase_map)[id] == occurrences(h.push(p@), id) by {
                lemma_push(h, p@, id);
            }
        }
    }

    /// The number of distinct phrase identifiers counted so far.
    pub fn size(&self) -> (r: usize)
        requires
            self.wf(),
        ensures
            r == phrases(self.history()).len(),
    {
        proof {
            lemma_phrases(self.parses@, 0);
            assert(table_contents(self.phrase_map).dom() =~= phrases(self.parses@));
        }
        table_len(&self.phrase_map)
    }

    /// The histogram of the counts: entry `k` is the number of distinct
    /// phrases that occurred in exactly `k` parses, for `k` from zero to the
    /// number of parses; entry zero is always zero, and the others sum to the
    /// number of distinct phrases.
    pub fn get_hist(&self) -> (r: PhraseHist)
        requires
            self.wf(),
            self.history().len() < usize::MAX,
        ensures
            r.tot_refs == self.history().len(),
            r.freqs@.len() == self.history().len() + 1,
            forall|k: int|
                0 <= k < r.freqs@.len() ==> #[trigger] r.freqs@[k] == freq_class(
                    self.history(),
                    k as nat,
                ).len(),
            r.freqs@[0] == 0,
            seq_sum(r.freqs@.subrange(1, r.freqs@.len() as int)) == phrases(self.history()).len(),
    {
        let ghost h = self.parses@;
        let entries = table_entries(&self.phrase_map);
        let len = self.tot_refs + 1;
        let mut freqs: Vec<u64> = Vec::new();
        while freqs.len() < len
            invariant
                freqs@.len() <= len,
                forall|k: int| 0 <= k < freqs@.len() ==> freqs@[k] == 0,
            decreases len - freqs@.len(),
        {
            freqs.push(0);
        }
        let ghost mut counted: Set<HT> = Set::empty();
        assert forall|k: int| 0 <= k < len implies #[trigger] freqs@[k] == counted.filter(
            |id: HT| occurrences(h, id) == k,
        ).len() by {
            assert(counted.filter(|id: HT| occurrences(h, id) == k) =~= Set::<HT>::empty());
        }
        let mut j: usize = 0;
        while j < entries.len()
            invariant
                self.wf(),
                self.parses@ == h,
                len == h.len() + 1,
                freqs@.len() == len,
                j <= entries@.len(),
                counted.finite(),
                counted.len() == j,
                forall|id: HT| #[trigger] counted.contains(id) ==> phrases(h).contains(id),
                forall|t: int| j <= t < entries@.len() ==> !counted.contains(#[trigger] entries@[t].0),
                forall|t: int| 0 <= t < j ==> counted.contains(#[trigger] entries@[t].0),
                forall|k: int|
                    0 <= k < len ==> #[trigger] freqs@[k] == counted.filter(
                        |id: HT| occurrences(h, id) == k,
                    ).len(),
                forall|t: int|
                    0 <= t < entries@.len() ==> table_contents(self.phrase_map).contains_key(
                        #[trigger] entries@[t].0,
                    ) && table_contents(self.phrase_map)[entries@[t].0] == entries@[t].1,
                forall|key: HT|
                    table_contents(self.phrase_map).contains_key(key) ==> exists|t: int|
                        0 <= t < entries@.len() && #[trigger] entries@[t].0 == key,
                forall|a: int, b: int|
                    0 <= a < entries@.len() && 0 <= b < entries@.len() && a != b ==> #[trigger] entries@[a].0
                        != #[trigger] entries@[b].0,
            decreases entries@.len() - j,
        {
            let (id, count) = entries[j];
            proof {
                lemma_phrases(h, id);
            }
            let slot = count as usize;
            let ghost class = counted.filter(|x: HT| occurrences(h, x) == slot as int);
            proof {
                vstd::set_lib::lemma_len_subset(class, counted);
            }
            freqs.set(slot, freqs[slot] + 1);
            proof {
                let next = counted.insert(id);
                assert forall|k: int| 0 <= k < len implies #[trigger] freqs@[k] == next.filter(
                    |x: HT| occurrences(h, x) == k,
                ).len() by {
                    let old_class = counted.filter(|x: HT| occurrences(h, x) == k);
                    if k == slot {
                        assert(next.filter(|x: HT| occurrences(h, x) == k) =~= old_class.insert(id));
                    } else {
                        assert(next.filter(|x: HT| occurrences(h, x) == k) =~= old_class);
                    }
                }
                assert forall|t: int| j + 1 <= t < entries@.len() implies !next.contains(
                    #[trigger] entries@[t].0,
                ) by {
                    assert(entries@[t].0 != entries@[j as int].0);
                }
                counted = next;
            }
            j += 1;
        }
        proof {
            assert forall|id: HT| #[trigger] phrases(h).contains(id) implies counted.contains(id) by {
                assert(table_contents(self.phrase_map).contains_key(id));
            }
            assert(counted =~= phrases(h));
        }
        let r = PhraseHist { freqs, tot_refs: self.tot_refs };
        proof {
            lemma_histogram_total(h, r.freqs@);
        }
        r
    }

    /// The number of parses added so far.
    pub fn tot_refs(&self) -> (r: usize)
        requires
            self.wf(),
        ensures
            r == self.history().len(),
    {
        self.tot_refs
    }
}

} // verus!
