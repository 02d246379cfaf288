//! The mathematical model of a run of parses: which phrases occurred, in how
//! many parses each, and how phrases group by that count.

use vstd::prelude::*;
use crate::table::HT;

verus! {

/// Number of parses in `parses` that contain `id`.
pub open spec fn occurrences(parses: Seq<Seq<HT>>, id: HT) -> nat
    decreases parses.len(),
{
    if parses.len() == 0 {
        0
    } else {
        occurrences(parses.drop_last(), id) + if parses.last().contains(id) {
            1nat
        } else {
            0nat
        }
    }
}

/// Every phrase identifier that occurs in some parse.
pub open spec fn phrases(parses: Seq<Seq<HT>>) -> Set<HT>
    decreases parses.len(),
{
    if parses.len() == 0 {
        Set::empty()
    } else {
        phrases(parses.drop_last()).union(parses.last().to_set())
    }
}

/// The phrases that occur in exactly `k` parses.
pub open spec fn freq_class(parses: Seq<Seq<HT>>, k: nat) -> Set<HT> {
    phrases(parses).filter(|id: HT| occurrences(parses, id) == k)
}

/// Sum of a sequence of counts.
pub open spec fn seq_sum(s: Seq<u64>) -> int
    decreases s.len(),
{
    if s.len() == 0 {
        0
    } else {
        seq_sum(s.drop_last()) + s.last()
    }
}

/// Finitely many phrases occur; a phrase occurs at all exactly when its count
/// is positive, and never in more parses than there are.
pub proof fn lemma_phrases(parses: Seq<Seq<HT>>, id: HT)
    ensures
        phrases(parses).finite(),
        phrases(parses).contains(id) <==> occurrences(parses, id) > 0,
        occurrences(parses, id) <= parses.len(),
    decreases parses.len(),
{
    broadcast use vstd::seq_lib::seq_to_set_is_finite;

    if parses.len() > 0 {
        lemma_phrases(parses.drop_last(), id);
    }
}

/// Adding one parse adds its phrases, and one occurrence to each of them.
pub proof fn lemma_push(parses: Seq<Seq<HT>>, p: Seq<HT>, id: HT)
    ensures
        phrases(parses.push(p)) == phrases(parses).union(p.to_set()),
        occurrences(parses.push(p), id) == occurrences(parses, id) + if p.contains(id) {
            1nat
        } else {
            0nat
        },
{
    assert(parses.push(p).drop_last() =~= parses);
}

/// The sum of a sequence is its first element plus the sum of the rest.
pub proof fn lemma_sum_first(s: Seq<u64>)
    requires
        s.len() > 0,
    ensures
        seq_sum(s) == s[0] + seq_sum(s.subrange(1, s.len() as int)),
    decreases s.len(),
{
    if s.len() > 1 {
        lemma_sum_first(s.drop_last());
        assert(s.drop_last().subrange(1, s.len() - 1) =~= s.subrange(1, s.len() as int).drop_last());
    } else {
        assert(s.subrange(1, s.len() as int) =~= Seq::<u64>::empty());
        assert(s.drop_last() =~= Seq::<u64>::empty());
    }
}

/// The first `count` classes of a histogram together hold the phrases that
/// occur in fewer than `count` parses.
proof fn lemma_classes_below(parses: Seq<Seq<HT>>, freqs: Seq<u64>, count: nat)
    requires
        count <= freqs.len(),
        forall|k: int| 0 <= k < freqs.len() ==> freqs[k] == freq_class(parses, k as nat).len(),
    ensures
        seq_sum(freqs.take(count as int)) == phrases(parses).filter(
            |id: HT| occurrences(parses, id) < count,
        ).len(),
    decreases count,
{
    lemma_phrases(parses, 0);
    let below = phrases(parses).filter(|id: HT| occurrences(parses, id) < count);
    if count == 0 {
        assert(below =~= Set::<HT>::empty());
        assert(freqs.take(0) =~= Seq::<u64>::empty());
    } else {
        let c = (count - 1) as nat;
        lemma_classes_below(parses, freqs, c);
        let lower = phrases(parses).filter(|id: HT| occurrences(parses, id) < c);
        let class = freq_class(parses, c);
        assert(freqs.take(count as int).drop_last() =~= freqs.take(c as int));
        assert(below =~= lower + class);
        vstd::set_lib::lemma_len_subset(lower, phrases(parses));
        vstd::set_lib::lemma_len_subset(class, phrases(parses));
        assert(lower.disjoint(class));
        vstd::set_lib::lemma_set_disjoint_lens(lower, class);
    }
}

/// A histogram of a run of parses has an empty class zero, and its classes
/// from one up together count every distinct phrase of the run.
pub proof fn lemma_histogram_total(parses: Seq<Seq<HT>>, freqs: Seq<u64>)
    requires
        freqs.len() == parses.len() + 1,
        forall|k: int| 0 <= k < freqs.len() ==> freqs[k] == freq_class(parses, k as nat).len(),
    ensures
        freqs[0] == 0,
        seq_sum(freqs.subrange(1, freqs.len() as int)) == phrases(parses).len(),
{
    lemma_phrases(parses, 0);
    lemma_classes_below(parses, freqs, freqs.len());
    assert(freqs.take(freqs.len() as int) =~= freqs);
    assert forall|id: HT| phrases(parses).contains(id) implies occurrences(parses, id) < freqs.len()
        && occurrences(parses, id) != 0 by {
        lemma_phrases(parses, id);
    }
    assert(phrases(parses).filter(|id: HT| occurrences(parses, id) < freqs.len()) =~= phrases(
        parses,
    ));
    assert(freq_class(parses, 0) =~= Set::<HT>::empty());
    lemma_sum_first(freqs);
}

} // verus!
