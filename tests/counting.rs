use phrase_hist::falling::{falling_fact_form, FallingFact};
use phrase_hist::hist::PhraseFreqMap;
use spec_math::Gamma;

const A: u64 = 0xA;
const B: u64 = 0xB;
const C: u64 = 0xC;

#[test]
fn three_parses_histogram() {
    let mut map = PhraseFreqMap::new();
    map.add_parse(&[A, B]);
    map.add_parse(&[B, C]);
    map.add_parse(&[A, B, C]);
    assert_eq!(map.tot_refs(), 3);
    assert_eq!(map.size(), 3);
    let hist = map.get_hist();
    assert_eq!(hist.tot_refs, 3);
    assert_eq!(hist.freqs, vec![0, 0, 2, 1]);
}

#[test]
fn three_parses_counts_per_phrase() {
    let mut map = PhraseFreqMap::new();
    map.add_parse(&[A, B]);
    map.add_parse(&[B, C]);
    map.add_parse(&[A, B, C]);
    // A and C occur twice, B three times: class 2 holds two phrases, class 3 one.
    let hist = map.get_hist();
    assert_eq!(hist.freqs[2], 2);
    assert_eq!(hist.freqs[3], 1);
    assert_eq!(hist.freqs[1..].iter().sum::<u64>(), 3);
}

#[test]
fn duplicate_within_parse_counts_once() {
    let mut map = PhraseFreqMap::new();
    map.add_parse(&[A, A]);
    assert_eq!(map.tot_refs(), 1);
    assert_eq!(map.size(), 1);
    let hist = map.get_hist();
    assert_eq!(hist.freqs, vec![0, 1]);
}

#[test]
fn every_call_counts_as_one_parse() {
    let mut map = PhraseFreqMap::new();
    map.add_parse(&[]);
    map.add_parse(&[A, A, A]);
    map.add_parse(&[B, C, B]);
    map.add_parse(&[]);
    map.add_parse(&[C]);
    assert_eq!(map.tot_refs(), 5);
    assert_eq!(map.size(), 3);
    let hist = map.get_hist();
    assert_eq!(hist.tot_refs, 5);
    assert_eq!(hist.freqs, vec![0, 2, 1, 0, 0, 0]);
}

#[test]
fn histogram_sums_to_distinct_phrases() {
    let mut map = PhraseFreqMap::new();
    for k in 0..20u64 {
        let parse: Vec<u64> = (0..k).map(|x| x % 7).collect();
        map.add_parse(&parse);
    }
    let hist = map.get_hist();
    assert_eq!(hist.freqs.len(), 21);
    assert_eq!(hist.freqs[0], 0);
    assert_eq!(hist.freqs[1..].iter().sum::<u64>(), 7);
    assert_eq!(map.size(), 7);
}

#[test]
fn empty_counter_histogram() {
    let map = PhraseFreqMap::new();
    assert_eq!(map.tot_refs(), 0);
    assert_eq!(map.size(), 0);
    let hist = map.get_hist();
    assert_eq!(hist.tot_refs, 0);
    assert_eq!(hist.freqs, vec![0]);
}

#[test]
fn full_class_factor_is_one() {
    for n in 0..6u64 {
        for m in 0..=n {
            assert_eq!(falling_fact_form(n, n, m), FallingFact::One);
        }
    }
}

#[test]
fn oversized_sample_factor_is_zero() {
    assert_eq!(falling_fact_form(4, 0, 5), FallingFact::Zero);
    assert_eq!(falling_fact_form(4, 2, 9), FallingFact::Zero);
    assert_eq!(falling_fact_form(0, 0, 1), FallingFact::Zero);
}

#[test]
fn sample_beyond_remaining_units_is_zero() {
    assert_eq!(falling_fact_form(10, 8, 3), FallingFact::Zero);
    assert_eq!(
        falling_fact_form(10, 8, 2),
        FallingFact::GammaRatio { top: 2, len: 2 }
    );
}

#[test]
fn ten_falling_five_is_30240() {
    let form = falling_fact_form(10, 0, 5);
    assert_eq!(form, FallingFact::GammaRatio { top: 10, len: 5 });
    if let FallingFact::GammaRatio { top, len } = form {
        let value = ((top as f64 + 1.0).lgamma() - ((top - len + 1) as f64).lgamma()).exp();
        assert!(((value - 30240.0) / 30240.0).abs() < 1e-9);
    }
}

fn exact_value(form: FallingFact) -> u64 {
    match form {
        FallingFact::Zero => 0,
        FallingFact::One => 1,
        FallingFact::GammaRatio { top, len } => (0..len).map(|k| top - k).product(),
    }
}

#[test]
fn capture_weights_stay_within_bounds() {
    let mut map = PhraseFreqMap::new();
    map.add_parse(&[A, B]);
    map.add_parse(&[B, C]);
    map.add_parse(&[A, B, C]);
    let hist = map.get_hist();
    let n = hist.tot_refs as u64;
    // m = 1: denominator 3, class 1 keeps 2, class 2 keeps 1.
    assert_eq!(exact_value(falling_fact_form(n, 0, 1)), 3);
    assert_eq!(exact_value(falling_fact_form(n, 1, 1)), 2);
    assert_eq!(exact_value(falling_fact_form(n, 2, 1)), 1);
    for m in 1..n {
        let denom = exact_value(falling_fact_form(n, 0, m));
        assert!(denom > 0);
        let mut scaled = 0u64;
        for i in 1..n {
            let kept = exact_value(falling_fact_form(n, i, m));
            assert!(kept <= denom);
            scaled += hist.freqs[i as usize] * (denom - kept);
        }
        assert!(scaled <= map.size() as u64 * denom);
        if m == 1 {
            // ftot(1) = 4 / 3
            assert_eq!(scaled, 4);
        }
    }
}
