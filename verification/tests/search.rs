use density_ring::config::Configuration;
use density_ring::search::find_counter_example;

#[test]
fn scenario_size4_exhaustive() {
    // All 16 size-4 values: the 2/2 splits short-circuit to true, and the
    // verifier reports clean exactly because every remaining value agrees
    // with its majority.
    let mut all_agree: bool = true;
    for value in 0u32..16 {
        let ones: u32 = value.count_ones();
        let mut c: Configuration = Configuration::new(value, 4);
        let verdict: bool = c.is_correct();
        if ones == 2 {
            assert!(verdict);
            assert_eq!(c, Configuration::new(value, 4));
        } else if !verdict {
            all_agree = false;
        }
    }
    assert_eq!(find_counter_example(4).is_none(), all_agree);
    assert!(all_agree);
}

#[test]
fn verifier_covers_small_sizes() {
    // No counterexample exists at these sizes; the search must cover the
    // whole enumerated range [0, 2^(size-1)) before reporting clean.
    for size in 2u32..=10 {
        assert_eq!(find_counter_example(size), None);
    }
}

#[test]
fn verifier_reports_a_witness() {
    // On a disagreement the search hands back a value inside the enumerated
    // range on which the oracle reports failure. The rule itself has no
    // known failing size, so check the reporting on the smallest sizes by
    // re-running the oracle on whatever the search returns.
    for size in 2u32..=6 {
        match find_counter_example(size) {
            Some(witness) => {
                assert!(witness < 1u32 << (size - 1));
                let mut c: Configuration = Configuration::new(witness, size);
                assert!(!c.is_correct());
            }
            None => {
                for value in 0u32..(1u32 << (size - 1)) {
                    let mut c: Configuration = Configuration::new(value, size);
                    assert!(c.is_correct());
                }
            }
        }
    }
}
