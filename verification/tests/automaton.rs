use density_ring::config::Configuration;

#[test]
fn new_starts_clean() {
    let c: Configuration = Configuration::new(0b011, 3);
    assert_eq!(c.size, 3);
    assert_eq!(c.value, 0b011);
    assert_eq!(c.alphabet, 0);
    assert_eq!(c.taken, 0);
    assert_eq!(c.color, 0);
    assert_eq!(c.mem_0, 0);
    assert_eq!(c.mem_1, 0);
}

#[test]
fn scenario_tie_size2() {
    // Size 2, value 01: equal counts, correct immediately, zero sweeps run.
    let mut c: Configuration = Configuration::new(0b01, 2);
    assert!(c.is_correct());
    assert_eq!(c, Configuration::new(0b01, 2));
}

#[test]
fn tie_short_circuits_without_sweeps() {
    // Even sizes with exactly size/2 zeros and ones: true, state untouched.
    let ties: [(u32, u32); 4] = [(0b01, 2), (0b0011, 4), (0b0101, 4), (0b000111, 6)];
    for (value, size) in ties {
        let mut c: Configuration = Configuration::new(value, size);
        assert!(c.is_correct());
        assert_eq!(c, Configuration::new(value, size));
    }
}

#[test]
fn scenario_majority_one_size3() {
    // Size 3, value 011: majority 1; sweeps drive the ring to uniform 111.
    let mut c: Configuration = Configuration::new(0b011, 3);
    assert!(c.is_correct());

    let mut d: Configuration = Configuration::new(0b011, 3);
    let mut sweeps: u32 = 0;
    while !d.has_converged() {
        assert!(sweeps <= 3);
        d.update();
        sweeps += 1;
    }
    assert_eq!(d.value, 0b111);
    assert_eq!(d.alphabet, 0);
}

#[test]
fn majority_zero_size3() {
    let mut c: Configuration = Configuration::new(0b001, 3);
    assert!(c.is_correct());

    let mut d: Configuration = Configuration::new(0b001, 3);
    let mut sweeps: u32 = 0;
    while !d.has_converged() {
        assert!(sweeps <= 3);
        d.update();
        sweeps += 1;
    }
    assert_eq!(d.value, 0b000);
    assert_eq!(d.alphabet, 0);
}

#[test]
fn sequential_sweep_order() {
    // Size 2, value 01. Cell 0 reads cell 1 as it stood before the sweep
    // (boolean 0) and kick-starts, capturing its own 1. Cell 1 then reads
    // cell 0 as already updated this sweep — an intermediate signal — so it
    // scans: it copies color and memory {1} and captures its own 0, ending
    // with memory {0, 1}. A synchronous automaton would have kick-started
    // cell 1 instead, leaving its memory at {0}.
    let mut c: Configuration = Configuration::new(0b01, 2);
    c.update();
    assert_eq!(c.value, 0b01);
    assert_eq!(c.alphabet, 0b11);
    assert_eq!(c.taken, 0b11);
    assert_eq!(c.color, 0b00);
    assert_eq!(c.mem_0, 0b10);
    assert_eq!(c.mem_1, 0b11);
}

#[test]
fn kick_start_at_one_index() {
    // Applying the rule at index 0 with left neighbor 1: values disagree,
    // so cell 0 turns intermediate and captures its 1; cell 1 never moves.
    let mut c: Configuration = Configuration::new(0b01, 2);
    c.apply_local_function(1, 0);
    assert_eq!(c.value, 0b01);
    assert_eq!(c.alphabet, 0b01);
    assert_eq!(c.taken, 0b01);
    assert_eq!(c.mem_0, 0b00);
    assert_eq!(c.mem_1, 0b01);
}

#[test]
fn converged_update_is_identity() {
    // Once converged, further sweeps change nothing observable.
    let mut uniform: Configuration = Configuration::new(0b11111, 5);
    assert!(uniform.has_converged());
    let before: Configuration = uniform;
    uniform.update();
    assert_eq!(uniform, before);

    let mut driven: Configuration = Configuration::new(0b011, 3);
    let mut sweeps: u32 = 0;
    while !driven.has_converged() {
        assert!(sweeps <= 3);
        driven.update();
        sweeps += 1;
    }
    let settled: Configuration = driven;
    driven.update();
    assert_eq!(driven, settled);
    driven.update();
    assert_eq!(driven, settled);
}

#[test]
fn has_converged_cases() {
    assert!(Configuration::new(0, 4).has_converged());
    assert!(Configuration::new(0b1111, 4).has_converged());
    assert!(!Configuration::new(0b0011, 4).has_converged());
    // An intermediate symbol blocks convergence even with a uniform value.
    let mut c: Configuration = Configuration::new(0b01, 2);
    c.update();
    assert!(!c.has_converged());
}

#[test]
fn convergence_within_oracle_budget_size4() {
    // Any size-4 configuration that converges at all does so within the
    // oracle's own cutoff of size + 1 sweeps; none converges later.
    for value in 0u32..16 {
        let mut c: Configuration = Configuration::new(value, 4);
        let mut sweeps_used: u32 = 0;
        while !c.has_converged() && sweeps_used < 5 {
            c.update();
            sweeps_used += 1;
        }
        if !c.has_converged() {
            // Past the cutoff it must never converge.
            for _ in 0..64 {
                c.update();
                assert!(!c.has_converged());
            }
        }
    }
}

#[test]
fn deterministic_verdict() {
    // The oracle's verdict is a function of the initial configuration.
    for value in 0u32..8 {
        let mut a: Configuration = Configuration::new(value, 3);
        let mut b: Configuration = Configuration::new(value, 3);
        assert_eq!(a.is_correct(), b.is_correct());
        assert_eq!(a, b);
    }
}
