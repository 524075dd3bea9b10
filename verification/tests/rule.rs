use density_ring::cell::CellState;
use density_ring::config::Configuration;

fn boolean(value: bool) -> CellState {
    CellState {
        value,
        intermediate: false,
        captured: false,
        color: false,
        mem_has_0: false,
        mem_has_1: false,
    }
}

#[test]
fn codec_round_trip() {
    let mut c: Configuration = Configuration::new(0, 3);
    let s: CellState = CellState {
        value: true,
        intermediate: true,
        captured: false,
        color: true,
        mem_has_0: true,
        mem_has_1: false,
    };
    c.write_cell(1, s);
    assert_eq!(c.read_cell(0), boolean(false));
    assert_eq!(c.read_cell(1), s);
    assert_eq!(c.read_cell(2), boolean(false));
}

#[test]
fn rule_propagation_overwrites_signal() {
    // Left boolean, self intermediate: self reverts to boolean and adopts
    // the left value; captured flag, color and memory are left as they are.
    let mut c: Configuration = Configuration::new(0, 2);
    c.write_cell(0, boolean(true));
    c.write_cell(
        1,
        CellState {
            value: false,
            intermediate: true,
            captured: true,
            color: true,
            mem_has_0: true,
            mem_has_1: false,
        },
    );
    c.apply_local_function(0, 1);
    assert_eq!(
        c.read_cell(1),
        CellState {
            value: true,
            intermediate: false,
            captured: true,
            color: true,
            mem_has_0: true,
            mem_has_1: false,
        }
    );
    // The left neighbor never moves.
    assert_eq!(c.read_cell(0), boolean(true));
}

#[test]
fn rule_scanning_redundant_value_is_not_captured() {
    // Left intermediate with memory {0}, self boolean 0 and uncaptured:
    // self copies color and memory, and its 0 is redundant, so it stays
    // uncaptured.
    let mut c: Configuration = Configuration::new(0, 2);
    c.write_cell(
        0,
        CellState {
            value: false,
            intermediate: true,
            captured: true,
            color: true,
            mem_has_0: true,
            mem_has_1: false,
        },
    );
    c.write_cell(1, boolean(false));
    c.apply_local_function(0, 1);
    assert_eq!(
        c.read_cell(1),
        CellState {
            value: false,
            intermediate: true,
            captured: false,
            color: true,
            mem_has_0: true,
            mem_has_1: false,
        }
    );
}

#[test]
fn rule_meeting_complete_memory_flips_color() {
    // Same color and the left memory holds both 0 and 1: self flips its
    // color and clears its own memory, staying intermediate.
    let mut c: Configuration = Configuration::new(0, 2);
    c.write_cell(
        0,
        CellState {
            value: false,
            intermediate: true,
            captured: true,
            color: false,
            mem_has_0: true,
            mem_has_1: true,
        },
    );
    c.write_cell(
        1,
        CellState {
            value: true,
            intermediate: true,
            captured: true,
            color: false,
            mem_has_0: false,
            mem_has_1: true,
        },
    );
    c.apply_local_function(0, 1);
    assert_eq!(
        c.read_cell(1),
        CellState {
            value: true,
            intermediate: true,
            captured: true,
            color: true,
            mem_has_0: false,
            mem_has_1: false,
        }
    );
}

#[test]
fn rule_meeting_incomplete_memory_resolves() {
    // Same color, left memory {1}: self resolves to boolean 1.
    let mut c: Configuration = Configuration::new(0, 2);
    c.write_cell(
        0,
        CellState {
            value: false,
            intermediate: true,
            captured: true,
            color: false,
            mem_has_0: false,
            mem_has_1: true,
        },
    );
    c.write_cell(
        1,
        CellState {
            value: false,
            intermediate: true,
            captured: true,
            color: false,
            mem_has_0: true,
            mem_has_1: false,
        },
    );
    c.apply_local_function(0, 1);
    assert_eq!(
        c.read_cell(1),
        CellState {
            value: true,
            intermediate: false,
            captured: true,
            color: false,
            mem_has_0: true,
            mem_has_1: false,
        }
    );
}

#[test]
fn rule_meeting_empty_memory_defaults_to_zero() {
    // Same color, left memory empty: absence of evidence resolves to 0.
    let mut c: Configuration = Configuration::new(0, 2);
    c.write_cell(
        0,
        CellState {
            value: false,
            intermediate: true,
            captured: true,
            color: true,
            mem_has_0: false,
            mem_has_1: false,
        },
    );
    c.write_cell(
        1,
        CellState {
            value: true,
            intermediate: true,
            captured: true,
            color: true,
            mem_has_0: false,
            mem_has_1: true,
        },
    );
    c.apply_local_function(0, 1);
    assert_eq!(
        c.read_cell(1),
        CellState {
            value: false,
            intermediate: false,
            captured: true,
            color: true,
            mem_has_0: false,
            mem_has_1: true,
        }
    );
}

#[test]
fn rule_agreeing_booleans_do_not_move() {
    let mut c: Configuration = Configuration::new(0b11, 2);
    c.apply_local_function(0, 1);
    assert_eq!(c, Configuration::new(0b11, 2));
}
