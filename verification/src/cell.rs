//! The local transition rule: a finite-state machine over a cell's own
//! attributes and those of its left neighbor. Cell states partition into
//! Boolean (not intermediate, carrying only `value`) and Intermediate
//! (carrying `color`, `captured`, the two-slot memory set, and a provisional
//! `value`).

use vstd::prelude::*;

verus! {

/// The six per-cell attributes, unpacked.
#[derive(Clone, Copy, PartialEq, Eq, Structural, Debug)]
pub struct CellState {
    /// The cell's boolean value; while intermediate, the captured original.
    pub value: bool,
    /// Whether the cell is in the intermediate "signal" alphabet.
    pub intermediate: bool,
    /// Whether the cell's original value was stored into its memory set.
    pub captured: bool,
    /// A binary parity/phase flag, meaningful only while intermediate.
    pub color: bool,
    /// Whether the memory set contains 0, meaningful only while intermediate.
    pub mem_has_0: bool,
    /// Whether the memory set contains 1, meaningful only while intermediate.
    pub mem_has_1: bool,
}

/// The next attributes of a cell with attributes `me` whose left neighbor
/// has attributes `left`. The left neighbor is never changed.
pub open spec fn spec_transition(me: CellState, left: CellState) -> CellState {
    if !left.intermediate {
        if !me.intermediate {
            if left.value == me.value {
                // Locally uniform: no change.
                me
            } else {
                // Kick-start: capture the own value into the memory set.
                CellState {
                    intermediate: true,
                    captured: true,
                    mem_has_0: me.mem_has_0 || !me.value,
                    mem_has_1: me.mem_has_1 || me.value,
                    ..me
                }
            }
        } else {
            // A resolved value overwrites an in-flight signal.
            CellState { value: left.value, intermediate: false, ..me }
        }
    } else {
        if !me.intermediate || me.color != left.color {
            // Scanning: adopt the left's color and memory set, then capture
            // the own value unless it is already taken or redundant.
            if me.captured {
                CellState {
                    intermediate: true,
                    color: left.color,
                    mem_has_0: left.mem_has_0,
                    mem_has_1: left.mem_has_1,
                    ..me
                }
            } else if (!me.value && left.mem_has_0) || (me.value && left.mem_has_1) {
                CellState {
                    intermediate: true,
                    captured: false,
                    color: left.color,
                    mem_has_0: left.mem_has_0,
                    mem_has_1: left.mem_has_1,
                    ..me
                }
            } else {
                CellState {
                    intermediate: true,
                    captured: true,
                    color: left.color,
                    mem_has_0: left.mem_has_0 || !me.value,
                    mem_has_1: left.mem_has_1 || me.value,
                    ..me
                }
            }
        } else {
            // Meeting: both are the front of the same travelling signal.
            if left.mem_has_0 && left.mem_has_1 {
                // Completed count: flip the phase and clear the memory set.
                CellState { color: !me.color, mem_has_0: false, mem_has_1: false, ..me }
            } else {
                // Resolve to 1 if the left's memory holds 1, else to 0.
                CellState { value: left.mem_has_1, intermediate: false, ..me }
            }
        }
    }
}

/// Computes the transition table of `spec_transition`: the next attributes
/// of a cell `me` whose left neighbor is `left`.
pub fn transition(me: CellState, left: CellState) -> (r: CellState)
    ensures
        r == spec_transition(me, left),
{
    if !left.intermediate {
        if !me.intermediate {
            if left.value == me.value {
                me
            } else {
                CellState {
                    intermediate: true,
                    captured: true,
                    mem_has_0: me.mem_has_0 || !me.value,
                    mem_has_1: me.mem_has_1 || me.value,
                    ..me
                }
            }
        } else {
            CellState { value: left.value, intermediate: false, ..me }
        }
    } else {
        if !me.intermediate || me.color != left.color {
            if me.captured {
                CellState {
                    intermediate: true,
                    color: left.color,
                    mem_has_0: left.mem_has_0,
                    mem_has_1: left.mem_has_1,
                    ..me
                }
            } else if (!me.value && left.mem_has_0) || (me.value && left.mem_has_1) {
                CellState {
                    intermediate: true,
                    captured: false,
                    color: left.color,
                    mem_has_0: left.mem_has_0,
                    mem_has_1: left.mem_has_1,
                    ..me
                }
            } else {
                CellState {
                    intermediate: true,
                    captured: true,
                    color: left.color,
                    mem_has_0: left.mem_has_0 || !me.value,
                    mem_has_1: left.mem_has_1 || me.value,
                    ..me
                }
            }
        } else {
            if left.mem_has_0 && left.mem_has_1 {
                CellState { color: !me.color, mem_has_0: false, mem_has_1: false, ..me }
            } else {
                CellState { value: left.mem_has_1, intermediate: false, ..me }
            }
        }
    }
}

} // verus!
