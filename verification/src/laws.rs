//! Laws of the automaton's driver and oracle, proved once and for all:
//! idempotence at the fixed point, the sequential order of a sweep, and the
//! oracle's sweep budget.

use vstd::prelude::*;

use crate::cell::spec_transition;
use crate::config::Configuration;
use crate::config::cell;
use crate::config::left_of;
use crate::config::lemma_with_cell_id;
use crate::config::local_step;
use crate::config::majority_value;
use crate::config::is_tie;
use crate::config::oracle_from;
use crate::config::spec_converged;
use crate::config::spec_is_correct;
use crate::config::sweep;
use crate::config::sweep_prefix;
use crate::config::sweeps;
use crate::config::wf;

verus! {

/// On a converged configuration the local rule moves no cell: both the cell
/// and its left neighbor are boolean and carry the same value.
proof fn lemma_converged_local_step(c: Configuration, left: u32, index: u32)
    requires
        wf(c),
        spec_converged(c),
        left < c.size,
        index < c.size,
    ensures
        local_step(c, left, index) == c,
{
    let l = cell(c, left);
    let me = cell(c, index);
    assert(!l.intermediate && !me.intermediate);
    assert(l.value == me.value);
    assert(spec_transition(me, l) == me);
    lemma_with_cell_id(c, index);
}

proof fn lemma_converged_sweep_prefix(c: Configuration, n: int)
    requires
        wf(c),
        spec_converged(c),
        0 <= n <= c.size,
    ensures
        sweep_prefix(c, n) == c,
    decreases n,
{
    if n > 0 {
        lemma_converged_sweep_prefix(c, n - 1);
        lemma_converged_local_step(c, left_of(c.size, (n - 1) as u32), (n - 1) as u32);
    }
}

/// Idempotence at the fixed point: once a configuration has converged, a
/// further sweep leaves it observably unchanged.
pub proof fn lemma_converged_sweep_identity(c: Configuration)
    requires
        wf(c),
        spec_converged(c),
    ensures
        sweep(c) == c,
{
    lemma_converged_sweep_prefix(c, c.size as int);
}

/// Idempotence extends to any number of further sweeps: a converged
/// configuration never moves again.
pub proof fn lemma_converged_sweeps_identity(c: Configuration, t: nat)
    requires
        wf(c),
        spec_converged(c),
    ensures
        sweeps(c, t) == c,
    decreases t,
{
    if t > 0 {
        lemma_converged_sweeps_identity(c, (t - 1) as nat);
        lemma_converged_sweep_identity(c);
    }
}

/// Ring boundary order within one sweep: cell 0 steps first and reads cell
/// `size - 1` from the state the sweep started with, while every later cell
/// `k` reads cell `k - 1` from the state already updated by this sweep's
/// earlier steps.
pub proof fn lemma_sweep_order(c: Configuration)
    requires
        1 <= c.size,
    ensures
        sweep(c) == sweep_prefix(c, c.size as int),
        sweep_prefix(c, 1) == local_step(c, (c.size - 1) as u32, 0),
        forall|k: u32|
            1 <= k < c.size ==> sweep_prefix(c, k as int + 1) == local_step(
                #[trigger] sweep_prefix(c, k as int),
                (k - 1) as u32,
                k,
            ),
{
    assert(sweep_prefix(c, 0) == c);
    assert(sweep_prefix(c, 1) == local_step(c, (c.size - 1) as u32, 0));
    assert forall|k: u32|
        1 <= k < c.size implies sweep_prefix(c, k as int + 1) == local_step(
        #[trigger] sweep_prefix(c, k as int),
        (k - 1) as u32,
        k,
    ) by {
        assert(sweep_prefix(c, k as int + 1) == local_step(
            sweep_prefix(c, k as int),
            left_of(c.size, k),
            k,
        ));
    }
}

/// Sweeping once and then `t` times is sweeping `t + 1` times.
proof fn lemma_sweeps_shift(c: Configuration, t: nat)
    ensures
        sweeps(sweep(c), t) == sweeps(c, t + 1),
    decreases t,
{
    if t == 0 {
        assert(sweeps(sweep(c), 0) == sweep(c));
        assert(sweeps(c, 1) == sweep(sweeps(c, 0)));
    } else {
        lemma_sweeps_shift(c, (t - 1) as nat);
        assert(sweeps(sweep(c), t) == sweep(sweeps(sweep(c), (t - 1) as nat)));
        assert(sweeps(c, t + 1) == sweep(sweeps(c, t)));
    }
}

/// An oracle run whose whole fuel range never converges reports failure.
proof fn lemma_oracle_no_convergence(c: Configuration, fuel: nat, majority: bool)
    requires
        forall|t: nat| t <= fuel ==> !spec_converged(#[trigger] sweeps(c, t)),
    ensures
        !oracle_from(c, fuel, majority),
    decreases fuel,
{
    assert(sweeps(c, 0) == c);
    if fuel > 0 {
        assert forall|t: nat| t <= (fuel - 1) as nat implies !spec_converged(
            #[trigger] sweeps(sweep(c), t),
        ) by {
            lemma_sweeps_shift(c, t);
        }
        lemma_oracle_no_convergence(sweep(c), (fuel - 1) as nat, majority);
    }
}

/// The oracle's sweep budget: a configuration with a strict majority that
/// fails to converge within `size + 1` sweeps is flagged as a rule failure;
/// the cutoff never passes as non-termination or success.
pub proof fn lemma_oracle_budget(c: Configuration)
    requires
        !is_tie(c),
        forall|t: nat| t <= c.size + 1 ==> !spec_converged(#[trigger] sweeps(c, t)),
    ensures
        !spec_is_correct(c),
{
    lemma_oracle_no_convergence(c, (c.size + 1) as nat, majority_value(c));
}

/// Within the budget, the verdict is exactly the settled value's agreement
/// with the expected majority: if the configuration first converges after
/// `t0` sweeps and the fuel reaches that far, the oracle compares the then
/// uniform value against `majority`.
pub proof fn lemma_oracle_first_convergence(c: Configuration, fuel: nat, majority: bool, t0: nat)
    requires
        t0 <= fuel,
        spec_converged(sweeps(c, t0)),
        forall|t: nat| t < t0 ==> !spec_converged(#[trigger] sweeps(c, t)),
    ensures
        oracle_from(c, fuel, majority) == (cell(sweeps(c, t0), 0).value == majority),
    decreases t0,
{
    assert(sweeps(c, 0) == c);
    if t0 == 0 {
        assert(spec_converged(c));
    } else {
        assert(!spec_converged(c));
        assert forall|t: nat| t < (t0 - 1) as nat implies !spec_converged(
            #[trigger] sweeps(sweep(c), t),
        ) by {
            lemma_sweeps_shift(c, t);
        }
        lemma_sweeps_shift(c, (t0 - 1) as nat);
        lemma_oracle_first_convergence(sweep(c), (fuel - 1) as nat, majority, (t0 - 1) as nat);
    }
}

} // verus!
