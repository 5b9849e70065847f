//! The trace sampler: one counter shared by every visit of a run, and a
//! stride that says which visits are traced.

use vstd::arithmetic::div_mod::lemma_div_plus_one;
use vstd::arithmetic::div_mod::lemma_fundamental_div_mod;
use vstd::prelude::*;

verus! {

/// Stride with tracing switched off: no visit is ever traced.
pub const TRACE_NEVER: usize = 0;

/// Stride that traces every visit.
pub const TRACE_EVERY: usize = 1;

/// Stride that traces one visit in 16384.
pub const TRACE_SOME: usize = 16384;

/// Whether the visit made while the counter stands at `counter` is traced.
pub open spec fn is_traced(stride: nat, counter: nat) -> bool {
    counter + 1 == stride
}

/// The counter after one visit: back to zero on a traced visit, one more
/// otherwise. A counter that has reached `usize::MAX` stays there; no stride
/// is one past it, so such a visit is never traced.
pub open spec fn counter_after_visit(stride: nat, counter: nat) -> nat {
    if is_traced(stride, counter) {
        0
    } else if counter < usize::MAX {
        counter + 1
    } else {
        counter
    }
}

/// The counter after `visits` visits in a row.
pub open spec fn counter_after(stride: nat, counter: nat, visits: nat) -> nat
    decreases visits,
{
    if visits == 0 {
        counter
    } else {
        counter_after(stride, counter_after_visit(stride, counter), (visits - 1) as nat)
    }
}

/// How many of `visits` visits in a row are traced.
pub open spec fn traced_among(stride: nat, counter: nat, visits: nat) -> nat
    decreases visits,
{
    if visits == 0 {
        0
    } else {
        let first: nat = if is_traced(stride, counter) { 1 } else { 0 };
        first + traced_among(stride, counter_after_visit(stride, counter), (visits - 1) as nat)
    }
}

/// Counts one visit and says whether it is to be traced.
pub fn should_trace_this(trace_each: usize, trace_counter: &mut usize) -> (traced: bool)
    ensures
        traced == is_traced(trace_each as nat, *old(trace_counter) as nat),
        *final(trace_counter) == counter_after_visit(trace_each as nat, *old(trace_counter) as nat),
{
    if *trace_counter == usize::MAX {
        return false;
    }
    *trace_counter += 1;
    if *trace_counter == trace_each {
        *trace_counter = 0;
        true
    } else {
        false
    }
}

/// Two runs of visits, one after the other, count as one run.
pub proof fn visits_add_up(stride: nat, counter: nat, first: nat, second: nat)
    ensures
        counter_after(stride, counter, first + second) == counter_after(
            stride,
            counter_after(stride, counter, first),
            second,
        ),
        traced_among(stride, counter, first + second) == traced_among(stride, counter, first)
            + traced_among(stride, counter_after(stride, counter, first), second),
    decreases first,
{
    if first > 0 {
        visits_add_up(stride, counter_after_visit(stride, counter), (first - 1) as nat, second);
    }
}

/// With a stride `n > 0` and a counter that stands below it, `m` visits
/// trace `(counter + m) / n` of them and leave the counter at
/// `(counter + m) % n`. From a counter of zero that is every `n`th visit:
/// `m / n` in all.
pub proof fn stride_traces_every_nth(stride: nat, counter: nat, visits: nat)
    requires
        0 < stride <= usize::MAX,
        counter < stride,
    ensures
        traced_among(stride, counter, visits) == (counter + visits) / stride,
        counter_after(stride, counter, visits) == (counter + visits) % stride,
    decreases visits,
{
    let total: int = (counter + visits) as int;
    let step: int = stride as int;
    lemma_fundamental_div_mod(total, step);
    if visits == 0 {
        assert(total / step == 0 && total % step == total) by (nonlinear_arith)
            requires
                0 <= total < step,
                total == step * (total / step) + total % step,
                0 <= total % step < step,
        ;
    } else {
        let next: nat = counter_after_visit(stride, counter);
        let rest: nat = (visits - 1) as nat;
        stride_traces_every_nth(stride, next, rest);
        if is_traced(stride, counter) {
            lemma_div_plus_one(rest as int, step);
            lemma_fundamental_div_mod(rest as int, step);
            assert(total % step == rest as int % step) by (nonlinear_arith)
                requires
                    total == step + rest,
                    total / step == 1 + rest as int / step,
                    total == step * (total / step) + total % step,
                    rest as int == step * (rest as int / step) + rest as int % step,
            ;
        }
    }
}

/// With a stride of zero no visit is traced, however many are made.
pub proof fn stride_zero_traces_nothing(counter: nat, visits: nat)
    ensures
        traced_among(0, counter, visits) == 0,
    decreases visits,
{
    if visits > 0 {
        stride_zero_traces_nothing(counter_after_visit(0, counter), (visits - 1) as nat);
    }
}

} // verus!
