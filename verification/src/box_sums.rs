//! Running-window sums over integer signals, the mathematical model of the
//! rolling box filters.

use vstd::prelude::*;

verus! {

/// Sum of the `count` samples of `signal` starting at `start`.
pub open spec fn window_sum(signal: spec_fn(int) -> int, start: int, count: nat) -> int
    decreases count,
{
    if count == 0 {
        0
    } else {
        window_sum(signal, start, (count - 1) as nat) + signal(start + count - 1)
    }
}

/// A box filter of width `len + 1`: each output sums the input samples of the
/// window that ends at it.
pub open spec fn box_filter(signal: spec_fn(int) -> int, len: nat) -> spec_fn(int) -> int {
    |time: int| window_sum(signal, time - len, len + 1)
}

/// The three cascaded boxes with ring lengths `len0`, `len1` and `len2`,
/// before rounding: the middle of the reciprocal divider, `half`, plus the
/// triple box sum.
pub open spec fn triple_box_sum(
    signal: spec_fn(int) -> int,
    len0: nat,
    len1: nat,
    len2: nat,
    half: int,
    time: int,
) -> int {
    half + box_filter(box_filter(box_filter(signal, len0), len1), len2)(time)
}

/// Dropping the first sample of a window.
pub proof fn lemma_window_sum_drop_first(signal: spec_fn(int) -> int, start: int, count: nat)
    ensures
        window_sum(signal, start, count + 1) == signal(start) + window_sum(
            signal,
            start + 1,
            count,
        ),
    decreases count,
{
    assert(window_sum(signal, start, count + 1) == window_sum(signal, start, count) + signal(
        start + count,
    ));
    if count > 0 {
        lemma_window_sum_drop_first(signal, start, (count - 1) as nat);
        assert(window_sum(signal, start + 1, count) == window_sum(
            signal,
            start + 1,
            (count - 1) as nat,
        ) + signal(start + count));
    } else {
        assert(window_sum(signal, start, 0) == 0);
        assert(window_sum(signal, start + 1, 0) == 0);
    }
}

/// Window sums only read the samples inside the window.
pub proof fn lemma_window_sum_ext(
    first: spec_fn(int) -> int,
    second: spec_fn(int) -> int,
    start: int,
    count: nat,
)
    requires
        forall|i: int| start <= i < start + count ==> #[trigger] first(i) == second(i),
    ensures
        window_sum(first, start, count) == window_sum(second, start, count),
    decreases count,
{
    if count > 0 {
        lemma_window_sum_ext(first, second, start, (count - 1) as nat);
        assert(first(start + count - 1) == second(start + count - 1));
    }
}

/// A window of samples in `0..=bound` sums to at most `count * bound`.
pub proof fn lemma_window_sum_bounds(
    signal: spec_fn(int) -> int,
    start: int,
    count: nat,
    bound: int,
)
    requires
        0 <= bound,
        forall|i: int| start <= i < start + count ==> 0 <= #[trigger] signal(i) <= bound,
    ensures
        0 <= window_sum(signal, start, count) <= count * bound,
    decreases count,
{
    if count > 0 {
        lemma_window_sum_bounds(signal, start, (count - 1) as nat, bound);
        assert(0 <= signal(start + count - 1) <= bound);
        assert((count - 1) * bound + bound == count * bound) by (nonlinear_arith);
    }
}

/// Box filters of signals that agree up to `time` agree up to `time`.
pub proof fn lemma_box_filter_causal(
    first: spec_fn(int) -> int,
    second: spec_fn(int) -> int,
    len: nat,
    time: int,
)
    requires
        forall|i: int| i <= time ==> #[trigger] first(i) == second(i),
    ensures
        forall|j: int| j <= time ==> #[trigger] box_filter(first, len)(j) == box_filter(
            second,
            len,
        )(j),
{
    assert forall|j: int| j <= time implies #[trigger] box_filter(first, len)(j) == box_filter(
        second,
        len,
    )(j) by {
        lemma_window_sum_ext(first, second, j - len, len + 1);
    }
}

/// Box filters of a signal bounded by `bound` stay within `(len + 1) * bound`.
pub proof fn lemma_box_filter_bounds(signal: spec_fn(int) -> int, len: nat, bound: int)
    requires
        0 <= bound,
        forall|i: int| 0 <= #[trigger] signal(i) <= bound,
    ensures
        forall|j: int| 0 <= #[trigger] box_filter(signal, len)(j) <= (len + 1) * bound,
{
    assert forall|j: int| 0 <= #[trigger] box_filter(signal, len)(j) <= (len + 1) * bound by {
        lemma_window_sum_bounds(signal, j - len, len + 1, bound);
    }
}


/// Window sums of a nonnegative signal are nonnegative.
pub proof fn lemma_window_sum_nonneg(signal: spec_fn(int) -> int, start: int, count: nat)
    requires
        forall|i: int| 0 <= #[trigger] signal(i),
    ensures
        0 <= window_sum(signal, start, count),
    decreases count,
{
    if count > 0 {
        lemma_window_sum_nonneg(signal, start, (count - 1) as nat);
        assert(0 <= signal(start + count - 1));
    }
}

/// Box filters of a nonnegative signal are nonnegative.
pub proof fn lemma_box_filter_nonneg(signal: spec_fn(int) -> int, len: nat)
    requires
        forall|i: int| 0 <= #[trigger] signal(i),
    ensures
        forall|j: int| 0 <= #[trigger] box_filter(signal, len)(j),
{
    assert forall|j: int| 0 <= #[trigger] box_filter(signal, len)(j) by {
        lemma_window_sum_nonneg(signal, j - len, len + 1);
    }
}

/// Window sums of an all-zero signal vanish.
pub proof fn lemma_window_sum_zero(signal: spec_fn(int) -> int, start: int, count: nat)
    requires
        forall|i: int| #[trigger] signal(i) == 0,
    ensures
        window_sum(signal, start, count) == 0,
    decreases count,
{
    if count > 0 {
        lemma_window_sum_zero(signal, start, (count - 1) as nat);
        assert(signal(start + count - 1) == 0);
    }
}


/// The triple box sum at `time` reads no sample after `time`.
pub proof fn lemma_triple_box_sum_causal(
    first: spec_fn(int) -> int,
    second: spec_fn(int) -> int,
    len0: nat,
    len1: nat,
    len2: nat,
    half: int,
    time: int,
)
    requires
        forall|i: int| i <= time ==> #[trigger] first(i) == second(i),
    ensures
        triple_box_sum(first, len0, len1, len2, half, time) == triple_box_sum(
            second,
            len0,
            len1,
            len2,
            half,
            time,
        ),
{
    lemma_box_filter_causal(first, second, len0, time);
    lemma_box_filter_causal(box_filter(first, len0), box_filter(second, len0), len1, time);
    lemma_box_filter_causal(
        box_filter(box_filter(first, len0), len1),
        box_filter(box_filter(second, len0), len1),
        len2,
        time,
    );
}

} // verus!
