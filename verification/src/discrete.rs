//! Bounded integer Gaussian approximation used by Skia's RGBA8 blur path.
//!
//! A Gaussian is approximated by three box filters evaluated as one rolling
//! pass: three cascaded running sums over ring buffers, scaled back to a byte
//! by a fixed-point reciprocal.

use vstd::prelude::*;
use crate::box_sums::{
    box_filter, lemma_box_filter_causal, lemma_box_filter_nonneg, lemma_window_sum_drop_first,
    lemma_box_filter_bounds, lemma_triple_box_sum_causal, lemma_window_sum_bounds,
    lemma_window_sum_ext, lemma_window_sum_nonneg, lemma_window_sum_zero, triple_box_sum, window_sum,
};
use crate::raster::{RgbaRaster, lemma_pixel_number, lemma_pixel_number_injective, rgba_offset};

verus! {

/// `2^32`, the fixed-point scale of the reciprocal divider.
pub open spec fn two_pow_32() -> int {
    0x1_0000_0000
}

/// The reciprocal `2^32 / divisor`, rounded to the nearest integer.
///
/// The quotient is never exactly halfway between two integers for divisors in
/// `u32` range, so rounding half up and half away from zero agree.
pub open spec fn rounded_reciprocal(divisor: int) -> int {
    (2 * two_pow_32() + divisor) / (2 * divisor)
}

/// Skia's reciprocal divider for a bounded `u32` Gaussian accumulator.
#[derive(Clone, Copy, Debug, PartialEq, Eq)]
pub struct ScaledDividerU32 {
    pub factor: u32,
    pub half: u32,
}

impl ScaledDividerU32 {
    /// The divider was built for `divisor`.
    pub open spec fn divides_by(self, divisor: int) -> bool {
        &&& self.factor == rounded_reciprocal(divisor)
        &&& self.half == (divisor + 1) / 2
    }

    /// What `divide` computes for `numerator`: the product with the factor,
    /// shifted down by 32 bits.
    pub open spec fn scaled(self, numerator: int) -> int {
        (numerator * self.factor) / two_pow_32()
    }

    /// Divider for `divisor`, or `None` when the divisor is 0 or 1 or its
    /// rounding half does not fit in `u32`.
    pub fn new(divisor: u32) -> (result: Option<Self>)
        ensures
            result is Some <==> 1 < divisor && divisor < u32::MAX,
            result matches Some(divider) ==> divider.divides_by(divisor as int),
    {
        if divisor <= 1 {
            return None;
        }
        let wide: u64 = divisor as u64;
        let factor: u64 = (0x2_0000_0000u64 + wide) / (2 * wide);
        proof {
            assert(1 <= factor && factor <= 0x8000_0000u64) by (nonlinear_arith)
                requires
                    factor == (0x2_0000_0000u64 + wide) / (2 * wide),
                    2 <= wide <= 0xffff_ffffu64,
            ;
        }
        if factor < 1 || factor > u32::MAX as u64 {
            return None;
        }
        let plus_one = match divisor.checked_add(1) {
            Some(value) => value,
            None => return None,
        };
        Some(ScaledDividerU32 { factor: factor as u32, half: plus_one / 2 })
    }

    /// Scale `numerator` by the reciprocal; `None` when the quotient does
    /// not fit in a byte.
    pub fn divide(self, numerator: u32) -> (result: Option<u8>)
        ensures
            result is Some <==> self.scaled(numerator as int) <= 255,
            result matches Some(value) ==> value == self.scaled(numerator as int),
    {
        let wide_numerator: u64 = numerator as u64;
        let wide_factor: u64 = self.factor as u64;
        proof {
            assert(wide_numerator * wide_factor <= 0xffff_ffff_ffff_ffffu64) by (nonlinear_arith)
                requires
                    wide_numerator <= 0xffff_ffffu64,
                    wide_factor <= 0xffff_ffffu64,
            ;
        }
        let product: u64 = wide_numerator * wide_factor;
        let scaled: u64 = product >> 32;
        proof {
            assert(product >> 32 == product / 0x1_0000_0000u64) by (bit_vector);
        }
        if scaled <= 255 {
            Some(scaled as u8)
        } else {
            None
        }
    }
}


/// Box width (in samples) of the first two passes of a plan.
pub open spec fn plan_is_even(window: int) -> bool {
    window % 2 == 0
}

/// Skia's border: how many leading samples precede the first output sample.
pub open spec fn plan_border(window: int) -> int {
    if plan_is_even(window) {
        window * 3 / 2 - 1
    } else {
        (window - 1) * 3 / 2
    }
}

/// Ring length of the third pass; an even window uses a wider final box.
pub open spec fn plan_third_len(window: int) -> int {
    if plan_is_even(window) {
        window
    } else {
        window - 1
    }
}

/// Total weight of the three boxes: `window * window * (third box width)`.
pub open spec fn plan_divisor(window: int) -> int {
    window * window * window + if plan_is_even(window) {
        window * window
    } else {
        0
    }
}

/// A three-box Gaussian plan evaluated as one rolling pass.
///
/// Skia uses a wider final box when `window` is even. Keeping the buffer and
/// border geometry in the plan makes that centring rule part of the type.
#[derive(Clone, Copy, Debug, PartialEq, Eq)]
pub struct DiscreteGaussianPlan {
    pub window: u32,
    pub border: u32,
    pub third_buffer_len: u32,
    pub divider: ScaledDividerU32,
}

impl DiscreteGaussianPlan {
    /// Every field follows from one window width between 2 and 254.
    pub open spec fn wf(self) -> bool {
        &&& 2 <= self.window <= 254
        &&& self.border == plan_border(self.window as int)
        &&& self.third_buffer_len == plan_third_len(self.window as int)
        &&& self.divider.divides_by(plan_divisor(self.window as int))
    }

    /// Plan for a box window already derived from the blur's sigma; `None`
    /// outside the bounded `2..255` window range.
    pub fn from_window(window: u32) -> (result: Option<Self>)
        ensures
            result is Some <==> 2 <= window <= 254,
            result matches Some(plan) ==> plan.wf() && plan.window == window,
    {
        if window < 2 || window > 254 {
            return None;
        }
        let pass_len = window.checked_sub(1)?;
        let even = window % 2 == 0;
        proof {
            assert(window * 3 <= 762);
            assert(pass_len * 3 <= 762);
        }
        let border = if even {
            window.checked_mul(3)?.checked_div(2)?.checked_sub(1)?
        } else {
            pass_len.checked_mul(3)?.checked_div(2)?
        };
        proof {
            assert(window * window <= 254 * 254) by (nonlinear_arith)
                requires
                    2 <= window <= 254,
            ;
            assert(window * window * window <= 254 * 254 * 254) by (nonlinear_arith)
                requires
                    2 <= window <= 254,
            ;
        }
        let window_squared = window.checked_mul(window)?;
        let divisor = window_squared.checked_mul(window)?.checked_add(
            if even {
                window_squared
            } else {
                0
            },
        )?;
        let third_buffer_len = pass_len + if even {
            1
        } else {
            0
        };
        proof {
            assert(window * window * window >= 8) by (nonlinear_arith)
                requires
                    2 <= window,
            ;
        }
        let divider = ScaledDividerU32::new(divisor)?;
        Some(DiscreteGaussianPlan { window, border, third_buffer_len, divider })
    }

    /// Widths of the three boxes.
    pub fn pass_widths(self) -> (result: [u32; 3])
        ensures
            result[0] == self.window,
            result[1] == self.window,
            result[2] == if self.third_buffer_len == u32::MAX {
                u32::MAX as int
            } else {
                self.third_buffer_len + 1
            },
    {
        let third = if self.third_buffer_len == u32::MAX {
            u32::MAX
        } else {
            self.third_buffer_len + 1
        };
        [self.window, self.window, third]
    }

    /// Farthest destination sample reached by the finite three-box kernel.
    ///
    /// This is a raster support radius, not a conservative CSS paint
    /// overflow. Callers rasterizing antialiased vector coverage must
    /// additionally retain the one-pixel source fringe.
    pub fn support_radius(self) -> (result: u32)
        ensures
            result == self.border,
    {
        self.border
    }

    /// Ring length of the first two passes.
    pub fn pass_buffer_len(self) -> (result: Option<usize>)
        ensures
            result is Some <==> self.window >= 1,
            result matches Some(len) ==> len == self.window - 1,
    {
        let len = self.window.checked_sub(1)?;
        Some(len as usize)
    }

    /// Ring length of the third pass.
    pub fn third_buffer_len(self) -> (result: Option<usize>)
        ensures
            result == Some(self.third_buffer_len as usize),
    {
        Some(self.third_buffer_len as usize)
    }
}


/// One premultiplied RGBA sample widened for accumulation.
pub type BlurPixel = [u32; 4];

/// The transparent sample.
pub open spec fn transparent_sample() -> BlurPixel {
    [0u32, 0, 0, 0]
}

/// One channel of a pushed pixel history; zero outside the history.
pub open spec fn channel_signal(history: Seq<BlurPixel>, channel: int) -> spec_fn(int) -> int {
    |i: int|
        if 0 <= i < history.len() {
            history[i][channel] as int
        } else {
            0
        }
}

/// First cascade level of a history: the raw samples, by channel and time.
pub open spec fn level0(history: Seq<BlurPixel>) -> spec_fn(int, int) -> int {
    |channel: int, time: int| channel_signal(history, channel)(time)
}

/// Second cascade level: the first box over the samples.
pub open spec fn level1(history: Seq<BlurPixel>, len0: nat) -> spec_fn(int, int) -> int {
    |channel: int, time: int| box_filter(channel_signal(history, channel), len0)(time)
}

/// Third cascade level: the second box over the first.
pub open spec fn level2(history: Seq<BlurPixel>, len0: nat, len1: nat) -> spec_fn(
    int,
    int,
) -> int {
    |channel: int, time: int|
        box_filter(box_filter(channel_signal(history, channel), len0), len1)(time)
}

/// The time of the sample held in `slot` of a ring whose oldest entry sits at
/// `cursor`, when `now` samples have been pushed.
pub open spec fn slot_time(slot: int, cursor: int, len: int, now: int) -> int {
    if slot >= cursor {
        now - len + slot - cursor
    } else {
        now - cursor + slot
    }
}

/// The ring holds the last `buffer.len()` values of `level`, oldest at
/// `cursor`.
pub open spec fn ring_holds(
    buffer: Seq<BlurPixel>,
    cursor: int,
    now: int,
    level: spec_fn(int, int) -> int,
) -> bool {
    forall|slot: int, channel: int|
        0 <= slot < buffer.len() && 0 <= channel < 4 ==> #[trigger] buffer[slot][channel] as int
            == level(channel, slot_time(slot, cursor, buffer.len() as int, now))
}

/// The cursor after replacing the entry it points at.
pub open spec fn next_cursor(cursor: int, len: int) -> int {
    if cursor + 1 == len {
        0
    } else {
        cursor + 1
    }
}

/// Replacing the oldest ring entry with the newest value of a level keeps
/// the ring in step, and hands out the value that left the window.
pub proof fn lemma_ring_advance(
    buffer: Seq<BlurPixel>,
    cursor: int,
    now: int,
    level: spec_fn(int, int) -> int,
    next_level: spec_fn(int, int) -> int,
    value: BlurPixel,
)
    requires
        0 <= cursor < buffer.len(),
        ring_holds(buffer, cursor, now, level),
        forall|channel: int, time: int|
            0 <= channel < 4 && time < now ==> #[trigger] next_level(channel, time) == level(
                channel,
                time,
            ),
        forall|channel: int| 0 <= channel < 4 ==> value[channel] as int == next_level(channel, now),
    ensures
        ring_holds(
            buffer.update(cursor, value),
            next_cursor(cursor, buffer.len() as int),
            now + 1,
            next_level,
        ),
        forall|channel: int|
            0 <= channel < 4 ==> buffer[cursor][channel] as int == level(
                channel,
                now - buffer.len(),
            ),
{
    let len = buffer.len() as int;
    let updated = buffer.update(cursor, value);
    let cursor2 = next_cursor(cursor, len);
    assert forall|slot: int, channel: int|
        0 <= slot < updated.len() && 0 <= channel < 4 implies #[trigger] updated[slot][channel]
        as int == next_level(channel, slot_time(slot, cursor2, len, now + 1)) by {
        if slot == cursor {
            assert(slot_time(slot, cursor2, len, now + 1) == now);
        } else {
            assert(slot_time(slot, cursor2, len, now + 1) == slot_time(slot, cursor, len, now));
            assert(buffer[slot][channel] as int == level(channel, slot_time(slot, cursor, len, now)));
            assert(slot_time(slot, cursor, len, now) < now);
        }
    }
    assert forall|channel: int| 0 <= channel < 4 implies buffer[cursor][channel] as int == level(
        channel,
        now - len,
    ) by {
        assert(buffer[cursor][channel] as int == level(channel, slot_time(cursor, cursor, len, now)));
    }
}

/// Move the ring one step: return the entry at `cursor`, store
/// `replacement` there and advance the cursor, wrapping at the end.
pub fn cycle_buffer(
    buffer: &mut Vec<BlurPixel>,
    cursor: &mut usize,
    replacement: BlurPixel,
) -> (result: Option<BlurPixel>)
    ensures
        result is Some <==> *old(cursor) < old(buffer).len(),
        *old(cursor) < old(buffer).len() ==> {
            &&& result == Some(old(buffer)@[*old(cursor) as int])
            &&& final(buffer)@ == old(buffer)@.update(*old(cursor) as int, replacement)
            &&& *final(cursor) == next_cursor(*old(cursor) as int, old(buffer).len() as int)
        },
        *old(cursor) >= old(buffer).len() ==> final(buffer)@ == old(buffer)@ && *final(cursor)
            == *old(cursor),
{
    if *cursor >= buffer.len() {
        return None;
    }
    let previous = buffer[*cursor];
    buffer.set(*cursor, replacement);
    *cursor = *cursor + 1;
    if *cursor == buffer.len() {
        *cursor = 0;
    }
    Some(previous)
}

/// Channel-wise sum, `None` when a channel overflows.
pub fn add_pixel(first: BlurPixel, second: BlurPixel) -> (result: Option<BlurPixel>)
    ensures
        result is Some <==> forall|c: int| 0 <= c < 4 ==> first[c] + second[c] <= u32::MAX,
        result matches Some(sum) ==> forall|c: int| 0 <= c < 4 ==> sum[c] == first[c] + second[c],
{
    let red = first[0].checked_add(second[0])?;
    let green = first[1].checked_add(second[1])?;
    let blue = first[2].checked_add(second[2])?;
    let alpha = first[3].checked_add(second[3])?;
    Some([red, green, blue, alpha])
}

/// Channel-wise difference, `None` when a channel would go negative.
pub fn sub_pixel(first: BlurPixel, second: BlurPixel) -> (result: Option<BlurPixel>)
    ensures
        result is Some <==> forall|c: int| 0 <= c < 4 ==> second[c] <= first[c],
        result matches Some(diff) ==> forall|c: int| 0 <= c < 4 ==> diff[c] == first[c] - second[c],
{
    let red = first[0].checked_sub(second[0])?;
    let green = first[1].checked_sub(second[1])?;
    let blue = first[2].checked_sub(second[2])?;
    let alpha = first[3].checked_sub(second[3])?;
    Some([red, green, blue, alpha])
}

/// Three cascaded running box sums over one image line.
pub struct GaussianLinePass {
    pub buffer0: Vec<BlurPixel>,
    pub buffer1: Vec<BlurPixel>,
    pub buffer2: Vec<BlurPixel>,
    pub cursor0: usize,
    pub cursor1: usize,
    pub cursor2: usize,
    pub sum0: BlurPixel,
    pub sum1: BlurPixel,
    pub sum2: BlurPixel,
    pub divider: ScaledDividerU32,
    /// The samples pushed since the last reset.
    pub history: Ghost<Seq<BlurPixel>>,
}

impl GaussianLinePass {
    pub open spec fn len0(self) -> nat {
        self.buffer0.len() as nat
    }

    pub open spec fn len1(self) -> nat {
        self.buffer1.len() as nat
    }

    pub open spec fn len2(self) -> nat {
        self.buffer2.len() as nat
    }

    /// The running sums and rings agree with the pushed history.
    pub open spec fn wf(self) -> bool {
        let history = self.history@;
        let now = history.len() as int;
        &&& self.len0() > 0 && self.len1() > 0 && self.len2() > 0
        &&& self.cursor0 < self.len0() && self.cursor1 < self.len1() && self.cursor2 < self.len2()
        &&& forall|c: int|
            0 <= c < 4 ==> #[trigger] self.sum0[c] as int == window_sum(
                channel_signal(history, c),
                now - self.len0(),
                self.len0(),
            )
        &&& forall|c: int|
            0 <= c < 4 ==> #[trigger] self.sum1[c] as int == window_sum(
                box_filter(channel_signal(history, c), self.len0()),
                now - self.len1(),
                self.len1(),
            )
        &&& forall|c: int|
            0 <= c < 4 ==> #[trigger] self.sum2[c] as int == self.divider.half + window_sum(
                box_filter(box_filter(channel_signal(history, c), self.len0()), self.len1()),
                now - self.len2(),
                self.len2(),
            )
        &&& ring_holds(self.buffer0@, self.cursor0 as int, now, level0(history))
        &&& ring_holds(self.buffer1@, self.cursor1 as int, now, level1(history, self.len0()))
        &&& ring_holds(
            self.buffer2@,
            self.cursor2 as int,
            now,
            level2(history, self.len0(), self.len1()),
        )
    }

    /// The state of a pass before its first sample: no history, every ring
    /// cell transparent, cursors at the start, running sums zero except the
    /// rounding half of the last one.
    pub open spec fn is_cleared(self) -> bool {
        &&& self.history@ == Seq::<BlurPixel>::empty()
        &&& self.cursor0 == 0 && self.cursor1 == 0 && self.cursor2 == 0
        &&& forall|i: int| 0 <= i < self.len0() ==> #[trigger] self.buffer0@[i] == [0u32, 0, 0, 0]
        &&& forall|i: int| 0 <= i < self.len1() ==> #[trigger] self.buffer1@[i] == [0u32, 0, 0, 0]
        &&& forall|i: int| 0 <= i < self.len2() ==> #[trigger] self.buffer2@[i] == [0u32, 0, 0, 0]
        &&& self.sum0 == [0u32, 0, 0, 0]
        &&& self.sum1 == [0u32, 0, 0, 0]
        &&& self.sum2 == [self.divider.half, self.divider.half, self.divider.half, self.divider.half]
    }

    /// Every field of the two passes holds the same value.
    pub open spec fn same_state(self, other: Self) -> bool {
        &&& self.buffer0@ == other.buffer0@
        &&& self.buffer1@ == other.buffer1@
        &&& self.buffer2@ == other.buffer2@
        &&& self.cursor0 == other.cursor0 && self.cursor1 == other.cursor1 && self.cursor2
            == other.cursor2
        &&& self.sum0 == other.sum0 && self.sum1 == other.sum1 && self.sum2 == other.sum2
        &&& self.divider == other.divider
        &&& self.history@ == other.history@
    }

    /// Same ring lengths and divider.
    pub open spec fn same_shape(self, other: Self) -> bool {
        &&& self.len0() == other.len0()
        &&& self.len1() == other.len1()
        &&& self.len2() == other.len2()
        &&& self.divider == other.divider
    }

    /// The accumulator, before rounding, for `leading` pushed next.
    pub open spec fn pushed_sum(self, leading: BlurPixel, channel: int) -> int {
        triple_box_sum(
            channel_signal(self.history@.push(leading), channel),
            self.len0(),
            self.len1(),
            self.len2(),
            self.divider.half as int,
            self.history@.len() as int,
        )
    }

    /// Pushing `leading` overflows a `u32` running sum of `channel`, or the
    /// rounded result does not fit in a byte.
    pub open spec fn step_fails(self, leading: BlurPixel, channel: int) -> bool {
        let signal = channel_signal(self.history@.push(leading), channel);
        let now = self.history@.len() as int;
        ||| box_filter(signal, self.len0())(now) > u32::MAX
        ||| box_filter(box_filter(signal, self.len0()), self.len1())(now) > u32::MAX
        ||| self.pushed_sum(leading, channel) > u32::MAX
        ||| self.divider.scaled(self.pushed_sum(leading, channel)) > 255
    }

    /// Pushing one sample extends every level and keeps the earlier values.
    proof fn lemma_push(self, leading: BlurPixel, channel: int)
        requires
            self.wf(),
            0 <= channel < 4,
        ensures
            ({
                let history = self.history@;
                let next = history.push(leading);
                let now = history.len() as int;
                let signal = channel_signal(next, channel);
                let first = box_filter(signal, self.len0());
                let second = box_filter(first, self.len1());
                &&& first(now) == self.sum0[channel] + leading[channel]
                &&& second(now) == self.sum1[channel] + first(now)
                &&& self.pushed_sum(leading, channel) == self.sum2[channel] + second(now)
                &&& forall|time: int|
                    time < now ==> #[trigger] level0(next)(channel, time) == level0(history)(
                        channel,
                        time,
                    )
                &&& forall|time: int|
                    time < now ==> #[trigger] level1(next, self.len0())(channel, time) == level1(
                        history,
                        self.len0(),
                    )(channel, time)
                &&& forall|time: int|
                    time < now ==> #[trigger] level2(next, self.len0(), self.len1())(
                        channel,
                        time,
                    ) == level2(history, self.len0(), self.len1())(channel, time)
            }),
    {
        let history = self.history@;
        let next = history.push(leading);
        let now = history.len() as int;
        let old_signal = channel_signal(history, channel);
        let signal = channel_signal(next, channel);
        let (l0, l1, l2) = (self.len0(), self.len1(), self.len2());
        assert forall|i: int| i <= now - 1 implies #[trigger] signal(i) == old_signal(i) by {}
        lemma_box_filter_causal(signal, old_signal, l0, now - 1);
        let first = box_filter(signal, l0);
        let old_first = box_filter(old_signal, l0);
        lemma_box_filter_causal(first, old_first, l1, now - 1);
        let second = box_filter(first, l1);
        let old_second = box_filter(old_first, l1);
        lemma_window_sum_ext(signal, old_signal, now - l0, l0);
        assert(signal(now) == leading[channel]);
        assert(first(now) == window_sum(signal, now - l0, l0) + signal(now));
        lemma_window_sum_ext(first, old_first, now - l1, l1);
        assert(second(now) == window_sum(first, now - l1, l1) + first(now));
        lemma_window_sum_ext(second, old_second, now - l2, l2);
        assert(box_filter(second, l2)(now) == window_sum(second, now - l2, l2) + second(now));
        assert forall|time: int| time < now implies #[trigger] level0(next)(channel, time) == level0(
            history,
        )(channel, time) by {}
        assert forall|time: int| time < now implies #[trigger] level1(next, l0)(channel, time)
            == level1(history, l0)(channel, time) by {
            assert(first(time) == old_first(time));
        }
        assert forall|time: int| time < now implies #[trigger] level2(next, l0, l1)(channel, time)
            == level2(history, l0, l1)(channel, time) by {
            assert(second(time) == old_second(time));
        }
    }

    /// Push the next leading sample and return the blurred sample whose
    /// window it completes.
    pub fn advance(&mut self, leading: BlurPixel) -> (result: Option<[u8; 4]>)
        requires
            old(self).wf(),
        ensures
            result is None <==> exists|c: int|
                0 <= c < 4 && #[trigger] old(self).step_fails(leading, c),
            result matches Some(blurred) ==> {
                &&& final(self).wf()
                &&& final(self).history@ == old(self).history@.push(leading)
                &&& final(self).same_shape(*old(self))
                &&& forall|c: int|
                    0 <= c < 4 ==> blurred[c] as int == old(self).divider.scaled(
                        #[trigger] old(self).pushed_sum(leading, c),
                    )
            },
    {
        let ghost history = self.history@;
        let ghost next = history.push(leading);
        let ghost now = history.len() as int;
        let ghost (l0, l1, l2) = (self.len0(), self.len1(), self.len2());
        proof {
            assert forall|c: int| #![trigger self.sum0[c]] 0 <= c < 4 implies {
                let first = box_filter(channel_signal(next, c), l0);
                let second = box_filter(first, l1);
                &&& first(now) == self.sum0[c] + leading[c]
                &&& second(now) == self.sum1[c] + first(now)
                &&& self.pushed_sum(leading, c) == self.sum2[c] + second(now)
            } by {
                self.lemma_push(leading, c);
            }
        }
        let sum0 = match add_pixel(self.sum0, leading) {
            Some(sum) => sum,
            None => {
                let ghost w = choose|c: int| 0 <= c < 4 && self.sum0[c] + leading[c] > u32::MAX;
                assert(self.step_fails(leading, w));
                return None;
            },
        };
        let sum1 = match add_pixel(self.sum1, sum0) {
            Some(sum) => sum,
            None => {
                let ghost w = choose|c: int| 0 <= c < 4 && self.sum1[c] + sum0[c] > u32::MAX;
                assert(self.step_fails(leading, w));
                return None;
            },
        };
        let sum2 = match add_pixel(self.sum2, sum1) {
            Some(sum) => sum,
            None => {
                let ghost w = choose|c: int| 0 <= c < 4 && self.sum2[c] + sum1[c] > u32::MAX;
                assert(self.step_fails(leading, w));
                return None;
            },
        };
        proof {
            assert forall|c: int| 0 <= c < 4 implies #[trigger] sum2[c] as int == self.pushed_sum(
                leading,
                c,
            ) by {
                assert(self.sum0[c] + leading[c] == sum0[c]);
            }
        }
        let red = match self.divider.divide(sum2[0]) {
            Some(value) => value,
            None => {
                assert(self.step_fails(leading, 0));
                return None;
            },
        };
        let green = match self.divider.divide(sum2[1]) {
            Some(value) => value,
            None => {
                assert(self.step_fails(leading, 1));
                return None;
            },
        };
        let blue = match self.divider.divide(sum2[2]) {
            Some(value) => value,
            None => {
                assert(self.step_fails(leading, 2));
                return None;
            },
        };
        let alpha = match self.divider.divide(sum2[3]) {
            Some(value) => value,
            None => {
                assert(self.step_fails(leading, 3));
                return None;
            },
        };
        let blurred: [u8; 4] = [red, green, blue, alpha];
        proof {
            assert forall|c: int| 0 <= c < 4 implies !#[trigger] self.step_fails(leading, c) by {}
            assert forall|c: int, time: int| 0 <= c < 4 && time < now implies #[trigger] level2(
                next,
                l0,
                l1,
            )(c, time) == level2(history, l0, l1)(c, time) by {
                self.lemma_push(leading, c);
            }
            assert forall|c: int, time: int| 0 <= c < 4 && time < now implies #[trigger] level1(
                next,
                l0,
            )(c, time) == level1(history, l0)(c, time) by {
                self.lemma_push(leading, c);
            }
            assert forall|c: int| 0 <= c < 4 implies {
                &&& #[trigger] sum1[c] as int == level2(next, l0, l1)(c, now)
                &&& sum0[c] as int == level1(next, l0)(c, now)
                &&& leading[c] as int == level0(next)(c, now)
            } by {
                self.lemma_push(leading, c);
            }
            lemma_ring_advance(
                self.buffer2@,
                self.cursor2 as int,
                now,
                level2(history, l0, l1),
                level2(next, l0, l1),
                sum1,
            );
            lemma_ring_advance(
                self.buffer1@,
                self.cursor1 as int,
                now,
                level1(history, l0),
                level1(next, l0),
                sum0,
            );
            lemma_ring_advance(
                self.buffer0@,
                self.cursor0 as int,
                now,
                level0(history),
                level0(next),
                leading,
            );
        }
        let ghost old_buffer2 = self.buffer2@;
        let ghost old_cursor2 = self.cursor2 as int;
        let ghost old_buffer1 = self.buffer1@;
        let ghost old_cursor1 = self.cursor1 as int;
        let ghost old_buffer0 = self.buffer0@;
        let ghost old_cursor0 = self.cursor0 as int;
        let trailing2 = match cycle_buffer(&mut self.buffer2, &mut self.cursor2, sum1) {
            Some(value) => value,
            None => return None,
        };
        let trailing1 = match cycle_buffer(&mut self.buffer1, &mut self.cursor1, sum0) {
            Some(value) => value,
            None => return None,
        };
        let trailing0 = match cycle_buffer(&mut self.buffer0, &mut self.cursor0, leading) {
            Some(value) => value,
            None => return None,
        };
        proof {
            assert forall|c: int| #![trigger sum0[c]] 0 <= c < 4 implies {
                let signal = channel_signal(next, c);
                let first = box_filter(signal, l0);
                let second = box_filter(first, l1);
                &&& trailing0[c] == signal(now - l0)
                &&& trailing1[c] == first(now - l1)
                &&& trailing2[c] == second(now - l2)
                &&& sum0[c] == window_sum(signal, now - l0, l0 + 1)
                &&& sum1[c] == window_sum(first, now - l1, l1 + 1)
                &&& sum2[c] == self.divider.half + window_sum(second, now - l2, l2 + 1)
                &&& signal(now - l0) <= sum0[c]
                &&& first(now - l1) <= sum1[c]
                &&& second(now - l2) <= sum2[c]
                &&& sum0[c] - signal(now - l0) == window_sum(signal, now + 1 - l0, l0)
                &&& sum1[c] - first(now - l1) == window_sum(first, now + 1 - l1, l1)
                &&& sum2[c] - second(now - l2) == self.divider.half + window_sum(
                    second,
                    now + 1 - l2,
                    l2,
                )
            } by {
                let signal = channel_signal(next, c);
                let first = box_filter(signal, l0);
                let second = box_filter(first, l1);
                old(self).lemma_push(leading, c);
                assert(level0(history)(c, now - l0) == level0(next)(c, now - l0));
                assert(level1(history, l0)(c, now - l1) == level1(next, l0)(c, now - l1));
                assert(level2(history, l0, l1)(c, now - l2) == level2(next, l0, l1)(c, now - l2));
                assert(forall|i: int| 0 <= #[trigger] signal(i));
                lemma_box_filter_nonneg(signal, l0);
                lemma_box_filter_nonneg(first, l1);
                lemma_window_sum_drop_first(signal, now - l0, l0);
                lemma_window_sum_drop_first(first, now - l1, l1);
                lemma_window_sum_drop_first(second, now - l2, l2);
                lemma_window_sum_nonneg(signal, now + 1 - l0, l0);
                lemma_window_sum_nonneg(first, now + 1 - l1, l1);
                lemma_window_sum_nonneg(second, now + 1 - l2, l2);
            }
        }
        let next_sum2 = match sub_pixel(sum2, trailing2) {
            Some(value) => value,
            None => return None,
        };
        let next_sum1 = match sub_pixel(sum1, trailing1) {
            Some(value) => value,
            None => return None,
        };
        let next_sum0 = match sub_pixel(sum0, trailing0) {
            Some(value) => value,
            None => return None,
        };
        self.sum0 = next_sum0;
        self.sum1 = next_sum1;
        self.sum2 = next_sum2;
        self.history = Ghost(next);
        proof {
            assert(self.wf());
        }
        Some(blurred)
    }

    /// A history with no samples satisfies the invariant for zeroed rings
    /// and sums `[0, 0, half]`.
    proof fn lemma_empty_history_levels(len0: nat, len1: nat)
        ensures
            forall|c: int, time: int| #[trigger] level0(Seq::empty())(c, time) == 0,
            forall|c: int, time: int| #[trigger] level1(Seq::empty(), len0)(c, time) == 0,
            forall|c: int, time: int| #[trigger] level2(Seq::empty(), len0, len1)(c, time) == 0,
    {
        let empty = Seq::<BlurPixel>::empty();
        assert forall|c: int, time: int| #[trigger] level1(empty, len0)(c, time) == 0 by {
            let signal = channel_signal(empty, c);
            assert forall|i: int| #[trigger] signal(i) == 0 by {}
            lemma_window_sum_zero(signal, time - len0, len0 + 1);
        }
        assert forall|c: int, time: int| #[trigger] level2(empty, len0, len1)(c, time) == 0 by {
            let first = box_filter(channel_signal(empty, c), len0);
            assert forall|i: int| #[trigger] first(i) == 0 by {
                assert(level1(empty, len0)(c, i) == 0);
            }
            lemma_window_sum_zero(first, time - len1, len1 + 1);
        }
    }

    /// Clear every ring and sum so the next line starts from transparent
    /// samples.
    pub fn reset(&mut self)
        ensures
            final(self).same_shape(*old(self)),
            final(self).history@ == Seq::<BlurPixel>::empty(),
            final(self).is_cleared(),
            old(self).len0() > 0 && old(self).len1() > 0 && old(self).len2() > 0 ==> final(self).wf(),
    {
        zero_fill(&mut self.buffer0);
        zero_fill(&mut self.buffer1);
        zero_fill(&mut self.buffer2);
        self.cursor0 = 0;
        self.cursor1 = 0;
        self.cursor2 = 0;
        self.sum0 = [0, 0, 0, 0];
        self.sum1 = [0, 0, 0, 0];
        let half = self.divider.half;
        self.sum2 = [half, half, half, half];
        self.history = Ghost(Seq::empty());
        proof {
            Self::lemma_empty_history_levels(self.len0(), self.len1());
            let empty = Seq::<BlurPixel>::empty();
            assert forall|c: int| 0 <= c < 4 implies {
                &&& window_sum(channel_signal(empty, c), 0 - self.len0(), self.len0()) == 0
                &&& window_sum(
                    box_filter(channel_signal(empty, c), self.len0()),
                    0 - self.len1(),
                    self.len1(),
                ) == 0
                &&& window_sum(
                    box_filter(box_filter(channel_signal(empty, c), self.len0()), self.len1()),
                    0 - self.len2(),
                    self.len2(),
                ) == 0
            } by {
                let signal = channel_signal(empty, c);
                let first = box_filter(signal, self.len0());
                let second = box_filter(first, self.len1());
                assert forall|i: int| #[trigger] signal(i) == 0 by {
                    assert(level0(empty)(c, i) == 0);
                }
                assert forall|i: int| #[trigger] first(i) == 0 by {
                    assert(level1(empty, self.len0())(c, i) == 0);
                }
                assert forall|i: int| #[trigger] second(i) == 0 by {
                    assert(level2(empty, self.len0(), self.len1())(c, i) == 0);
                }
                lemma_window_sum_zero(signal, 0 - self.len0(), self.len0());
                lemma_window_sum_zero(first, 0 - self.len1(), self.len1());
                lemma_window_sum_zero(second, 0 - self.len2(), self.len2());
            }
        }
    }

    /// A cleared pass is determined by its ring lengths and divider: a fresh
    /// pass and a reset pass of the same shape agree in every field, and
    /// resetting twice leaves what resetting once left.
    pub proof fn lemma_cleared_state_is_determined(first: Self, second: Self)
        requires
            first.is_cleared(),
            second.is_cleared(),
            first.same_shape(second),
        ensures
            first.same_state(second),
    {
        assert(first.buffer0@ =~= second.buffer0@);
        assert(first.buffer1@ =~= second.buffer1@);
        assert(first.buffer2@ =~= second.buffer2@);
    }

    /// Transparent samples keep a pass at rest: while every sample pushed so
    /// far is `[0, 0, 0, 0]`, the running sums are `[0, 0, half]`, and pushing
    /// another transparent sample cannot fail and blurs to `[0, 0, 0, 0]` (the
    /// rounding half alone divides to zero). With the contract of `advance`,
    /// each of any number of transparent samples after `new` or `reset`
    /// returns `Some([0, 0, 0, 0])` and leaves the sums `[0, 0, half]`.
    pub proof fn lemma_transparent_samples_stay_at_rest(self, divisor: int)
        requires
            self.wf(),
            self.divider.divides_by(divisor),
            2 <= divisor < u32::MAX,
            forall|i: int| 0 <= i < self.history@.len() ==> #[trigger] self.history@[i]
                == transparent_sample(),
        ensures
            self.sum0 == [0u32, 0, 0, 0],
            self.sum1 == [0u32, 0, 0, 0],
            self.sum2 == [self.divider.half, self.divider.half, self.divider.half, self.divider.half],
            forall|c: int| 0 <= c < 4 ==> !#[trigger] self.step_fails(transparent_sample(), c),
            forall|c: int|
                0 <= c < 4 ==> self.divider.scaled(#[trigger] self.pushed_sum(transparent_sample(), c))
                    == 0,
    {
        let zero = transparent_sample();
        let history = self.history@;
        let next = history.push(zero);
        let now = history.len() as int;
        let (l0, l1, l2) = (self.len0(), self.len1(), self.len2());
        let half = self.divider.half as int;
        let factor = self.divider.factor as int;
        assert(half * factor < two_pow_32()) by {
            assert(2 * divisor * factor <= 2 * two_pow_32() + divisor) by (nonlinear_arith)
                requires
                    factor == (2 * two_pow_32() + divisor) / (2 * divisor),
                    divisor >= 2,
            ;
            assert(2 * half <= divisor + 1);
            assert(4 * divisor * (half * factor) <= (divisor + 1) * (2 * two_pow_32() + divisor))
                by (nonlinear_arith)
                requires
                    2 * divisor * factor <= 2 * two_pow_32() + divisor,
                    2 * half <= divisor + 1,
                    half >= 0,
                    factor >= 0,
                    divisor >= 2,
            ;
            assert((divisor + 1) * (2 * two_pow_32() + divisor) < 4 * divisor * two_pow_32())
                by (nonlinear_arith)
                requires
                    2 <= divisor < two_pow_32() - 1,
            ;
            assert(half * factor < two_pow_32()) by (nonlinear_arith)
                requires
                    4 * divisor * (half * factor) < 4 * divisor * two_pow_32(),
                    divisor >= 2,
            ;
        }
        assert((half * factor) / two_pow_32() == 0) by (nonlinear_arith)
            requires
                0 <= half * factor < two_pow_32(),
        ;
        assert forall|c: int|
            #![trigger self.step_fails(zero, c)]
            #![trigger self.sum0[c]]
            #![trigger self.sum1[c]]
            #![trigger self.sum2[c]]
            #![trigger self.pushed_sum(zero, c)]
            0 <= c < 4 implies {
            &&& self.sum0[c] == 0
            &&& self.sum1[c] == 0
            &&& self.sum2[c] == half
            &&& !self.step_fails(zero, c)
            &&& self.pushed_sum(zero, c) == half
        } by {
            let old_signal = channel_signal(history, c);
            let signal = channel_signal(next, c);
            assert forall|i: int| #[trigger] old_signal(i) == 0 by {
                if 0 <= i < history.len() {
                    assert(history[i] == zero);
                }
            }
            assert forall|i: int| #[trigger] signal(i) == 0 by {
                if 0 <= i < next.len() {
                    assert(next[i] == zero);
                }
            }
            let old_first = box_filter(old_signal, l0);
            let first = box_filter(signal, l0);
            assert forall|i: int| #[trigger] old_first(i) == 0 by {
                lemma_window_sum_zero(old_signal, i - l0, l0 + 1);
            }
            assert forall|i: int| #[trigger] first(i) == 0 by {
                lemma_window_sum_zero(signal, i - l0, l0 + 1);
            }
            let old_second = box_filter(old_first, l1);
            let second = box_filter(first, l1);
            assert forall|i: int| #[trigger] old_second(i) == 0 by {
                lemma_window_sum_zero(old_first, i - l1, l1 + 1);
            }
            assert forall|i: int| #[trigger] second(i) == 0 by {
                lemma_window_sum_zero(first, i - l1, l1 + 1);
            }
            lemma_window_sum_zero(old_signal, now - l0, l0);
            lemma_window_sum_zero(old_first, now - l1, l1);
            lemma_window_sum_zero(old_second, now - l2, l2);
            lemma_window_sum_zero(second, now - l2, l2 + 1);
            assert(self.sum0[c] as int == 0);
            assert(self.sum1[c] as int == 0);
            assert(self.sum2[c] as int == half);
            assert(first(now) == 0);
            assert(second(now) == 0);
            assert(self.pushed_sum(zero, c) == half);
        }
        assert(self.sum0 =~= [0u32, 0, 0, 0]);
        assert(self.sum1 =~= [0u32, 0, 0, 0]);
        assert(self.sum2 =~= [self.divider.half, self.divider.half, self.divider.half, self.divider.half]);
    }

    /// Line pass with zeroed rings for `plan`; `None` when the plan has no
    /// first-pass ring length.
    pub fn new(plan: DiscreteGaussianPlan) -> (result: Option<Self>)
        ensures
            result is Some <==> plan.window >= 1,
            result matches Some(pass) ==> {
                &&& pass.history@ == Seq::<BlurPixel>::empty()
                &&& pass.len0() == plan.window - 1
                &&& pass.len1() == plan.window - 1
                &&& pass.len2() == plan.third_buffer_len
                &&& pass.divider == plan.divider
                &&& pass.is_cleared()
                &&& (plan.window >= 2 && plan.third_buffer_len >= 1 ==> pass.wf())
            },
    {
        let pass_len = plan.pass_buffer_len()?;
        let third_len = plan.third_buffer_len()?;
        let buffer0 = zeroed_ring(pass_len);
        let buffer1 = zeroed_ring(pass_len);
        let buffer2 = zeroed_ring(third_len);
        let mut pass = GaussianLinePass {
            buffer0,
            buffer1,
            buffer2,
            cursor0: 0,
            cursor1: 0,
            cursor2: 0,
            sum0: [0; 4],
            sum1: [0; 4],
            sum2: [0; 4],
            divider: plan.divider,
            history: Ghost(Seq::empty()),
        };
        pass.reset();
        Some(pass)
    }
}

/// Overwrite every entry with a transparent sample.
fn zero_fill(buffer: &mut Vec<BlurPixel>)
    ensures
        final(buffer)@.len() == old(buffer)@.len(),
        forall|i: int| 0 <= i < final(buffer)@.len() ==> #[trigger] final(buffer)@[i] == [0u32, 0, 0, 0],
{
    let mut index: usize = 0;
    while index < buffer.len()
        invariant
            buffer@.len() == old(buffer)@.len(),
            index <= buffer@.len(),
            forall|i: int| 0 <= i < index ==> #[trigger] buffer@[i] == [0u32, 0, 0, 0],
        decreases buffer@.len() - index,
    {
        buffer.set(index, [0; 4]);
        index += 1;
    }
}

/// A zeroed ring of `len` samples.
fn zeroed_ring(len: usize) -> (ring: Vec<BlurPixel>)
    ensures
        ring@.len() == len,
        forall|i: int| 0 <= i < len ==> #[trigger] ring@[i] == [0u32, 0, 0, 0],
{
    let mut ring: Vec<BlurPixel> = Vec::new();
    let mut index: usize = 0;
    while index < len
        invariant
            ring@.len() == index,
            index <= len,
            forall|i: int| 0 <= i < index ==> #[trigger] ring@[i] == [0u32, 0, 0, 0],
        decreases len - index,
    {
        ring.push([0; 4]);
        index += 1;
    }
    ring
}


/// The accumulator bound of a rounded reciprocal divider: a sum of up to
/// `255 * divisor` on top of the rounding half still rounds to a byte.
proof fn lemma_divider_keeps_bytes(divider: ScaledDividerU32, divisor: int, sum: int)
    requires
        12 <= divisor <= 16_451_580,
        divider.divides_by(divisor),
        0 <= sum <= divider.half + 255 * divisor,
    ensures
        sum <= u32::MAX,
        divider.scaled(sum) <= 255,
{
    let f = divider.factor as int;
    let h = divider.half as int;
    let p = two_pow_32();
    assert(f * (2 * divisor) <= 2 * p + divisor) by (nonlinear_arith)
        requires
            f == (2 * p + divisor) / (2 * divisor),
            divisor > 0,
            p > 0,
    ;
    assert(2 * (h + 255 * divisor) <= 511 * divisor + 1);
    assert((sum * f) * (2 * divisor) <= (h + 255 * divisor) * (2 * p + divisor)) by (nonlinear_arith)
        requires
            f * (2 * divisor) <= 2 * p + divisor,
            0 <= sum <= h + 255 * divisor,
            0 <= f,
            0 < divisor,
            p > 0,
    ;
    assert((511 * divisor + 1) * (2 * p + divisor) < 1024 * p * divisor) by (nonlinear_arith)
        requires
            12 <= divisor <= 16_451_580,
            p == 0x1_0000_0000,
    ;
    assert(sum * f < 256 * p) by (nonlinear_arith)
        requires
            (sum * f) * (2 * divisor) <= (h + 255 * divisor) * (2 * p + divisor),
            2 * (h + 255 * divisor) <= 511 * divisor + 1,
            (511 * divisor + 1) * (2 * p + divisor) < 1024 * p * divisor,
            0 <= sum,
            0 <= f,
            0 < divisor,
            0 <= h,
            p > 0,
    ;
    assert((sum * f) / p <= 255) by (nonlinear_arith)
        requires
            sum * f < 256 * p,
            0 <= sum * f,
            p > 0,
    ;
}

/// The rolling pass of a valid plan never overflows on byte-valued samples:
/// every running sum stays within `u32`, and every rounded result is a byte.
pub proof fn lemma_byte_samples_never_overflow(
    plan: DiscreteGaussianPlan,
    signal: spec_fn(int) -> int,
    time: int,
)
    requires
        plan.wf(),
        forall|i: int| 0 <= #[trigger] signal(i) <= 255,
    ensures
        ({
            let len = (plan.window - 1) as nat;
            let first = box_filter(signal, len);
            let second = box_filter(first, len);
            let total = triple_box_sum(
                signal,
                len,
                len,
                plan.third_buffer_len as nat,
                plan.divider.half as int,
                time,
            );
            &&& 0 <= first(time) <= u32::MAX
            &&& 0 <= second(time) <= u32::MAX
            &&& 0 <= total <= u32::MAX
            &&& plan.divider.scaled(total) <= 255
        }),
{
    let w = plan.window as int;
    let len = (plan.window - 1) as nat;
    let third = plan.third_buffer_len as nat;
    let first = box_filter(signal, len);
    let second = box_filter(first, len);
    lemma_box_filter_bounds(signal, len, 255);
    assert(len + 1 == w);
    lemma_box_filter_bounds(first, len, w * 255);
    assert(forall|j: int| 0 <= #[trigger] second(j) <= w * (w * 255));
    lemma_window_sum_bounds(second, time - third, third + 1, w * (w * 255));
    let divisor = plan_divisor(w);
    assert((third + 1) * (w * (w * 255)) == 255 * divisor) by (nonlinear_arith)
        requires
            third + 1 == if w % 2 == 0 {
                w + 1
            } else {
                w
            },
            divisor == w * w * w + if w % 2 == 0 {
                w * w
            } else {
                0
            },
    ;
    assert(12 <= divisor <= 16_451_580) by (nonlinear_arith)
        requires
            2 <= w <= 254,
            divisor == w * w * w + if w % 2 == 0 {
                w * w
            } else {
                0
            },
    ;
    assert(w * (w * 255) <= 254 * 254 * 255) by (nonlinear_arith)
        requires
            2 <= w <= 254,
    ;
    assert(w * 255 <= 254 * 255);
    let total = triple_box_sum(signal, len, len, third, plan.divider.half as int, time);
    lemma_divider_keeps_bytes(plan.divider, divisor, total);
}

/// Which image axis a blur pass runs along, and the line geometry it reads.
#[derive(Clone, Copy, Debug)]
pub struct BlurAxisGeometry {
    pub line_length: usize,
    pub line_count: usize,
    pub row_width: usize,
    pub horizontal: bool,
}

impl BlurAxisGeometry {
    /// Row-major pixel number of sample `index` on `line`.
    pub open spec fn pixel_number(self, index: int, line: int) -> int {
        if self.horizontal {
            line * self.row_width + index
        } else {
            index * self.row_width + line
        }
    }

    /// Lines run along rows (`horizontal`) or columns of a `width` by
    /// `height` raster.
    pub open spec fn spans(self, width: int, height: int) -> bool {
        &&& self.row_width == width
        &&& self.line_length == if self.horizontal {
            width
        } else {
            height
        }
        &&& self.line_count == if self.horizontal {
            height
        } else {
            width
        }
    }

    /// Geometry of one pass; `None` for an empty raster.
    pub fn new(width: u32, height: u32, horizontal: bool) -> (result: Option<Self>)
        ensures
            result is Some <==> width > 0 && height > 0,
            result matches Some(geometry) ==> geometry.spans(width as int, height as int)
                && geometry.horizontal == horizontal,
    {
        let row_width = width as usize;
        let height = height as usize;
        if row_width == 0 || height == 0 {
            return None;
        }
        let (line_length, line_count) = if horizontal {
            (row_width, height)
        } else {
            (height, row_width)
        };
        Some(BlurAxisGeometry { line_length, line_count, row_width, horizontal })
    }

    /// Byte offset of sample `index` on `line`; `None` when it exceeds
    /// `usize`.
    pub fn pixel_offset(self, index: usize, line: usize) -> (result: Option<usize>)
        ensures
            result is Some <==> self.pixel_number(index as int, line as int) * 4 <= usize::MAX,
            result matches Some(offset) ==> offset == self.pixel_number(index as int, line as int)
                * 4,
    {
        let pixel = if self.horizontal {
            match line.checked_mul(self.row_width) {
                Some(start) => match start.checked_add(index) {
                    Some(pixel) => pixel,
                    None => return None,
                },
                None => {
                    proof {
                        assert(line * self.row_width * 4 >= line * self.row_width) by (
                        nonlinear_arith);
                        assert((line * self.row_width + index) * 4 >= line * self.row_width * 4)
                            by (nonlinear_arith);
                    }
                    return None;
                },
            }
        } else {
            match index.checked_mul(self.row_width) {
                Some(start) => match start.checked_add(line) {
                    Some(pixel) => pixel,
                    None => return None,
                },
                None => {
                    proof {
                        assert(index * self.row_width * 4 >= index * self.row_width) by (
                        nonlinear_arith);
                        assert((index * self.row_width + line) * 4 >= index * self.row_width * 4)
                            by (nonlinear_arith);
                    }
                    return None;
                },
            }
        };
        pixel.checked_mul(4)
    }

    /// Sample `index` of `line` widened for accumulation; transparent past
    /// the end of the line, `None` when its bytes lie outside `pixels`.
    pub fn pixel_or_transparent(self, pixels: &Vec<u8>, index: usize, line: usize) -> (result:
        Option<BlurPixel>)
        ensures
            index >= self.line_length ==> result == Some([0u32, 0, 0, 0]),
            index < self.line_length ==> (result is Some <==> self.pixel_number(
                index as int,
                line as int,
            ) * 4 + 4 <= pixels@.len()),
            index < self.line_length ==> (result matches Some(pixel) ==> forall|c: int|
                0 <= c < 4 ==> pixel[c] == pixels@[self.pixel_number(index as int, line as int) * 4
                    + c]),
    {
        if index >= self.line_length {
            return Some([0; 4]);
        }
        let _len = pixels.len();
        let offset = match self.pixel_offset(index, line) {
            Some(offset) => offset,
            None => return None,
        };
        let end = match offset.checked_add(4) {
            Some(end) => end,
            None => return None,
        };
        if end > pixels.len() {
            return None;
        }
        Some([pixels[offset] as u32, pixels[offset + 1] as u32, pixels[offset + 2] as u32,
            pixels[offset + 3] as u32])
    }

    /// Store a blurred sample at `index` of `line`; `None` when its bytes lie
    /// outside `pixels`.
    pub fn write_pixel(self, pixels: &mut Vec<u8>, index: usize, line: usize, value: [u8; 4]) -> (result:
        Option<()>)
        ensures
            result is Some <==> self.pixel_number(index as int, line as int) * 4 + 4
                <= old(pixels)@.len(),
            final(pixels)@.len() == old(pixels)@.len(),
            result is Some ==> forall|i: int|
                0 <= i < old(pixels)@.len() ==> #[trigger] final(pixels)@[i] == {
                    let offset = self.pixel_number(index as int, line as int) * 4;
                    if offset <= i < offset + 4 {
                        value[i - offset]
                    } else {
                        old(pixels)@[i]
                    }
                },
            result is None ==> final(pixels)@ == old(pixels)@,
    {
        let _len = pixels.len();
        let offset = match self.pixel_offset(index, line) {
            Some(offset) => offset,
            None => return None,
        };
        let end = match offset.checked_add(4) {
            Some(end) => end,
            None => return None,
        };
        if end > pixels.len() {
            return None;
        }
        pixels.set(offset, value[0]);
        pixels.set(offset + 1, value[1]);
        pixels.set(offset + 2, value[2]);
        pixels.set(offset + 3, value[3]);
        Some(())
    }
}


/// Channel values of a raster, by `(x, y, channel)`.
pub open spec fn raster_values(image: RgbaRaster) -> spec_fn(int, int, int) -> int {
    |x: int, y: int, channel: int| image.channel(x, y, channel) as int
}

/// Samples of row `line` (`horizontal`) or column `line` of a `width` by
/// `height` grid of channel values; zero outside the grid.
pub open spec fn line_signal(
    values: spec_fn(int, int, int) -> int,
    width: int,
    height: int,
    horizontal: bool,
    line: int,
    channel: int,
) -> spec_fn(int) -> int {
    |i: int|
        if horizontal {
            if 0 <= i < width {
                values(i, line, channel)
            } else {
                0
            }
        } else {
            if 0 <= i < height {
                values(line, i, channel)
            } else {
                0
            }
        }
}

/// One axis of the three-box blur: the output sample at `index` of a line
/// rounds the triple box sum whose window ends `border` samples later.
pub open spec fn axis_pass(
    values: spec_fn(int, int, int) -> int,
    width: int,
    height: int,
    plan: DiscreteGaussianPlan,
    horizontal: bool,
) -> spec_fn(int, int, int) -> int {
    |x: int, y: int, channel: int|
        {
            let line = if horizontal {
                y
            } else {
                x
            };
            let index = if horizontal {
                x
            } else {
                y
            };
            plan.divider.scaled(
                triple_box_sum(
                    line_signal(values, width, height, horizontal, line, channel),
                    (plan.window - 1) as nat,
                    (plan.window - 1) as nat,
                    plan.third_buffer_len as nat,
                    plan.divider.half as int,
                    index + plan.border,
                ),
            )
        }
}

/// The widened sample that the pass pushes for `index` of `line`.
pub open spec fn line_pixel(
    image: RgbaRaster,
    geometry: BlurAxisGeometry,
    line: int,
    index: int,
) -> BlurPixel {
    if index < geometry.line_length {
        let offset = geometry.pixel_number(index, line) * 4;
        [
            image.pixels@[offset] as u32,
            image.pixels@[offset + 1] as u32,
            image.pixels@[offset + 2] as u32,
            image.pixels@[offset + 3] as u32,
        ]
    } else {
        [0u32, 0, 0, 0]
    }
}

/// The expected output of one axis pass at `index` of `line`.
pub open spec fn axis_expected(
    image: RgbaRaster,
    plan: DiscreteGaussianPlan,
    horizontal: bool,
    index: int,
    line: int,
    channel: int,
) -> int {
    if horizontal {
        axis_pass(raster_values(image), image.width as int, image.height as int, plan, true)(
            index,
            line,
            channel,
        )
    } else {
        axis_pass(raster_values(image), image.width as int, image.height as int, plan, false)(
            line,
            index,
            channel,
        )
    }
}

/// Pushing the line's samples `0..=time` and reading the pass's result gives
/// the axis blur at `time - border`.
proof fn lemma_pushed_line(
    image: RgbaRaster,
    plan: DiscreteGaussianPlan,
    geometry: BlurAxisGeometry,
    pass: GaussianLinePass,
    line: int,
    time: int,
    leading: BlurPixel,
)
    requires
        image.wf(),
        plan.wf(),
        pass.wf(),
        geometry.spans(image.width as int, image.height as int),
        0 <= line < geometry.line_count,
        pass.len0() == plan.window - 1,
        pass.len1() == plan.window - 1,
        pass.len2() == plan.third_buffer_len,
        pass.divider == plan.divider,
        time == pass.history@.len(),
        pass.history@ == Seq::new(time as nat, |i: int| line_pixel(image, geometry, line, i)),
        leading == line_pixel(image, geometry, line, time),
    ensures
        forall|c: int| 0 <= c < 4 ==> !#[trigger] pass.step_fails(leading, c),
        forall|c: int|
            0 <= c < 4 ==> #[trigger] pass.pushed_sum(leading, c) == triple_box_sum(
                line_signal(
                    raster_values(image),
                    image.width as int,
                    image.height as int,
                    geometry.horizontal,
                    line,
                    c,
                ),
                (plan.window - 1) as nat,
                (plan.window - 1) as nat,
                plan.third_buffer_len as nat,
                plan.divider.half as int,
                time,
            ),
        pass.history@.push(leading) == Seq::new(
            (time + 1) as nat,
            |i: int| line_pixel(image, geometry, line, i),
        ),
{
    let w = image.width as int;
    let h = image.height as int;
    let next = pass.history@.push(leading);
    assert(next =~= Seq::new((time + 1) as nat, |i: int| line_pixel(image, geometry, line, i)));
    assert forall|c: int|
        #![trigger pass.step_fails(leading, c)]
        #![trigger pass.pushed_sum(leading, c)]
        0 <= c < 4 implies {
        &&& !pass.step_fails(leading, c)
        &&& pass.pushed_sum(leading, c) == triple_box_sum(
            line_signal(raster_values(image), w, h, geometry.horizontal, line, c),
            (plan.window - 1) as nat,
            (plan.window - 1) as nat,
            plan.third_buffer_len as nat,
            plan.divider.half as int,
            time,
        )
    } by {
        let signal = channel_signal(next, c);
        let target = line_signal(raster_values(image), w, h, geometry.horizontal, line, c);
        assert forall|i: int| i <= time implies #[trigger] signal(i) == target(i) by {
            if 0 <= i {
                let (x, y) = if geometry.horizontal {
                    (i, line)
                } else {
                    (line, i)
                };
                if i < geometry.line_length {
                    lemma_pixel_number(w, h, x, y);
                    assert(geometry.pixel_number(i, line) * 4 + c == rgba_offset(w, x, y) + c);
                }
            }
        }
        assert forall|i: int| 0 <= #[trigger] signal(i) <= 255 by {}
        lemma_triple_box_sum_causal(
            signal,
            target,
            (plan.window - 1) as nat,
            (plan.window - 1) as nat,
            plan.third_buffer_len as nat,
            plan.divider.half as int,
            time,
        );
        lemma_byte_samples_never_overflow(plan, signal, time);
    }
}

/// Evaluate the combined three-box pass along one image axis.
///
/// `None` exactly for an empty raster.
pub fn box_blur_axis(image: &RgbaRaster, plan: DiscreteGaussianPlan, horizontal: bool) -> (result:
    Option<RgbaRaster>)
    requires
        image.wf(),
        plan.wf(),
    ensures
        result is Some <==> image.width > 0 && image.height > 0,
        result matches Some(blurred) ==> {
            &&& blurred.wf()
            &&& blurred.width == image.width
            &&& blurred.height == image.height
            &&& forall|x: int, y: int, c: int|
                0 <= x < image.width && 0 <= y < image.height && 0 <= c < 4
                    ==> #[trigger] blurred.channel(x, y, c) as int == axis_pass(
                    raster_values(*image),
                    image.width as int,
                    image.height as int,
                    plan,
                    horizontal,
                )(x, y, c)
        },
{
    let width = image.width;
    let height = image.height;
    let geometry = BlurAxisGeometry::new(width, height, horizontal)?;
    let ghost w = width as int;
    let ghost h = height as int;
    let total = image.pixels.len();
    proof {
        assert(geometry.line_length <= total / 4) by (nonlinear_arith)
            requires
                total == w * h * 4,
                geometry.line_length == w || geometry.line_length == h,
                w >= 1,
                h >= 1,
        ;
    }
    let mut output: Vec<u8> = Vec::new();
    let mut fill: usize = 0;
    while fill < total
        invariant
            output@.len() == fill,
            fill <= total,
        decreases total - fill,
    {
        output.push(0);
        fill += 1;
    }
    let mut pass = match GaussianLinePass::new(plan) {
        Some(pass) => pass,
        None => {
            proof {
                assert(false);
            }
            return None;
        },
    };
    let border = plan.border as usize;
    let mut line: usize = 0;
    while line < geometry.line_count
        invariant
            image.wf(),
            plan.wf(),
            geometry.spans(w, h),
            geometry.horizontal == horizontal,
            w == image.width,
            h == image.height,
            border == plan.border,
            output@.len() == image.pixels@.len(),
            geometry.line_length <= total / 4,
            total == image.pixels@.len(),
            total <= usize::MAX,
            line <= geometry.line_count,
            pass.len0() == plan.window - 1,
            pass.len1() == plan.window - 1,
            pass.len2() == plan.third_buffer_len,
            pass.divider == plan.divider,
            forall|l: int, i: int, c: int|
                0 <= l < line && 0 <= i < geometry.line_length && 0 <= c < 4
                    ==> #[trigger] output@[geometry.pixel_number(i, l) * 4 + c] as int
                    == axis_expected(*image, plan, horizontal, i, l, c),
        decreases geometry.line_count - line,
    {
        pass.reset();
        proof {
            assert(pass.history@ =~= Seq::new(
                0 as nat,
                |i: int| line_pixel(*image, geometry, line as int, i),
            ));
        }
        let mut source_index: usize = 0;
        while source_index < border
            invariant
                image.wf(),
                plan.wf(),
                geometry.spans(w, h),
                geometry.horizontal == horizontal,
                w == image.width,
                h == image.height,
                border == plan.border,
                line < geometry.line_count,
                source_index <= border,
                pass.wf(),
                pass.len0() == plan.window - 1,
                pass.len1() == plan.window - 1,
                pass.len2() == plan.third_buffer_len,
                pass.divider == plan.divider,
                pass.history@ == Seq::new(
                    source_index as nat,
                    |i: int| line_pixel(*image, geometry, line as int, i),
                ),
            decreases border - source_index,
        {
            proof {
                if source_index < geometry.line_length {
                    let (x, y) = if horizontal {
                        (source_index as int, line as int)
                    } else {
                        (line as int, source_index as int)
                    };
                    lemma_pixel_number(w, h, x, y);
                }
            }
            let leading = match geometry.pixel_or_transparent(&image.pixels, source_index, line) {
                Some(pixel) => pixel,
                None => {
                    proof {
                        assert(false);
                    }
                    return None;
                },
            };
            proof {
                assert(leading == line_pixel(*image, geometry, line as int, source_index as int));
                lemma_pushed_line(
                    *image,
                    plan,
                    geometry,
                    pass,
                    line as int,
                    source_index as int,
                    leading,
                );
            }
            match pass.advance(leading) {
                Some(_) => {},
                None => {
                    proof {
                        assert(false);
                    }
                    return None;
                },
            }
            source_index += 1;
        }
        let mut destination_index: usize = 0;
        while destination_index < geometry.line_length
            invariant
                image.wf(),
                plan.wf(),
                geometry.spans(w, h),
                geometry.horizontal == horizontal,
                w == image.width,
                h == image.height,
                border == plan.border,
                line < geometry.line_count,
                destination_index <= geometry.line_length,
                geometry.line_length <= total / 4,
                total <= usize::MAX,
                pass.wf(),
                pass.len0() == plan.window - 1,
                pass.len1() == plan.window - 1,
                pass.len2() == plan.third_buffer_len,
                pass.divider == plan.divider,
                pass.history@ == Seq::new(
                    (destination_index + border) as nat,
                    |i: int| line_pixel(*image, geometry, line as int, i),
                ),
                output@.len() == image.pixels@.len(),
                forall|l: int, i: int, c: int|
                    0 <= l < line && 0 <= i < geometry.line_length && 0 <= c < 4
                        ==> #[trigger] output@[geometry.pixel_number(i, l) * 4 + c] as int
                        == axis_expected(*image, plan, horizontal, i, l, c),
                forall|i: int, c: int|
                    0 <= i < destination_index && 0 <= c < 4
                        ==> #[trigger] output@[geometry.pixel_number(i, line as int) * 4 + c] as int
                        == axis_expected(*image, plan, horizontal, i, line as int, c),
            decreases geometry.line_length - destination_index,
        {
            let source_index = match destination_index.checked_add(border) {
                Some(index) => index,
                None => {
                    proof {
                        assert(false);
                    }
                    return None;
                },
            };
            proof {
                if source_index < geometry.line_length {
                    let (x, y) = if horizontal {
                        (source_index as int, line as int)
                    } else {
                        (line as int, source_index as int)
                    };
                    lemma_pixel_number(w, h, x, y);
                }
            }
            let leading = match geometry.pixel_or_transparent(&image.pixels, source_index, line) {
                Some(pixel) => pixel,
                None => {
                    proof {
                        assert(false);
                    }
                    return None;
                },
            };
            proof {
                assert(leading == line_pixel(*image, geometry, line as int, source_index as int));
                lemma_pushed_line(
                    *image,
                    plan,
                    geometry,
                    pass,
                    line as int,
                    source_index as int,
                    leading,
                );
            }
            let ghost before = pass;
            let blurred = match pass.advance(leading) {
                Some(value) => value,
                None => {
                    proof {
                        assert(false);
                    }
                    return None;
                },
            };
            let ghost (dx, dy) = if horizontal {
                (destination_index as int, line as int)
            } else {
                (line as int, destination_index as int)
            };
            proof {
                lemma_pixel_number(w, h, dx, dy);
                assert(geometry.pixel_number(destination_index as int, line as int) == dy * w + dx);
            }
            let ghost previous = output@;
            match geometry.write_pixel(&mut output, destination_index, line, blurred) {
                Some(()) => {},
                None => {
                    proof {
                        assert(false);
                    }
                    return None;
                },
            }
            proof {
                let target = geometry.pixel_number(destination_index as int, line as int);
                assert forall|c: int| 0 <= c < 4 implies #[trigger] output@[target * 4 + c] as int
                    == axis_expected(*image, plan, horizontal, destination_index as int, line as int, c) by {
                    assert(before.pushed_sum(leading, c) == triple_box_sum(
                        line_signal(raster_values(*image), w, h, horizontal, line as int, c),
                        (plan.window - 1) as nat,
                        (plan.window - 1) as nat,
                        plan.third_buffer_len as nat,
                        plan.divider.half as int,
                        source_index as int,
                    ));
                }
                assert forall|l: int, i: int, c: int|
                    0 <= l < line && 0 <= i < geometry.line_length && 0 <= c < 4
                        implies #[trigger] output@[geometry.pixel_number(i, l) * 4 + c] as int
                        == axis_expected(*image, plan, horizontal, i, l, c) by {
                    let (x, y) = if horizontal {
                        (i, l)
                    } else {
                        (l, i)
                    };
                    lemma_pixel_number(w, h, x, y);
                    if geometry.pixel_number(i, l) == target {
                        lemma_pixel_number_injective(w, x, y, dx, dy);
                    }
                    assert(previous[geometry.pixel_number(i, l) * 4 + c] as int == axis_expected(
                        *image,
                        plan,
                        horizontal,
                        i,
                        l,
                        c,
                    ));
                }
                assert forall|i: int, c: int|
                    0 <= i < destination_index + 1 && 0 <= c < 4
                        implies #[trigger] output@[geometry.pixel_number(i, line as int) * 4 + c] as int
                        == axis_expected(*image, plan, horizontal, i, line as int, c) by {
                    if i < destination_index {
                        let (x, y) = if horizontal {
                            (i, line as int)
                        } else {
                            (line as int, i)
                        };
                        lemma_pixel_number(w, h, x, y);
                        if geometry.pixel_number(i, line as int) == target {
                            lemma_pixel_number_injective(w, x, y, dx, dy);
                        }
                        assert(previous[geometry.pixel_number(i, line as int) * 4 + c] as int
                            == axis_expected(*image, plan, horizontal, i, line as int, c));
                    }
                }
            }
            destination_index += 1;
        }
        line += 1;
    }
    let result = RgbaRaster { width, height, pixels: output };
    proof {
        assert forall|x: int, y: int, c: int|
            0 <= x < w && 0 <= y < h && 0 <= c < 4 implies #[trigger] result.channel(x, y, c) as int
            == axis_pass(raster_values(*image), w, h, plan, horizontal)(x, y, c) by {
            let (i, l) = if horizontal {
                (x, y)
            } else {
                (y, x)
            };
            assert(geometry.pixel_number(i, l) == y * w + x);
            assert(output@[geometry.pixel_number(i, l) * 4 + c] as int == axis_expected(
                *image,
                plan,
                horizontal,
                i,
                l,
                c,
            ));
        }
    }
    Some(result)
}


/// The complete separable blur: rows first, then columns.
pub open spec fn blurred_values(image: RgbaRaster, plan: DiscreteGaussianPlan) -> spec_fn(
    int,
    int,
    int,
) -> int {
    let w = image.width as int;
    let h = image.height as int;
    axis_pass(axis_pass(raster_values(image), w, h, plan, true), w, h, plan, false)
}

/// Evaluate the combined three-box pass on both image axes.
///
/// `None` exactly for an empty raster.
pub fn box_blur_axes(image: &RgbaRaster, plan: DiscreteGaussianPlan) -> (result: Option<
    RgbaRaster,
>)
    requires
        image.wf(),
        plan.wf(),
    ensures
        result is Some <==> image.width > 0 && image.height > 0,
        result matches Some(blurred) ==> {
            &&& blurred.wf()
            &&& blurred.width == image.width
            &&& blurred.height == image.height
            &&& forall|x: int, y: int, c: int|
                0 <= x < image.width && 0 <= y < image.height && 0 <= c < 4
                    ==> #[trigger] blurred.channel(x, y, c) as int == blurred_values(*image, plan)(
                    x,
                    y,
                    c,
                )
        },
{
    let horizontal = box_blur_axis(image, plan, true)?;
    let result = box_blur_axis(&horizontal, plan, false)?;
    proof {
        let w = image.width as int;
        let h = image.height as int;
        let rows = axis_pass(raster_values(*image), w, h, plan, true);
        assert forall|x: int, y: int, c: int|
            0 <= x < w && 0 <= y < h && 0 <= c < 4 implies #[trigger] result.channel(x, y, c) as int
            == blurred_values(*image, plan)(x, y, c) by {
            let from_raster = line_signal(raster_values(horizontal), w, h, false, x, c);
            let from_rows = line_signal(rows, w, h, false, x, c);
            assert forall|i: int| i <= y + plan.border implies #[trigger] from_raster(i)
                == from_rows(i) by {
                if 0 <= i < h {
                    assert(horizontal.channel(x, i, c) as int == rows(x, i, c));
                }
            }
            lemma_triple_box_sum_causal(
                from_raster,
                from_rows,
                (plan.window - 1) as nat,
                (plan.window - 1) as nat,
                plan.third_buffer_len as nat,
                plan.divider.half as int,
                y + plan.border,
            );
        }
    }
    Some(result)
}

} // verus!
