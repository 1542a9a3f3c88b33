//! The Park–Miller generator that seeds SVG `feTurbulence` lattices.

use vstd::prelude::*;

verus! {

/// The generator's modulus, the Mersenne prime `2^31 - 1`.
pub const SVG_RAND_M: i32 = 2147483647;

/// The generator's multiplier, `7^5`.
pub const SVG_RAND_A: i32 = 16807;

/// `SVG_RAND_M / SVG_RAND_A`.
pub const SVG_RAND_Q: i32 = 127773;

/// `SVG_RAND_M % SVG_RAND_A`.
pub const SVG_RAND_R: i32 = 2836;

/// Rust's integer quotient, rounded toward zero.
pub open spec fn truncated_div(value: int, divisor: int) -> int {
    if value >= 0 {
        value / divisor
    } else {
        -((-value) / divisor)
    }
}

/// Rust's integer remainder, with the sign of the dividend.
pub open spec fn truncated_rem(value: int, divisor: int) -> int {
    value - divisor * truncated_div(value, divisor)
}

/// One step of Schrage's overflow-free evaluation of `A * seed mod M`.
#[verifier::opaque]
pub open spec fn schrage_step(seed: int) -> int {
    let result = SVG_RAND_A * truncated_rem(seed, SVG_RAND_Q as int) - SVG_RAND_R
        * truncated_div(seed, SVG_RAND_Q as int);
    if result <= 0 {
        result + SVG_RAND_M
    } else {
        result
    }
}

/// The next value of the Filter Effects turbulence random sequence.
pub fn svg_turbulence_random(seed: i32) -> (result: i32)
    ensures
        result == schrage_step(seed as int),
{
    let quotient = seed / SVG_RAND_Q;
    let remainder = seed % SVG_RAND_Q;
    proof {
        reveal(schrage_step);
        assert(quotient == truncated_div(seed as int, SVG_RAND_Q as int));
        assert(remainder == truncated_rem(seed as int, SVG_RAND_Q as int));
        assert(-16807 <= quotient <= 16807);
        assert(-127773 < remainder < 127773);
        assert(seed >= 0 ==> quotient >= 0 && remainder >= 0);
        assert(seed < 0 ==> quotient <= 0 && remainder <= 0);
    }
    let mut result = SVG_RAND_A * remainder - SVG_RAND_R * quotient;
    if result <= 0 {
        result += SVG_RAND_M;
    }
    result
}


/// Schrage's method computes the Park–Miller step exactly: for a seed in
/// `1..M`, the result is `A * seed mod M`, with `M` standing in for a zero
/// remainder.
pub proof fn lemma_schrage_is_park_miller(seed: int)
    requires
        0 < seed < SVG_RAND_M,
    ensures
        schrage_step(seed) == if (SVG_RAND_A * seed) % (SVG_RAND_M as int) == 0 {
            SVG_RAND_M as int
        } else {
            (SVG_RAND_A * seed) % (SVG_RAND_M as int)
        },
        0 < schrage_step(seed) <= SVG_RAND_M,
{
    reveal(schrage_step);
    let m = SVG_RAND_M as int;
    let a = SVG_RAND_A as int;
    let q = SVG_RAND_Q as int;
    let r = SVG_RAND_R as int;
    let k = seed / q;
    let rem = seed % q;
    assert(seed == q * k + rem && 0 <= rem < q) by (nonlinear_arith)
        requires
            q > 0,
            k == seed / q,
            rem == seed % q,
    ;
    assert(0 <= k <= 16807);
    let t = a * rem - r * k;
    assert(a * seed == m * k + t) by (nonlinear_arith)
        requires
            seed == q * k + rem,
            m == a * q + r,
            t == a * rem - r * k,
    ;
    if t > 0 {
        assert((a * seed) % m == t) by (nonlinear_arith)
            requires
                a * seed == m * k + t,
                0 < t < m,
                m > 0,
        ;
    } else {
        assert(a * seed == m * (k - 1) + (t + m));
        assert(0 < t + m <= m);
        if t + m < m {
            assert((a * seed) % m == t + m) by (nonlinear_arith)
                requires
                    a * seed == m * (k - 1) + (t + m),
                    0 < t + m < m,
                    m > 0,
            ;
        } else {
            assert((a * seed) % m == 0) by (nonlinear_arith)
                requires
                    a * seed == m * (k - 1) + m,
                    m > 0,
            ;
        }
    }
}

/// Seeds in `1..=M` stay there: the generator maps them into the same
/// range.
pub proof fn lemma_step_in_range(seed: int)
    requires
        0 < seed <= SVG_RAND_M,
    ensures
        0 < schrage_step(seed) <= SVG_RAND_M,
{
    if seed < SVG_RAND_M {
        lemma_schrage_is_park_miller(seed);
    } else {
        reveal(schrage_step);
        assert(truncated_div(seed, SVG_RAND_Q as int) == 16807);
        assert(truncated_rem(seed, SVG_RAND_Q as int) == 2836);
    }
}

/// Lattice cells per axis of the noise function.
pub const SVG_B_SIZE: usize = 256;

/// Stored lattice entries: the cells twice over and two more, so that
/// neighbouring look-ups never wrap.
pub const SVG_B_LEN: usize = 514;

/// How many candidate gradients one lattice cell may draw before the
/// construction gives up; the generator's period, after which its draws
/// would only repeat.
pub const SVG_MAX_GRADIENT_DRAWS: u32 = 2147483646;

/// The generator's starting seed for an authored `seed`: non-positive
/// seeds are folded into `1..M`, larger ones clamped to `M - 1`.
pub open spec fn initial_seed(seed: int) -> int {
    let folded = if seed <= 0 {
        truncated_rem(-seed, SVG_RAND_M - 1) + 1
    } else {
        seed
    };
    if folded > SVG_RAND_M - 1 {
        SVG_RAND_M - 1
    } else {
        folded
    }
}

/// One gradient coordinate in 256ths, drawn from a generator value.
pub open spec fn gradient_coordinate(value: int) -> int {
    value % 512 - 256
}

/// A candidate gradient is kept when it is not zero and lies within the
/// unit disc (its coordinates are in 256ths).
pub open spec fn gradient_accepted(x: int, y: int) -> bool {
    !(x == 0 && y == 0) && x * x + y * y <= 256 * 256
}

/// Draw one gradient by rejection sampling with at most `attempts`
/// candidates: the generator state after the kept candidate and its two
/// coordinates.
pub open spec fn draw_gradient(seed: int, attempts: nat) -> Option<(int, int, int)>
    decreases attempts,
{
    if attempts == 0 {
        None
    } else {
        let first = schrage_step(seed);
        let second = schrage_step(first);
        let x = gradient_coordinate(first);
        let y = gradient_coordinate(second);
        if gradient_accepted(x, y) {
            Some((second, x, y))
        } else {
            draw_gradient(second, (attempts - 1) as nat)
        }
    }
}

/// The first `count` gradients drawn from `seed`, channel by channel and
/// cell by cell, with the generator state after them.
pub open spec fn drawn_gradients(seed: int, count: nat) -> Option<(int, Seq<(int, int)>)>
    decreases count,
{
    if count == 0 {
        Some((seed, Seq::empty()))
    } else {
        match drawn_gradients(seed, (count - 1) as nat) {
            Some((state, gradients)) => match draw_gradient(
                state,
                SVG_MAX_GRADIENT_DRAWS as nat,
            ) {
                Some((next, x, y)) => Some((next, gradients.push((x, y)))),
                None => None,
            },
            None => None,
        }
    }
}

/// `cells` with entries `i` and `j` exchanged.
pub open spec fn swapped(cells: Seq<int>, i: int, j: int) -> Seq<int> {
    cells.update(i, cells[j]).update(j, cells[i])
}

/// The identity lattice `0..256` after the first `steps` shuffle steps
/// from `seed`: step `n` draws a value and exchanges cell `256 - n` with
/// the cell the value selects.
pub open spec fn shuffled_lattice(seed: int, steps: nat) -> (Seq<int>, int)
    decreases steps,
{
    if steps == 0 {
        (Seq::new(256, |i: int| i), seed)
    } else {
        let (cells, state) = shuffled_lattice(seed, (steps - 1) as nat);
        let next = schrage_step(state);
        (swapped(cells, 256 - steps, next % 256), next)
    }
}

proof fn lemma_coordinate_square(value: int)
    requires
        -256 <= value < 256,
    ensures
        0 <= value * value <= 256 * 256,
{
    assert(0 <= value * value <= 256 * 256) by (nonlinear_arith)
        requires
            -256 <= value < 256,
    ;
}

/// One candidate gradient drawn from `state`: the state after it, its
/// coordinates and whether it is kept.
fn draw_candidate(state: i32) -> (candidate: (i32, i32, i32, bool))
    requires
        0 < state <= SVG_RAND_M,
    ensures
        candidate.0 == schrage_step(schrage_step(state as int)),
        0 < candidate.0 <= SVG_RAND_M,
        candidate.1 == gradient_coordinate(schrage_step(state as int)),
        candidate.2 == gradient_coordinate(candidate.0 as int),
        candidate.3 == gradient_accepted(candidate.1 as int, candidate.2 as int),
{
    let first = svg_turbulence_random(state);
    proof {
        lemma_step_in_range(state as int);
    }
    let second = svg_turbulence_random(first);
    proof {
        lemma_step_in_range(first as int);
    }
    let x = first % 512 - 256;
    let y = second % 512 - 256;
    proof {
        assert(0 < first && 0 < second);
        assert(-256 <= x < 256 && -256 <= y < 256);
        lemma_coordinate_square(x as int);
        lemma_coordinate_square(y as int);
    }
    let x_squared: i32 = x * x;
    let y_squared: i32 = y * y;
    let accepted = !(x == 0 && y == 0) && x_squared + y_squared <= 256 * 256;
    (second, x, y, accepted)
}

fn draw_one_gradient(seed: i32) -> (drawn: Option<(i32, i32, i32)>)
    requires
        0 < seed <= SVG_RAND_M,
    ensures
        match drawn {
            Some((next, x, y)) => draw_gradient(seed as int, SVG_MAX_GRADIENT_DRAWS as nat) == Some(
                (next as int, x as int, y as int),
            ) && 0 < next <= SVG_RAND_M,
            None => draw_gradient(seed as int, SVG_MAX_GRADIENT_DRAWS as nat) is None,
        },
{
    let mut state = seed;
    let mut attempts: u32 = 0;
    while attempts < SVG_MAX_GRADIENT_DRAWS
        invariant
            0 < state <= SVG_RAND_M,
            attempts <= SVG_MAX_GRADIENT_DRAWS,
            draw_gradient(seed as int, SVG_MAX_GRADIENT_DRAWS as nat) == draw_gradient(
                state as int,
                (SVG_MAX_GRADIENT_DRAWS - attempts) as nat,
            ),
        decreases SVG_MAX_GRADIENT_DRAWS - attempts,
    {
        let (second, x, y, accepted) = draw_candidate(state);
        if accepted {
            return Some((second, x, y));
        }
        state = second;
        attempts += 1;
    }
    None
}

/// Every gradient the rejection sampling keeps is a non-zero vector within
/// the unit disc.
pub proof fn lemma_draw_gradient_accepted(seed: int, attempts: nat)
    ensures
        draw_gradient(seed, attempts) matches Some((_, x, y)) ==> gradient_accepted(x, y),
    decreases attempts,
{
    if attempts > 0 {
        let second = schrage_step(schrage_step(seed));
        lemma_draw_gradient_accepted(second, (attempts - 1) as nat);
    }
}

/// Drawing `count` gradients gives `count` of them, each non-zero and
/// within the unit disc.
pub proof fn lemma_drawn_gradients_accepted(seed: int, count: nat)
    ensures
        drawn_gradients(seed, count) matches Some((_, gradients)) ==> {
            &&& gradients.len() == count
            &&& forall|i: int|
                0 <= i < count ==> gradient_accepted(
                    #[trigger] gradients[i].0,
                    gradients[i].1,
                )
        },
    decreases count,
{
    if count > 0 {
        lemma_drawn_gradients_accepted(seed, (count - 1) as nat);
        match drawn_gradients(seed, (count - 1) as nat) {
            Some((state, _)) => {
                lemma_draw_gradient_accepted(state, SVG_MAX_GRADIENT_DRAWS as nat);
            },
            None => {},
        }
    }
}

/// The shuffled lattice is a permutation of `0..256`: 256 cells, each
/// below 256, no two equal.
pub proof fn lemma_shuffled_lattice_is_permutation(seed: int, steps: nat)
    requires
        steps <= 255,
    ensures
        ({
            let cells = shuffled_lattice(seed, steps).0;
            &&& cells.len() == 256
            &&& forall|k: int| 0 <= k < 256 ==> 0 <= #[trigger] cells[k] < 256
            &&& forall|i: int, j: int|
                0 <= i < 256 && 0 <= j < 256 && i != j ==> #[trigger] cells[i] != #[trigger] cells[j]
        }),
    decreases steps,
{
    if steps > 0 {
        lemma_shuffled_lattice_is_permutation(seed, (steps - 1) as nat);
        let (cells, state) = shuffled_lattice(seed, (steps - 1) as nat);
        let next = schrage_step(state);
        let a = 256 - steps;
        let b = next % 256;
        let result = swapped(cells, a, b);
        assert(result == shuffled_lattice(seed, steps).0);
        assert forall|i: int, j: int|
            0 <= i < 256 && 0 <= j < 256 && i != j implies #[trigger] result[i] != #[trigger] result[j] by {
            let pi = if i == b {
                a
            } else if i == a {
                b
            } else {
                i
            };
            let pj = if j == b {
                a
            } else if j == a {
                b
            } else {
                j
            };
            assert(result[i] == cells[pi]);
            assert(result[j] == cells[pj]);
            assert(pi != pj);
        }
        assert forall|k: int| 0 <= k < 256 implies 0 <= #[trigger] result[k] < 256 by {
            if k == b {
                assert(result[k] == cells[a]);
            } else if k == a {
                assert(result[k] == cells[b]);
            }
        }
    }
}

/// The shuffled lattice and the drawn gradients of an authored seed: 1024
/// gradients (256 cells of each of four channels) drawn first, then 255
/// shuffle steps; `None` when a cell's gradient is never accepted.
pub open spec fn turbulence_construction(seed: int) -> Option<(Seq<int>, Seq<(int, int)>)> {
    match drawn_gradients(initial_seed(seed), 1024) {
        Some((state, gradients)) => Some((shuffled_lattice(state, 255).0, gradients)),
        None => None,
    }
}

/// The integer state of SVG `feTurbulence` noise: the shuffled lattice and
/// the gradient of every cell of every channel, in 256ths of a unit.
/// Both repeat their first cells past the end so that neighbouring look-ups
/// never wrap.
pub struct SvgTurbulence {
    pub lattice: Vec<usize>,
    pub gradient: Vec<(i32, i32)>,
}

/// Gradients as integer pairs.
pub open spec fn gradient_pairs(gradient: Seq<(i32, i32)>) -> Seq<(int, int)> {
    gradient.map_values(|pair: (i32, i32)| (pair.0 as int, pair.1 as int))
}

/// Lattice cells as integers.
pub open spec fn lattice_cells(cells: Seq<usize>) -> Seq<int> {
    cells.map_values(|cell: usize| cell as int)
}

impl SvgTurbulence {
    /// Build the noise state of `seed` as Filter Effects specifies:
    /// rejection-sampled unit gradients and a shuffled lattice, both
    /// extended past the end.
    pub fn new(seed: i32) -> (turbulence: Option<Self>)
        requires
            seed != i32::MIN,
        ensures
            turbulence is Some <==> turbulence_construction(seed as int) is Some,
            turbulence matches Some(t) ==> {
                let (cells, gradients) = turbulence_construction(seed as int)->0;
                &&& t.lattice@.len() == SVG_B_LEN
                &&& t.gradient@.len() == 4 * SVG_B_LEN
                &&& forall|k: int| 0 <= k < SVG_B_LEN ==> #[trigger] t.lattice@[k] == cells[k % 256]
                &&& forall|c: int, k: int|
                    0 <= c < 4 && 0 <= k < SVG_B_LEN ==> (#[trigger] t.gradient@[c * SVG_B_LEN
                        + k].0 as int, t.gradient@[c * SVG_B_LEN + k].1 as int) == gradients[c * 256 + k
                        % 256]
            },
    {
        let mut state = seed;
        if state <= 0 {
            state = -state % (SVG_RAND_M - 1) + 1;
        }
        if state > SVG_RAND_M - 1 {
            state = SVG_RAND_M - 1;
        }
        assert(state == initial_seed(seed as int));
        let ghost start = state as int;
        let mut gradients: Vec<(i32, i32)> = Vec::new();
        let mut count: usize = 0;
        while count < 1024
            invariant
                count <= 1024,
                0 < state <= SVG_RAND_M,
                start == initial_seed(seed as int),
                drawn_gradients(start, count as nat) == Some(
                    (state as int, gradient_pairs(gradients@)),
                ),
            decreases 1024 - count,
        {
            match draw_one_gradient(state) {
                Some((next, x, y)) => {
                    let ghost before = gradients@;
                    gradients.push((x, y));
                    proof {
                        assert(gradient_pairs(gradients@) =~= gradient_pairs(before).push(
                            (x as int, y as int),
                        ));
                    }
                    state = next;
                },
                None => {
                    proof {
                        assert(drawn_gradients(start, (count + 1) as nat) is None);
                        lemma_drawn_gradients_stay_none(start, (count + 1) as nat, 1024);
                    }
                    return None;
                },
            }
            count += 1;
        }
        let ghost drawn = gradient_pairs(gradients@);
        proof {
            lemma_drawn_gradients_accepted(start, 1024);
        }
        let cells = shuffle_lattice(&mut state);
        let mut lattice: Vec<usize> = Vec::new();
        let mut k: usize = 0;
        while k < SVG_B_LEN
            invariant
                k <= SVG_B_LEN,
                cells@.len() == 256,
                lattice@.len() == k,
                forall|i: int| 0 <= i < k ==> #[trigger] lattice@[i] == cells@[i % 256],
            decreases SVG_B_LEN - k,
        {
            lattice.push(cells[k % 256]);
            k += 1;
        }
        let mut gradient: Vec<(i32, i32)> = Vec::new();
        let mut channel: usize = 0;
        while channel < 4
            invariant
                channel <= 4,
                gradients@.len() == 1024,
                gradient@.len() == channel * SVG_B_LEN,
                forall|c: int, i: int|
                    0 <= c < channel && 0 <= i < SVG_B_LEN ==> #[trigger] gradient@[c * SVG_B_LEN
                        + i] == gradients@[c * 256 + i % 256],
            decreases 4 - channel,
        {
            let mut k: usize = 0;
            while k < SVG_B_LEN
                invariant
                    channel < 4,
                    k <= SVG_B_LEN,
                    gradients@.len() == 1024,
                    gradient@.len() == channel * SVG_B_LEN + k,
                    forall|c: int, i: int|
                        (0 <= c < channel && 0 <= i < SVG_B_LEN) || (c == channel && 0 <= i < k)
                            ==> #[trigger] gradient@[c * SVG_B_LEN + i] == gradients@[c * 256 + i
                            % 256],
                decreases SVG_B_LEN - k,
            {
                assert(channel * 256 + k % 256 < 1024);
                let ghost before = gradient@;
                gradient.push(gradients[channel * 256 + k % 256]);
                proof {
                    assert forall|c: int, i: int|
                        (0 <= c < channel && 0 <= i < SVG_B_LEN) || (c == channel && 0 <= i < k
                            + 1) implies #[trigger] gradient@[c * SVG_B_LEN + i] == gradients@[c
                        * 256 + i % 256] by {
                        if c < channel {
                            assert(c * SVG_B_LEN + i < channel * SVG_B_LEN) by (nonlinear_arith)
                                requires
                                    c < channel,
                                    0 <= i < SVG_B_LEN,
                            ;
                            assert(gradient@[c * SVG_B_LEN + i] == before[c * SVG_B_LEN + i]);
                        } else if i < k {
                            assert(gradient@[c * SVG_B_LEN + i] == before[c * SVG_B_LEN + i]);
                        }
                    }
                }
                k += 1;
            }
            proof {
                assert((channel + 1) * SVG_B_LEN == channel * SVG_B_LEN + SVG_B_LEN) by (
                nonlinear_arith);
            }
            channel += 1;
        }
        proof {
            let (expected_cells, expected_gradients) = turbulence_construction(seed as int)->0;
            assert(expected_gradients == drawn);
            assert(expected_cells == lattice_cells(cells@));
            assert forall|k: int| 0 <= k < SVG_B_LEN implies #[trigger] lattice@[k]
                == expected_cells[k % 256] by {
                assert(lattice@[k] == cells@[k % 256]);
            }
            assert forall|c: int, k: int| 0 <= c < 4 && 0 <= k < SVG_B_LEN implies (
            #[trigger] gradient@[c * SVG_B_LEN + k].0 as int, gradient@[c * SVG_B_LEN + k].1 as int)
                == expected_gradients[c * 256 + k % 256] by {
                assert(gradient@[c * SVG_B_LEN + k] == gradients@[c * 256 + k % 256]);
                assert(0 <= c * 256 + k % 256 < 1024) by (nonlinear_arith)
                    requires
                        0 <= c < 4,
                        0 <= k % 256 < 256,
                ;
            }
        }
        Some(SvgTurbulence { lattice, gradient })
    }
}

/// Once a draw fails, every longer run of draws fails.
proof fn lemma_drawn_gradients_stay_none(seed: int, count: nat, total: nat)
    requires
        drawn_gradients(seed, count) is None,
        count <= total,
    ensures
        drawn_gradients(seed, total) is None,
    decreases total - count,
{
    if count < total {
        assert(drawn_gradients(seed, (count + 1) as nat) is None);
        lemma_drawn_gradients_stay_none(seed, (count + 1) as nat, total);
    }
}

/// Shuffle the identity lattice `0..256` with 255 draws from `state`.
fn shuffle_lattice(state: &mut i32) -> (cells: Vec<usize>)
    requires
        0 < *old(state) <= SVG_RAND_M,
    ensures
        (lattice_cells(cells@), *final(state) as int) == shuffled_lattice(
            *old(state) as int,
            255,
        ),
        cells@.len() == 256,
        0 < *final(state) <= SVG_RAND_M,
{
    let ghost start = *state as int;
    let mut cells: Vec<usize> = Vec::new();
    let mut i: usize = 0;
    while i < 256
        invariant
            i <= 256,
            cells@.len() == i,
            forall|k: int| 0 <= k < i ==> #[trigger] cells@[k] == k,
        decreases 256 - i,
    {
        cells.push(i);
        i += 1;
    }
    proof {
        assert(lattice_cells(cells@) =~= Seq::new(256, |k: int| k));
    }
    let mut steps: usize = 0;
    while steps < 255
        invariant
            steps <= 255,
            cells@.len() == 256,
            0 < *state <= SVG_RAND_M,
            (lattice_cells(cells@), *state as int) == shuffled_lattice(start, steps as nat),
            forall|k: int| 0 <= k < 256 ==> #[trigger] cells@[k] < 256,
        decreases 255 - steps,
    {
        let index = 255 - steps;
        let next = svg_turbulence_random(*state);
        proof {
            lemma_step_in_range(*state as int);
        }
        let other = (next % 256) as usize;
        let ghost before = cells@;
        let kept = cells[index];
        let moved = cells[other];
        cells.set(index, moved);
        cells.set(other, kept);
        proof {
            assert(lattice_cells(cells@) =~= swapped(
                lattice_cells(before),
                256 - (steps + 1),
                next as int % 256,
            ));
        }
        *state = next;
        steps += 1;
    }
    cells
}

} // verus!
