//! Distances, the inverse-square loudness factor and the propagation delay.
use crate::acoustics::Acoustics;
use vstd::prelude::*;

verus! {

/// Square millimetres per square metre.
pub const MM2_PER_M2: u64 = 1_000_000;

/// A point in space, in millimetres.
#[derive(Clone, Copy, Debug, PartialEq, Eq, Structural)]
pub struct Position {
    pub x: i32,
    pub y: i32,
    pub z: i32,
}

/// One amplitude together with the point it is emitted from.
#[derive(Clone, Copy, Debug, PartialEq, Eq, Structural)]
pub struct Sound {
    pub sample: i32,
    pub location: Position,
}

/// Builds the point `(x, y, z)`, in millimetres.
pub fn position(x: i32, y: i32, z: i32) -> (p: Position)
    ensures
        p == (Position { x, y, z }),
{
    Position { x, y, z }
}

/// The squared Euclidean distance between two points, in square millimetres.
pub open spec fn squared_distance_spec(a: Position, b: Position) -> int {
    (a.x - b.x) * (a.x - b.x) + (a.y - b.y) * (a.y - b.y) + (a.z - b.z) * (a.z - b.z)
}

/// The largest natural number whose square does not exceed `n`.
pub open spec fn floor_sqrt(n: nat) -> nat
    decreases n,
{
    if n == 0 {
        0
    } else {
        let r = floor_sqrt((n - 1) as nat);
        if (r + 1) * (r + 1) <= n {
            r + 1
        } else {
            r
        }
    }
}

/// The Euclidean distance between two points, in whole millimetres (rounded down). The
/// loudness factor and the attenuation do not go through this rounded value: they use the
/// exact squared distance.
pub open spec fn distance_spec(a: Position, b: Position) -> nat {
    floor_sqrt(squared_distance_spec(a, b) as nat)
}

/// Units of the loudness factor in one inverse square metre.
pub const LOUDNESS_UNITS: u128 = 1_000_000_000_000_000_000_000_000;

/// `LOUDNESS_UNITS * MM2_PER_M2`: the loudness factor at a squared distance of `d2` square
/// millimetres is `LOUDNESS_NUMERATOR / d2` units.
pub const LOUDNESS_NUMERATOR: u128 = 1_000_000_000_000_000_000_000_000_000_000;

/// The loudness factor `1 / distance^2` from the exact squared distance, in units of
/// `1 / LOUDNESS_UNITS` per square metre, rounded down.
pub open spec fn loudness_factor_spec(source: Position, listener: Position) -> int {
    LOUDNESS_NUMERATOR as int / squared_distance_spec(source, listener)
}

proof fn lemma_floor_sqrt_bounds(n: nat)
    ensures
        floor_sqrt(n) * floor_sqrt(n) <= n,
        n < (floor_sqrt(n) + 1) * (floor_sqrt(n) + 1),
    decreases n,
{
    if n == 0 {
        assert(floor_sqrt(0) == 0);
        assert(0 < (0 + 1) * (0 + 1)) by (nonlinear_arith);
    } else {
        lemma_floor_sqrt_bounds((n - 1) as nat);
        let r = floor_sqrt((n - 1) as nat);
        if (r + 1) * (r + 1) <= n {
            let f = floor_sqrt(n);
            assert(f == r + 1);
            assert(n < (f + 1) * (f + 1)) by (nonlinear_arith)
                requires
                    n - 1 < (r + 1) * (r + 1),
                    f == r + 1,
                    r >= 0,
            ;
        } else {
            assert(floor_sqrt(n) == r);
        }
    }
}

proof fn lemma_square_monotone(r: int, s: int)
    requires
        0 <= r <= s,
    ensures
        r * r <= s * s,
{
    assert(r * r <= s * s) by (nonlinear_arith)
        requires
            0 <= r <= s,
    ;
}

/// `floor_sqrt` is the only natural number between the two neighbouring squares.
pub proof fn lemma_floor_sqrt_unique(n: nat, r: nat)
    requires
        r * r <= n,
        n < (r + 1) * (r + 1),
    ensures
        floor_sqrt(n) == r,
{
    lemma_floor_sqrt_bounds(n);
    let f = floor_sqrt(n);
    if f < r {
        lemma_square_monotone(f + 1int, r as int);
    } else if r < f {
        lemma_square_monotone(r + 1int, f as int);
    }
}

/// Distance is symmetric, and every point is at distance zero from itself.
pub proof fn lemma_distance_symmetric(a: Position, b: Position)
    ensures
        distance_spec(a, b) == distance_spec(b, a),
        distance_spec(a, a) == 0,
{
    assert((a.x - b.x) * (a.x - b.x) == (b.x - a.x) * (b.x - a.x)) by (nonlinear_arith);
    assert((a.y - b.y) * (a.y - b.y) == (b.y - a.y) * (b.y - a.y)) by (nonlinear_arith);
    assert((a.z - b.z) * (a.z - b.z) == (b.z - a.z) * (b.z - a.z)) by (nonlinear_arith);
    assert(squared_distance_spec(a, a) == 0);
    assert(floor_sqrt(0) == 0);
}

/// The loudness factor never grows as the squared distance grows.
pub proof fn lemma_loudness_decreases_with_distance(
    near_source: Position,
    near_listener: Position,
    far_source: Position,
    far_listener: Position,
)
    requires
        0 < squared_distance_spec(near_source, near_listener) <= squared_distance_spec(
            far_source,
            far_listener,
        ),
    ensures
        loudness_factor_spec(near_source, near_listener) >= loudness_factor_spec(
            far_source,
            far_listener,
        ),
{
    vstd::arithmetic::div_mod::lemma_div_is_ordered_by_denominator(
        LOUDNESS_NUMERATOR as int,
        squared_distance_spec(near_source, near_listener),
        squared_distance_spec(far_source, far_listener),
    );
}

/// A source moving along x toward the listener `ear` gets no quieter, and once past it gets no
/// louder: for two positions on one line parallel to x, `earlier` before `later`.
pub proof fn lemma_loudness_along_x(earlier: Position, later: Position, ear: Position)
    requires
        earlier.y == later.y,
        earlier.z == later.z,
        earlier.x <= later.x,
    ensures
        later.x <= ear.x && squared_distance_spec(later, ear) > 0 ==> loudness_factor_spec(
            earlier,
            ear,
        ) <= loudness_factor_spec(later, ear),
        ear.x <= earlier.x && squared_distance_spec(earlier, ear) > 0 ==> loudness_factor_spec(
            earlier,
            ear,
        ) >= loudness_factor_spec(later, ear),
{
    let a = earlier.x - ear.x;
    let b = later.x - ear.x;
    if later.x <= ear.x {
        assert(a * a >= b * b) by (nonlinear_arith)
            requires
                a <= b <= 0,
        ;
        if squared_distance_spec(later, ear) > 0 {
            lemma_loudness_decreases_with_distance(later, ear, earlier, ear);
        }
    }
    if ear.x <= earlier.x {
        assert(a * a <= b * b) by (nonlinear_arith)
            requires
                0 <= a <= b,
        ;
        if squared_distance_spec(earlier, ear) > 0 {
            lemma_loudness_decreases_with_distance(earlier, ear, later, ear);
        }
    }
}

/// `(p - q)^2`, exactly.
fn square_of_difference(p: i32, q: i32) -> (r: u128)
    ensures
        r == (p - q) * (p - q),
        r <= 0x1_0000_0000 * 0x1_0000_0000,
{
    let d: i64 = p as i64 - q as i64;
    let m: u64 = if d >= 0 {
        d as u64
    } else {
        (-d) as u64
    };
    assert(m * m == (p - q) * (p - q)) by (nonlinear_arith)
        requires
            m == d || m == -d,
            d == p - q,
    ;
    assert(m * m <= 0x1_0000_0000 * 0x1_0000_0000) by (nonlinear_arith)
        requires
            0 <= m <= 0x1_0000_0000,
    ;
    (m as u128) * (m as u128)
}

/// The squared Euclidean distance between two points, in square millimetres.
pub fn squared_distance(a: &Position, b: &Position) -> (r: u128)
    ensures
        r == squared_distance_spec(*a, *b),
        r <= 3 * 0x1_0000_0000 * 0x1_0000_0000,
{
    square_of_difference(a.x, b.x) + square_of_difference(a.y, b.y) + square_of_difference(
        a.z,
        b.z,
    )
}

/// The integer square root of `n`, rounded down.
fn floor_sqrt_exec(n: u128) -> (r: u64)
    requires
        n <= 3 * 0x1_0000_0000 * 0x1_0000_0000,
    ensures
        r == floor_sqrt(n as nat),
        r < 0x2_0000_0000,
{
    let mut lo: u128 = 0;
    let mut hi: u128 = 0x2_0000_0000;
    assert(n < hi * hi);
    while hi - lo > 1
        invariant
            lo < hi <= 0x2_0000_0000,
            lo * lo <= n,
            n < hi * hi,
        decreases hi - lo,
    {
        let mid: u128 = lo + (hi - lo) / 2;
        assert(mid * mid <= 0x2_0000_0000 * 0x2_0000_0000) by (nonlinear_arith)
            requires
                0 <= mid <= 0x2_0000_0000,
        ;
        if mid * mid <= n {
            lo = mid;
        } else {
            hi = mid;
        }
    }
    assert(hi == lo + 1);
    proof {
        lemma_floor_sqrt_unique(n as nat, lo as nat);
    }
    lo as u64
}

/// The Euclidean distance between two points, in whole millimetres (rounded down).
pub fn distance(start: &Position, end: &Position) -> (r: u64)
    ensures
        r == distance_spec(*start, *end),
        r < 0x2_0000_0000,
{
    let d2 = squared_distance(start, end);
    floor_sqrt_exec(d2)
}

/// The propagation delay from `source` to `listener`, in ticks: `distance / speed_of_sound`
/// seconds.
pub open spec fn delay_spec(source: Position, listener: Position, acoustics: Acoustics) -> int {
    distance_spec(source, listener) * acoustics.sample_rate
}

/// The inverse-square loudness factor `1 / distance^2`, from the exact squared distance, in
/// units of `1 / LOUDNESS_UNITS` per square metre, rounded down: within one unit of the exact
/// value, and positive for every pair of distinct points. The two points must not coincide.
pub fn loudness_factor(source: &Position, listener: &Position) -> (r: u128)
    requires
        squared_distance_spec(*source, *listener) > 0,
    ensures
        r == loudness_factor_spec(*source, *listener),
        r > 0,
        r * squared_distance_spec(*source, *listener) <= LOUDNESS_NUMERATOR,
        LOUDNESS_NUMERATOR < (r + 1) * squared_distance_spec(*source, *listener),
{
    let d2 = squared_distance(source, listener);
    let r = LOUDNESS_NUMERATOR / d2;
    proof {
        let n = LOUDNESS_NUMERATOR as int;
        let d = d2 as int;
        vstd::arithmetic::div_mod::lemma_div_is_ordered(d, n, d);
        vstd::arithmetic::div_mod::lemma_div_by_multiple(1, d);
        vstd::arithmetic::div_mod::lemma_fundamental_div_mod(n, d);
        vstd::arithmetic::div_mod::lemma_mod_pos_bound(n, d);
        assert(r * d <= n && n < (r + 1) * d) by (nonlinear_arith)
            requires
                n == d * (n / d) + n % d,
                0 <= n % d < d,
                r == n / d,
        ;
    }
    r
}

/// The propagation delay from `source` to `listener`, in ticks.
pub fn delay(source: &Position, listener: &Position, acoustics: &Acoustics) -> (r: u128)
    ensures
        r == delay_spec(*source, *listener, *acoustics),
        r <= 0x2_0000_0000 * 0x1_0000_0000,
{
    let d = distance(source, listener);
    assert(d * acoustics.sample_rate <= 0x2_0000_0000 * 0x1_0000_0000) by (nonlinear_arith)
        requires
            d < 0x2_0000_0000,
            acoustics.sample_rate < 0x1_0000_0000,
    ;
    (d as u128) * (acoustics.sample_rate as u128)
}

} // verus!
