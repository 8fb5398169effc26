//! The attenuation stage: each sample scaled by the inverse-square loudness factor.
use crate::geometry::{squared_distance, squared_distance_spec, Position, MM2_PER_M2};
use vstd::prelude::*;

verus! {

/// Division rounded toward zero.
pub open spec fn trunc_div(x: int, d: int) -> int {
    if x >= 0 {
        x / d
    } else {
        -((-x) / d)
    }
}

/// `sample * loudness_factor(source, listener)`, computed from the exact ratio
/// `1 m^2 / distance^2` and rounded toward zero.
pub open spec fn attenuate(sample: int, source: Position, listener: Position) -> int {
    trunc_div(sample * MM2_PER_M2, squared_distance_spec(source, listener))
}

/// The shortest of three lengths: parallel sequences are truncated to it.
pub open spec fn min3(a: nat, b: nat, c: nat) -> nat {
    if a <= b && a <= c {
        a
    } else if b <= c {
        b
    } else {
        c
    }
}

/// No source coincides with the listener at the same index, below `n`.
pub open spec fn separated(source: Seq<Position>, listener: Seq<Position>, n: int) -> bool {
    forall|i: int| 0 <= i < n ==> #[trigger] squared_distance_spec(source[i], listener[i]) > 0
}

/// The attenuated signal: one sample per index that all three sequences share.
pub open spec fn attenuated(sound: Seq<i32>, source: Seq<Position>, listener: Seq<Position>) -> Seq<
    i64,
> {
    Seq::new(
        min3(sound.len(), source.len(), listener.len()),
        |i: int| attenuate(sound[i] as int, source[i], listener[i]) as i64,
    )
}

/// An attenuated sample always fits in `i64`.
pub proof fn lemma_attenuate_bounds(sample: i32, source: Position, listener: Position)
    requires
        squared_distance_spec(source, listener) > 0,
    ensures
        -0x8000_0000 * 1_000_000 <= attenuate(sample as int, source, listener) <= 0x8000_0000
            * 1_000_000,
{
    let d2 = squared_distance_spec(source, listener);
    let x = sample * MM2_PER_M2;
    assert(MM2_PER_M2 == 1_000_000);
    if x >= 0 {
        vstd::arithmetic::div_mod::lemma_div_is_ordered_by_denominator(x, 1, d2);
        vstd::arithmetic::div_mod::lemma_div_pos_is_pos(x, d2);
    } else {
        vstd::arithmetic::div_mod::lemma_div_is_ordered_by_denominator(-x, 1, d2);
        vstd::arithmetic::div_mod::lemma_div_pos_is_pos(-x, d2);
    }
}

fn attenuate_sample(sample: i32, source: &Position, listener: &Position) -> (r: i64)
    requires
        squared_distance_spec(*source, *listener) > 0,
    ensures
        r == attenuate(sample as int, *source, *listener),
{
    proof {
        lemma_attenuate_bounds(sample, *source, *listener);
    }
    let d2 = squared_distance(source, listener);
    let x: i64 = (sample as i64) * (MM2_PER_M2 as i64);
    if x >= 0 {
        ((x as u128) / d2) as i64
    } else {
        -(((-x) as u128 / d2) as i64)
    }
}

/// Scales each sample by the loudness factor between the source and the listener at its
/// index. The three sequences are truncated to the shortest.
pub fn loudness_transform(sound: &Vec<i32>, source: &Vec<Position>, listener: &Vec<Position>) -> (r:
    Vec<i64>)
    requires
        separated(source@, listener@, min3(sound@.len(), source@.len(), listener@.len()) as int),
    ensures
        r@.len() == min3(sound@.len(), source@.len(), listener@.len()),
        sound@.len() == source@.len() && source@.len() == listener@.len() ==> r@.len()
            == sound@.len(),
        forall|i: int|
            0 <= i < r@.len() ==> r@[i] == attenuate(sound@[i] as int, source@[i], listener@[i]),
        r@ == attenuated(sound@, source@, listener@),
{
    let mut n = sound.len();
    if source.len() < n {
        n = source.len();
    }
    if listener.len() < n {
        n = listener.len();
    }
    let mut out: Vec<i64> = Vec::with_capacity(n);
    let mut i: usize = 0;
    while i < n
        invariant
            n == min3(sound@.len(), source@.len(), listener@.len()),
            separated(source@, listener@, n as int),
            i <= n,
            out@.len() == i,
            forall|j: int|
                0 <= j < i ==> out@[j] == attenuate(sound@[j] as int, source@[j], listener@[j]),
        decreases n - i,
    {
        assert(squared_distance_spec(source@[i as int], listener@[i as int]) > 0);
        let a = attenuate_sample(sound[i], &source[i], &listener[i]);
        out.push(a);
        i = i + 1;
    }
    assert(out@ =~= attenuated(sound@, source@, listener@));
    out
}

} // verus!
