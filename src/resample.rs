//! The resampling stage: linear interpolation of retimed samples back onto the output clock.
use crate::acoustics::PipelineError;
use crate::attenuation::trunc_div;
use crate::retime::Untimed;
use vstd::arithmetic::div_mod::{
    lemma_div_by_multiple, lemma_div_is_ordered, lemma_div_pos_is_pos,
    lemma_fundamental_div_mod_converse_div,
};
use vstd::arithmetic::mul::lemma_mul_inequality;
use vstd::prelude::*;

verus! {

/// Moves the `before` cursor forward while the next stamp is not later than `t`.
pub open spec fn advance_before(ts: Seq<Untimed>, b: int, t: int) -> int
    decreases ts.len() - b,
{
    if 0 <= b && b + 1 < ts.len() && ts[b + 1].time <= t {
        advance_before(ts, b + 1, t)
    } else {
        b
    }
}

/// Moves the `after` cursor forward, short of the last stamp, while its stamp is earlier
/// than `t`.
pub open spec fn advance_after(ts: Seq<Untimed>, a: int, t: int) -> int
    decreases ts.len() - a,
{
    if 0 <= a && a + 1 < ts.len() && ts[a].time < t {
        advance_after(ts, a + 1, t)
    } else {
        a
    }
}

/// The `before` cursor once output sample `k`, at time `k * period`, is placed. Both cursors
/// start at index 0 and only move forward.
pub open spec fn before_at(ts: Seq<Untimed>, k: nat, period: int) -> int
    decreases k,
{
    advance_before(
        ts,
        if k == 0 {
            0
        } else {
            before_at(ts, (k - 1) as nat, period)
        },
        k * period,
    )
}

/// The `after` cursor once output sample `k`, at time `k * period`, is placed.
pub open spec fn after_at(ts: Seq<Untimed>, k: nat, period: int) -> int
    decreases k,
{
    advance_after(
        ts,
        if k == 0 {
            0
        } else {
            after_at(ts, (k - 1) as nat, period)
        },
        k * period,
    )
}

/// The straight line through `lo` and `hi` at time `t`, rounded toward `lo`'s amplitude;
/// `lo`'s amplitude when the two stamps coincide.
pub open spec fn interpolate(lo: Untimed, hi: Untimed, t: int) -> int {
    if hi.time == lo.time {
        lo.sample as int
    } else {
        lo.sample + trunc_div((t - lo.time) * (hi.sample - lo.sample), hi.time - lo.time)
    }
}

/// The number of output samples: one per whole frame period from time 0 up to and including
/// the last stamp.
pub open spec fn output_len(ts: Seq<Untimed>, period: int) -> nat {
    if ts.len() == 0 {
        0
    } else {
        (ts.last().time as int / period + 1) as nat
    }
}

/// Output sample `k`.
pub open spec fn resampled_at(ts: Seq<Untimed>, k: nat, period: int) -> int {
    interpolate(ts[before_at(ts, k, period)], ts[after_at(ts, k, period)], k * period)
}

/// The resampled signal.
pub open spec fn resampled(ts: Seq<Untimed>, period: int) -> Seq<i64> {
    Seq::new(output_len(ts, period), |k: int| resampled_at(ts, k as nat, period) as i64)
}

proof fn lemma_advance_before(ts: Seq<Untimed>, b: int, t: int)
    requires
        0 <= b < ts.len(),
    ensures
        b <= advance_before(ts, b, t) < ts.len(),
        advance_before(ts, b, t) > b ==> ts[advance_before(ts, b, t)].time <= t,
        advance_before(ts, b, t) + 1 < ts.len() ==> ts[advance_before(ts, b, t) + 1].time > t,
    decreases ts.len() - b,
{
    if b + 1 < ts.len() && ts[b + 1].time <= t {
        lemma_advance_before(ts, b + 1, t);
    }
}

proof fn lemma_advance_after(ts: Seq<Untimed>, a: int, t: int)
    requires
        0 <= a < ts.len(),
    ensures
        a <= advance_after(ts, a, t) < ts.len(),
        advance_after(ts, a, t) > a ==> ts[a].time < t,
        advance_after(ts, a, t) + 1 == ts.len() || ts[advance_after(ts, a, t)].time >= t,
        forall|j: int| a <= j < advance_after(ts, a, t) ==> #[trigger] ts[j].time < t,
    decreases ts.len() - a,
{
    if a + 1 < ts.len() && ts[a].time < t {
        lemma_advance_after(ts, a + 1, t);
    }
}

/// Both cursors stay in bounds; `before` only rests past index 0 on a stamp not later than
/// the current time, and `after` only leaves index 0 once the first stamp is in the past.
proof fn lemma_cursors(ts: Seq<Untimed>, k: nat, period: int)
    requires
        ts.len() > 0,
        period > 0,
    ensures
        0 <= before_at(ts, k, period) < ts.len(),
        0 <= after_at(ts, k, period) < ts.len(),
        before_at(ts, k, period) > 0 ==> ts[before_at(ts, k, period)].time <= k * period,
        after_at(ts, k, period) > 0 ==> ts[0].time < k * period,
        forall|j: int| 0 <= j < after_at(ts, k, period) ==> #[trigger] ts[j].time < k * period,
    decreases k,
{
    let t = k * period;
    if k == 0 {
        lemma_advance_before(ts, 0, t);
        lemma_advance_after(ts, 0, t);
    } else {
        let k1 = (k - 1) as nat;
        lemma_cursors(ts, k1, period);
        assert(k1 * period <= t) by (nonlinear_arith)
            requires
                k1 + 1 == k,
                t == k * period,
                period > 0,
        ;
        lemma_advance_before(ts, before_at(ts, k1, period), t);
        lemma_advance_after(ts, after_at(ts, k1, period), t);
        assert forall|j: int| 0 <= j < after_at(ts, k, period) implies #[trigger] ts[j].time
            < t by {
            if j < after_at(ts, k1, period) {
                assert(ts[j].time < k1 * period);
            }
        }
    }
}

/// Resampling is well defined: up to the last stamp, both cursors index the input, and either
/// their stamps coincide or the output time lies between them, so the interpolation never
/// divides by zero.
pub proof fn lemma_resample_well_defined(ts: Seq<Untimed>, k: nat, period: int)
    requires
        ts.len() > 0,
        period > 0,
        k * period <= ts.last().time,
    ensures
        0 <= before_at(ts, k, period) < ts.len(),
        0 <= after_at(ts, k, period) < ts.len(),
        ts[after_at(ts, k, period)].time == ts[before_at(ts, k, period)].time || ts[before_at(
            ts,
            k,
            period,
        )].time <= k * period <= ts[after_at(ts, k, period)].time,
{
    let t = k * period;
    lemma_cursors(ts, k, period);
    let a0 = if k == 0 {
        0
    } else {
        after_at(ts, (k - 1) as nat, period)
    };
    if k > 0 {
        lemma_cursors(ts, (k - 1) as nat, period);
    }
    lemma_advance_after(ts, a0, t);
}

proof fn lemma_identity_cursors(ts: Seq<Untimed>, period: int, k: nat)
    requires
        period > 0,
        k < ts.len(),
        forall|i: int| 0 <= i < ts.len() ==> #[trigger] ts[i].time == i * period,
    ensures
        before_at(ts, k, period) == k,
        after_at(ts, k, period) == k,
    decreases k,
{
    let t = k * period;
    if k + 1 < ts.len() {
        assert(ts[k + 1int].time == (k + 1) * period);
        assert((k + 1) * period > t) by (nonlinear_arith)
            requires
                t == k * period,
                period > 0,
        ;
    }
    assert(ts[k as int].time == t);
    if k > 0 {
        lemma_identity_cursors(ts, period, (k - 1) as nat);
        assert(ts[k - 1int].time == (k - 1) * period);
        assert((k - 1) * period < t) by (nonlinear_arith)
            requires
                t == k * period,
                period > 0,
        ;
        assert(advance_before(ts, k as int, t) == k);
        assert(advance_before(ts, k - 1, t) == advance_before(ts, k as int, t));
        assert(advance_after(ts, k as int, t) == k);
        assert(advance_after(ts, k - 1, t) == advance_after(ts, k as int, t));
    } else {
        assert(t == 0) by (nonlinear_arith)
            requires
                t == k * period,
                k == 0,
        ;
    }
}

/// Resampling a signal whose stamps lie exactly on the output clock (no delay) gives the
/// signal back unchanged.
pub proof fn lemma_resample_identity(ts: Seq<Untimed>, period: int)
    requires
        period > 0,
        ts.len() > 0,
        forall|i: int| 0 <= i < ts.len() ==> #[trigger] ts[i].time == i * period,
    ensures
        resampled(ts, period).len() == ts.len(),
        forall|k: int| 0 <= k < ts.len() ==> #[trigger] resampled(ts, period)[k] == ts[k].sample,
{
    let n = ts.len();
    assert(ts[n - 1].time == (n - 1) * period);
    lemma_div_by_multiple((n - 1) as int, period);
    assert forall|k: int| 0 <= k < ts.len() implies #[trigger] resampled(ts, period)[k]
        == ts[k].sample by {
        lemma_identity_cursors(ts, period, k as nat);
    }
}

/// For non-decreasing stamps, up to the last stamp, `before` is the last index whose stamp is
/// not later than the output time (or 0 when none is), and `after` the first index whose stamp
/// is not earlier.
pub proof fn lemma_cursors_bracket(ts: Seq<Untimed>, k: nat, period: int)
    requires
        ts.len() > 0,
        period > 0,
        k * period <= ts.last().time,
        forall|i: int, j: int| 0 <= i <= j < ts.len() ==> ts[i].time <= ts[j].time,
    ensures
        before_at(ts, k, period) > 0 ==> ts[before_at(ts, k, period)].time <= k * period,
        forall|j: int|
            before_at(ts, k, period) < j < ts.len() ==> #[trigger] ts[j].time > k * period,
        forall|j: int| 0 <= j < after_at(ts, k, period) ==> #[trigger] ts[j].time < k * period,
        ts[after_at(ts, k, period)].time >= k * period,
{
    lemma_resample_well_defined(ts, k, period);
    lemma_cursors(ts, k, period);
    let t = k * period;
    let b0 = if k == 0 {
        0
    } else {
        before_at(ts, (k - 1) as nat, period)
    };
    let a0 = if k == 0 {
        0
    } else {
        after_at(ts, (k - 1) as nat, period)
    };
    if k > 0 {
        lemma_cursors(ts, (k - 1) as nat, period);
    }
    lemma_advance_before(ts, b0, t);
    lemma_advance_after(ts, a0, t);
    let b = before_at(ts, k, period);
    assert forall|j: int| b < j < ts.len() implies #[trigger] ts[j].time > t by {
        assert(ts[b + 1].time <= ts[j].time);
    }
}

/// The interpolated amplitude at `t`, computed in unsigned arithmetic on the magnitude of the
/// slope so that no intermediate value overflows.
fn interpolate_exec(lo: Untimed, hi: Untimed, t: u64) -> (r: i64)
    requires
        hi.time == lo.time || lo.time <= t <= hi.time,
    ensures
        r == interpolate(lo, hi, t as int),
{
    if hi.time == lo.time {
        return lo.sample;
    }
    let dc: u64 = t - lo.time;
    let dt: u64 = hi.time - lo.time;
    let rising = hi.sample >= lo.sample;
    let dh: u64 = if rising {
        (hi.sample as i128 - lo.sample as i128) as u64
    } else {
        (lo.sample as i128 - hi.sample as i128) as u64
    };
    assert(dc * dh <= 0xffff_ffff_ffff_ffff * 0xffff_ffff_ffff_ffff) by (nonlinear_arith)
        requires
            dc <= 0xffff_ffff_ffff_ffff,
            dh <= 0xffff_ffff_ffff_ffff,
    ;
    let q: u128 = (dc as u128) * (dh as u128) / (dt as u128);
    proof {
        lemma_mul_inequality(dc as int, dt as int, dh as int);
        lemma_div_is_ordered(dc * dh, dt * dh, dt as int);
        lemma_div_by_multiple(dh as int, dt as int);
        assert(dt * dh == dh * dt) by (nonlinear_arith);
        assert(dc * dh >= 0) by (nonlinear_arith)
            requires
                dc >= 0,
                dh >= 0,
        ;
        lemma_div_pos_is_pos(dc * dh, dt as int);
        let signed = (t - lo.time) * (hi.sample - lo.sample);
        if rising {
            assert(signed == dc * dh);
        } else {
            assert(signed == -(dc * dh)) by (nonlinear_arith)
                requires
                    signed == (t - lo.time) * (hi.sample - lo.sample),
                    dc == t - lo.time,
                    dh == lo.sample - hi.sample,
            ;
            if dc * dh == 0 {
                assert(signed == 0);
                assert(0int / (dt as int) == 0);
            }
        }
    }
    if rising {
        (lo.sample as i128 + q as i128) as i64
    } else {
        (lo.sample as i128 - q as i128) as i64
    }
}

/// Linearly interpolates the retimed samples onto the output clock, one output sample per
/// `period` ticks from time 0 up to and including the last stamp. The two cursors follow
/// `advance_before` and `advance_after`. Fails with `EmptyInput` exactly when there is no
/// sample.
pub fn resample(timed: &Vec<Untimed>, period: u64) -> (r: Result<Vec<i64>, PipelineError>)
    requires
        period > 0,
    ensures
        match r {
            Ok(v) => timed@.len() > 0 && v@ == resampled(timed@, period as int) && v@.len()
                == timed@.last().time as int / (period as int) + 1,
            Err(e) => e == PipelineError::EmptyInput && timed@.len() == 0,
        },
{
    let n = timed.len();
    if n == 0 {
        return Err(PipelineError::EmptyInput);
    }
    let ghost ts = timed@;
    let ghost p = period as int;
    let last: u64 = timed[n - 1].time;
    let mut out: Vec<i64> = Vec::new();
    let mut before: usize = 0;
    let mut after: usize = 0;
    let mut k: usize = 0;
    let mut t: u128 = 0;
    while t <= last as u128
        invariant
            ts == timed@,
            n == ts.len(),
            n > 0,
            p == period,
            p > 0,
            last == ts.last().time,
            t == k * p,
            t <= last + p,
            out@.len() == k,
            before == (if k == 0 {
                0
            } else {
                before_at(ts, (k - 1) as nat, p)
            }),
            after == (if k == 0 {
                0
            } else {
                after_at(ts, (k - 1) as nat, p)
            }),
            0 <= before < n,
            0 <= after < n,
            forall|j: int| 0 <= j < k ==> out@[j] == resampled_at(ts, j as nat, p),
        decreases last + p - t,
    {
        let ghost b0 = before as int;
        let ghost a0 = after as int;
        while before + 1 < n && timed[before + 1].time as u128 <= t
            invariant
                ts == timed@,
                n == ts.len(),
                0 <= b0 < n,
                0 <= before < n,
                advance_before(ts, before as int, t as int) == advance_before(ts, b0, t as int),
            decreases n - before,
        {
            before = before + 1;
        }
        while after + 1 < n && (timed[after].time as u128) < t
            invariant
                ts == timed@,
                n == ts.len(),
                0 <= a0 < n,
                0 <= after < n,
                advance_after(ts, after as int, t as int) == advance_after(ts, a0, t as int),
            decreases n - after,
        {
            after = after + 1;
        }
        proof {
            assert(before == before_at(ts, k as nat, p));
            assert(after == after_at(ts, k as nat, p));
            lemma_resample_well_defined(ts, k as nat, p);
        }
        let v = interpolate_exec(timed[before], timed[after], t as u64);
        out.push(v);
        assert(t + p == (k + 1) * p) by (nonlinear_arith)
            requires
                t == k * p,
        ;
        k = out.len();
        t = t + period as u128;
    }
    proof {
        let r = last - (k - 1) * p;
        assert((k - 1) * p == t - p) by (nonlinear_arith)
            requires
                t == k * p,
        ;
        lemma_fundamental_div_mod_converse_div(last as int, p, k - 1, r);
    }
    assert(out@ =~= resampled(ts, p));
    Ok(out)
}

} // verus!
