//! The retiming stage: each sample stamped with the time at which it reaches the listener.
use crate::acoustics::{Acoustics, PipelineError};
use crate::geometry::{delay, delay_spec, Position};
use vstd::prelude::*;

verus! {

/// An amplitude with the time, in ticks, at which it is heard.
#[derive(Clone, Copy, Debug, PartialEq, Eq, Structural)]
pub struct Untimed {
    pub sample: i64,
    pub time: u64,
}

/// The arrival time of sample `i`: its emission time `i` frames plus the propagation delay.
pub open spec fn arrival(i: int, source: Position, listener: Position, acoustics: Acoustics) -> int {
    i * acoustics.frame_period_spec() + delay_spec(source, listener, acoustics)
}

/// The number of samples that have a source position.
pub open spec fn min2(a: nat, b: nat) -> nat {
    if a <= b {
        a
    } else {
        b
    }
}

/// Every arrival time fits in 64 bits of ticks.
pub open spec fn arrivals_fit(
    samples: Seq<i64>,
    source: Seq<Position>,
    listener: Position,
    acoustics: Acoustics,
) -> bool {
    forall|i: int|
        0 <= i < min2(samples.len(), source.len()) ==> #[trigger] arrival(
            i,
            source[i],
            listener,
            acoustics,
        ) <= u64::MAX
}

/// The retimed signal: sample `i` keeps its amplitude and is stamped with its arrival time.
pub open spec fn retimed(
    samples: Seq<i64>,
    source: Seq<Position>,
    listener: Position,
    acoustics: Acoustics,
) -> Seq<Untimed> {
    Seq::new(
        min2(samples.len(), source.len()),
        |i: int| Untimed { sample: samples[i], time: arrival(i, source[i], listener, acoustics) as u64 },
    )
}

/// Stamps each sample with its arrival time at `listener`. The samples and the source
/// trajectory are truncated to the shorter. Fails with `TimeOverflow` exactly when some
/// arrival time does not fit in `u64`.
pub fn retime(
    samples: &Vec<i64>,
    source: &Vec<Position>,
    listener: &Position,
    acoustics: &Acoustics,
) -> (r: Result<Vec<Untimed>, PipelineError>)
    ensures
        match r {
            Ok(v) => arrivals_fit(samples@, source@, *listener, *acoustics) && v@ == retimed(
                samples@,
                source@,
                *listener,
                *acoustics,
            ),
            Err(e) => e == PipelineError::TimeOverflow && !arrivals_fit(
                samples@,
                source@,
                *listener,
                *acoustics,
            ),
        },
{
    let n = if samples.len() <= source.len() {
        samples.len()
    } else {
        source.len()
    };
    let mut out: Vec<Untimed> = Vec::with_capacity(n);
    let mut i: usize = 0;
    while i < n
        invariant
            n == min2(samples@.len(), source@.len()),
            i <= n,
            out@.len() == i,
            forall|j: int|
                0 <= j < i ==> arrival(j, #[trigger] source@[j], *listener, *acoustics) <= u64::MAX,
            forall|j: int|
                0 <= j < i ==> #[trigger] out@[j] == (Untimed {
                    sample: samples@[j],
                    time: arrival(j, source@[j], *listener, *acoustics) as u64,
                }),
        decreases n - i,
    {
        let d = delay(&source[i], listener, acoustics);
        assert(i * acoustics.speed_of_sound <= 0x1_0000_0000_0000_0000 * 0x1_0000_0000)
            by (nonlinear_arith)
            requires
                i < 0x1_0000_0000_0000_0000,
                acoustics.speed_of_sound < 0x1_0000_0000,
        ;
        let t: u128 = (i as u128) * (acoustics.speed_of_sound as u128) + d;
        assert(t == arrival(i as int, source@[i as int], *listener, *acoustics));
        if t > u64::MAX as u128 {
            return Err(PipelineError::TimeOverflow);
        }
        out.push(Untimed { sample: samples[i], time: t as u64 });
        i = i + 1;
    }
    assert(out@ =~= retimed(samples@, source@, *listener, *acoustics));
    Ok(out)
}

} // verus!
