//! The binaural mixer: one attenuate, retime and resample pass per ear, zipped into stereo
//! frames, and the two entry points of the pipeline.
use crate::acoustics::{Acoustics, PipelineError};
use crate::attenuation::{attenuated, loudness_transform, min3, separated};
use crate::geometry::{squared_distance, squared_distance_spec, Position};
use crate::resample::{resample, resampled};
use crate::retime::{arrivals_fit, min2, retime, retimed};
use vstd::prelude::*;

verus! {

/// One output frame: the amplitude heard by each ear.
#[derive(Clone, Copy, Debug, PartialEq, Eq, Structural)]
pub struct Stereo {
    pub left: i64,
    pub right: i64,
}

/// `n` copies of `p`: the trajectory of a point that does not move.
pub open spec fn repeated(p: Position, n: nat) -> Seq<Position> {
    Seq::new(n, |i: int| p)
}

/// The two mono signals side by side, truncated to the shorter.
pub open spec fn zipped(left: Seq<i64>, right: Seq<i64>) -> Seq<Stereo> {
    Seq::new(min2(left.len(), right.len()), |i: int| Stereo { left: left[i], right: right[i] })
}

/// What one ear hears: the source signal attenuated, retimed and resampled for a fixed ear
/// position, or why that cannot be computed (checked in this order: no sample, an ear on the
/// source, an arrival time out of range).
pub open spec fn ear_signal(
    samples: Seq<i32>,
    source: Seq<Position>,
    ear: Position,
    acoustics: Acoustics,
) -> Result<Seq<i64>, PipelineError> {
    let n = min2(samples.len(), source.len());
    let ears = repeated(ear, source.len());
    let loud = attenuated(samples, source, ears);
    if n == 0 {
        Err(PipelineError::EmptyInput)
    } else if !separated(source, ears, n as int) {
        Err(PipelineError::DegenerateGeometry)
    } else if !arrivals_fit(loud, source, ear, acoustics) {
        Err(PipelineError::TimeOverflow)
    } else {
        Ok(resampled(retimed(loud, source, ear, acoustics), acoustics.frame_period_spec()))
    }
}

/// The ear positions, `offset` to either side of `listener` along x, when both fit.
pub open spec fn ears_of(listener: Position, offset: i32) -> Option<(Position, Position)> {
    let lx = listener.x - offset;
    let rx = listener.x + offset;
    if i32::MIN <= lx <= i32::MAX && i32::MIN <= rx <= i32::MAX {
        Some(
            (
                Position { x: lx as i32, y: listener.y, z: listener.z },
                Position { x: rx as i32, y: listener.y, z: listener.z },
            ),
        )
    } else {
        None
    }
}

/// The stereo rendering of a moving source for a listener whose ears sit `ear_offset` to
/// either side of `listener`, or the first reason it cannot be computed (ears out of range,
/// then the left ear, then the right ear).
pub open spec fn mix(
    samples: Seq<i32>,
    source: Seq<Position>,
    listener: Position,
    acoustics: Acoustics,
) -> Result<Seq<Stereo>, PipelineError> {
    match ears_of(listener, acoustics.ear_offset) {
        None => Err(PipelineError::PositionOutOfRange),
        Some((left_ear, right_ear)) => match ear_signal(samples, source, left_ear, acoustics) {
            Err(e) => Err(e),
            Ok(l) => match ear_signal(samples, source, right_ear, acoustics) {
                Err(e) => Err(e),
                Ok(r) => Ok(zipped(l, r)),
            },
        },
    }
}

/// Combines two mono signals index by index into stereo frames, truncated to the shorter.
pub fn stereo_zip(left: &Vec<i64>, right: &Vec<i64>) -> (r: Vec<Stereo>)
    ensures
        r@.len() == min2(left@.len(), right@.len()),
        r@ == zipped(left@, right@),
{
    let n = if left.len() <= right.len() {
        left.len()
    } else {
        right.len()
    };
    let mut out: Vec<Stereo> = Vec::with_capacity(n);
    let mut i: usize = 0;
    while i < n
        invariant
            n == min2(left@.len(), right@.len()),
            i <= n,
            out@.len() == i,
            forall|j: int|
                0 <= j < i ==> #[trigger] out@[j] == (Stereo { left: left@[j], right: right@[j] }),
        decreases n - i,
    {
        out.push(Stereo { left: left[i], right: right[i] });
        i = i + 1;
    }
    assert(out@ =~= zipped(left@, right@));
    out
}

/// `n` copies of `p`.
fn repeat_position(p: Position, n: usize) -> (r: Vec<Position>)
    ensures
        r@ == repeated(p, n as nat),
{
    let mut out: Vec<Position> = Vec::with_capacity(n);
    let mut i: usize = 0;
    while i < n
        invariant
            i <= n,
            out@.len() == i,
            forall|j: int| 0 <= j < i ==> #[trigger] out@[j] == p,
        decreases n - i,
    {
        out.push(p);
        i = i + 1;
    }
    assert(out@ =~= repeated(p, n as nat));
    out
}

/// The ear positions, `offset` to either side of `listener` along x; `None` when one does not
/// fit in the coordinate range.
pub fn ear_positions(listener: &Position, offset: i32) -> (r: Option<(Position, Position)>)
    ensures
        r == ears_of(*listener, offset),
{
    let lx: i64 = listener.x as i64 - offset as i64;
    let rx: i64 = listener.x as i64 + offset as i64;
    if i32::MIN as i64 <= lx && lx <= i32::MAX as i64 && i32::MIN as i64 <= rx && rx
        <= i32::MAX as i64 {
        Some(
            (
                Position { x: lx as i32, y: listener.y, z: listener.z },
                Position { x: rx as i32, y: listener.y, z: listener.z },
            ),
        )
    } else {
        None
    }
}

/// Whether no source position below `n` coincides with the listener position at its index.
fn all_separated(source: &Vec<Position>, listener: &Vec<Position>, n: usize) -> (r: bool)
    requires
        n <= source@.len(),
        n <= listener@.len(),
    ensures
        r == separated(source@, listener@, n as int),
{
    let mut i: usize = 0;
    while i < n
        invariant
            n <= source@.len(),
            n <= listener@.len(),
            i <= n,
            separated(source@, listener@, i as int),
        decreases n - i,
    {
        if squared_distance(&source[i], &listener[i]) == 0 {
            return false;
        }
        i = i + 1;
    }
    true
}

/// What one ear at a fixed position hears of a moving source: attenuation, retiming and
/// resampling onto the output clock.
pub fn render_ear(
    samples: &Vec<i32>,
    source: &Vec<Position>,
    ear: &Position,
    acoustics: &Acoustics,
) -> (r: Result<Vec<i64>, PipelineError>)
    requires
        acoustics.wf(),
    ensures
        match r {
            Ok(v) => ear_signal(samples@, source@, *ear, *acoustics) == Ok::<
                Seq<i64>,
                PipelineError,
            >(v@),
            Err(e) => ear_signal(samples@, source@, *ear, *acoustics) == Err::<
                Seq<i64>,
                PipelineError,
            >(e),
        },
{
    let n = if samples.len() <= source.len() {
        samples.len()
    } else {
        source.len()
    };
    if n == 0 {
        return Err(PipelineError::EmptyInput);
    }
    let ears = repeat_position(*ear, source.len());
    if !all_separated(source, &ears, n) {
        return Err(PipelineError::DegenerateGeometry);
    }
    assert(min3(samples@.len(), source@.len(), ears@.len()) == n);
    let loud = loudness_transform(samples, source, &ears);
    let timed = match retime(&loud, source, ear, acoustics) {
        Ok(t) => t,
        Err(e) => {
            return Err(e);
        },
    };
    match resample(&timed, acoustics.frame_period()) {
        Ok(v) => Ok(v),
        Err(e) => Err(e),
    }
}

/// Renders a moving source in stereo for a listener whose ears sit `ear_offset` to either
/// side of `listener` along x: one pass per ear, zipped into frames.
pub fn binaural_mix(
    samples: &Vec<i32>,
    source: &Vec<Position>,
    listener: &Position,
    acoustics: &Acoustics,
) -> (r: Result<Vec<Stereo>, PipelineError>)
    requires
        acoustics.wf(),
    ensures
        match r {
            Ok(v) => mix(samples@, source@, *listener, *acoustics) == Ok::<
                Seq<Stereo>,
                PipelineError,
            >(v@),
            Err(e) => mix(samples@, source@, *listener, *acoustics) == Err::<
                Seq<Stereo>,
                PipelineError,
            >(e),
        },
{
    let (left_ear, right_ear) = match ear_positions(listener, acoustics.ear_offset) {
        Some(ears) => ears,
        None => {
            return Err(PipelineError::PositionOutOfRange);
        },
    };
    let left = match render_ear(samples, source, &left_ear, acoustics) {
        Ok(v) => v,
        Err(e) => {
            return Err(e);
        },
    };
    let right = match render_ear(samples, source, &right_ear, acoustics) {
        Ok(v) => v,
        Err(e) => {
            return Err(e);
        },
    };
    Ok(stereo_zip(&left, &right))
}

/// The left amplitudes of a sequence of frames.
pub open spec fn lefts(frames: Seq<Stereo>) -> Seq<i64> {
    Seq::new(frames.len(), |i: int| frames[i].left)
}

/// The right amplitudes of a sequence of frames.
pub open spec fn rights(frames: Seq<Stereo>) -> Seq<i64> {
    Seq::new(frames.len(), |i: int| frames[i].right)
}

fn split_frames(frames: &Vec<Stereo>) -> (r: (Vec<i64>, Vec<i64>))
    ensures
        r.0@ == lefts(frames@),
        r.1@ == rights(frames@),
{
    let mut left: Vec<i64> = Vec::with_capacity(frames.len());
    let mut right: Vec<i64> = Vec::with_capacity(frames.len());
    let mut i: usize = 0;
    while i < frames.len()
        invariant
            i <= frames@.len(),
            left@.len() == i,
            right@.len() == i,
            forall|j: int| 0 <= j < i ==> #[trigger] left@[j] == frames@[j].left,
            forall|j: int| 0 <= j < i ==> #[trigger] right@[j] == frames@[j].right,
        decreases frames@.len() - i,
    {
        left.push(frames[i].left);
        right.push(frames[i].right);
        i = i + 1;
    }
    assert(left@ =~= lefts(frames@));
    assert(right@ =~= rights(frames@));
    (left, right)
}

/// Renders a source and a listener that both stay put: every sample is emitted from
/// `source`, and the ears sit `ear_offset` to either side of `listener`. Returns the left and
/// the right signal, of equal length.
pub fn static_transform(
    samples: &Vec<i32>,
    source: &Position,
    listener: &Position,
    acoustics: &Acoustics,
) -> (r: Result<(Vec<i64>, Vec<i64>), PipelineError>)
    requires
        acoustics.wf(),
    ensures
        match r {
            Ok((left, right)) => {
                let m = mix(samples@, repeated(*source, samples@.len()), *listener, *acoustics);
                &&& m is Ok
                &&& left@ == lefts(m->Ok_0)
                &&& right@ == rights(m->Ok_0)
            },
            Err(e) => mix(samples@, repeated(*source, samples@.len()), *listener, *acoustics)
                == Err::<Seq<Stereo>, PipelineError>(e),
        },
{
    let trajectory = repeat_position(*source, samples.len());
    match binaural_mix(samples, &trajectory, listener, acoustics) {
        Ok(frames) => Ok(split_frames(&frames)),
        Err(e) => Err(e),
    }
}

/// What `trajectory_transform` returns: each ear's signal is the source signal attenuated
/// along that ear's trajectory, or the first reason it cannot be computed (an empty output,
/// then an ear meeting the source).
pub open spec fn loudness_pair(
    samples: Seq<i32>,
    source: Seq<Position>,
    left_ear: Seq<Position>,
    right_ear: Seq<Position>,
) -> Result<(Seq<i64>, Seq<i64>), PipelineError> {
    let nl = min3(samples.len(), source.len(), left_ear.len());
    let nr = min3(samples.len(), source.len(), right_ear.len());
    if nl == 0 || nr == 0 {
        Err(PipelineError::EmptyInput)
    } else if !(separated(source, left_ear, nl as int) && separated(source, right_ear, nr as int)) {
        Err(PipelineError::DegenerateGeometry)
    } else {
        Ok((attenuated(samples, source, left_ear), attenuated(samples, source, right_ear)))
    }
}

/// Loudness only, for a moving source and two moving ears: each ear's signal is the source
/// signal attenuated along that ear's trajectory, aligned one to one with the input (no delay
/// and no resampling). Fails with `EmptyInput` when an ear's signal would be empty, and
/// otherwise with `DegenerateGeometry` exactly when an ear meets the source.
pub fn trajectory_transform(
    samples: &Vec<i32>,
    source: &Vec<Position>,
    left_ear: &Vec<Position>,
    right_ear: &Vec<Position>,
) -> (r: Result<(Vec<i64>, Vec<i64>), PipelineError>)
    ensures
        match r {
            Ok((left, right)) => loudness_pair(samples@, source@, left_ear@, right_ear@) == Ok::<
                (Seq<i64>, Seq<i64>),
                PipelineError,
            >((left@, right@)),
            Err(e) => loudness_pair(samples@, source@, left_ear@, right_ear@) == Err::<
                (Seq<i64>, Seq<i64>),
                PipelineError,
            >(e),
        },
{
    let mut n = samples.len();
    if source.len() < n {
        n = source.len();
    }
    let mut nl = n;
    if left_ear.len() < nl {
        nl = left_ear.len();
    }
    let mut nr = n;
    if right_ear.len() < nr {
        nr = right_ear.len();
    }
    if nl == 0 || nr == 0 {
        return Err(PipelineError::EmptyInput);
    }
    if !all_separated(source, left_ear, nl) || !all_separated(source, right_ear, nr) {
        return Err(PipelineError::DegenerateGeometry);
    }
    let left = loudness_transform(samples, source, left_ear);
    let right = loudness_transform(samples, source, right_ear);
    Ok((left, right))
}

} // verus!
