//! The physical configuration of one rendering, and the errors of the pipeline.
use vstd::prelude::*;

verus! {

/// Speed of sound in air, in millimetres per second.
pub const SPEED_OF_SOUND_AIR: u32 = 343_000;

/// Default output sample rate, in hertz.
pub const DEFAULT_SAMPLE_RATE: u32 = 44_100;

/// Default distance from the head's centre to each ear along x, in millimetres.
pub const DEFAULT_EAR_OFFSET: i32 = 50;

/// The medium and the head geometry of one rendering.
///
/// Time is counted in ticks of `1 / (sample_rate * speed_of_sound)` seconds, so that both the
/// frame period (`speed_of_sound` ticks) and the propagation delay over `d` millimetres
/// (`d * sample_rate` ticks) are whole numbers.
#[derive(Clone, Copy, Debug, PartialEq, Eq, Structural)]
pub struct Acoustics {
    /// Speed of sound, in millimetres per second.
    pub speed_of_sound: u32,
    /// Output sample rate, in hertz.
    pub sample_rate: u32,
    /// Distance from the listener's centre to each ear along x, in millimetres.
    pub ear_offset: i32,
}

impl Acoustics {
    /// Both rates are positive.
    pub open spec fn wf(self) -> bool {
        self.speed_of_sound > 0 && self.sample_rate > 0
    }

    /// The frame period `1 / sample_rate` seconds, in ticks.
    pub open spec fn frame_period_spec(self) -> int {
        self.speed_of_sound as int
    }

    /// Builds a configuration; `None` when a rate is zero.
    pub fn new(speed_of_sound: u32, sample_rate: u32, ear_offset: i32) -> (r: Option<Acoustics>)
        ensures
            r == (if speed_of_sound > 0 && sample_rate > 0 {
                Some(Acoustics { speed_of_sound, sample_rate, ear_offset })
            } else {
                None
            }),
    {
        if speed_of_sound > 0 && sample_rate > 0 {
            Some(Acoustics { speed_of_sound, sample_rate, ear_offset })
        } else {
            None
        }
    }

    /// Air at 343 m/s, 44100 Hz, ears 50 mm either side of the centre.
    pub fn standard() -> (r: Acoustics)
        ensures
            r.wf(),
            r == (Acoustics {
                speed_of_sound: SPEED_OF_SOUND_AIR,
                sample_rate: DEFAULT_SAMPLE_RATE,
                ear_offset: DEFAULT_EAR_OFFSET,
            }),
    {
        Acoustics {
            speed_of_sound: SPEED_OF_SOUND_AIR,
            sample_rate: DEFAULT_SAMPLE_RATE,
            ear_offset: DEFAULT_EAR_OFFSET,
        }
    }

    /// The frame period, in ticks.
    pub fn frame_period(&self) -> (r: u64)
        ensures
            r == self.frame_period_spec(),
    {
        self.speed_of_sound as u64
    }
}

/// Why a rendering could not be produced.
#[derive(Clone, Copy, Debug, PartialEq, Eq, Structural)]
pub enum PipelineError {
    /// There is no sample to render.
    EmptyInput,
    /// A source coincides with the listener, so its loudness factor is unbounded.
    DegenerateGeometry,
    /// An arrival time does not fit in 64 bits of ticks.
    TimeOverflow,
    /// An ear position does not fit in the coordinate range.
    PositionOutOfRange,
}

} // verus!
