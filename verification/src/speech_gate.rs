//! Did anyone actually speak?
//!
//! Answered from the audio, before a single byte goes to a provider. Every clause but the one on
//! duration can only ever prevent a discard, never cause one: a wasted round trip costs a
//! fraction of a cent, a discarded session costs the user's words.
//!
//! Levels are measured in floating point, so they reach this module as what was found of them:
//! whether the peak is loud, and whether it rises above the room.
use vstd::prelude::*;

verus! {

/// Below this many frames a percentile is meaningless, and an unmeasurable room means no guess.
pub const MIN_FLOOR_FRAMES: usize = 8;

#[derive(Debug, Clone, Copy, PartialEq, Eq, Structural)]
pub enum NoSpeechReason {
    /// Too short to hold a word: a key brushed, not a dictation.
    TooShort,
    /// Silent in absolute terms and no louder than the room around it.
    Silent,
}

#[derive(Debug, Clone, Copy, PartialEq, Eq, Structural)]
pub enum SpeechVerdict {
    /// Speech-shaped energy is present. If its transcript comes back empty, that is a dropped
    /// transcript worth retrying, not silence.
    Speech,
    /// Nothing was said.
    NoSpeech(NoSpeechReason),
}

impl SpeechVerdict {
    pub fn is_speech(self) -> (r: bool)
        ensures
            r == (self is Speech),
    {
        matches!(self, SpeechVerdict::Speech)
    }
}

/// What was measured of a recording's level.
#[derive(Debug, Clone, Copy)]
pub struct LevelReading {
    /// Whether the peak reaches the absolute speech level; `None` when it cannot be measured.
    pub loud: Option<bool>,
    /// Whether the peak rises far enough above the room; `None` when the room cannot be measured.
    pub above_room: Option<bool>,
}

/// Shorter than 0.4 s.
pub open spec fn too_short(samples: int, sample_rate: int) -> bool {
    samples * 5 < sample_rate * 2
}

/// Measured and found quiet, next to a room that was measured too and is no quieter.
pub open spec fn silent(levels: LevelReading) -> bool {
    levels.loud == Some(false) && levels.above_room == Some(false)
}

/// The verdict on a recording of `samples` samples.
pub open spec fn verdict(samples: int, sample_rate: int, levels: LevelReading) -> SpeechVerdict {
    if sample_rate == 0 {
        SpeechVerdict::Speech
    } else if too_short(samples, sample_rate) {
        SpeechVerdict::NoSpeech(NoSpeechReason::TooShort)
    } else if silent(levels) {
        SpeechVerdict::NoSpeech(NoSpeechReason::Silent)
    } else {
        SpeechVerdict::Speech
    }
}

/// Classifies a finished recording.
pub fn classify(samples: usize, sample_rate: u32, levels: LevelReading) -> (r: SpeechVerdict)
    ensures
        r == verdict(samples as int, sample_rate as int, levels),
{
    if sample_rate == 0 {
        return SpeechVerdict::Speech;
    }
    if (samples as u128) * 5 < (sample_rate as u128) * 2 {
        return SpeechVerdict::NoSpeech(NoSpeechReason::TooShort);
    }
    match levels.loud {
        // Loud enough on its own, or not measurable: no need to consult the room.
        Some(true) | None => SpeechVerdict::Speech,
        // Quiet. Before calling it silence, ask the room, and if the room cannot be measured,
        // keep the audio rather than guess.
        Some(false) => match levels.above_room {
            Some(true) | None => SpeechVerdict::Speech,
            Some(false) => SpeechVerdict::NoSpeech(NoSpeechReason::Silent),
        },
    }
}

/// How the room is measured: the level of `frames` frames of `frame` samples each is taken, and
/// the one at `index` of the sorted levels is the room's.
#[derive(Debug, Clone, Copy, PartialEq, Eq, Structural)]
pub struct RoomPlan {
    pub frame: usize,
    pub frames: usize,
    pub index: usize,
}

/// The rank of the tenth percentile among `frames` levels: a tenth of the way up, to the nearest
/// whole rank, halves up.
pub open spec fn tenth_percentile(frames: int) -> int {
    (frames - 1 + 5) / 10
}

/// How to measure the room: the quietest tenth of 100 ms frames, not the minimum, so that one
/// anomalous frame does not define it. `None` when there is too little audio to say anything.
pub fn room_plan(samples: usize, sample_rate: u32) -> (r: Option<RoomPlan>)
    ensures
        r is Some <==> sample_rate >= 10 && samples as int / (sample_rate as int / 10)
            >= MIN_FLOOR_FRAMES,
        r is Some <==> sample_rate >= 10 && samples as int / (sample_rate as int / 10) >= 8,
        r matches Some(plan) ==> {
            &&& plan.frame == sample_rate as int / 10
            &&& plan.frames == samples as int / (sample_rate as int / 10)
            &&& plan.index == tenth_percentile(plan.frames as int)
            &&& plan.index < plan.frames
        },
{
    let frame: usize = (sample_rate / 10) as usize;
    if frame == 0 {
        return None;
    }
    let frames: usize = samples / frame;
    if frames < MIN_FLOOR_FRAMES {
        return None;
    }
    Some(RoomPlan { frame, frames, index: (frames - 1) / 10 + (if (frames - 1) % 10 >= 5 {
        1usize
    } else {
        0usize
    }) })
}

/// Whether a reading leaves `b` no more room for a discard than `a`: each measurement of `b` is
/// the same as in `a`, or missing, or speaks for speech.
pub open spec fn no_less_favourable(a: LevelReading, b: LevelReading) -> bool {
    &&& b.loud == a.loud || b.loud != Some(false)
    &&& b.above_room == a.above_room || b.above_room != Some(false)
}

/// No clause on the level can cause a discard, only prevent one: a recording that would be kept
/// is kept under every reading that is no less favourable, and a loud recording, an
/// unmeasurable one, one in an unmeasurable room and one above its room are all kept.
pub proof fn law_level_clauses_only_prevent_a_discard(
    samples: int,
    sample_rate: int,
    a: LevelReading,
    b: LevelReading,
)
    ensures
        verdict(samples, sample_rate, a) is Speech && no_less_favourable(a, b) ==> verdict(
            samples,
            sample_rate,
            b,
        ) is Speech,
        !too_short(samples, sample_rate) && (a.loud != Some(false) || a.above_room != Some(false))
            ==> verdict(samples, sample_rate, a) is Speech,
{
}

/// A recording is thrown away exactly if it is shorter than two fifths of a second, or was measured
/// and found quiet in a room that was measured and found no quieter. Where the rate is unknown
/// nothing is.
pub proof fn law_what_is_thrown_away(samples: int, sample_rate: int, levels: LevelReading)
    requires
        0 <= samples,
        0 <= sample_rate,
    ensures
        verdict(samples, sample_rate, levels) == SpeechVerdict::NoSpeech(NoSpeechReason::TooShort)
            <==> 5 * samples < 2 * sample_rate,
        verdict(samples, sample_rate, levels) == SpeechVerdict::NoSpeech(NoSpeechReason::Silent)
            <==> sample_rate > 0 && 5 * samples >= 2 * sample_rate && levels.loud == Some(false)
            && levels.above_room == Some(false),
{
}

/// The level that stands for the room has a tenth of the others below it, to the nearest.
pub proof fn law_the_room_is_a_tenth_of_the_way_up(frames: int)
    requires
        0 < frames,
    ensures
        -5 <= (frames - 1) - 10 * tenth_percentile(frames) < 5,
        0 <= tenth_percentile(frames) < frames,
{
}

} // verus!
