use handy::speech_gate::{
    classify, room_plan, LevelReading, NoSpeechReason, RoomPlan, SpeechVerdict,
};

const SR: u32 = 16_000;
const SILENCE_PEAK_DBFS: f32 = -58.0;
const ROOM_SNR_DB: f32 = 6.0;
const FLOOR_DBFS: f32 = -100.0;

fn dbfs_to_amp(db: f32) -> f32 {
    10f32.powf(db / 20.0)
}

fn level_dbfs(amp: f32) -> f32 {
    if amp > 0.0 {
        (20.0 * amp.log10()).max(FLOOR_DBFS)
    } else {
        FLOOR_DBFS
    }
}

fn rms(samples: &[f32]) -> f32 {
    (samples.iter().map(|x| x * x).sum::<f32>() / samples.len() as f32).sqrt()
}

fn room_floor_dbfs(samples: &[f32], sample_rate: u32) -> Option<f32> {
    let plan = room_plan(samples.len(), sample_rate)?;
    let mut frames: Vec<f32> = samples
        .chunks_exact(plan.frame)
        .map(|c| level_dbfs(rms(c)))
        .collect();
    assert_eq!(frames.len(), plan.frames);
    frames.sort_by(|a, b| a.partial_cmp(b).unwrap());
    Some(frames[plan.index])
}

fn classify_samples(samples: &[f32], sample_rate: u32) -> SpeechVerdict {
    let peak = level_dbfs(samples.iter().fold(0.0f32, |m, x| m.max(x.abs())));
    let levels = LevelReading {
        loud: Some(peak >= SILENCE_PEAK_DBFS),
        above_room: room_floor_dbfs(samples, sample_rate).map(|floor| peak - floor >= ROOM_SNR_DB),
    };
    classify(samples.len(), sample_rate, levels)
}

fn noise(secs: f32, rms_dbfs: f32) -> Vec<f32> {
    let n = (SR as f32 * secs) as usize;
    let amp = dbfs_to_amp(rms_dbfs);
    let mut state = 0x2545_F491_4F6C_DD1Du64;
    (0..n)
        .map(|_| {
            state ^= state << 13;
            state ^= state >> 7;
            state ^= state << 17;
            let unit = (state >> 11) as f64 / (1u64 << 53) as f64;
            ((unit as f32) * 2.0 - 1.0) * amp * 1.732
        })
        .collect()
}

fn tone(secs: f32, peak_dbfs: f32) -> Vec<f32> {
    let n = (SR as f32 * secs) as usize;
    let amp = dbfs_to_amp(peak_dbfs);
    (0..n).map(|i| amp * (i as f32 * 0.05).sin()).collect()
}

#[test]
fn a_brushed_key_is_too_short_to_hold_a_word() {
    assert_eq!(
        classify_samples(&tone(0.25, -20.0), SR),
        SpeechVerdict::NoSpeech(NoSpeechReason::TooShort)
    );
}

#[test]
fn a_dead_microphone_is_silence() {
    assert_eq!(
        classify_samples(&vec![0.0; SR as usize * 3], SR),
        SpeechVerdict::NoSpeech(NoSpeechReason::Silent)
    );
}

#[test]
fn flat_room_tone_never_rises_above_itself() {
    let flat = vec![dbfs_to_amp(-70.0); SR as usize * 3];
    assert_eq!(
        classify_samples(&flat, SR),
        SpeechVerdict::NoSpeech(NoSpeechReason::Silent)
    );
}

#[test]
fn real_speech_levels_are_never_discarded() {
    for peak_dbfs in [-34.5, -32.0, -25.0, -10.0] {
        assert_eq!(
            classify_samples(&tone(2.0, peak_dbfs), SR),
            SpeechVerdict::Speech,
            "peak {peak_dbfs} dBFS must survive"
        );
    }
}

#[test]
fn soft_speech_in_a_quiet_room_survives_on_its_lift_above_the_room() {
    let mut samples = noise(2.0, -95.0);
    for (i, s) in tone(0.5, -70.0).into_iter().enumerate() {
        samples[i] = s;
    }
    assert_eq!(classify_samples(&samples, SR), SpeechVerdict::Speech);
}

#[test]
fn an_unmeasurable_room_keeps_the_audio() {
    // Long enough to pass the duration gate, too few frames for a percentile.
    let samples = vec![0.000_01f32; (SR as f32 * 0.5) as usize];
    assert!(room_floor_dbfs(&samples, SR).is_none());
    assert_eq!(classify_samples(&samples, SR), SpeechVerdict::Speech);
}

#[test]
fn a_nonsense_sample_rate_never_discards() {
    assert_eq!(classify_samples(&[0.0; 100], 0), SpeechVerdict::Speech);
}

#[test]
fn only_speech_is_speech() {
    assert!(SpeechVerdict::Speech.is_speech());
    assert!(!SpeechVerdict::NoSpeech(NoSpeechReason::TooShort).is_speech());
    assert!(!SpeechVerdict::NoSpeech(NoSpeechReason::Silent).is_speech());
}

#[test]
fn four_tenths_of_a_second_are_enough() {
    let quiet = LevelReading {
        loud: Some(false),
        above_room: None,
    };
    assert_eq!(
        classify(6_399, SR, quiet),
        SpeechVerdict::NoSpeech(NoSpeechReason::TooShort)
    );
    assert_eq!(classify(6_400, SR, quiet), SpeechVerdict::Speech);
}

#[test]
fn an_unmeasurable_level_keeps_the_audio() {
    let unknown = LevelReading {
        loud: None,
        above_room: Some(false),
    };
    assert_eq!(classify(48_000, SR, unknown), SpeechVerdict::Speech);
}

#[test]
fn the_room_is_the_quietest_tenth() {
    assert_eq!(
        room_plan(48_000, SR),
        Some(RoomPlan {
            frame: 1_600,
            frames: 30,
            index: 3
        })
    );
    assert_eq!(room_plan(8 * 1_600 - 1, SR), None);
    assert_eq!(room_plan(48_000, 9), None);
}
