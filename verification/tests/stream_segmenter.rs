use handy::stream_segmenter::{SegmentClose, StreamSegmenter, StreamSegmenterConfig};

fn cfg() -> StreamSegmenterConfig {
    // 30 ms frames, 10 s min segment, 700 ms silence to close.
    StreamSegmenterConfig {
        frame_ms: 30,
        min_segment_ms: 10_000,
        close_on_silence_ms: 700,
    }
}

/// Frames covering `n` ms.
fn ms(n: usize) -> usize {
    n.div_ceil(30)
}

fn feed(seg: &mut StreamSegmenter, is_speech: bool, frames: usize) -> Vec<SegmentClose> {
    let mut closes = Vec::new();
    for _ in 0..frames {
        if let Some(c) = seg.push(is_speech) {
            closes.push(c);
        }
    }
    closes
}

#[test]
fn silence_only_never_closes() {
    let mut s = StreamSegmenter::new(cfg());
    assert!(feed(&mut s, false, ms(30_000)).is_empty());
    assert_eq!(s.open_has_speech(), false);
}

#[test]
fn speech_shorter_than_min_does_not_close_on_pause() {
    let mut s = StreamSegmenter::new(cfg());
    // 5 s speech, then a full second of silence: still under the 10 s min.
    assert!(feed(&mut s, true, ms(5_000)).is_empty());
    assert!(feed(&mut s, false, ms(1_000)).is_empty());
}

#[test]
fn thinking_pause_under_threshold_does_not_close() {
    let mut s = StreamSegmenter::new(cfg());
    feed(&mut s, true, ms(12_000));
    // 400 ms hesitation, below the 700 ms close threshold.
    assert!(feed(&mut s, false, ms(400)).is_empty());
    assert!(feed(&mut s, true, ms(3_000)).is_empty());
}

#[test]
fn closes_once_past_min_then_silence() {
    let mut s = StreamSegmenter::new(cfg());
    feed(&mut s, true, ms(12_000));
    let closes = feed(&mut s, false, ms(700));
    assert_eq!(closes.len(), 1);
    let c = &closes[0];
    assert_eq!(c.trailing_silence_frames, ms(700));
    assert_eq!(c.frames, ms(12_000) + ms(700));
    // A fresh segment afterwards.
    assert_eq!(s.open_frames(), 0);
    assert_eq!(s.open_has_speech(), false);
}

#[test]
fn multiple_segments_each_need_their_own_min() {
    let mut s = StreamSegmenter::new(cfg());
    feed(&mut s, true, ms(11_000));
    assert_eq!(feed(&mut s, false, ms(700)).len(), 1);
    // A short 4 s clause and a pause must not close: its own min applies.
    feed(&mut s, true, ms(4_000));
    assert!(feed(&mut s, false, ms(1_000)).is_empty());
    feed(&mut s, true, ms(7_000));
    assert_eq!(feed(&mut s, false, ms(700)).len(), 1);
}

#[test]
fn open_segment_tracks_remaining_tail() {
    let mut s = StreamSegmenter::new(cfg());
    feed(&mut s, true, ms(11_000));
    feed(&mut s, false, ms(700));
    feed(&mut s, true, ms(2_000));
    assert_eq!(s.open_frames(), ms(2_000));
    assert!(s.open_has_speech());
}

#[test]
fn segments_and_the_tail_cover_every_frame() {
    let mut s = StreamSegmenter::new(cfg());
    let mut closed = 0;
    let mut pushed = 0;
    for round in 0..5 {
        for (speech, length) in [(true, 11_000 + round * 500), (false, 800)] {
            pushed += ms(length);
            for close in feed(&mut s, speech, ms(length)) {
                closed += close.frames;
            }
        }
    }
    assert_eq!(closed + s.open_frames(), pushed);
}

#[test]
fn silence_before_speech_does_not_count_toward_the_minimum() {
    let mut s = StreamSegmenter::new(cfg());
    assert!(feed(&mut s, false, 334).is_empty());
    assert!(feed(&mut s, true, 1).is_empty());
    assert!(feed(&mut s, false, 24).is_empty());
    // The minimum is reached 334 frames after speech began; the close counts every frame.
    assert!(feed(&mut s, false, 308).is_empty());
    assert_eq!(
        s.push(false),
        Some(SegmentClose {
            frames: 334 + 334,
            trailing_silence_frames: 333
        })
    );
}
