//! Where a long dictation may be cut.
//!
//! While the user keeps talking, completed clauses are closed off at natural pauses and
//! transcribed in the background, so that at key-release only the open segment is left. The
//! minimum segment is generous on purpose: short segments hurt punctuation at the joins, and a
//! long minimum also keeps a brief "thinking" pause from closing a segment mid-sentence.
//!
//! The segmenter is fed one boolean per audio frame (speech or silence) and reports where a
//! segment closes. All timing is in frames.
use vstd::prelude::*;

verus! {

/// Tuning for the segmenter. All durations are milliseconds.
#[derive(Debug, Clone, Copy)]
pub struct StreamSegmenterConfig {
    /// Audio frame size.
    pub frame_ms: usize,
    /// A segment may only close once it holds at least this much *speech-started* audio: what was
    /// pushed before its first speech does not count. Generous on purpose: short segments hurt
    /// punctuation at the joins, and a long minimum keeps a brief "thinking" pause from closing a
    /// segment mid-sentence.
    pub min_segment_ms: usize,
    /// Contiguous trailing silence that closes a segment (once past the minimum).
    pub close_on_silence_ms: usize,
}

impl Default for StreamSegmenterConfig {
    fn default() -> (r: StreamSegmenterConfig)
        ensures
            r.frame_ms == 30,
            r.min_segment_ms == 10_000,
            r.close_on_silence_ms == 700,
    {
        StreamSegmenterConfig { frame_ms: 30, min_segment_ms: 10_000, close_on_silence_ms: 700 }
    }
}

impl StreamSegmenterConfig {
    /// Frames that cover the minimum segment.
    pub open spec fn min_frames(self) -> int {
        frames_covering(self.min_segment_ms as int, self.frame_ms as int)
    }

    /// Frames that cover the closing silence.
    pub open spec fn silence_frames(self) -> int {
        frames_covering(self.close_on_silence_ms as int, self.frame_ms as int)
    }
}

/// The smallest number of frames that lasts at least `ms`.
pub open spec fn frames_covering(ms: int, frame_ms: int) -> int {
    (ms + frame_ms - 1) / frame_ms
}

/// Emitted when a segment boundary is reached.
#[derive(Debug, PartialEq, Eq, Structural)]
pub struct SegmentClose {
    /// Frames in the closed segment, the silence that closed it included.
    pub frames: usize,
    /// Silent frames at its end, which the caller can trim.
    pub trailing_silence_frames: usize,
}

pub struct StreamSegmenter {
    cfg: StreamSegmenterConfig,
    frames_in_segment: usize,
    trailing_silence_frames: usize,
    /// Frames since the first speech of the segment, that one included; none before it.
    speech_started_frames: usize,
    /// The frames of the open segment.
    segment: Ghost<Seq<bool>>,
}

/// Silent frames at the end of `frames`.
pub open spec fn trailing_silence(frames: Seq<bool>) -> nat
    decreases frames.len(),
{
    if frames.len() == 0 || frames.last() {
        0
    } else {
        trailing_silence(frames.drop_last()) + 1
    }
}

/// Whether any frame is speech.
pub open spec fn has_speech(frames: Seq<bool>) -> bool {
    exists|i: int| 0 <= i < frames.len() && #[trigger] frames[i]
}

/// Frames from the first speech on; none where there is no speech.
pub open spec fn since_speech(frames: Seq<bool>) -> nat
    decreases frames.len(),
{
    if frames.len() == 0 {
        0
    } else if frames[0] {
        frames.len()
    } else {
        since_speech(frames.drop_first())
    }
}

/// Whether a segment that consists of `frames` is complete.
pub open spec fn complete(cfg: StreamSegmenterConfig, frames: Seq<bool>) -> bool {
    &&& has_speech(frames)
    &&& since_speech(frames) >= cfg.min_frames()
    &&& trailing_silence(frames) >= cfg.silence_frames()
}

fn ceil_div(a: usize, b: usize) -> (r: usize)
    requires
        b > 0,
    ensures
        r == frames_covering(a as int, b as int),
{
    let q: usize = a / b;
    proof {
        let x = a as int;
        let y = b as int;
        let q = x / y;
        let m = x % y;
        assert(x == q * y + m && 0 <= m < y) by (nonlinear_arith)
            requires
                y > 0,
                q == x / y,
                m == x % y,
        ;
        if m == 0 {
            assert((x + y - 1) / y == q) by (nonlinear_arith)
                requires
                    y > 0,
                    x == q * y,
            ;
        } else {
            assert((x + y - 1) / y == q + 1) by (nonlinear_arith)
                requires
                    y > 0,
                    x == q * y + m,
                    0 < m < y,
            ;
            assert(q < x) by (nonlinear_arith)
                requires
                    x == q * y + m,
                    0 < m < y,
                    q >= 0,
            ;
        }
    }
    if a % b == 0 {
        q
    } else {
        q + 1
    }
}

impl StreamSegmenter {
    /// The counters say of the open segment what they claim to say.
    #[verifier::type_invariant]
    spec fn wf(self) -> bool {
        &&& self.frames_in_segment == self.segment@.len()
        &&& self.trailing_silence_frames == trailing_silence(self.segment@)
        &&& self.speech_started_frames == since_speech(self.segment@)
    }

    pub closed spec fn config(&self) -> StreamSegmenterConfig {
        self.cfg
    }

    /// The frames that were pushed since the last close.
    pub closed spec fn open_segment(&self) -> Seq<bool> {
        self.segment@
    }

    pub fn new(cfg: StreamSegmenterConfig) -> (r: StreamSegmenter)
        ensures
            r.config() == cfg,
            r.open_segment() == Seq::<bool>::empty(),
    {
        StreamSegmenter {
            cfg,
            frames_in_segment: 0,
            trailing_silence_frames: 0,
            speech_started_frames: 0,
            segment: Ghost(Seq::empty()),
        }
    }

    fn min_segment_frames(&self) -> (r: usize)
        requires
            self.config().frame_ms > 0,
        ensures
            r == self.config().min_frames(),
    {
        ceil_div(self.cfg.min_segment_ms, self.cfg.frame_ms)
    }

    fn close_on_silence_frames(&self) -> (r: usize)
        requires
            self.config().frame_ms > 0,
        ensures
            r == self.config().silence_frames(),
    {
        ceil_div(self.cfg.close_on_silence_ms, self.cfg.frame_ms)
    }

    /// Feeds one frame. Reports a close if this frame completes the open segment; the segmenter
    /// then starts a fresh one.
    pub fn push(&mut self, is_speech: bool) -> (r: Option<SegmentClose>)
        requires
            old(self).config().frame_ms > 0,
            old(self).open_segment().len() < usize::MAX,
        ensures
            final(self).config() == old(self).config(),
            r is Some <==> complete(old(self).config(), old(self).open_segment().push(is_speech)),
            match r {
                Some(close) => {
                    let frames = old(self).open_segment().push(is_speech);
                    &&& close.frames == frames.len()
                    &&& close.trailing_silence_frames == trailing_silence(frames)
                    &&& final(self).open_segment() == Seq::<bool>::empty()
                },
                None => final(self).open_segment() == old(self).open_segment().push(is_speech),
            },
    {
        proof {
            use_type_invariant(&*self);
            lemma_trailing_silence_fits(self.segment@);
            lemma_since_speech(self.segment@);
            lemma_since_speech(self.segment@.push(is_speech));
            lemma_push(self.segment@, is_speech);
            lemma_push_since_speech(self.segment@, is_speech);
        }
        let frames: usize = self.frames_in_segment + 1;
        let trailing: usize = if is_speech {
            0
        } else {
            self.trailing_silence_frames + 1
        };
        let started: usize = if self.speech_started_frames > 0 || is_speech {
            self.speech_started_frames + 1
        } else {
            0
        };
        let long_enough = started >= self.min_segment_frames();
        let paused = trailing >= self.close_on_silence_frames();
        if started > 0 && long_enough && paused {
            *self = StreamSegmenter::new(self.cfg);
            Some(SegmentClose { frames, trailing_silence_frames: trailing })
        } else {
            let ghost segment = self.segment@.push(is_speech);
            *self =
            StreamSegmenter {
                cfg: self.cfg,
                frames_in_segment: frames,
                trailing_silence_frames: trailing,
                speech_started_frames: started,
                segment: Ghost(segment),
            };
            None
        }
    }

    /// Frames in the open segment. At key-release the caller finalizes what is left here.
    pub fn open_frames(&self) -> (r: usize)
        ensures
            r == self.open_segment().len(),
    {
        proof {
            use_type_invariant(self);
        }
        self.frames_in_segment
    }

    /// Whether the open segment has any speech yet (an all-silence tail need not be transcribed).
    pub fn open_has_speech(&self) -> (r: bool)
        ensures
            r == has_speech(self.open_segment()),
    {
        proof {
            use_type_invariant(self);
            lemma_since_speech(self.segment@);
        }
        self.speech_started_frames > 0
    }
}

proof fn lemma_trailing_silence_fits(frames: Seq<bool>)
    ensures
        trailing_silence(frames) <= frames.len(),
    decreases frames.len(),
{
    if frames.len() > 0 && !frames.last() {
        lemma_trailing_silence_fits(frames.drop_last());
    }
}

proof fn lemma_since_speech(frames: Seq<bool>)
    ensures
        since_speech(frames) <= frames.len(),
        (since_speech(frames) > 0) == has_speech(frames),
    decreases frames.len(),
{
    if frames.len() > 0 {
        let rest = frames.drop_first();
        lemma_since_speech(rest);
        if has_speech(rest) {
            let i = choose|i: int| 0 <= i < rest.len() && #[trigger] rest[i];
            assert(frames[i + 1]);
        }
        if !frames[0] && has_speech(frames) {
            let i = choose|i: int| 0 <= i < frames.len() && #[trigger] frames[i];
            assert(rest[i - 1]);
        }
    }
}

proof fn lemma_push_since_speech(open: Seq<bool>, is_speech: bool)
    ensures
        since_speech(open.push(is_speech)) == if since_speech(open) > 0 || is_speech {
            since_speech(open) + 1
        } else {
            0
        },
    decreases open.len(),
{
    let frames = open.push(is_speech);
    if open.len() == 0 {
        assert(frames.drop_first() =~= Seq::<bool>::empty());
        assert(since_speech(Seq::<bool>::empty()) == 0);
    } else if !open[0] {
        lemma_push_since_speech(open.drop_first(), is_speech);
        assert(frames.drop_first() =~= open.drop_first().push(is_speech));
    }
}

proof fn lemma_push(open: Seq<bool>, is_speech: bool)
    ensures
        has_speech(open.push(is_speech)) == (has_speech(open) || is_speech),
        trailing_silence(open.push(is_speech)) == if is_speech {
            0
        } else {
            trailing_silence(open) + 1
        },
{
    let frames = open.push(is_speech);
    assert(frames.drop_last() =~= open);
    if has_speech(open) {
        let i = choose|i: int| 0 <= i < open.len() && #[trigger] open[i];
        assert(frames[i]);
    }
    if is_speech {
        assert(frames[open.len() as int]);
    }
    if has_speech(frames) {
        let i = choose|i: int| 0 <= i < frames.len() && #[trigger] frames[i];
        if i < open.len() {
            assert(open[i]);
        }
    }
}

/// What a run of the segmenter makes of `frames`: the segments it closes, one after the other,
/// and the frames that are left open.
pub open spec fn segmented(cfg: StreamSegmenterConfig, frames: Seq<bool>) -> (
    Seq<Seq<bool>>,
    Seq<bool>,
)
    decreases frames.len(),
{
    if frames.len() == 0 {
        (Seq::empty(), Seq::empty())
    } else {
        let (closed, open) = segmented(cfg, frames.drop_last());
        let longer = open.push(frames.last());
        if complete(cfg, longer) {
            (closed.push(longer), Seq::empty())
        } else {
            (closed, longer)
        }
    }
}

/// No frame is lost and none is counted twice: the closed segments and the open one, put end to
/// end, are the frames that were pushed.
pub proof fn law_segments_cover_the_audio(cfg: StreamSegmenterConfig, frames: Seq<bool>)
    ensures
        segmented(cfg, frames).0.flatten() + segmented(cfg, frames).1 == frames,
    decreases frames.len(),
{
    if frames.len() == 0 {
        assert(Seq::<Seq<bool>>::empty().flatten() =~= Seq::<bool>::empty());
        assert(segmented(cfg, frames).0.flatten() + segmented(cfg, frames).1 =~= frames);
    } else {
        law_segments_cover_the_audio(cfg, frames.drop_last());
        let (closed, open) = segmented(cfg, frames.drop_last());
        let longer = open.push(frames.last());
        assert(frames.drop_last().push(frames.last()) =~= frames);
        assert(closed.flatten() + longer =~= (closed.flatten() + open).push(frames.last()));
        if complete(cfg, longer) {
            closed.lemma_flatten_push(longer);
            assert(segmented(cfg, frames).0.flatten() + segmented(cfg, frames).1 =~= frames);
        }
    }
}

/// Every segment that closes has speech in it, holds the minimum from its first speech on, and ends
/// on the closing silence; and none was complete before its last frame.
pub proof fn law_every_segment_meets_its_own_minimum(cfg: StreamSegmenterConfig, frames: Seq<bool>)
    ensures
        forall|i: int|
            0 <= i < segmented(cfg, frames).0.len() ==> {
                let segment = #[trigger] segmented(cfg, frames).0[i];
                complete(cfg, segment) && !complete(cfg, segment.drop_last())
            },
        !complete(cfg, segmented(cfg, frames).1),
    decreases frames.len(),
{
    if frames.len() > 0 {
        law_every_segment_meets_its_own_minimum(cfg, frames.drop_last());
        let (closed, open) = segmented(cfg, frames.drop_last());
        assert(open.push(frames.last()).drop_last() =~= open);
    }
}

/// Silence alone never closes a segment, however long it lasts.
pub proof fn law_silence_never_closes(cfg: StreamSegmenterConfig, frames: Seq<bool>)
    requires
        !has_speech(frames),
    ensures
        segmented(cfg, frames).0.len() == 0,
        segmented(cfg, frames).1 == frames,
    decreases frames.len(),
{
    if frames.len() > 0 {
        let rest = frames.drop_last();
        assert forall|i: int| 0 <= i < rest.len() implies !(#[trigger] rest[i]) by {
            assert(rest[i] == frames[i]);
        }
        law_silence_never_closes(cfg, rest);
        assert(rest.push(frames.last()) =~= frames);
    }
}

/// A pause shorter than the closing silence closes nothing: as long as the frames at its end are
/// fewer than that, the open segment goes on.
pub proof fn law_short_pause_does_not_close(
    cfg: StreamSegmenterConfig,
    frames: Seq<bool>,
    is_speech: bool,
)
    requires
        trailing_silence(segmented(cfg, frames).1.push(is_speech)) < cfg.silence_frames(),
    ensures
        segmented(cfg, frames.push(is_speech)) == (
            segmented(cfg, frames).0,
            segmented(cfg, frames).1.push(is_speech),
        ),
{
    assert(frames.push(is_speech).drop_last() =~= frames);
}

/// Silence before the first speech does not bring a close any nearer: with it or without it, a
/// segment is complete at the same frame.
pub proof fn law_leading_silence_does_not_count(
    cfg: StreamSegmenterConfig,
    silence: Seq<bool>,
    frames: Seq<bool>,
)
    requires
        !has_speech(silence),
        frames.len() > 0,
        frames[0],
    ensures
        complete(cfg, silence + frames) == complete(cfg, frames),
{
    lemma_since_speech(silence + frames);
    lemma_since_speech(frames);
    lemma_since_speech_of_suffix(silence, frames);
    lemma_trailing_silence_of_suffix(silence, frames);
}

proof fn lemma_trailing_silence_of_suffix(before: Seq<bool>, frames: Seq<bool>)
    requires
        frames.len() > 0,
        frames[0],
    ensures
        trailing_silence(before + frames) == trailing_silence(frames),
    decreases frames.len(),
{
    let all = before + frames;
    assert(all.last() == frames.last());
    if !frames.last() {
        assert(all.drop_last() =~= before + frames.drop_last());
        lemma_trailing_silence_of_suffix(before, frames.drop_last());
    }
}

proof fn lemma_since_speech_of_suffix(silence: Seq<bool>, frames: Seq<bool>)
    requires
        !has_speech(silence),
        frames.len() > 0,
        frames[0],
    ensures
        since_speech(silence + frames) == frames.len(),
    decreases silence.len(),
{
    if silence.len() == 0 {
        assert(silence + frames =~= frames);
    } else {
        let rest = silence.drop_first();
        assert forall|i: int| 0 <= i < rest.len() implies !(#[trigger] rest[i]) by {
            assert(rest[i] == silence[i + 1]);
        }
        assert(!silence[0]);
        assert((silence + frames).drop_first() =~= rest + frames);
        lemma_since_speech_of_suffix(rest, frames);
    }
}

/// So many frames last so long, exactly if they are as many as cover it.
proof fn lemma_covering(ms: int, frame_ms: int, k: int)
    requires
        0 <= ms,
        0 < frame_ms,
        0 <= k,
    ensures
        (frames_covering(ms, frame_ms) <= k) == (ms <= k * frame_ms),
{
    let c = (ms + frame_ms - 1) / frame_ms;
    assert(c * frame_ms <= ms + frame_ms - 1 < c * frame_ms + frame_ms) by (nonlinear_arith)
        requires
            0 < frame_ms,
            c == (ms + frame_ms - 1) / frame_ms,
    ;
    if c <= k {
        assert(c * frame_ms <= k * frame_ms) by (nonlinear_arith)
            requires
                0 < frame_ms,
                c <= k,
        ;
    } else {
        assert(k * frame_ms + frame_ms <= c * frame_ms) by (nonlinear_arith)
            requires
                0 < frame_ms,
                k + 1 <= c,
        ;
    }
}

/// The silence at the end starts right behind the last speech.
pub proof fn law_trailing_silence_starts_behind_the_last_speech(frames: Seq<bool>)
    ensures
        trailing_silence(frames) <= frames.len(),
        forall|i: int|
            frames.len() - trailing_silence(frames) <= i < frames.len() ==> !(#[trigger] frames[i]),
        trailing_silence(frames) < frames.len() ==> frames[frames.len() - trailing_silence(frames)
            - 1],
    decreases frames.len(),
{
    if frames.len() > 0 && !frames.last() {
        let rest = frames.drop_last();
        law_trailing_silence_starts_behind_the_last_speech(rest);
        assert forall|i: int|
            frames.len() - trailing_silence(frames) <= i < frames.len() implies !(
        #[trigger] frames[i]) by {
            if i < rest.len() {
                assert(rest[i] == frames[i]);
            }
        }
    }
}

/// What counts as speech-started begins at the first speech.
pub proof fn law_speech_starts_at_the_first_speech(frames: Seq<bool>)
    ensures
        since_speech(frames) <= frames.len(),
        forall|i: int|
            0 <= i < frames.len() - since_speech(frames) ==> !(#[trigger] frames[i]),
        since_speech(frames) > 0 ==> frames[frames.len() - since_speech(frames)],
    decreases frames.len(),
{
    if frames.len() > 0 && !frames[0] {
        let rest = frames.drop_first();
        law_speech_starts_at_the_first_speech(rest);
        assert forall|i: int| 0 <= i < frames.len() - since_speech(frames) implies !(
        #[trigger] frames[i]) by {
            if i > 0 {
                assert(rest[i - 1] == frames[i]);
            }
        }
    }
}

/// Whether the first speech is at `first`, and everything from `pause` on is silent.
pub open spec fn speaks_then_pauses(frames: Seq<bool>, first: int, pause: int) -> bool {
    &&& 0 <= first < frames.len()
    &&& frames[first]
    &&& forall|i: int| 0 <= i < first ==> !(#[trigger] frames[i])
    &&& 0 <= pause <= frames.len()
    &&& forall|i: int| pause <= i < frames.len() ==> !(#[trigger] frames[i])
}

/// A segment is complete exactly if it holds speech, lasts the minimum from its first speech on,
/// and ends in a pause of the closing length. Nothing else is asked of it: no length is too long.
pub proof fn law_when_a_segment_is_complete(cfg: StreamSegmenterConfig, frames: Seq<bool>)
    requires
        cfg.frame_ms > 0,
    ensures
        complete(cfg, frames) <==> exists|first: int, pause: int| #[trigger]
            speaks_then_pauses(frames, first, pause) && (frames.len() - first) * cfg.frame_ms
                >= cfg.min_segment_ms && (frames.len() - pause) * cfg.frame_ms
                >= cfg.close_on_silence_ms,
{
    let n = frames.len() as int;
    let since = since_speech(frames) as int;
    let trailing = trailing_silence(frames) as int;
    lemma_since_speech(frames);
    law_speech_starts_at_the_first_speech(frames);
    law_trailing_silence_starts_behind_the_last_speech(frames);
    lemma_covering(cfg.min_segment_ms as int, cfg.frame_ms as int, since);
    lemma_covering(cfg.close_on_silence_ms as int, cfg.frame_ms as int, trailing);
    if complete(cfg, frames) {
        assert(speaks_then_pauses(frames, n - since, n - trailing));
    }
    if exists|first: int, pause: int| #[trigger]
        speaks_then_pauses(frames, first, pause) && (n - first) * cfg.frame_ms
            >= cfg.min_segment_ms && (n - pause) * cfg.frame_ms >= cfg.close_on_silence_ms {
        let (first, pause) = choose|first: int, pause: int| #[trigger]
            speaks_then_pauses(frames, first, pause) && (n - first) * cfg.frame_ms
                >= cfg.min_segment_ms && (n - pause) * cfg.frame_ms >= cfg.close_on_silence_ms;
        assert(frames[first]);
        assert(has_speech(frames));
        assert(first == n - since) by {
            if first < n - since {
                assert(!frames[first]);
            }
            if first > n - since {
                assert(!frames[n - since]);
            }
        }
        assert(n - pause <= trailing) by {
            if n - pause > trailing {
                assert(!frames[n - trailing - 1]);
            }
        }
        lemma_covering(cfg.close_on_silence_ms as int, cfg.frame_ms as int, n - pause);
    }
}

/// `speech` frames of speech, then `silence` frames of silence.
pub open spec fn talk(speech: nat, silence: nat) -> Seq<bool> {
    Seq::new(speech, |i: int| true) + Seq::new(silence, |i: int| false)
}

proof fn lemma_talk_stays_open(cfg: StreamSegmenterConfig, speech: nat, silence: nat)
    requires
        cfg.frame_ms > 0,
        silence * cfg.frame_ms < cfg.close_on_silence_ms,
    ensures
        segmented(cfg, talk(speech, silence)) == (Seq::<Seq<bool>>::empty(), talk(speech, silence)),
    decreases speech + silence,
{
    let frames = talk(speech, silence);
    if frames.len() == 0 {
        assert(segmented(cfg, frames).1 =~= frames);
    } else {
        let rest = frames.drop_last();
        if silence > 0 {
            let less = (silence - 1) as nat;
            assert(rest =~= talk(speech, less));
            assert(less * cfg.frame_ms < cfg.close_on_silence_ms) by (nonlinear_arith)
                requires
                    silence * cfg.frame_ms < cfg.close_on_silence_ms,
                    less == silence - 1,
                    cfg.frame_ms > 0,
            ;
            lemma_talk_stays_open(cfg, speech, less);
        } else {
            assert(rest =~= talk((speech - 1) as nat, 0));
            lemma_talk_stays_open(cfg, (speech - 1) as nat, 0);
        }
        assert(rest.push(frames.last()) =~= frames);
        law_trailing_silence_starts_behind_the_last_speech(frames);
        if trailing_silence(frames) > silence {
            if speech > 0 {
                assert(frames[speech - 1]);
            }
        }
        lemma_covering(
            cfg.close_on_silence_ms as int,
            cfg.frame_ms as int,
            trailing_silence(frames) as int,
        );
        assert(trailing_silence(frames) * cfg.frame_ms <= silence * cfg.frame_ms)
            by (nonlinear_arith)
            requires
                trailing_silence(frames) <= silence,
                cfg.frame_ms > 0,
        ;
    }
}

/// However long somebody talks, the pause behind it closes the segment: at the frame that makes the
/// pause long enough and not before, with all frames in it, and the pause at its end.
pub proof fn law_a_pause_closes_however_long_the_talk(
    cfg: StreamSegmenterConfig,
    speech: nat,
    silence: nat,
)
    requires
        cfg.frame_ms > 0,
        speech >= 1,
        silence >= 1,
        (speech + silence) * cfg.frame_ms >= cfg.min_segment_ms,
        silence * cfg.frame_ms >= cfg.close_on_silence_ms,
        (silence - 1) * cfg.frame_ms < cfg.close_on_silence_ms,
    ensures
        segmented(cfg, talk(speech, (silence - 1) as nat)) == (
            Seq::<Seq<bool>>::empty(),
            talk(speech, (silence - 1) as nat),
        ),
        complete(cfg, talk(speech, silence)),
        trailing_silence(talk(speech, silence)) == silence,
        segmented(cfg, talk(speech, silence)) == (
            seq![talk(speech, silence)],
            Seq::<bool>::empty(),
        ),
{
    let frames = talk(speech, silence);
    let before = talk(speech, (silence - 1) as nat);
    lemma_talk_stays_open(cfg, speech, (silence - 1) as nat);
    assert(frames.drop_last() =~= before);
    assert(before.push(false) =~= frames);
    law_when_a_segment_is_complete(cfg, frames);
    assert(frames[0]);
    assert(speaks_then_pauses(frames, 0, speech as int));
    assert(complete(cfg, frames));
    law_trailing_silence_starts_behind_the_last_speech(frames);
    assert(frames[speech - 1]);
    if trailing_silence(frames) < silence {
        assert(!frames[frames.len() - trailing_silence(frames) - 1]);
    }
    assert(segmented(cfg, frames).0 =~= seq![frames]);
}

/// A close only ever gets nearer: more speech in front of a complete segment leaves it complete,
/// and so does more silence behind it.
pub proof fn law_more_audio_keeps_a_segment_complete(
    cfg: StreamSegmenterConfig,
    frames: Seq<bool>,
    more: nat,
)
    requires
        cfg.frame_ms > 0,
        complete(cfg, frames),
    ensures
        complete(cfg, Seq::new(more, |i: int| true) + frames),
        complete(cfg, frames + Seq::new(more, |i: int| false)),
{
    law_when_a_segment_is_complete(cfg, frames);
    let n = frames.len() as int;
    let (first, pause) = choose|first: int, pause: int| #[trigger]
        speaks_then_pauses(frames, first, pause) && (n - first) * cfg.frame_ms
            >= cfg.min_segment_ms && (n - pause) * cfg.frame_ms >= cfg.close_on_silence_ms;
    let f = cfg.frame_ms as int;
    let longer = frames + Seq::new(more, |i: int| false);
    law_when_a_segment_is_complete(cfg, longer);
    assert(longer[first] == frames[first]);
    assert forall|i: int| 0 <= i < first implies !(#[trigger] longer[i]) by {
        assert(longer[i] == frames[i]);
    }
    assert forall|i: int| pause <= i < longer.len() implies !(#[trigger] longer[i]) by {
        if i < n {
            assert(longer[i] == frames[i]);
        }
    }
    assert(speaks_then_pauses(longer, first, pause));
    assert((longer.len() - first) * f >= (n - first) * f && (longer.len() - pause) * f >= (n
        - pause) * f) by (nonlinear_arith)
        requires
            f > 0,
            longer.len() >= n,
    ;
    let talk = Seq::new(more, |i: int| true);
    let ahead = talk + frames;
    law_when_a_segment_is_complete(cfg, ahead);
    let start = if more > 0 {
        0
    } else {
        first
    };
    assert(ahead[more + first] == frames[first]);
    assert forall|i: int| 0 <= i < start implies !(#[trigger] ahead[i]) by {
        assert(ahead[i] == frames[i]);
    }
    assert forall|i: int| more + pause <= i < ahead.len() implies !(#[trigger] ahead[i]) by {
        assert(ahead[i] == frames[i - more]);
    }
    assert(speaks_then_pauses(ahead, start, more + pause));
    assert((ahead.len() - start) * f >= (n - first) * f) by (nonlinear_arith)
        requires
            f > 0,
            ahead.len() - start >= n - first,
    ;
}

} // verus!
