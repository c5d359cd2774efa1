//! The dictation lifecycle, driven by one event at a time.
//!
//! Every keyboard event, cancellation and completion passes through one queue
//! ([`TranscriptionCoordinator`]) and is decided by one state machine ([`CoordinatorState`]), so
//! keyboard shortcuts, signals and the transcribe-and-paste pipeline cannot race each other. The
//! machine only decides: whoever runs it performs the [`Effect`] it hands out and reports back
//! what came of it. Times are nanoseconds on one monotonic clock.
use std::collections::VecDeque;
use vstd::prelude::*;

verus! {

/// Presses closer together than this are one press (30 ms).
pub const DEBOUNCE: u64 = 30_000_000;

/// How long a push-to-talk release waits for the press that would cancel it (50 ms).
pub const RELEASE_GRACE: u64 = 50_000_000;

/// How long a key must be held for a Hybrid-mode press to count as hold-to-talk rather than a
/// tap (300 ms).
pub const HOLD_THRESHOLD: u64 = 300_000_000;

/// Longest gap between the first tap's release and the second press for a Hybrid-mode double
/// tap to latch hands-free recording (400 ms).
pub const DOUBLE_TAP_WINDOW: u64 = 400_000_000;

/// How a transcribe key behaves.
#[derive(Debug, Clone, Copy, PartialEq, Eq, Structural)]
pub enum ActivationMode {
    /// Follow the app-wide mode; callers resolve it first, and what is left acts as a toggle.
    Global,
    /// A press starts, the next press stops.
    Toggle,
    /// Recording lasts as long as the key is held.
    PushToTalk,
    /// Hold to talk, double tap to record hands-free.
    Hybrid,
}

#[derive(Debug, Clone, Copy, PartialEq, Eq, Structural)]
pub enum PttAction {
    Passthrough,
    DeferRelease,
    CancelRelease,
}

#[derive(Debug, Clone, Copy, PartialEq, Eq, Structural)]
pub enum HybridAction {
    Nothing,
    Start,
    Stop,
}

/// A push-to-talk release that waits out [`RELEASE_GRACE`].
pub struct PendingRelease {
    pub binding_id: String,
    pub hotkey_string: String,
    pub deadline: u64,
}

/// Where the pipeline stands.
pub enum Stage {
    Idle,
    /// Recording for the binding with this id.
    Recording(String),
    Processing,
}

impl Stage {
    /// Whether a recording for `binding_id` is running.
    pub open spec fn records(self, binding_id: Seq<char>) -> bool {
        self matches Stage::Recording(id) && id@ == binding_id
    }
}

/// State of a Hybrid-mode binding: hold to talk, double tap to latch.
pub struct HybridState {
    /// If a quick tap just happened, when the double-tap window closes. While set, recording is
    /// running but not yet committed to hold or latch.
    pub pending_tap_deadline: Option<u64>,
    /// Recording is locked hands-free.
    pub latched: bool,
    /// When the press that started the current recording happened.
    pub press_start: Option<u64>,
    /// The binding that owns the current Hybrid recording, so that a lone tap can be ended
    /// without a live key event.
    pub binding_id: Option<String>,
    pub hotkey_string: Option<String>,
}

/// No recording, no tap, no latch.
pub open spec fn hybrid_at_rest() -> HybridState {
    HybridState {
        pending_tap_deadline: None,
        latched: false,
        press_start: None,
        binding_id: None,
        hotkey_string: None,
    }
}

impl Default for HybridState {
    fn default() -> (r: HybridState)
        ensures
            r == hybrid_at_rest(),
    {
        HybridState {
            pending_tap_deadline: None,
            latched: false,
            press_start: None,
            binding_id: None,
            hotkey_string: None,
        }
    }
}

impl HybridState {
    pub fn reset(&mut self)
        ensures
            *final(self) == hybrid_at_rest(),
    {
        *self = HybridState::default();
    }

    /// A latched recording has no open double-tap window.
    pub open spec fn wf(self) -> bool {
        self.latched ==> self.pending_tap_deadline is None
    }
}

/// Time from `since` to `now`; zero when `since` lies ahead.
pub open spec fn elapsed(now: u64, since: u64) -> u64 {
    if now >= since {
        (now - since) as u64
    } else {
        0
    }
}

/// The text behind an optional string slice.
pub open spec fn optional_text(s: Option<&str>) -> Option<Seq<char>> {
    match s {
        Some(t) => Some(t@),
        None => None,
    }
}

/// What a key event of a non-Hybrid binding means for the deferred release.
pub open spec fn ptt_action(
    pending_release_binding: Option<Seq<char>>,
    is_pressed: bool,
    push_to_talk: bool,
    binding_id: Seq<char>,
    recording_binding: Option<Seq<char>>,
) -> PttAction {
    if push_to_talk && is_pressed && pending_release_binding == Some(binding_id) {
        PttAction::CancelRelease
    } else if push_to_talk && !is_pressed && recording_binding == Some(binding_id)
        && pending_release_binding is None {
        PttAction::DeferRelease
    } else {
        PttAction::Passthrough
    }
}

fn is_text(s: Option<&str>, text: &str) -> (r: bool)
    ensures
        r == (optional_text(s) == Some(text@)),
{
    match s {
        Some(t) => crate::text::same_text(t, text),
        None => false,
    }
}

/// Decides what a key event does to the deferred push-to-talk release: a release while recording
/// is put off, and the press that follows it (key auto-repeat) takes it back.
pub fn classify_ptt_event(
    pending_release_binding: Option<&str>,
    is_pressed: bool,
    push_to_talk: bool,
    binding_id: &str,
    recording_binding: Option<&str>,
) -> (r: PttAction)
    ensures
        r == ptt_action(
            optional_text(pending_release_binding),
            is_pressed,
            push_to_talk,
            binding_id@,
            optional_text(recording_binding),
        ),
{
    if !push_to_talk {
        return PttAction::Passthrough;
    }
    if is_pressed {
        if is_text(pending_release_binding, binding_id) {
            PttAction::CancelRelease
        } else {
            PttAction::Passthrough
        }
    } else if is_text(recording_binding, binding_id) && pending_release_binding.is_none() {
        PttAction::DeferRelease
    } else {
        PttAction::Passthrough
    }
}

/// How long the key that started the recording has been held at `now`.
pub open spec fn held(h: HybridState, now: u64) -> u64 {
    match h.press_start {
        Some(t) => elapsed(now, t),
        None => 0,
    }
}

/// Whether a press at `now` is the second tap of a double tap.
pub open spec fn within_tap_window(h: HybridState, now: u64) -> bool {
    h.pending_tap_deadline matches Some(d) && now <= d
}

/// What a Hybrid-mode key event asks for.
pub open spec fn hybrid_action(
    h: HybridState,
    stage: Stage,
    binding_id: Seq<char>,
    is_pressed: bool,
    now: u64,
    hold_threshold: u64,
) -> HybridAction {
    if is_pressed && stage is Idle {
        HybridAction::Start
    } else if is_pressed && stage.records(binding_id) && h.latched {
        HybridAction::Stop
    } else if !is_pressed && stage.records(binding_id) && !h.latched && held(h, now)
        >= hold_threshold {
        HybridAction::Stop
    } else {
        HybridAction::Nothing
    }
}

/// The Hybrid state after a key event.
pub open spec fn hybrid_after(
    h: HybridState,
    stage: Stage,
    binding_id: Seq<char>,
    is_pressed: bool,
    now: u64,
    hold_threshold: u64,
    double_tap_window: u64,
) -> HybridState {
    if is_pressed && stage is Idle {
        HybridState {
            press_start: Some(now),
            latched: false,
            pending_tap_deadline: None,
            ..h
        }
    } else if is_pressed && stage.records(binding_id) && !h.latched && within_tap_window(h, now) {
        HybridState { latched: true, pending_tap_deadline: None, ..h }
    } else if !is_pressed && stage.records(binding_id) && !h.latched {
        if held(h, now) >= hold_threshold {
            HybridState { pending_tap_deadline: None, press_start: None, ..h }
        } else {
            HybridState { pending_tap_deadline: Some((now + double_tap_window) as u64), ..h }
        }
    } else {
        h
    }
}

/// Whether `stage` is a recording for `binding_id`.
fn stage_records(stage: &Stage, binding_id: &str) -> (r: bool)
    ensures
        r == stage.records(binding_id@),
{
    match stage {
        Stage::Recording(id) => crate::text::same_text(id.as_str(), binding_id),
        _ => false,
    }
}

fn time_since(now: u64, since: u64) -> (r: u64)
    ensures
        r == elapsed(now, since),
{
    if now >= since {
        now - since
    } else {
        0
    }
}

/// Decides what a Hybrid-mode press or release does.
///
/// - Press while idle: start recording (it may become a hold, a lone tap, or the first tap of a
///   double tap).
/// - Release of a long press: stop.
/// - Release of a quick tap: keep recording and open the double-tap window.
/// - Second press within the window: latch hands-free, keep recording.
/// - Press while latched: stop.
///
/// A lone quick tap whose window closes without a second press is ended by
/// [`CoordinatorState::expire_tap`].
pub fn evaluate_hybrid(
    hybrid: &mut HybridState,
    stage: &Stage,
    binding_id: &str,
    is_pressed: bool,
    now: u64,
    hold_threshold: u64,
    double_tap_window: u64,
) -> (r: HybridAction)
    requires
        now + double_tap_window <= u64::MAX,
    ensures
        r == hybrid_action(*old(hybrid), *stage, binding_id@, is_pressed, now, hold_threshold),
        *final(hybrid) == hybrid_after(
            *old(hybrid),
            *stage,
            binding_id@,
            is_pressed,
            now,
            hold_threshold,
            double_tap_window,
        ),
        old(hybrid).wf() ==> final(hybrid).wf(),
{
    if is_pressed {
        if matches!(stage, Stage::Idle) {
            hybrid.press_start = Some(now);
            hybrid.latched = false;
            hybrid.pending_tap_deadline = None;
            return HybridAction::Start;
        }
        if stage_records(stage, binding_id) {
            if hybrid.latched {
                return HybridAction::Stop;
            }
            let second_tap = match hybrid.pending_tap_deadline {
                Some(d) => now <= d,
                None => false,
            };
            if second_tap {
                hybrid.latched = true;
                hybrid.pending_tap_deadline = None;
            }
        }
        HybridAction::Nothing
    } else if stage_records(stage, binding_id) && !hybrid.latched {
        let held_for: u64 = match hybrid.press_start {
            Some(t) => time_since(now, t),
            None => 0,
        };
        if held_for >= hold_threshold {
            hybrid.pending_tap_deadline = None;
            hybrid.press_start = None;
            HybridAction::Stop
        } else {
            hybrid.pending_tap_deadline = Some(now + double_tap_window);
            HybridAction::Nothing
        }
    } else {
        HybridAction::Nothing
    }
}

/// Whether `id` names a binding that starts a transcription.
pub fn is_transcribe_binding(id: &str) -> (r: bool)
    ensures
        r == (id@ == "transcribe"@ || id@ == "transcribe_with_post_process"@ || id@
            == "transcribe_toggle"@),
{
    crate::text::same_text(id, "transcribe") || crate::text::same_text(
        id,
        "transcribe_with_post_process",
    ) || crate::text::same_text(id, "transcribe_toggle")
}

/// An event, as it is queued.
pub enum Command {
    Input { binding_id: String, hotkey_string: String, is_pressed: bool, mode: ActivationMode },
    Cancel { recording_was_active: bool },
    /// Lock an active Hybrid recording hands-free (Space while holding the key).
    Latch,
    ProcessingFinished,
}

/// What a [`Command`] says, whatever strings carry it.
pub enum CommandView {
    Input {
        binding_id: Seq<char>,
        hotkey_string: Seq<char>,
        is_pressed: bool,
        mode: ActivationMode,
    },
    Cancel { recording_was_active: bool },
    Latch,
    ProcessingFinished,
}

impl View for Command {
    type V = CommandView;

    open spec fn view(&self) -> CommandView {
        match *self {
            Command::Input { binding_id, hotkey_string, is_pressed, mode } => CommandView::Input {
                binding_id: binding_id@,
                hotkey_string: hotkey_string@,
                is_pressed,
                mode,
            },
            Command::Cancel { recording_was_active } => CommandView::Cancel {
                recording_was_active,
            },
            Command::Latch => CommandView::Latch,
            Command::ProcessingFinished => CommandView::ProcessingFinished,
        }
    }
}

/// What the machine asks its owner to do.
pub enum Effect {
    Nothing,
    /// Run the binding's start action, then report to [`CoordinatorState::report_start`].
    Start { binding_id: String, hotkey_string: String, hybrid: bool },
    /// Run the binding's stop action, then report to [`CoordinatorState::report_stop`].
    Stop { binding_id: String, hotkey_string: String },
    /// Throw the running recording away. Nothing is transcribed, so no completion follows and
    /// nothing is reported back.
    Discard { binding_id: String, hotkey_string: String },
}

/// The lifecycle of one dictation after another.
pub struct CoordinatorState {
    pub stage: Stage,
    /// When the last accepted press of a non-Hybrid binding happened.
    pub last_press: Option<u64>,
    pub pending_release: Option<PendingRelease>,
    pub hybrid: HybridState,
    /// Completions still to come from pipelines that were cancelled. A cancelled pipeline is
    /// abandoned, not aborted, so it reports its end late; those reports are swallowed.
    pub stale_finishes: u64,
}

impl CoordinatorState {
    /// A latched recording has no open window, and a recording that runs while a binding owns the
    /// Hybrid state is that binding's.
    pub open spec fn wf(self) -> bool {
        &&& self.hybrid.wf()
        &&& self.hybrid.binding_id matches Some(id) ==> self.stage is Recording
            ==> self.stage.records(id@)
    }

    /// The binding whose release is waiting.
    pub open spec fn pending_binding(self) -> Option<Seq<char>> {
        match self.pending_release {
            Some(p) => Some(p.binding_id@),
            None => None,
        }
    }

    /// The binding that is recording.
    pub open spec fn recording_binding(self) -> Option<Seq<char>> {
        match self.stage {
            Stage::Recording(id) => Some(id@),
            _ => None,
        }
    }

    /// What a non-Hybrid key event does to the deferred release.
    pub open spec fn release_decision(
        self,
        binding_id: Seq<char>,
        is_pressed: bool,
        mode: ActivationMode,
    ) -> PttAction {
        ptt_action(
            self.pending_binding(),
            is_pressed,
            mode == ActivationMode::PushToTalk,
            binding_id,
            self.recording_binding(),
        )
    }

    /// Whether a non-Hybrid press at `now` follows the last one too closely.
    pub open spec fn debounced(self, is_pressed: bool, now: u64) -> bool {
        &&& is_pressed
        &&& self.last_press matches Some(t)
        &&& elapsed(now, t) < DEBOUNCE
    }

    /// The state after a key event.
    pub open spec fn after_input(
        self,
        binding_id: String,
        hotkey_string: String,
        is_pressed: bool,
        mode: ActivationMode,
        now: u64,
    ) -> CoordinatorState {
        if mode == ActivationMode::Hybrid {
            let hybrid = hybrid_after(
                self.hybrid,
                self.stage,
                binding_id@,
                is_pressed,
                now,
                HOLD_THRESHOLD,
                DOUBLE_TAP_WINDOW,
            );
            if hybrid_action(self.hybrid, self.stage, binding_id@, is_pressed, now, HOLD_THRESHOLD)
                == HybridAction::Stop {
                CoordinatorState { hybrid: hybrid_at_rest(), ..self }
            } else {
                CoordinatorState { hybrid, ..self }
            }
        } else {
            match self.release_decision(binding_id@, is_pressed, mode) {
                PttAction::CancelRelease => CoordinatorState { pending_release: None, ..self },
                PttAction::DeferRelease => CoordinatorState {
                    pending_release: Some(
                        PendingRelease {
                            binding_id,
                            hotkey_string,
                            deadline: (now + RELEASE_GRACE) as u64,
                        },
                    ),
                    ..self
                },
                PttAction::Passthrough => if is_pressed && !self.debounced(is_pressed, now) {
                    CoordinatorState { last_press: Some(now), ..self }
                } else {
                    self
                },
            }
        }
    }

    /// What a key event asks for.
    pub open spec fn input_effect(
        self,
        binding_id: String,
        hotkey_string: String,
        is_pressed: bool,
        mode: ActivationMode,
        now: u64,
    ) -> Effect {
        if mode == ActivationMode::Hybrid {
            match hybrid_action(
                self.hybrid,
                self.stage,
                binding_id@,
                is_pressed,
                now,
                HOLD_THRESHOLD,
            ) {
                HybridAction::Start => Effect::Start { binding_id, hotkey_string, hybrid: true },
                HybridAction::Stop => Effect::Stop { binding_id, hotkey_string },
                HybridAction::Nothing => Effect::Nothing,
            }
        } else if self.release_decision(binding_id@, is_pressed, mode) != PttAction::Passthrough
            || self.debounced(is_pressed, now) {
            Effect::Nothing
        } else if is_pressed && self.stage is Idle {
            Effect::Start { binding_id, hotkey_string, hybrid: false }
        } else if self.stage.records(binding_id@) && is_pressed != (mode
            == ActivationMode::PushToTalk) {
            // A push-to-talk key stops on its release, any other key on its press.
            Effect::Stop { binding_id, hotkey_string }
        } else {
            Effect::Nothing
        }
    }

    /// The state after a command at `now`.
    pub open spec fn after(self, command: Command, now: u64) -> CoordinatorState {
        match command {
            Command::Input { binding_id, hotkey_string, is_pressed, mode } => self.after_input(
                binding_id,
                hotkey_string,
                is_pressed,
                mode,
                now,
            ),
            Command::Cancel { .. } => CoordinatorState {
                stage: Stage::Idle,
                last_press: self.last_press,
                pending_release: None,
                hybrid: hybrid_at_rest(),
                stale_finishes: if self.stage is Processing {
                    (self.stale_finishes + 1) as u64
                } else {
                    self.stale_finishes
                },
            },
            Command::Latch => if self.hybrid.binding_id is Some && self.stage is Recording {
                CoordinatorState {
                    hybrid: HybridState {
                        latched: true,
                        pending_tap_deadline: None,
                        ..self.hybrid
                    },
                    ..self
                }
            } else {
                self
            },
            Command::ProcessingFinished => if self.stale_finishes > 0 {
                CoordinatorState { stale_finishes: (self.stale_finishes - 1) as u64, ..self }
            } else {
                CoordinatorState { stage: Stage::Idle, ..self }
            },
        }
    }

    /// What a command at `now` asks for.
    pub open spec fn effect(self, command: Command, now: u64) -> Effect {
        match command {
            Command::Input { binding_id, hotkey_string, is_pressed, mode } => self.input_effect(
                binding_id,
                hotkey_string,
                is_pressed,
                mode,
                now,
            ),
            _ => Effect::Nothing,
        }
    }

    pub fn new() -> (r: CoordinatorState)
        ensures
            r.stage is Idle,
            r.last_press is None,
            r.pending_release is None,
            r.hybrid == hybrid_at_rest(),
            r.stale_finishes == 0,
            r.wf(),
    {
        CoordinatorState {
            stage: Stage::Idle,
            last_press: None,
            pending_release: None,
            hybrid: HybridState::default(),
            stale_finishes: 0,
        }
    }

    fn on_input(
        &mut self,
        binding_id: String,
        hotkey_string: String,
        is_pressed: bool,
        mode: ActivationMode,
        now: u64,
    ) -> (r: Effect)
        requires
            now + DOUBLE_TAP_WINDOW <= u64::MAX,
        ensures
            *final(self) == old(self).after_input(
                binding_id,
                hotkey_string,
                is_pressed,
                mode,
                now,
            ),
            r == old(self).input_effect(binding_id, hotkey_string, is_pressed, mode, now),
            !is_pressed && mode != ActivationMode::PushToTalk && mode != ActivationMode::Hybrid ==> r
                is Nothing && *final(self) == *old(self),
            final(self).stage == old(self).stage,
            old(self).wf() ==> final(self).wf(),
    {
        if mode == ActivationMode::Hybrid {
            return match evaluate_hybrid(
                &mut self.hybrid,
                &self.stage,
                binding_id.as_str(),
                is_pressed,
                now,
                HOLD_THRESHOLD,
                DOUBLE_TAP_WINDOW,
            ) {
                HybridAction::Start => Effect::Start { binding_id, hotkey_string, hybrid: true },
                HybridAction::Stop => {
                    self.hybrid.reset();
                    Effect::Stop { binding_id, hotkey_string }
                },
                HybridAction::Nothing => Effect::Nothing,
            };
        }
        let push_to_talk = mode == ActivationMode::PushToTalk;
        let decision = {
            let pending_release_binding: Option<&str> = match &self.pending_release {
                Some(p) => Some(p.binding_id.as_str()),
                None => None,
            };
            let recording_binding: Option<&str> = match &self.stage {
                Stage::Recording(id) => Some(id.as_str()),
                _ => None,
            };
            classify_ptt_event(
                pending_release_binding,
                is_pressed,
                push_to_talk,
                binding_id.as_str(),
                recording_binding,
            )
        };
        match decision {
            PttAction::CancelRelease => {
                self.pending_release = None;
                return Effect::Nothing;
            },
            PttAction::DeferRelease => {
                self.pending_release = Some(
                    PendingRelease { binding_id, hotkey_string, deadline: now + RELEASE_GRACE },
                );
                return Effect::Nothing;
            },
            PttAction::Passthrough => {},
        }
        if is_pressed {
            let too_soon = match self.last_press {
                Some(t) => time_since(now, t) < DEBOUNCE,
                None => false,
            };
            if too_soon {
                return Effect::Nothing;
            }
            self.last_press = Some(now);
        }
        if is_pressed && matches!(self.stage, Stage::Idle) {
            return Effect::Start { binding_id, hotkey_string, hybrid: false };
        }
        if is_pressed != push_to_talk && stage_records(&self.stage, binding_id.as_str()) {
            return Effect::Stop { binding_id, hotkey_string };
        }
        Effect::Nothing
    }

    /// Decides one command.
    pub fn on_command(&mut self, command: Command, now: u64) -> (r: Effect)
        requires
            now + DOUBLE_TAP_WINDOW <= u64::MAX,
            old(self).stale_finishes < u64::MAX,
        ensures
            *final(self) == old(self).after(command, now),
            r == old(self).effect(command, now),
            command matches Command::Input { is_pressed, mode, .. } ==> !is_pressed && mode
                != ActivationMode::PushToTalk && mode != ActivationMode::Hybrid ==> r is Nothing
                && *final(self) == *old(self),
            r is Start ==> old(self).stage is Idle,
            r is Stop ==> old(self).stage is Recording,
            old(self).wf() ==> final(self).wf(),
    {
        match command {
            Command::Input { binding_id, hotkey_string, is_pressed, mode } => self.on_input(
                binding_id,
                hotkey_string,
                is_pressed,
                mode,
                now,
            ),
            Command::Cancel { recording_was_active: _ } => {
                self.pending_release = None;
                self.hybrid.reset();
                if matches!(self.stage, Stage::Processing) {
                    self.stale_finishes = self.stale_finishes + 1;
                }
                self.stage = Stage::Idle;
                Effect::Nothing
            },
            Command::Latch => {
                if self.hybrid.binding_id.is_some() && matches!(self.stage, Stage::Recording(_)) {
                    self.hybrid.latched = true;
                    self.hybrid.pending_tap_deadline = None;
                }
                Effect::Nothing
            },
            Command::ProcessingFinished => {
                if self.stale_finishes > 0 {
                    self.stale_finishes = self.stale_finishes - 1;
                } else {
                    self.stage = Stage::Idle;
                }
                Effect::Nothing
            },
        }
    }

    /// The state after a start action: `recording` says whether a recording is running now.
    pub open spec fn after_start(
        self,
        binding_id: String,
        hotkey_string: String,
        hybrid: bool,
        recording: bool,
    ) -> CoordinatorState {
        let stage = if recording {
            Stage::Recording(binding_id)
        } else {
            self.stage
        };
        CoordinatorState {
            stage,
            hybrid: if !hybrid {
                if recording {
                    hybrid_at_rest()
                } else {
                    self.hybrid
                }
            } else if stage.records(binding_id@) {
                HybridState {
                    binding_id: Some(binding_id),
                    hotkey_string: Some(hotkey_string),
                    ..self.hybrid
                }
            } else {
                hybrid_at_rest()
            },
            ..self
        }
    }

    /// Takes note of what came of [`Effect::Start`]. A start that did not begin to record (no
    /// action for the binding, no microphone) leaves the stage as it was. A recording that a key of
    /// another mode began has nothing to do with an earlier tap, so it puts the Hybrid state at
    /// rest.
    pub fn report_start(
        &mut self,
        binding_id: String,
        hotkey_string: String,
        hybrid: bool,
        recording: bool,
    )
        ensures
            *final(self) == old(self).after_start(binding_id, hotkey_string, hybrid, recording),
            old(self).wf() ==> final(self).wf(),
    {
        if recording {
            self.stage = Stage::Recording(binding_id.clone());
        }
        if hybrid {
            if stage_records(&self.stage, binding_id.as_str()) {
                self.hybrid.binding_id = Some(binding_id);
                self.hybrid.hotkey_string = Some(hotkey_string);
            } else {
                self.hybrid.reset();
            }
        } else if recording {
            self.hybrid.reset();
        }
    }

    /// The state after a stop action: `dispatched` says whether the binding has an action.
    pub open spec fn after_stop(self, dispatched: bool) -> CoordinatorState {
        if dispatched {
            CoordinatorState { stage: Stage::Processing, hybrid: hybrid_at_rest(), ..self }
        } else {
            self
        }
    }

    /// Takes note of what came of [`Effect::Stop`]. A recording that has stopped, by whichever key,
    /// leaves no Hybrid state behind.
    pub fn report_stop(&mut self, dispatched: bool)
        ensures
            *final(self) == old(self).after_stop(dispatched),
            old(self).wf() ==> final(self).wf(),
    {
        if dispatched {
            self.stage = Stage::Processing;
            self.hybrid.reset();
        }
    }

    /// Whether the deferred release is due at `now`.
    pub open spec fn release_due(self, now: u64) -> bool {
        self.pending_release matches Some(p) && now >= p.deadline
    }

    /// Whether the double-tap window has closed at `now`.
    pub open spec fn tap_due(self, now: u64) -> bool {
        self.hybrid.pending_tap_deadline matches Some(d) && now >= d
    }

    /// The state once a due release has fired.
    pub open spec fn after_release_expiry(self, now: u64) -> CoordinatorState {
        if self.release_due(now) {
            CoordinatorState { pending_release: None, ..self }
        } else {
            self
        }
    }

    /// What a due release asks for.
    pub open spec fn release_expiry_effect(self, now: u64) -> Effect {
        match self.pending_release {
            Some(p) => if now >= p.deadline && self.stage.records(p.binding_id@) {
                Effect::Stop { binding_id: p.binding_id, hotkey_string: p.hotkey_string }
            } else {
                Effect::Nothing
            },
            None => Effect::Nothing,
        }
    }

    /// Whether the tap whose window closes at `now` is the one that started the recording: a binding
    /// owns the Hybrid state from its own start until that recording stops or another mode starts
    /// one.
    pub open spec fn lone_tap(self, now: u64) -> bool {
        &&& self.tap_due(now)
        &&& !self.hybrid.latched
        &&& self.hybrid.hotkey_string is Some
        &&& self.hybrid.binding_id matches Some(id)
        &&& self.stage.records(id@)
    }

    /// The state once a closed double-tap window has been dealt with.
    pub open spec fn after_tap_expiry(self, now: u64) -> CoordinatorState {
        if !self.tap_due(now) {
            self
        } else {
            CoordinatorState {
                stage: if self.lone_tap(now) {
                    Stage::Idle
                } else {
                    self.stage
                },
                hybrid: if self.hybrid.latched {
                    HybridState { pending_tap_deadline: None, press_start: None, ..self.hybrid }
                } else {
                    hybrid_at_rest()
                },
                ..self
            }
        }
    }

    /// What a closed double-tap window asks for.
    pub open spec fn tap_expiry_effect(self, now: u64) -> Effect {
        if self.lone_tap(now) {
            Effect::Discard {
                binding_id: self.hybrid.binding_id->0,
                hotkey_string: self.hybrid.hotkey_string->0,
            }
        } else {
            Effect::Nothing
        }
    }

    /// Fires the deferred push-to-talk release when its grace has run out: recording stops if it
    /// is still that binding's.
    pub fn expire_release(&mut self, now: u64) -> (r: Effect)
        ensures
            *final(self) == old(self).after_release_expiry(now),
            r == old(self).release_expiry_effect(now),
            old(self).wf() ==> final(self).wf(),
    {
        let due = match &self.pending_release {
            Some(p) => now >= p.deadline,
            None => false,
        };
        if !due {
            return Effect::Nothing;
        }
        match self.pending_release.take() {
            Some(p) => {
                if stage_records(&self.stage, p.binding_id.as_str()) {
                    Effect::Stop { binding_id: p.binding_id, hotkey_string: p.hotkey_string }
                } else {
                    Effect::Nothing
                }
            },
            None => Effect::Nothing,
        }
    }

    /// Ends a quick tap whose double-tap window closed without a second press. It was a brushed
    /// key, so the recording it started is thrown away rather than transcribed, and the stage is
    /// free at once: no pipeline runs that could release it later.
    pub fn expire_tap(&mut self, now: u64) -> (r: Effect)
        ensures
            *final(self) == old(self).after_tap_expiry(now),
            r == old(self).tap_expiry_effect(now),
            old(self).wf() ==> final(self).wf(),
    {
        let due = match self.hybrid.pending_tap_deadline {
            Some(d) => now >= d,
            None => false,
        };
        if !due {
            return Effect::Nothing;
        }
        self.hybrid.pending_tap_deadline = None;
        self.hybrid.press_start = None;
        if self.hybrid.latched {
            return Effect::Nothing;
        }
        let binding_id = self.hybrid.binding_id.take();
        let hotkey_string = self.hybrid.hotkey_string.take();
        match (binding_id, hotkey_string) {
            (Some(binding_id), Some(hotkey_string)) => {
                if stage_records(&self.stage, binding_id.as_str()) {
                    self.stage = Stage::Idle;
                    Effect::Discard { binding_id, hotkey_string }
                } else {
                    Effect::Nothing
                }
            },
            _ => Effect::Nothing,
        }
    }

    /// The nearer of two optional times.
    pub open spec fn nearer(a: Option<u64>, b: Option<u64>) -> Option<u64> {
        match (a, b) {
            (Some(x), Some(y)) => Some(
                if x <= y {
                    x
                } else {
                    y
                },
            ),
            (Some(x), None) => Some(x),
            (None, _) => b,
        }
    }

    /// When the machine next has to act on its own, if ever.
    pub open spec fn deadline(self) -> Option<u64> {
        Self::nearer(
            match self.pending_release {
                Some(p) => Some(p.deadline),
                None => None,
            },
            self.hybrid.pending_tap_deadline,
        )
    }

    /// When to wake up if no command arrives: the nearer of the deferred release and the end of
    /// the double-tap window.
    pub fn next_deadline(&self) -> (r: Option<u64>)
        ensures
            r == self.deadline(),
    {
        let release: Option<u64> = match &self.pending_release {
            Some(p) => Some(p.deadline),
            None => None,
        };
        match (release, self.hybrid.pending_tap_deadline) {
            (Some(x), Some(y)) => Some(
                if x <= y {
                    x
                } else {
                    y
                },
            ),
            (Some(x), None) => Some(x),
            (None, tap) => tap,
        }
    }
}

/// The queue through which every event reaches the machine, in the order in which it was sent.
pub struct TranscriptionCoordinator {
    commands: VecDeque<Command>,
}

impl TranscriptionCoordinator {
    /// The commands that wait, oldest first.
    pub closed spec fn waiting(&self) -> Seq<CommandView> {
        self.commands@.map_values(|c: Command| c@)
    }

    pub fn new() -> (r: TranscriptionCoordinator)
        ensures
            r.waiting() == Seq::<CommandView>::empty(),
    {
        let r = TranscriptionCoordinator { commands: VecDeque::new() };
        proof {
            assert(r.waiting() =~= Seq::<CommandView>::empty());
        }
        r
    }

    fn send(&mut self, command: Command)
        ensures
            final(self).waiting() == old(self).waiting().push(command@),
    {
        self.commands.push_back(command);
        proof {
            assert(self.waiting() =~= old(self).waiting().push(command@));
        }
    }

    /// Queues a keyboard or signal event for a transcribe binding. A signal that toggles is sent
    /// with `is_pressed: true` and `mode: ActivationMode::Toggle`.
    pub fn send_input(
        &mut self,
        binding_id: &str,
        hotkey_string: &str,
        is_pressed: bool,
        mode: ActivationMode,
    )
        ensures
            final(self).waiting() == old(self).waiting().push(
                CommandView::Input {
                    binding_id: binding_id@,
                    hotkey_string: hotkey_string@,
                    is_pressed,
                    mode,
                },
            ),
    {
        self.send(
            Command::Input {
                binding_id: binding_id.to_owned(),
                hotkey_string: hotkey_string.to_owned(),
                is_pressed,
                mode,
            },
        );
    }

    pub fn notify_cancel(&mut self, recording_was_active: bool)
        ensures
            final(self).waiting() == old(self).waiting().push(
                CommandView::Cancel { recording_was_active },
            ),
    {
        self.send(Command::Cancel { recording_was_active });
    }

    /// Locks the active Hybrid recording hands-free (Space while holding the key).
    pub fn notify_latch(&mut self)
        ensures
            final(self).waiting() == old(self).waiting().push(CommandView::Latch),
    {
        self.send(Command::Latch);
    }

    pub fn notify_processing_finished(&mut self)
        ensures
            final(self).waiting() == old(self).waiting().push(CommandView::ProcessingFinished),
    {
        self.send(Command::ProcessingFinished);
    }

    /// Takes the oldest command, if one waits.
    pub fn next_command(&mut self) -> (r: Option<Command>)
        ensures
            match r {
                Some(c) => {
                    &&& old(self).waiting().len() > 0
                    &&& c@ == old(self).waiting()[0]
                    &&& final(self).waiting() == old(self).waiting().drop_first()
                },
                None => {
                    &&& old(self).waiting().len() == 0
                    &&& final(self).waiting() == old(self).waiting()
                },
            },
    {
        let r = self.commands.pop_front();
        proof {
            if r is Some {
                assert(self.waiting() =~= old(self).waiting().drop_first());
            }
        }
        r
    }
}

} // verus!
