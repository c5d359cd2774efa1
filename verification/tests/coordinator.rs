use handy::transcription_coordinator::{
    classify_ptt_event, evaluate_hybrid, is_transcribe_binding, ActivationMode, Command,
    CoordinatorState, Effect, HybridAction, HybridState, PttAction, Stage,
    TranscriptionCoordinator, DEBOUNCE, DOUBLE_TAP_WINDOW, HOLD_THRESHOLD, RELEASE_GRACE,
};

const MS: u64 = 1_000_000;
const BINDING: &str = "transcribe";

#[test]
fn push_to_talk_release_while_recording_defers_release() {
    assert_eq!(
        classify_ptt_event(None, false, true, "transcribe", Some("transcribe")),
        PttAction::DeferRelease
    );
}

#[test]
fn push_to_talk_press_matching_pending_release_cancels_release() {
    assert_eq!(
        classify_ptt_event(
            Some("transcribe"),
            true,
            true,
            "transcribe",
            Some("transcribe")
        ),
        PttAction::CancelRelease
    );
}

#[test]
fn toggle_mode_press_and_release_pass_through() {
    assert_eq!(
        classify_ptt_event(
            Some("transcribe"),
            true,
            false,
            "transcribe",
            Some("transcribe")
        ),
        PttAction::Passthrough
    );
    assert_eq!(
        classify_ptt_event(None, false, false, "transcribe", Some("transcribe")),
        PttAction::Passthrough
    );
}

#[test]
fn press_for_different_binding_than_pending_release_passes_through() {
    assert_eq!(
        classify_ptt_event(
            Some("transcribe"),
            true,
            true,
            "transcribe_with_post_process",
            Some("transcribe")
        ),
        PttAction::Passthrough
    );
}

#[test]
fn press_matching_pending_release_cancels_without_recording_state() {
    assert_eq!(
        classify_ptt_event(Some("transcribe"), true, true, "transcribe", None),
        PttAction::CancelRelease
    );
}

#[derive(Clone, Copy)]
enum Ev {
    /// A key-down event, real or synthesized by auto-repeat.
    Press,
    /// A key-up event, real or synthesized by auto-repeat.
    Release,
    /// The grace window elapsed with no cancelling press.
    Grace,
}

struct Run {
    state: CoordinatorState,
    starts: u32,
    stops: u32,
    discards: u32,
}

impl Run {
    fn new() -> Run {
        Run {
            state: CoordinatorState::new(),
            starts: 0,
            stops: 0,
            discards: 0,
        }
    }

    fn perform(&mut self, effect: Effect) {
        match effect {
            Effect::Nothing => {}
            Effect::Start {
                binding_id,
                hotkey_string,
                hybrid,
            } => {
                self.starts += 1;
                self.state
                    .report_start(binding_id, hotkey_string, hybrid, true);
            }
            Effect::Stop { .. } => {
                self.stops += 1;
                self.state.report_stop(true);
            }
            Effect::Discard { .. } => self.discards += 1,
        }
    }

    fn send(&mut self, command: Command, now: u64) {
        let effect = self.state.on_command(command, now);
        self.perform(effect);
    }

    fn key(&mut self, is_pressed: bool, mode: ActivationMode, now: u64) {
        self.send(
            Command::Input {
                binding_id: BINDING.to_string(),
                hotkey_string: "F5".to_string(),
                is_pressed,
                mode,
            },
            now,
        );
    }

    fn wake(&mut self, now: u64) {
        let effect = self.state.expire_release(now);
        self.perform(effect);
        let effect = self.state.expire_tap(now);
        self.perform(effect);
    }
}

fn simulate(events: &[Ev]) -> Run {
    let mut run = Run::new();
    let mut clock: u64 = 0;
    for event in events {
        // Auto-repeat events arrive a few ms apart, well inside the debounce.
        clock += 5 * MS;
        match event {
            Ev::Press => run.key(true, ActivationMode::PushToTalk, clock),
            Ev::Release => run.key(false, ActivationMode::PushToTalk, clock),
            Ev::Grace => {
                clock = run.state.next_deadline().unwrap();
                run.wake(clock);
            }
        }
    }
    run
}

fn autorepeat_burst() -> Vec<Ev> {
    let mut events = vec![Ev::Press];
    for _ in 0..6 {
        events.push(Ev::Release);
        events.push(Ev::Press);
    }
    events
}

#[test]
fn x11_autorepeat_burst_does_not_toggle_recording() {
    let run = simulate(&autorepeat_burst());
    assert_eq!(run.starts, 1, "recording should start exactly once");
    assert_eq!(
        run.stops, 0,
        "synthesized auto-repeat releases must not stop recording mid-burst"
    );
    assert!(
        matches!(run.state.stage, Stage::Recording(_)),
        "recording must remain active across the entire auto-repeat burst"
    );
}

#[test]
fn genuine_release_after_grace_stops_recording_once() {
    let mut events = autorepeat_burst();
    events.push(Ev::Release);
    events.push(Ev::Grace);
    let run = simulate(&events);
    assert_eq!(run.starts, 1, "recording should start exactly once");
    assert_eq!(
        run.stops, 1,
        "a genuine release should stop recording exactly once"
    );
    assert!(matches!(run.state.stage, Stage::Processing));
}

const HT: u64 = 300 * MS;
const DTW: u64 = 400 * MS;
const HB: &str = "transcribe";
const T0: u64 = 1_000 * MS;

#[test]
fn hybrid_hold_starts_then_stops_after_threshold() {
    let mut h = HybridState::default();
    assert_eq!(
        evaluate_hybrid(&mut h, &Stage::Idle, HB, true, T0, HT, DTW),
        HybridAction::Start
    );
    let rec = Stage::Recording(HB.to_string());
    // Held well past the threshold: release stops.
    assert_eq!(
        evaluate_hybrid(&mut h, &rec, HB, false, T0 + 500 * MS, HT, DTW),
        HybridAction::Stop
    );
}

#[test]
fn hybrid_double_tap_latches_then_tap_stops() {
    let mut h = HybridState::default();
    let rec = Stage::Recording(HB.to_string());

    // First tap: press starts recording, quick release opens the window.
    assert_eq!(
        evaluate_hybrid(&mut h, &Stage::Idle, HB, true, T0, HT, DTW),
        HybridAction::Start
    );
    assert_eq!(
        evaluate_hybrid(&mut h, &rec, HB, false, T0 + 50 * MS, HT, DTW),
        HybridAction::Nothing
    );
    assert!(h.pending_tap_deadline.is_some());
    assert!(!h.latched);

    // Second press within the window latches hands-free.
    assert_eq!(
        evaluate_hybrid(&mut h, &rec, HB, true, T0 + 150 * MS, HT, DTW),
        HybridAction::Nothing
    );
    assert!(h.latched);
    assert!(h.pending_tap_deadline.is_none());

    // Release while latched is ignored.
    assert_eq!(
        evaluate_hybrid(&mut h, &rec, HB, false, T0 + 200 * MS, HT, DTW),
        HybridAction::Nothing
    );

    // A later single press stops the latched recording.
    assert_eq!(
        evaluate_hybrid(&mut h, &rec, HB, true, T0 + 3000 * MS, HT, DTW),
        HybridAction::Stop
    );
}

#[test]
fn hybrid_lone_quick_tap_opens_window_without_latching() {
    let mut h = HybridState::default();
    let rec = Stage::Recording(HB.to_string());
    assert_eq!(
        evaluate_hybrid(&mut h, &Stage::Idle, HB, true, T0, HT, DTW),
        HybridAction::Start
    );
    assert_eq!(
        evaluate_hybrid(&mut h, &rec, HB, false, T0 + 40 * MS, HT, DTW),
        HybridAction::Nothing
    );
    assert!(h.pending_tap_deadline.is_some());
    assert!(!h.latched);
}

#[test]
fn hybrid_press_after_window_does_not_latch() {
    let mut h = HybridState::default();
    let rec = Stage::Recording(HB.to_string());
    evaluate_hybrid(&mut h, &Stage::Idle, HB, true, T0, HT, DTW);
    evaluate_hybrid(&mut h, &rec, HB, false, T0 + 40 * MS, HT, DTW);
    let late = T0 + 40 * MS + DTW + 10 * MS;
    assert_eq!(
        evaluate_hybrid(&mut h, &rec, HB, true, late, HT, DTW),
        HybridAction::Nothing
    );
    assert!(!h.latched);
}

#[test]
fn timings_are_the_documented_ones() {
    assert_eq!(DEBOUNCE, 30 * MS);
    assert_eq!(RELEASE_GRACE, 50 * MS);
    assert_eq!(HOLD_THRESHOLD, HT);
    assert_eq!(DOUBLE_TAP_WINDOW, DTW);
}

#[test]
fn only_the_transcribe_bindings_transcribe() {
    assert!(is_transcribe_binding("transcribe"));
    assert!(is_transcribe_binding("transcribe_with_post_process"));
    assert!(is_transcribe_binding("transcribe_toggle"));
    assert!(!is_transcribe_binding("cancel"));
    assert!(!is_transcribe_binding(""));
}

#[test]
fn a_lone_tap_is_thrown_away_and_frees_the_stage() {
    let mut run = Run::new();
    run.key(true, ActivationMode::Hybrid, T0);
    run.key(false, ActivationMode::Hybrid, T0 + 40 * MS);
    assert!(matches!(run.state.stage, Stage::Recording(_)));
    let due = run.state.next_deadline().unwrap();
    assert_eq!(due, T0 + 440 * MS);
    run.wake(due);
    assert_eq!((run.starts, run.stops, run.discards), (1, 0, 1));
    assert!(matches!(run.state.stage, Stage::Idle));
    assert!(run.state.next_deadline().is_none());
}

#[test]
fn a_late_second_tap_starts_over() {
    let mut run = Run::new();
    run.key(true, ActivationMode::Hybrid, T0);
    run.key(false, ActivationMode::Hybrid, T0 + 40 * MS);
    let due = run.state.next_deadline().unwrap();
    run.wake(due);
    run.key(true, ActivationMode::Hybrid, due + 10 * MS);
    assert_eq!((run.starts, run.discards), (2, 1));
    assert!(!run.state.hybrid.latched);
}

#[test]
fn space_locks_a_live_hold() {
    let mut run = Run::new();
    run.key(true, ActivationMode::Hybrid, T0);
    run.send(Command::Latch, T0 + 900 * MS);
    assert!(run.state.hybrid.latched);
    run.key(false, ActivationMode::Hybrid, T0 + 1_000 * MS);
    assert_eq!(run.stops, 0);
    run.key(true, ActivationMode::Hybrid, T0 + 5_000 * MS);
    assert_eq!(run.stops, 1);
    assert!(matches!(run.state.stage, Stage::Processing));
}

#[test]
fn space_without_a_recording_does_nothing() {
    let mut run = Run::new();
    run.send(Command::Latch, T0);
    assert!(!run.state.hybrid.latched);
}

#[test]
fn a_cancel_clears_an_open_tap_window() {
    let mut run = Run::new();
    run.key(true, ActivationMode::Hybrid, T0);
    run.key(false, ActivationMode::Hybrid, T0 + 40 * MS);
    run.send(
        Command::Cancel {
            recording_was_active: true,
        },
        T0 + 60 * MS,
    );
    assert!(run.state.next_deadline().is_none());
    assert!(matches!(run.state.stage, Stage::Idle));
}

#[test]
fn a_cancelled_pipeline_does_not_end_the_next_dictation() {
    let mut run = Run::new();
    run.key(true, ActivationMode::Toggle, T0);
    run.key(true, ActivationMode::Toggle, T0 + 100 * MS);
    assert!(matches!(run.state.stage, Stage::Processing));
    run.send(
        Command::Cancel {
            recording_was_active: false,
        },
        T0 + 200 * MS,
    );
    assert!(matches!(run.state.stage, Stage::Idle));
    run.key(true, ActivationMode::Toggle, T0 + 300 * MS);
    assert!(matches!(run.state.stage, Stage::Recording(_)));
    // The abandoned pipeline reports late; the new recording goes on.
    run.send(Command::ProcessingFinished, T0 + 400 * MS);
    assert!(matches!(run.state.stage, Stage::Recording(_)));
    run.key(true, ActivationMode::Toggle, T0 + 500 * MS);
    run.send(Command::ProcessingFinished, T0 + 600 * MS);
    assert!(matches!(run.state.stage, Stage::Idle));
}

#[test]
fn a_bouncing_press_is_ignored() {
    let mut run = Run::new();
    run.key(true, ActivationMode::Toggle, T0);
    run.key(true, ActivationMode::Toggle, T0 + 29 * MS);
    assert_eq!((run.starts, run.stops), (1, 0));
    run.key(true, ActivationMode::Toggle, T0 + 30 * MS);
    assert_eq!((run.starts, run.stops), (1, 1));
}

#[test]
fn a_start_that_records_nothing_leaves_the_stage_idle() {
    let mut state = CoordinatorState::new();
    let effect = state.on_command(
        Command::Input {
            binding_id: BINDING.to_string(),
            hotkey_string: String::new(),
            is_pressed: true,
            mode: ActivationMode::Hybrid,
        },
        T0,
    );
    assert!(matches!(effect, Effect::Start { hybrid: true, .. }));
    state.report_start(BINDING.to_string(), String::new(), true, false);
    assert!(matches!(state.stage, Stage::Idle));
    assert!(state.hybrid.press_start.is_none());
}

#[test]
fn commands_come_out_in_the_order_they_went_in() {
    let mut queue = TranscriptionCoordinator::new();
    queue.send_input("transcribe", "F5", true, ActivationMode::Toggle);
    queue.notify_latch();
    queue.notify_cancel(true);
    queue.notify_processing_finished();
    match queue.next_command() {
        Some(Command::Input {
            binding_id,
            hotkey_string,
            is_pressed,
            mode,
        }) => {
            assert_eq!(binding_id, "transcribe");
            assert_eq!(hotkey_string, "F5");
            assert!(is_pressed);
            assert_eq!(mode, ActivationMode::Toggle);
        }
        _ => panic!("the input went in first"),
    }
    assert!(matches!(queue.next_command(), Some(Command::Latch)));
    assert!(matches!(
        queue.next_command(),
        Some(Command::Cancel {
            recording_was_active: true
        })
    ));
    assert!(matches!(
        queue.next_command(),
        Some(Command::ProcessingFinished)
    ));
    assert!(queue.next_command().is_none());
}

#[test]
fn a_left_over_tap_window_leaves_another_modes_recording_alone() {
    let mut run = Run::new();
    run.key(true, ActivationMode::Hybrid, T0);
    run.key(false, ActivationMode::Hybrid, T0 + 40 * MS);
    let window = run.state.next_deadline().unwrap();
    run.key(true, ActivationMode::Toggle, T0 + 100 * MS);
    assert_eq!((run.starts, run.stops), (1, 1));
    run.send(Command::ProcessingFinished, T0 + 150 * MS);
    run.key(true, ActivationMode::Toggle, T0 + 200 * MS);
    assert_eq!(run.starts, 2);
    // The tap's window would close now; the recording is not the tap's.
    assert!(run.state.next_deadline().is_none());
    run.wake(window);
    assert_eq!((run.stops, run.discards), (1, 0));
    assert!(matches!(run.state.stage, Stage::Recording(_)));
    // And the latch key does not touch it either.
    run.send(Command::Latch, window + MS);
    assert!(!run.state.hybrid.latched);
    run.key(true, ActivationMode::Toggle, window + 100 * MS);
    assert_eq!(run.stops, 2);
}

#[test]
fn a_recording_of_another_mode_takes_over_from_a_tap() {
    let mut run = Run::new();
    run.key(true, ActivationMode::Hybrid, T0);
    run.key(false, ActivationMode::Hybrid, T0 + 40 * MS);
    // A completion frees the stage while the window is still open.
    run.send(Command::ProcessingFinished, T0 + 60 * MS);
    run.key(true, ActivationMode::PushToTalk, T0 + 100 * MS);
    assert_eq!(run.starts, 2);
    run.wake(T0 + 440 * MS);
    assert_eq!((run.stops, run.discards), (0, 0));
    assert!(matches!(run.state.stage, Stage::Recording(_)));
}
