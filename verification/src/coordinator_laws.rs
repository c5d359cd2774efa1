//! What holds of whole sequences of events in the dictation lifecycle.
use crate::transcription_coordinator::{
    ActivationMode, Command, CommandView, CoordinatorState, Effect, HybridState, Stage, DOUBLE_TAP_WINDOW,
    HOLD_THRESHOLD, RELEASE_GRACE,
};
use vstd::prelude::*;

verus! {

/// A press or a release of a key.
pub open spec fn key(
    binding_id: String,
    hotkey_string: String,
    is_pressed: bool,
    mode: ActivationMode,
) -> Command {
    Command::Input { binding_id, hotkey_string, is_pressed, mode }
}

/// The state after `pairs` of releases and presses of one push-to-talk key.
pub open spec fn after_pairs(
    s: CoordinatorState,
    binding_id: String,
    hotkey_string: String,
    pairs: Seq<(u64, u64)>,
) -> CoordinatorState
    decreases pairs.len(),
{
    if pairs.len() == 0 {
        s
    } else {
        let before = after_pairs(s, binding_id, hotkey_string, pairs.drop_last());
        before.after(
            key(binding_id, hotkey_string, false, ActivationMode::PushToTalk),
            pairs.last().0,
        ).after(key(binding_id, hotkey_string, true, ActivationMode::PushToTalk), pairs.last().1)
    }
}

/// While a push-to-talk key records, a release that is followed by a press before the grace runs
/// out changes nothing at all and asks for nothing.
pub proof fn law_autorepeat_pair_is_absorbed(
    s: CoordinatorState,
    binding_id: String,
    hotkey_string: String,
    release_at: u64,
    press_at: u64,
)
    requires
        s.stage.records(binding_id@),
        s.pending_release is None,
        release_at + RELEASE_GRACE <= u64::MAX,
    ensures
        ({
            let release = key(binding_id, hotkey_string, false, ActivationMode::PushToTalk);
            let press = key(binding_id, hotkey_string, true, ActivationMode::PushToTalk);
            let between = s.after(release, release_at);
            &&& s.effect(release, release_at) is Nothing
            &&& between.effect(press, press_at) is Nothing
            &&& between.after(press, press_at) == s
        }),
{
}

/// However long the burst of releases and presses that key auto-repeat makes of a held
/// push-to-talk key, the recording goes on untouched.
pub proof fn law_autorepeat_burst_keeps_recording(
    s: CoordinatorState,
    binding_id: String,
    hotkey_string: String,
    pairs: Seq<(u64, u64)>,
)
    requires
        s.stage.records(binding_id@),
        s.pending_release is None,
        forall|i: int| 0 <= i < pairs.len() ==> (#[trigger] pairs[i]).0 + RELEASE_GRACE <= u64::MAX,
    ensures
        after_pairs(s, binding_id, hotkey_string, pairs) == s,
    decreases pairs.len(),
{
    if pairs.len() > 0 {
        let rest = pairs.drop_last();
        assert forall|i: int| 0 <= i < rest.len() implies (#[trigger] rest[i]).0 + RELEASE_GRACE
            <= u64::MAX by {
            assert(rest[i] == pairs[i]);
        }
        law_autorepeat_burst_keeps_recording(s, binding_id, hotkey_string, rest);
        assert(pairs.last() == pairs[pairs.len() - 1]);
        law_autorepeat_pair_is_absorbed(
            s,
            binding_id,
            hotkey_string,
            pairs.last().0,
            pairs.last().1,
        );
    }
}

/// A push-to-talk release that no press follows stops the recording once, when the grace has run
/// out, and not again after that.
pub proof fn law_genuine_release_stops_once(
    s: CoordinatorState,
    binding_id: String,
    hotkey_string: String,
    release_at: u64,
    now: u64,
    later: u64,
)
    requires
        s.stage.records(binding_id@),
        s.pending_release is None,
        release_at + RELEASE_GRACE <= now,
    ensures
        ({
            let release = key(binding_id, hotkey_string, false, ActivationMode::PushToTalk);
            let waiting = s.after(release, release_at);
            let fired = waiting.after_release_expiry(now);
            let done = fired.after_stop(true);
            &&& s.effect(release, release_at) is Nothing
            &&& waiting.stage == s.stage
            &&& waiting.release_expiry_effect(now) == (Effect::Stop { binding_id, hotkey_string })
            &&& done.stage is Processing
            &&& done.pending_release is None
            &&& done.release_expiry_effect(later) is Nothing
        }),
{
}

/// A Hybrid key held at least as long as the threshold talks while it is held: its release stops
/// the recording and leaves no Hybrid state behind.
pub proof fn law_hold_stops_on_release(
    s: CoordinatorState,
    binding_id: String,
    hotkey_string: String,
    press_at: u64,
    release_at: u64,
)
    requires
        s.stage is Idle,
        press_at + HOLD_THRESHOLD <= release_at,
    ensures
        ({
            let press = key(binding_id, hotkey_string, true, ActivationMode::Hybrid);
            let release = key(binding_id, hotkey_string, false, ActivationMode::Hybrid);
            let started = s.after(press, press_at).after_start(
                binding_id,
                hotkey_string,
                true,
                true,
            );
            &&& s.effect(press, press_at) == (Effect::Start {
                binding_id,
                hotkey_string,
                hybrid: true,
            })
            &&& started.stage.records(binding_id@)
            &&& started.effect(release, release_at) == (Effect::Stop { binding_id, hotkey_string })
            &&& started.after(release, release_at).hybrid
                == crate::transcription_coordinator::hybrid_at_rest()
        }),
{
}

/// The state after a quick Hybrid tap: pressed while idle, recording began, released.
pub open spec fn after_tap(
    s: CoordinatorState,
    binding_id: String,
    hotkey_string: String,
    press_at: u64,
    release_at: u64,
) -> CoordinatorState {
    s.after(
        key(binding_id, hotkey_string, true, ActivationMode::Hybrid),
        press_at,
    ).after_start(binding_id, hotkey_string, true, true).after(
        key(binding_id, hotkey_string, false, ActivationMode::Hybrid),
        release_at,
    )
}

/// A lone tap does nothing that lasts: its release asks for nothing, the end of the window throws
/// the recording away without transcribing it, and the next press starts afresh.
pub proof fn law_lone_tap_does_nothing(
    s: CoordinatorState,
    binding_id: String,
    hotkey_string: String,
    press_at: u64,
    release_at: u64,
    now: u64,
    next_press: u64,
)
    requires
        s.stage is Idle,
        press_at <= release_at < press_at + HOLD_THRESHOLD,
        release_at + DOUBLE_TAP_WINDOW <= now,
    ensures
        ({
            let press = key(binding_id, hotkey_string, true, ActivationMode::Hybrid);
            let tapped = after_tap(s, binding_id, hotkey_string, press_at, release_at);
            let over = tapped.after_tap_expiry(now);
            &&& tapped.stage.records(binding_id@)
            &&& tapped.hybrid.pending_tap_deadline == Some((release_at + DOUBLE_TAP_WINDOW) as u64)
            &&& !tapped.hybrid.latched
            &&& tapped.tap_expiry_effect(now) == (Effect::Discard { binding_id, hotkey_string })
            &&& over == (CoordinatorState {
                stage: Stage::Idle,
                hybrid: crate::transcription_coordinator::hybrid_at_rest(),
                ..s
            })
            &&& over.effect(press, next_press) == (Effect::Start {
                binding_id,
                hotkey_string,
                hybrid: true,
            })
        }),
{
}

/// A second press inside the window latches: no release and no window ends the recording any
/// more, and the next press of the key stops it.
pub proof fn law_double_tap_latches_until_the_next_press(
    s: CoordinatorState,
    binding_id: String,
    hotkey_string: String,
    press_at: u64,
    release_at: u64,
    second_press: u64,
    later: u64,
)
    requires
        s.stage is Idle,
        press_at <= release_at < press_at + HOLD_THRESHOLD,
        second_press <= release_at + DOUBLE_TAP_WINDOW <= u64::MAX,
    ensures
        ({
            let press = key(binding_id, hotkey_string, true, ActivationMode::Hybrid);
            let release = key(binding_id, hotkey_string, false, ActivationMode::Hybrid);
            let tapped = after_tap(s, binding_id, hotkey_string, press_at, release_at);
            let latched = tapped.after(press, second_press);
            &&& tapped.effect(press, second_press) is Nothing
            &&& latched.stage.records(binding_id@)
            &&& latched.hybrid.latched
            &&& latched.hybrid.pending_tap_deadline is None
            &&& latched.effect(release, later) is Nothing
            &&& latched.after(release, later) == latched
            &&& latched.tap_expiry_effect(later) is Nothing
            &&& latched.after_tap_expiry(later) == latched
            &&& latched.effect(press, later) == (Effect::Stop { binding_id, hotkey_string })
        }),
{
}

/// A second press after the window does not latch and asks for nothing.
pub proof fn law_late_second_tap_does_not_latch(
    s: CoordinatorState,
    binding_id: String,
    hotkey_string: String,
    press_at: u64,
    release_at: u64,
    second_press: u64,
)
    requires
        s.stage is Idle,
        press_at <= release_at < press_at + HOLD_THRESHOLD,
        release_at + DOUBLE_TAP_WINDOW < second_press,
    ensures
        ({
            let press = key(binding_id, hotkey_string, true, ActivationMode::Hybrid);
            let tapped = after_tap(s, binding_id, hotkey_string, press_at, release_at);
            &&& tapped.effect(press, second_press) is Nothing
            &&& tapped.after(press, second_press) == tapped
            &&& !tapped.hybrid.latched
        }),
{
}

/// The latch key locks a Hybrid recording that is live: the held key can be released, and its
/// next press stops.
pub proof fn law_latch_locks_a_live_hold(
    s: CoordinatorState,
    binding_id: String,
    hotkey_string: String,
    now: u64,
    later: u64,
)
    requires
        s.stage.records(binding_id@),
        s.hybrid.binding_id is Some,
    ensures
        ({
            let press = key(binding_id, hotkey_string, true, ActivationMode::Hybrid);
            let release = key(binding_id, hotkey_string, false, ActivationMode::Hybrid);
            let locked = s.after(Command::Latch, now);
            &&& locked.stage == s.stage
            &&& locked.effect(release, later) is Nothing
            &&& locked.after(release, later) == locked
            &&& locked.tap_expiry_effect(later) is Nothing
            &&& locked.effect(press, later) == (Effect::Stop { binding_id, hotkey_string })
        }),
{
}

/// Cancelling frees the stage at once, whatever was running, and closes every open window.
pub proof fn law_cancel_frees_the_stage(
    s: CoordinatorState,
    recording_was_active: bool,
    now: u64,
    later: u64,
)
    ensures
        ({
            let cancel = Command::Cancel { recording_was_active };
            let free = s.after(cancel, now);
            &&& s.effect(cancel, now) is Nothing
            &&& free.stage is Idle
            &&& free.deadline() is None
            &&& free.release_expiry_effect(later) is Nothing
            &&& free.tap_expiry_effect(later) is Nothing
        }),
{
}

/// The state after `n` cancelled pipelines: each was processing when it was cancelled.
pub open spec fn after_cancelled_pipelines(s: CoordinatorState, n: nat, now: u64) -> CoordinatorState
    decreases n,
{
    if n == 0 {
        s
    } else {
        let before = after_cancelled_pipelines(s, (n - 1) as nat, now);
        (CoordinatorState { stage: Stage::Processing, ..before }).after(
            Command::Cancel { recording_was_active: false },
            now,
        )
    }
}

/// The state after `n` completions.
pub open spec fn after_completions(s: CoordinatorState, n: nat, now: u64) -> CoordinatorState
    decreases n,
{
    if n == 0 {
        s
    } else {
        after_completions(s, (n - 1) as nat, now).after(Command::ProcessingFinished, now)
    }
}

proof fn lemma_cancelled_pipelines_are_counted(s: CoordinatorState, n: nat, now: u64)
    requires
        s.stale_finishes + n <= u64::MAX,
    ensures
        after_cancelled_pipelines(s, n, now).stale_finishes == s.stale_finishes + n,
    decreases n,
{
    if n > 0 {
        lemma_cancelled_pipelines_are_counted(s, (n - 1) as nat, now);
    }
}

proof fn lemma_stale_completions_change_nothing_else(s: CoordinatorState, n: nat, now: u64)
    requires
        n <= s.stale_finishes,
    ensures
        after_completions(s, n, now) == (CoordinatorState {
            stale_finishes: (s.stale_finishes - n) as u64,
            ..s
        }),
    decreases n,
{
    if n > 0 {
        lemma_stale_completions_change_nothing_else(s, (n - 1) as nat, now);
    }
}

/// The late completions of cancelled pipelines are swallowed, exactly as many as were cancelled:
/// whatever `live` dictation has begun since stays as it is, and the completion after them is
/// its own and frees the stage.
pub proof fn law_cancelled_completions_are_swallowed(
    s: CoordinatorState,
    n: nat,
    live: Stage,
    now: u64,
)
    requires
        s.stale_finishes == 0,
        n <= u64::MAX,
    ensures
        ({
            let cancelled = after_cancelled_pipelines(s, n, now);
            let running = CoordinatorState { stage: live, ..cancelled };
            let drained = after_completions(running, n, now);
            &&& drained == (CoordinatorState { stale_finishes: 0, ..running })
            &&& drained.stage == live
            &&& drained.after(Command::ProcessingFinished, now).stage is Idle
        }),
{
    lemma_cancelled_pipelines_are_counted(s, n, now);
    let running = CoordinatorState { stage: live, ..after_cancelled_pipelines(s, n, now) };
    lemma_stale_completions_change_nothing_else(running, n, now);
}

/// No command starts a recording while the pipeline is busy, and none stops a recording that
/// is not the binding's own.
pub proof fn law_effects_match_the_stage(s: CoordinatorState, command: Command, now: u64)
    ensures
        s.effect(command, now) is Start ==> s.stage is Idle,
        s.effect(command, now) matches Effect::Stop { binding_id, .. } ==> s.stage.records(
            binding_id@,
        ),
        s.effect(command, now) !is Discard,
{
}

/// Once both timers have been dealt with at `now`, whatever waits lies ahead of `now`.
pub proof fn law_no_deadline_stays_overdue(s: CoordinatorState, now: u64, dispatched: bool)
    ensures
        s.after_release_expiry(now).after_tap_expiry(now).deadline() matches Some(d) ==> d > now,
        s.after_release_expiry(now).after_stop(dispatched).after_tap_expiry(now).deadline()
            matches Some(d) ==> d > now,
        s.deadline() matches Some(d) ==> d > now ==> s.after_release_expiry(now).after_tap_expiry(
            now,
        ) == s,
{
}

/// Something that happens to the machine other than the start of a Hybrid recording.
pub enum Happening {
    Command(Command, u64),
    ReleaseExpiry(u64),
    TapExpiry(u64),
    /// A start action of another mode has run.
    Started { binding_id: String, hotkey_string: String, recording: bool },
    /// A stop action has run.
    Stopped { dispatched: bool },
}

/// The state after something has happened.
pub open spec fn after_happening(s: CoordinatorState, happening: Happening) -> CoordinatorState {
    match happening {
        Happening::Command(command, now) => s.after(command, now),
        Happening::ReleaseExpiry(now) => s.after_release_expiry(now),
        Happening::TapExpiry(now) => s.after_tap_expiry(now),
        Happening::Started { binding_id, hotkey_string, recording } => s.after_start(
            binding_id,
            hotkey_string,
            false,
            recording,
        ),
        Happening::Stopped { dispatched } => s.after_stop(dispatched),
    }
}

/// The state after one thing has happened after the other.
pub open spec fn after_happenings(s: CoordinatorState, happenings: Seq<Happening>) -> CoordinatorState
    decreases happenings.len(),
{
    if happenings.len() == 0 {
        s
    } else {
        after_happening(
            after_happenings(s, happenings.drop_last()),
            happenings.last(),
        )
    }
}

proof fn lemma_no_owner_comes_from_nowhere(s: CoordinatorState, happenings: Seq<Happening>)
    requires
        s.hybrid.binding_id is None,
    ensures
        after_happenings(s, happenings).hybrid.binding_id is None,
    decreases happenings.len(),
{
    if happenings.len() > 0 {
        lemma_no_owner_comes_from_nowhere(s, happenings.drop_last());
    }
}

/// A tap only ever throws its own recording away. Once a key of another mode has begun a recording,
/// or any recording has stopped, nothing is discarded and the latch key locks nothing, whatever
/// happens, until the next Hybrid recording starts.
pub proof fn law_a_tap_only_discards_its_own_recording(
    s: CoordinatorState,
    binding_id: String,
    hotkey_string: String,
    happenings: Seq<Happening>,
    now: u64,
)
    ensures
        ({
            let started = s.after_start(binding_id, hotkey_string, false, true);
            let later = after_happenings(started, happenings);
            &&& started.hybrid == crate::transcription_coordinator::hybrid_at_rest()
            &&& later.tap_expiry_effect(now) is Nothing
            &&& later.after_tap_expiry(now).stage == later.stage
            &&& later.after(Command::Latch, now) == later
        }),
        ({
            let stopped = s.after_stop(true);
            let later = after_happenings(stopped, happenings);
            &&& stopped.hybrid == crate::transcription_coordinator::hybrid_at_rest()
            &&& later.tap_expiry_effect(now) is Nothing
            &&& later.after_tap_expiry(now).stage == later.stage
            &&& later.after(Command::Latch, now) == later
        }),
{
    lemma_no_owner_comes_from_nowhere(
        s.after_start(binding_id, hotkey_string, false, true),
        happenings,
    );
    lemma_no_owner_comes_from_nowhere(s.after_stop(true), happenings);
}

/// The state after one and the same command has come at each of these times.
pub open spec fn after_each(s: CoordinatorState, command: Command, times: Seq<u64>) -> CoordinatorState
    decreases times.len(),
{
    if times.len() == 0 {
        s
    } else {
        after_each(s, command, times.drop_last()).after(command, times.last())
    }
}

/// Letting go of a toggle key does nothing at all, whatever the machine is doing. So it is for a
/// key whose mode was never resolved.
pub proof fn law_releasing_a_toggle_key_does_nothing(
    s: CoordinatorState,
    binding_id: String,
    hotkey_string: String,
    mode: ActivationMode,
    now: u64,
)
    requires
        mode != ActivationMode::PushToTalk,
        mode != ActivationMode::Hybrid,
    ensures
        s.effect(key(binding_id, hotkey_string, false, mode), now) is Nothing,
        s.after(key(binding_id, hotkey_string, false, mode), now) == s,
{
}

proof fn lemma_releases_change_nothing(s: CoordinatorState, release: Command, times: Seq<u64>)
    requires
        release matches Command::Input { is_pressed, mode, .. } && !is_pressed && mode
            != ActivationMode::PushToTalk && mode != ActivationMode::Hybrid,
    ensures
        after_each(s, release, times) == s,
    decreases times.len(),
{
    if times.len() > 0 {
        lemma_releases_change_nothing(s, release, times.drop_last());
    }
}

/// A toggle key records hands-free from one press to the next: the first press starts, however
/// often the key is let go nothing happens, and the next press (30 ms later or more) stops.
pub proof fn law_a_toggle_key_records_from_press_to_press(
    s: CoordinatorState,
    binding_id: String,
    hotkey_string: String,
    mode: ActivationMode,
    first: u64,
    releases: Seq<u64>,
    second: u64,
)
    requires
        mode != ActivationMode::PushToTalk,
        mode != ActivationMode::Hybrid,
        s.stage is Idle,
        s.last_press matches Some(t) ==> t + 30_000_000 <= first,
        first + 30_000_000 <= second,
    ensures
        ({
            let press = key(binding_id, hotkey_string, true, mode);
            let release = key(binding_id, hotkey_string, false, mode);
            let recording = s.after(press, first).after_start(
                binding_id,
                hotkey_string,
                false,
                true,
            );
            let released = after_each(recording, release, releases);
            &&& s.effect(press, first) == (Effect::Start {
                binding_id,
                hotkey_string,
                hybrid: false,
            })
            &&& recording.stage == Stage::Recording(binding_id)
            &&& forall|i: int|
                0 <= i < releases.len() ==> after_each(recording, release, releases.take(i)).effect(
                    release,
                    #[trigger] releases[i],
                ) is Nothing
            &&& released == recording
            &&& released.effect(press, second) == (Effect::Stop { binding_id, hotkey_string })
            &&& released.after(press, second).after_stop(true).stage is Processing
        }),
{
    let press = key(binding_id, hotkey_string, true, mode);
    let release = key(binding_id, hotkey_string, false, mode);
    let recording = s.after(press, first).after_start(binding_id, hotkey_string, false, true);
    lemma_releases_change_nothing(recording, release, releases);
    assert forall|i: int| 0 <= i < releases.len() implies after_each(
        recording,
        release,
        releases.take(i),
    ).effect(release, #[trigger] releases[i]) is Nothing by {
        lemma_releases_change_nothing(recording, release, releases.take(i));
    }
}

/// Whether a press at `now` comes 30 ms or more after the last accepted one, if there was one.
pub open spec fn well_apart(last_press: Option<u64>, now: u64) -> bool {
    match last_press {
        Some(t) => t + 30_000_000 <= now,
        None => true,
    }
}

/// A press of a toggle or push-to-talk key that follows the last one within 30 ms asks for nothing
/// and does not count as a press.
pub proof fn law_a_bouncing_press_asks_for_nothing(
    s: CoordinatorState,
    binding_id: String,
    hotkey_string: String,
    mode: ActivationMode,
    now: u64,
)
    requires
        mode != ActivationMode::Hybrid,
        !well_apart(s.last_press, now),
    ensures
        ({
            let press = key(binding_id, hotkey_string, true, mode);
            &&& s.effect(press, now) is Nothing
            &&& s.after(press, now) == (CoordinatorState {
                pending_release: s.after(press, now).pending_release,
                ..s
            })
            &&& mode != ActivationMode::PushToTalk ==> s.after(press, now) == s
            &&& s.pending_release is None ==> s.after(press, now) == s
        }),
{
}

/// What a press of a toggle or push-to-talk key asks for when it is no bounce and takes no release
/// back: a start while nothing runs, a stop while its own recording runs and the mode is not
/// push-to-talk, and nothing else. It counts as the last press, and changes nothing else.
pub proof fn law_what_a_press_asks_for(
    s: CoordinatorState,
    binding_id: String,
    hotkey_string: String,
    mode: ActivationMode,
    now: u64,
)
    requires
        mode != ActivationMode::Hybrid,
        well_apart(s.last_press, now),
        mode == ActivationMode::PushToTalk ==> (s.pending_release matches Some(p) ==> p.binding_id@
            != binding_id@),
    ensures
        ({
            let press = key(binding_id, hotkey_string, true, mode);
            &&& s.after(press, now) == (CoordinatorState { last_press: Some(now), ..s })
            &&& s.stage is Idle ==> s.effect(press, now) == (Effect::Start {
                binding_id,
                hotkey_string,
                hybrid: false,
            })
            &&& s.stage is Processing ==> s.effect(press, now) is Nothing
            &&& s.stage matches Stage::Recording(id) ==> s.effect(press, now) == if id@
                == binding_id@ && mode != ActivationMode::PushToTalk {
                Effect::Stop { binding_id, hotkey_string }
            } else {
                Effect::Nothing
            }
        }),
{
}

/// A push-to-talk press takes back a release of its key that still waits, and does nothing else.
pub proof fn law_a_press_takes_its_release_back(
    s: CoordinatorState,
    binding_id: String,
    hotkey_string: String,
    now: u64,
)
    requires
        s.pending_release matches Some(p) && p.binding_id@ == binding_id@,
    ensures
        ({
            let press = key(binding_id, hotkey_string, true, ActivationMode::PushToTalk);
            &&& s.effect(press, now) is Nothing
            &&& s.after(press, now) == (CoordinatorState { pending_release: None, ..s })
        }),
{
}

/// What a push-to-talk release does: nothing while its key does not record; while it does, the
/// release waits for 50 ms, or stops at once where another one waits already.
pub proof fn law_what_a_push_to_talk_release_does(
    s: CoordinatorState,
    binding_id: String,
    hotkey_string: String,
    now: u64,
)
    requires
        now + 50_000_000 <= u64::MAX,
    ensures
        ({
            let release = key(binding_id, hotkey_string, false, ActivationMode::PushToTalk);
            let own = s.stage matches Stage::Recording(id) && id@ == binding_id@;
            let after = s.after(release, now);
            &&& !own ==> s.effect(release, now) is Nothing && after == s
            &&& own && s.pending_release is None ==> {
                &&& s.effect(release, now) is Nothing
                &&& after.pending_release matches Some(p)
                &&& p.binding_id == binding_id
                &&& p.hotkey_string == hotkey_string
                &&& p.deadline == now + 50_000_000
                &&& after == (CoordinatorState { pending_release: after.pending_release, ..s })
            }
            &&& own && s.pending_release is Some ==> s.effect(release, now) == (Effect::Stop {
                binding_id,
                hotkey_string,
            }) && after == s
        }),
{
}

/// A release that waits fires at its deadline and not before, and stops the recording if that is
/// still its key's.
pub proof fn law_a_waiting_release_fires_at_its_deadline(s: CoordinatorState, now: u64)
    ensures
        ({
            let due = s.pending_release matches Some(p) && p.deadline <= now;
            &&& !due ==> s.release_expiry_effect(now) is Nothing && s.after_release_expiry(now) == s
            &&& due ==> {
                let waiting = s.pending_release->0;
                &&& s.after_release_expiry(now) == (CoordinatorState { pending_release: None, ..s })
                &&& s.release_expiry_effect(now) == if s.stage matches Stage::Recording(id) && id@
                    == waiting.binding_id@ {
                    Effect::Stop {
                        binding_id: waiting.binding_id,
                        hotkey_string: waiting.hotkey_string,
                    }
                } else {
                    Effect::Nothing
                }
            }
        }),
{
}

/// Whether nothing is remembered of a Hybrid recording.
pub open spec fn forgotten(h: HybridState) -> bool {
    &&& h.pending_tap_deadline is None
    &&& !h.latched
    &&& h.press_start is None
    &&& h.binding_id is None
    &&& h.hotkey_string is None
}

/// What a Hybrid press does. While nothing runs it starts, with no memory of earlier taps. On its
/// own recording it stops a latched one, latches one whose window is open, and leaves any other as
/// it is. On anything else it does nothing.
pub proof fn law_what_a_hybrid_press_does(
    s: CoordinatorState,
    binding_id: String,
    hotkey_string: String,
    now: u64,
)
    ensures
        ({
            let press = key(binding_id, hotkey_string, true, ActivationMode::Hybrid);
            let effect = s.effect(press, now);
            let after = s.after(press, now);
            let own = s.stage matches Stage::Recording(id) && id@ == binding_id@;
            let open = s.hybrid.pending_tap_deadline matches Some(d) && now <= d;
            &&& after == (CoordinatorState { hybrid: after.hybrid, ..s })
            &&& s.stage is Idle ==> {
                &&& effect == (Effect::Start { binding_id, hotkey_string, hybrid: true })
                &&& after.hybrid.press_start == Some(now)
                &&& !after.hybrid.latched
                &&& after.hybrid.pending_tap_deadline is None
            }
            &&& own && s.hybrid.latched ==> effect == (Effect::Stop { binding_id, hotkey_string })
                && forgotten(after.hybrid)
            &&& own && !s.hybrid.latched && open ==> {
                &&& effect is Nothing
                &&& after.hybrid.latched
                &&& after.hybrid.pending_tap_deadline is None
                &&& after.hybrid.press_start == s.hybrid.press_start
                &&& after.hybrid.binding_id == s.hybrid.binding_id
                &&& after.hybrid.hotkey_string == s.hybrid.hotkey_string
            }
            &&& own && !s.hybrid.latched && !open ==> effect is Nothing && after == s
            &&& s.stage !is Idle && !own ==> effect is Nothing && after == s
        }),
{
}

/// What a Hybrid release does. On its own recording that is not latched it stops where the key was
/// held for 300 ms or more, and otherwise opens the window of 400 ms for the second tap. On
/// anything else it does nothing.
pub proof fn law_what_a_hybrid_release_does(
    s: CoordinatorState,
    binding_id: String,
    hotkey_string: String,
    now: u64,
)
    requires
        now + 400_000_000 <= u64::MAX,
    ensures
        ({
            let release = key(binding_id, hotkey_string, false, ActivationMode::Hybrid);
            let effect = s.effect(release, now);
            let after = s.after(release, now);
            let own = s.stage matches Stage::Recording(id) && id@ == binding_id@;
            let long = s.hybrid.press_start matches Some(t) && t + 300_000_000 <= now;
            &&& after == (CoordinatorState { hybrid: after.hybrid, ..s })
            &&& own && !s.hybrid.latched && long ==> effect == (Effect::Stop {
                binding_id,
                hotkey_string,
            }) && forgotten(after.hybrid)
            &&& own && !s.hybrid.latched && !long ==> {
                &&& effect is Nothing
                &&& after.hybrid.pending_tap_deadline matches Some(d)
                &&& d == now + 400_000_000
                &&& !after.hybrid.latched
                &&& after.hybrid.press_start == s.hybrid.press_start
                &&& after.hybrid.binding_id == s.hybrid.binding_id
                &&& after.hybrid.hotkey_string == s.hybrid.hotkey_string
            }
            &&& !own || s.hybrid.latched ==> effect is Nothing && after == s
        }),
{
}

/// The end of a double-tap window throws the recording away if it is the tap's own and was not
/// latched. Before the end nothing happens; after it no window is open.
pub proof fn law_what_the_end_of_a_window_does(s: CoordinatorState, now: u64)
    ensures
        ({
            let due = s.hybrid.pending_tap_deadline matches Some(d) && d <= now;
            let own = s.hybrid.binding_id matches Some(owner) && s.hybrid.hotkey_string is Some
                && (s.stage matches Stage::Recording(id) && id@ == owner@);
            let after = s.after_tap_expiry(now);
            &&& !due ==> s.tap_expiry_effect(now) is Nothing && after == s
            &&& due ==> {
                &&& after == (CoordinatorState { stage: after.stage, hybrid: after.hybrid, ..s })
                &&& after.hybrid.pending_tap_deadline is None
                &&& after.hybrid.press_start is None
                &&& after.hybrid.latched == s.hybrid.latched
                &&& !s.hybrid.latched ==> forgotten(after.hybrid)
                &&& s.hybrid.latched ==> after.hybrid.binding_id == s.hybrid.binding_id
                    && after.hybrid.hotkey_string == s.hybrid.hotkey_string
            }
            &&& due && own && !s.hybrid.latched ==> {
                &&& s.tap_expiry_effect(now) == (Effect::Discard {
                    binding_id: s.hybrid.binding_id->0,
                    hotkey_string: s.hybrid.hotkey_string->0,
                })
                &&& after.stage is Idle
            }
            &&& due && (!own || s.hybrid.latched) ==> {
                &&& s.tap_expiry_effect(now) is Nothing
                &&& after.stage == s.stage
            }
        }),
{
}

/// A key event decides and no more: the stage moves only when the action has run and its outcome
/// is reported. What it asks for is asked for its own key.
pub proof fn law_key_events_only_decide(
    s: CoordinatorState,
    binding_id: String,
    hotkey_string: String,
    is_pressed: bool,
    mode: ActivationMode,
    now: u64,
)
    ensures
        ({
            let event = key(binding_id, hotkey_string, is_pressed, mode);
            let after = s.after(event, now);
            &&& after.stage == s.stage
            &&& after.stale_finishes == s.stale_finishes
            &&& s.effect(event, now) matches Effect::Start { binding_id: b, hotkey_string: h, hybrid }
                ==> b == binding_id && h == hotkey_string && hybrid == (mode
                == ActivationMode::Hybrid) && is_pressed
            &&& s.effect(event, now) matches Effect::Stop { binding_id: b, hotkey_string: h } ==> b
                == binding_id && h == hotkey_string
        }),
{
}

/// What is reported of an action moves the stage: a start that records to a recording of its key, a
/// stop that ran to processing, and an action that did not run to nowhere.
pub proof fn law_reports_move_the_stage(
    s: CoordinatorState,
    binding_id: String,
    hotkey_string: String,
    hybrid: bool,
)
    ensures
        ({
            let started = s.after_start(binding_id, hotkey_string, hybrid, true);
            let failed = s.after_start(binding_id, hotkey_string, hybrid, false);
            &&& started.stage == Stage::Recording(binding_id)
            &&& failed.stage == s.stage
            &&& s.after_stop(true).stage is Processing
            &&& s.after_stop(false) == s
            &&& started == (CoordinatorState { stage: started.stage, hybrid: started.hybrid, ..s })
            &&& failed == (CoordinatorState { hybrid: failed.hybrid, ..s })
            &&& forgotten(s.after_stop(true).hybrid)
            &&& !hybrid ==> forgotten(started.hybrid)
            &&& s.after_stop(true) == (CoordinatorState {
                stage: s.after_stop(true).stage,
                hybrid: s.after_stop(true).hybrid,
                ..s
            })
            &&& hybrid ==> {
                &&& started.hybrid.binding_id == Some(binding_id)
                &&& started.hybrid.hotkey_string == Some(hotkey_string)
                &&& started.hybrid.latched == s.hybrid.latched
                &&& started.hybrid.pending_tap_deadline == s.hybrid.pending_tap_deadline
                &&& started.hybrid.press_start == s.hybrid.press_start
            }
            &&& hybrid && s.stage !is Recording ==> failed.hybrid.binding_id is None
                && failed.hybrid.pending_tap_deadline is None && !failed.hybrid.latched
            &&& !hybrid ==> failed == s
        }),
{
}

/// Cancels, latches and completions ask for nothing. A cancel forgets everything but the last press
/// and the completions still to come, one more where a pipeline was running. A latch touches
/// nothing but a live Hybrid recording, and a completion nothing but the stage, or the count of
/// those to swallow.
pub proof fn law_other_commands_ask_for_nothing(
    s: CoordinatorState,
    recording_was_active: bool,
    now: u64,
)
    requires
        s.stale_finishes < u64::MAX,
    ensures
        ({
            let cancel = Command::Cancel { recording_was_active };
            let latched = s.after(Command::Latch, now);
            let finished = s.after(Command::ProcessingFinished, now);
            &&& s.effect(cancel, now) is Nothing
            &&& s.effect(Command::Latch, now) is Nothing
            &&& s.effect(Command::ProcessingFinished, now) is Nothing
            &&& s.after(cancel, now).stage is Idle
            &&& s.after(cancel, now).last_press == s.last_press
            &&& s.after(cancel, now).pending_release is None
            &&& s.after(cancel, now).hybrid.binding_id is None
            &&& s.after(cancel, now).hybrid.hotkey_string is None
            &&& s.after(cancel, now).hybrid.press_start is None
            &&& s.after(cancel, now).hybrid.pending_tap_deadline is None
            &&& !s.after(cancel, now).hybrid.latched
            &&& s.after(cancel, now).stale_finishes == s.stale_finishes + if s.stage is Processing {
                1int
            } else {
                0int
            }
            &&& s.stage !is Recording || s.hybrid.binding_id is None ==> latched == s
            &&& s.stage is Recording && s.hybrid.binding_id is Some ==> {
                &&& latched == (CoordinatorState { hybrid: latched.hybrid, ..s })
                &&& latched.hybrid.latched
                &&& latched.hybrid.pending_tap_deadline is None
                &&& latched.hybrid.press_start == s.hybrid.press_start
                &&& latched.hybrid.binding_id == s.hybrid.binding_id
                &&& latched.hybrid.hotkey_string == s.hybrid.hotkey_string
            }
            &&& s.stale_finishes == 0 ==> finished == (CoordinatorState { stage: Stage::Idle, ..s })
            &&& s.stale_finishes > 0 ==> finished.stage == s.stage && finished.stale_finishes
                == s.stale_finishes - 1 && finished == (CoordinatorState {
                stale_finishes: finished.stale_finishes,
                ..s
            })
        }),
{
}

/// The machine wakes for whichever comes first, the release that waits or the end of the window,
/// and sleeps on only where neither is to come.
pub proof fn law_the_machine_wakes_for_what_comes_first(s: CoordinatorState)
    ensures
        s.deadline() is None <==> s.pending_release is None && s.hybrid.pending_tap_deadline is None,
        s.deadline() matches Some(d) ==> {
            &&& s.pending_release matches Some(p) ==> d <= p.deadline
            &&& s.hybrid.pending_tap_deadline matches Some(t) ==> d <= t
            &&& (s.pending_release matches Some(p) && d == p.deadline)
                || s.hybrid.pending_tap_deadline == Some(d)
        },
{
}

/// What a key event means for a deferred release: a push-to-talk press takes back the one that
/// waits for its own key, a push-to-talk release of the key that records is deferred while none
/// waits, and everything else passes through.
pub proof fn law_what_becomes_of_a_release(
    waiting: Option<Seq<char>>,
    is_pressed: bool,
    push_to_talk: bool,
    binding_id: Seq<char>,
    recording: Option<Seq<char>>,
)
    ensures
        ({
            let action = crate::transcription_coordinator::ptt_action(
                waiting,
                is_pressed,
                push_to_talk,
                binding_id,
                recording,
            );
            &&& action is CancelRelease <==> push_to_talk && is_pressed && waiting == Some(
                binding_id,
            )
            &&& action is DeferRelease <==> push_to_talk && !is_pressed && recording == Some(
                binding_id,
            ) && waiting is None
        }),
{
}

/// What a Hybrid key event asks for, whatever the threshold: a start on a press while nothing runs,
/// a stop on a press of a latched key or on the release of one that was held that long, and nothing
/// else.
pub proof fn law_what_a_hybrid_key_asks_for(
    h: HybridState,
    stage: Stage,
    binding_id: Seq<char>,
    is_pressed: bool,
    now: u64,
    hold_threshold: u64,
)
    ensures
        ({
            let action = crate::transcription_coordinator::hybrid_action(
                h,
                stage,
                binding_id,
                is_pressed,
                now,
                hold_threshold,
            );
            let own = stage matches Stage::Recording(id) && id@ == binding_id;
            let held = match h.press_start {
                Some(t) => if t <= now {
                    now - t
                } else {
                    0
                },
                None => 0,
            };
            &&& action is Start <==> is_pressed && stage is Idle
            &&& action is Stop <==> own && if is_pressed {
                h.latched
            } else {
                !h.latched && hold_threshold <= held
            }
        }),
{
}

/// What a Hybrid key event leaves behind, whatever the threshold and the window. A press while
/// nothing runs forgets earlier taps; a second press inside the window latches; the release of a
/// short press opens the window, counted from that release; and anything else that asks for nothing
/// leaves all as it is. Whose recording it is stays.
pub proof fn law_what_a_hybrid_key_leaves_behind(
    h: HybridState,
    stage: Stage,
    binding_id: Seq<char>,
    is_pressed: bool,
    now: u64,
    hold_threshold: u64,
    double_tap_window: u64,
)
    requires
        now + double_tap_window <= u64::MAX,
    ensures
        ({
            let after = crate::transcription_coordinator::hybrid_after(
                h,
                stage,
                binding_id,
                is_pressed,
                now,
                hold_threshold,
                double_tap_window,
            );
            let own = stage matches Stage::Recording(id) && id@ == binding_id;
            let second = h.pending_tap_deadline matches Some(d) && now <= d;
            let held = match h.press_start {
                Some(t) => if t <= now {
                    now - t
                } else {
                    0
                },
                None => 0,
            };
            &&& after.binding_id == h.binding_id && after.hotkey_string == h.hotkey_string
            &&& is_pressed && stage is Idle ==> after.press_start == Some(now) && !after.latched
                && after.pending_tap_deadline is None
            &&& is_pressed && own && !h.latched && second ==> after.latched
                && after.pending_tap_deadline is None && after.press_start == h.press_start
            &&& !is_pressed && own && !h.latched && held < hold_threshold ==> {
                &&& after.pending_tap_deadline matches Some(d)
                &&& d == now + double_tap_window
                &&& !after.latched
                &&& after.press_start == h.press_start
            }
            &&& is_pressed && stage !is Idle && !(own && !h.latched && second) ==> after == h
            &&& !is_pressed && (!own || h.latched) ==> after == h
        }),
{
}

/// A queued command says what was sent.
pub proof fn law_a_queued_command_says_what_was_sent(
    binding_id: String,
    hotkey_string: String,
    is_pressed: bool,
    mode: ActivationMode,
    recording_was_active: bool,
)
    ensures
        (Command::Input { binding_id, hotkey_string, is_pressed, mode })@ == (CommandView::Input {
            binding_id: binding_id@,
            hotkey_string: hotkey_string@,
            is_pressed,
            mode,
        }),
        (Command::Cancel { recording_was_active })@ == (CommandView::Cancel {
            recording_was_active,
        }),
        Command::Latch@ is Latch,
        Command::ProcessingFinished@ is ProcessingFinished,
{
}

} // verus!
