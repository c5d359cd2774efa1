//! The recording overlay: how large it is, on which monitor it stands, and what is done to show,
//! move and hide it.
use vstd::prelude::*;
use crate::text::same_text;

verus! {

/// Width of the listening pill.
pub const OVERLAY_REST_WIDTH: u32 = 92;

/// Width of the pill while it transcribes or processes.
pub const OVERLAY_WORK_WIDTH: u32 = 132;

/// Height of the pill.
pub const OVERLAY_BASE_HEIGHT: u32 = 24;

/// Room around the pill, half of it on either side: a guard against rounding.
pub const OVERLAY_SLACK: u32 = 2;

/// Width where no state is known: that of the widest pill.
pub const OVERLAY_WIDTH: u32 = OVERLAY_WORK_WIDTH + OVERLAY_SLACK;

/// Height where no state is known.
pub const OVERLAY_HEIGHT: u32 = OVERLAY_BASE_HEIGHT + OVERLAY_SLACK;

/// Width of the panel with live text.
pub const OVERLAY_STREAM_WIDTH: u32 = 400;

/// Height of the panel with live text.
pub const OVERLAY_STREAM_HEIGHT: u32 = 120;

/// The shortest time between two level events, in milliseconds.
pub const EMIT_THROTTLE_MS: u64 = 33;

/// How long a hidden overlay stays mapped so that it can fade out, in milliseconds.
pub const HIDE_DELAY_MS: u64 = 300;

/// How many frames pass between two looks at where the overlay should be.
pub const FRAMES_PER_TARGET: u64 = 8;

/// The window level of the Dock.
pub const DOCK_LAYER: i32 = 20;

/// The size of the overlay window in a state. Every pixel of it swallows clicks, so it is the card
/// that the state draws and the guard against rounding. The panel with live text opens without a
/// change of state, so only that one is reserved ahead.
pub open spec fn dimensions(state: Seq<char>, live_text: bool) -> (u32, u32) {
    if state == "streaming"@ && live_text {
        (OVERLAY_STREAM_WIDTH, OVERLAY_STREAM_HEIGHT)
    } else if state == "recording"@ || state == "streaming"@ {
        ((OVERLAY_REST_WIDTH + OVERLAY_SLACK) as u32, (OVERLAY_BASE_HEIGHT + OVERLAY_SLACK) as u32)
    } else {
        ((OVERLAY_WORK_WIDTH + OVERLAY_SLACK) as u32, (OVERLAY_BASE_HEIGHT + OVERLAY_SLACK) as u32)
    }
}

/// The size of the overlay window in a state, in logical points.
pub fn overlay_dimensions(state: &str, live_text: bool) -> (r: (u32, u32))
    ensures
        r == dimensions(state@, live_text),
{
    let streaming = same_text(state, "streaming");
    if streaming && live_text {
        (OVERLAY_STREAM_WIDTH, OVERLAY_STREAM_HEIGHT)
    } else if streaming || same_text(state, "recording") {
        (OVERLAY_REST_WIDTH + OVERLAY_SLACK, OVERLAY_BASE_HEIGHT + OVERLAY_SLACK)
    } else {
        (OVERLAY_WORK_WIDTH + OVERLAY_SLACK, OVERLAY_BASE_HEIGHT + OVERLAY_SLACK)
    }
}

/// The size where no state is known is enough for every state without the panel.
pub proof fn law_neutral_size_covers_every_compact_state(state: Seq<char>, live_text: bool)
    requires
        state != "streaming"@ || !live_text,
    ensures
        dimensions(state, live_text).0 <= OVERLAY_WIDTH,
        dimensions(state, live_text).1 <= OVERLAY_HEIGHT,
{
}

/// Live text only matters while streaming.
pub proof fn law_live_text_only_matters_while_streaming(state: Seq<char>)
    requires
        state != "streaming"@,
    ensures
        dimensions(state, true) == dimensions(state, false),
{
}

/// A monitor's rectangle, in the units of the cursor.
#[derive(Clone, Copy, Debug)]
pub struct MonitorBounds {
    pub x: i32,
    pub y: i32,
    pub width: u32,
    pub height: u32,
}

/// A size as the signed number with the same bits.
pub open spec fn signed(size: u32) -> int {
    if size <= i32::MAX {
        size as int
    } else {
        size - 0x1_0000_0000
    }
}

/// Whether a point is on a monitor: the left and top edges are, the right and bottom ones are not.
pub open spec fn within(x: int, y: int, monitor: MonitorBounds) -> bool {
    &&& monitor.x <= x < monitor.x + signed(monitor.width)
    &&& monitor.y <= y < monitor.y + signed(monitor.height)
}

/// A size as the signed number with the same bits.
fn signed_size(size: u32) -> (r: i64)
    ensures
        r == signed(size),
{
    if size <= i32::MAX as u32 {
        size as i64
    } else {
        size as i64 - 0x1_0000_0000
    }
}

/// Whether the mouse is on a monitor.
pub fn is_mouse_within_monitor(mouse_pos: (i32, i32), monitor: &MonitorBounds) -> (r: bool)
    ensures
        r == within(mouse_pos.0 as int, mouse_pos.1 as int, *monitor),
{
    let x: i64 = mouse_pos.0 as i64;
    let y: i64 = mouse_pos.1 as i64;
    x >= monitor.x as i64 && x < monitor.x as i64 + signed_size(monitor.width) && y
        >= monitor.y as i64 && y < monitor.y as i64 + signed_size(monitor.height)
}

/// The first monitor with the cursor on it; none where the cursor is unknown or on no monitor,
/// which leaves the primary one.
pub fn monitor_with_cursor(cursor: Option<(i32, i32)>, monitors: &[MonitorBounds]) -> (r: Option<
    usize,
>)
    ensures
        match (cursor, r) {
            (Some(at), Some(i)) => {
                &&& i < monitors@.len()
                &&& within(at.0 as int, at.1 as int, monitors@[i as int])
                &&& forall|j: int|
                    0 <= j < i ==> !within(at.0 as int, at.1 as int, #[trigger] monitors@[j])
            },
            (Some(at), None) => forall|j: int|
                0 <= j < monitors@.len() ==> !within(
                    at.0 as int,
                    at.1 as int,
                    #[trigger] monitors@[j],
                ),
            (None, _) => r is None,
        },
{
    match cursor {
        Some(at) => {
            let mut i: usize = 0;
            while i < monitors.len()
                invariant
                    cursor == Some(at),
                    i <= monitors@.len(),
                    forall|j: int|
                        0 <= j < i ==> !within(at.0 as int, at.1 as int, #[trigger] monitors@[j]),
                decreases monitors.len() - i,
            {
                if is_mouse_within_monitor(at, &monitors[i]) {
                    return Some(i);
                }
                i += 1;
            }
            None
        },
        None => None,
    }
}

/// A window as the window server lists it.
#[derive(Clone, Copy, Debug)]
pub struct ListedWindow {
    /// Its level, where one is given.
    pub layer: Option<i32>,
    /// Whether its owner is the Dock.
    pub owned_by_dock: bool,
}

/// Whether a listed window is the Dock's tile bar. The Dock owns the wallpaper too, on another
/// level.
pub open spec fn is_dock_bar(window: ListedWindow) -> bool {
    window.layer == Some(DOCK_LAYER) && window.owned_by_dock
}

/// Whether the Dock is among the windows on screen.
pub fn dock_is_listed(windows: &[ListedWindow]) -> (r: bool)
    ensures
        r == exists|i: int| 0 <= i < windows@.len() && is_dock_bar(#[trigger] windows@[i]),
{
    let mut i: usize = 0;
    while i < windows.len()
        invariant
            i <= windows@.len(),
            forall|j: int| 0 <= j < i ==> !is_dock_bar(#[trigger] windows@[j]),
        decreases windows.len() - i,
    {
        let window: ListedWindow = windows[i];
        let on_level = match window.layer {
            Some(layer) => layer == DOCK_LAYER,
            None => false,
        };
        if on_level && window.owned_by_dock {
            assert(is_dock_bar(windows@[i as int]));
            return true;
        }
        i += 1;
    }
    false
}

/// What the overlay runs on.
#[derive(Clone, Copy, Debug, PartialEq, Eq, Structural)]
pub enum Platform {
    MacOs,
    Windows,
    /// With or without a layer surface.
    Linux { layer_shell: bool },
}

/// Whether the overlay window can be made: everywhere but on Linux, where the surface is anchored
/// and not placed, a position must be known.
pub fn may_create_overlay(platform: Platform, position_known: bool) -> (r: bool)
    ensures
        r == (platform is Linux || position_known),
{
    match platform {
        Platform::Linux { .. } => true,
        _ => position_known,
    }
}

/// One thing to do to the overlay window.
#[derive(Clone, Copy, Debug, PartialEq, Eq, Structural)]
pub enum OverlayAction {
    /// Anchor and size the layer surface.
    ConfigureSurface { width: u32, height: u32 },
    /// Anchor the layer surface.
    AnchorSurface,
    /// Set the size.
    Resize { width: u32, height: u32 },
    /// Move to where a window of this size belongs.
    Move { width: u32, height: u32 },
    /// Move to where a window of the current size belongs, or of this one if that is unknown.
    MoveAsSized { width: u32, height: u32 },
    /// Move and size in one native call.
    Place { width: u32, height: u32 },
    Show,
    /// Put the window on top of all others.
    Raise,
    /// Follow the Dock while the overlay is up.
    Follow,
    /// Tell the page which state to draw.
    EmitState,
}

/// What is done to show the overlay at a size, in order.
pub open spec fn show_actions(platform: Platform, width: u32, height: u32) -> Seq<OverlayAction> {
    match platform {
        Platform::Linux { layer_shell: true } => seq![
            OverlayAction::ConfigureSurface { width, height },
            OverlayAction::Show,
            OverlayAction::EmitState,
        ],
        Platform::Linux { layer_shell: false } => seq![
            OverlayAction::Resize { width, height },
            OverlayAction::Move { width, height },
            OverlayAction::Show,
            OverlayAction::EmitState,
        ],
        Platform::Windows => seq![
            OverlayAction::Place { width, height },
            OverlayAction::Show,
            OverlayAction::Raise,
            OverlayAction::Place { width, height },
            OverlayAction::EmitState,
        ],
        Platform::MacOs => seq![
            OverlayAction::Resize { width, height },
            OverlayAction::Move { width, height },
            OverlayAction::Show,
            OverlayAction::Follow,
            OverlayAction::EmitState,
        ],
    }
}

/// What is done to put a visible overlay where it belongs.
pub open spec fn move_action(
    platform: Platform,
    streaming: bool,
    live_text: bool,
) -> OverlayAction {
    match platform {
        Platform::Linux { layer_shell: true } => OverlayAction::AnchorSurface,
        Platform::Windows => {
            let size = dimensions(
                if streaming {
                    "streaming"@
                } else {
                    "recording"@
                },
                live_text,
            );
            OverlayAction::Place { width: size.0, height: size.1 }
        },
        _ => OverlayAction::MoveAsSized { width: OVERLAY_WIDTH, height: OVERLAY_HEIGHT },
    }
}

/// What is known of the overlay while the application runs.
#[derive(Clone, Copy, Debug)]
pub struct OverlayState {
    /// Whether the overlay is shown at all.
    pub enabled: bool,
    /// How many times the overlay has been shown, modulo what a counter holds.
    pub show_generation: u64,
    /// Whether the overlay is up.
    pub visible: bool,
    /// Which of the loops that follow the Dock is the current one.
    pub follow_generation: u64,
    /// When levels were last sent, in milliseconds.
    pub last_level_emit: u64,
    /// Whether the state last shown is the streaming one.
    pub streaming: bool,
}

/// One thing to do to hide the overlay.
#[derive(Clone, Copy, Debug, PartialEq, Eq, Structural)]
pub enum HideAction {
    /// Tell the page to fade out.
    EmitHide,
    /// After this long, hide the window if [`OverlayState::hide_is_due`] says so.
    HideLater { delay_ms: u64, scheduled_at: u64 },
}

impl OverlayState {
    /// After the overlay is shown in a state.
    pub open spec fn shown(self, platform: Platform, state: Seq<char>) -> OverlayState {
        OverlayState {
            show_generation: next_generation(self.show_generation),
            streaming: if platform is Windows {
                state == "streaming"@
            } else {
                self.streaming
            },
            ..self
        }
    }

    /// After the overlay is shown in one state after the other.
    pub open spec fn shown_all(self, platform: Platform, states: Seq<Seq<char>>) -> OverlayState
        decreases states.len(),
    {
        if states.len() == 0 {
            self
        } else {
            self.shown_all(platform, states.drop_last()).shown(platform, states.last())
        }
    }

    /// Nothing is shown before the settings are known.
    pub fn new() -> (r: Self)
        ensures
            r == (OverlayState {
                enabled: false,
                show_generation: 0,
                visible: false,
                follow_generation: 0,
                last_level_emit: 0,
                streaming: false,
            }),
    {
        OverlayState {
            enabled: false,
            show_generation: 0,
            visible: false,
            follow_generation: 0,
            last_level_emit: 0,
            streaming: false,
        }
    }

    /// What is done to show the overlay in a state. Nothing where the style shows none or there
    /// is no window. A show outdates every hide that is still on its way.
    pub fn show(
        &mut self,
        platform: Platform,
        state: &str,
        live_text: bool,
        style_shows: bool,
        has_window: bool,
    ) -> (r: Vec<OverlayAction>)
        ensures
            !(style_shows && has_window) ==> r@.len() == 0 && *final(self) == *old(self),
            style_shows && has_window ==> {
                let size = dimensions(state@, live_text);
                &&& r@ == show_actions(platform, size.0, size.1)
                &&& *final(self) == old(self).shown(platform, state@)
            },
    {
        let mut actions: Vec<OverlayAction> = Vec::new();
        if !style_shows || !has_window {
            return actions;
        }
        self.show_generation = following(self.show_generation);
        let (width, height) = overlay_dimensions(state, live_text);
        match platform {
            Platform::Linux { layer_shell } => {
                if layer_shell {
                    actions.push(OverlayAction::ConfigureSurface { width, height });
                } else {
                    actions.push(OverlayAction::Resize { width, height });
                    actions.push(OverlayAction::Move { width, height });
                }
                actions.push(OverlayAction::Show);
            },
            Platform::Windows => {
                self.streaming = same_text(state, "streaming");
                actions.push(OverlayAction::Place { width, height });
                actions.push(OverlayAction::Show);
                actions.push(OverlayAction::Raise);
                actions.push(OverlayAction::Place { width, height });
            },
            Platform::MacOs => {
                actions.push(OverlayAction::Resize { width, height });
                actions.push(OverlayAction::Move { width, height });
                actions.push(OverlayAction::Show);
                actions.push(OverlayAction::Follow);
            },
        }
        actions.push(OverlayAction::EmitState);
        proof {
            assert(actions@ =~= show_actions(platform, width, height));
        }
        actions
    }

    /// What is done to put a visible overlay where it belongs.
    pub fn reposition(&self, platform: Platform, live_text: bool) -> (r: OverlayAction)
        ensures
            r == move_action(platform, self.streaming, live_text),
    {
        match platform {
            Platform::Linux { layer_shell: true } => OverlayAction::AnchorSurface,
            Platform::Windows => {
                let state = if self.streaming {
                    "streaming"
                } else {
                    "recording"
                };
                let (width, height) = overlay_dimensions(state, live_text);
                OverlayAction::Place { width, height }
            },
            _ => OverlayAction::MoveAsSized { width: OVERLAY_WIDTH, height: OVERLAY_HEIGHT },
        }
    }

    /// What is done to hide the overlay, whatever the settings are by now: the page fades it out
    /// at once, and the window goes once it has had time to. Nothing where there is no window.
    pub fn schedule_hide(&mut self, has_window: bool) -> (r: Vec<HideAction>)
        ensures
            r@ == if has_window {
                seq![
                    HideAction::EmitHide,
                    HideAction::HideLater {
                        delay_ms: HIDE_DELAY_MS,
                        scheduled_at: old(self).show_generation,
                    },
                ]
            } else {
                Seq::empty()
            },
            has_window ==> r@.len() == 2 && r@[0] is EmitHide && (r@[1] matches HideAction::HideLater {
                delay_ms,
                scheduled_at,
            } && delay_ms == 300 && scheduled_at == old(self).show_generation),
            *final(self) == (OverlayState { visible: false, ..*old(self) }),
    {
        self.visible = false;
        let mut actions: Vec<HideAction> = Vec::new();
        if has_window {
            actions.push(HideAction::EmitHide);
            actions.push(
                HideAction::HideLater {
                    delay_ms: HIDE_DELAY_MS,
                    scheduled_at: self.show_generation,
                },
            );
        }
        actions
    }

    /// Whether the overlay has not been shown again since a hide was scheduled.
    pub fn hide_is_due(&self, scheduled_at: u64) -> (r: bool)
        ensures
            r == (self.show_generation == scheduled_at),
    {
        self.show_generation == scheduled_at
    }

    /// Starts to follow the Dock; the result names the loop that does so from now on.
    pub fn start_following(&mut self) -> (r: u64)
        ensures
            r == next_generation(old(self).follow_generation),
            *final(self) == (OverlayState { visible: true, follow_generation: r, ..*old(self) }),
    {
        self.visible = true;
        self.follow_generation = following(self.follow_generation);
        self.follow_generation
    }

    /// Whether a loop goes on: while the overlay is up and no later loop has taken over.
    pub fn keeps_following(&self, loop_generation: u64) -> (r: bool)
        ensures
            r == (self.visible && self.follow_generation == loop_generation),
    {
        self.visible && self.follow_generation == loop_generation
    }

    /// Whether the page is told that the microphone delivers.
    pub fn emits_ready(&self) -> (r: bool)
        ensures
            r == self.enabled,
    {
        self.enabled
    }

    /// Whether levels are sent now: not while the overlay is off, and not too often.
    pub fn admit_levels(&mut self, now_ms: u64) -> (r: bool)
        ensures
            r == (old(self).enabled && now_ms - old(self).last_level_emit >= EMIT_THROTTLE_MS),
            r == (old(self).enabled && old(self).last_level_emit + 33 <= now_ms),
            *final(self) == if r {
                OverlayState { last_level_emit: now_ms, ..*old(self) }
            } else {
                *old(self)
            },
    {
        if !self.enabled {
            return false;
        }
        if now_ms < self.last_level_emit || now_ms - self.last_level_emit < EMIT_THROTTLE_MS {
            return false;
        }
        self.last_level_emit = now_ms;
        true
    }
}

/// The generation after this one; the last is followed by the first.
pub open spec fn next_generation(generation: u64) -> u64 {
    if generation == u64::MAX {
        0
    } else {
        (generation + 1) as u64
    }
}

/// The generation after this one.
fn following(generation: u64) -> (r: u64)
    ensures
        r == next_generation(generation),
{
    if generation == u64::MAX {
        0
    } else {
        generation + 1
    }
}

/// Records whether the overlay is shown at all.
pub fn update_overlay_enabled_cache(state: &mut OverlayState, enabled: bool)
    ensures
        *final(state) == (OverlayState { enabled, ..*old(state) }),
{
    state.enabled = enabled;
}

/// The number of the next animation frame, and whether the target is looked up again for it.
pub fn next_frame(frame: u64) -> (r: (u64, bool))
    ensures
        r.0 == next_generation(frame),
        r.1 == (r.0 as int % FRAMES_PER_TARGET as int == 0),
        r.1 <==> r.0 % 8 == 0,
{
    let frame: u64 = following(frame);
    (frame, frame % FRAMES_PER_TARGET == 0)
}

proof fn lemma_generation_after_shows(
    state: OverlayState,
    platform: Platform,
    states: Seq<Seq<char>>,
)
    ensures
        state.shown_all(platform, states).show_generation as int == (state.show_generation
            + states.len()) % 0x1_0000_0000_0000_0000,
    decreases states.len(),
{
    if states.len() > 0 {
        lemma_generation_after_shows(state, platform, states.drop_last());
    }
}

/// A hide left over from one session never takes down the overlay of a later one. The hide that is
/// scheduled in `state` is due exactly while the overlay has not been shown again, whatever it was
/// shown in and however often, short of the whole range of the counter.
pub proof fn law_a_stale_hide_is_skipped(
    state: OverlayState,
    platform: Platform,
    states: Seq<Seq<char>>,
)
    requires
        states.len() < 0x1_0000_0000_0000_0000,
    ensures
        (state.shown_all(platform, states).show_generation == state.show_generation) == (
        states.len() == 0),
{
    lemma_generation_after_shows(state, platform, states);
}

/// How large the overlay is: the panel where live text streams, the small pill while it listens,
/// and the wide one in every other state.
pub proof fn law_how_large_the_overlay_is(state: Seq<char>, live_text: bool)
    ensures
        state == "streaming"@ && live_text ==> dimensions(state, live_text) == (400u32, 120u32),
        state == "streaming"@ && !live_text ==> dimensions(state, live_text) == (94u32, 26u32),
        state == "recording"@ ==> dimensions(state, live_text) == (94u32, 26u32),
        state != "streaming"@ && state != "recording"@ ==> dimensions(state, live_text) == (
            134u32,
            26u32,
        ),
{
    reveal_strlit("streaming");
    reveal_strlit("recording");
    assert("streaming"@[0] == 's' && "recording"@[0] == 'r');
}

/// Where in a list of actions one stands for the first time.
pub open spec fn first_at(actions: Seq<OverlayAction>, action: OverlayAction, at: int) -> bool {
    &&& 0 <= at < actions.len()
    &&& actions[at] == action
    &&& forall|i: int| 0 <= i < at ==> (#[trigger] actions[i]) != action
}

/// Whether an action sets the size of the window, to this one.
pub open spec fn sizes(action: OverlayAction, width: u32, height: u32) -> bool {
    ||| action == (OverlayAction::ConfigureSurface { width, height })
    ||| action == (OverlayAction::Resize { width, height })
    ||| action == (OverlayAction::Place { width, height })
}

/// Whether an action puts a window of this size where it belongs.
pub open spec fn places(action: OverlayAction, width: u32, height: u32) -> bool {
    ||| action == (OverlayAction::ConfigureSurface { width, height })
    ||| action == (OverlayAction::Move { width, height })
    ||| action == (OverlayAction::Place { width, height })
}

/// To show the overlay it is sized and placed first, then shown, and the page is told the state
/// last; each of these on every platform. Where it has to be raised it is placed again after that,
/// and where there is a Dock it is followed.
pub proof fn law_the_overlay_is_placed_before_it_is_shown(
    platform: Platform,
    width: u32,
    height: u32,
)
    ensures
        ({
            let actions = show_actions(platform, width, height);
            &&& exists|shown: int| #[trigger]
                first_at(actions, OverlayAction::Show, shown) && (exists|i: int|
                    0 <= i < shown && sizes(#[trigger] actions[i], width, height)) && (exists|
                    i: int,
                |
                    0 <= i < shown && places(#[trigger] actions[i], width, height))
            &&& first_at(actions, OverlayAction::EmitState, actions.len() - 1)
            &&& actions.contains(OverlayAction::Follow) <==> platform is MacOs
            &&& actions.contains(OverlayAction::Raise) <==> platform is Windows
            &&& platform is Windows ==> actions.len() == 5 && actions[2] == OverlayAction::Raise
                && actions[3] == (OverlayAction::Place { width, height })
        }),
{
    let actions = show_actions(platform, width, height);
    match platform {
        Platform::Linux { layer_shell: true } => {
            assert(first_at(actions, OverlayAction::Show, 1));
            assert(sizes(actions[0], width, height) && places(actions[0], width, height));
        },
        Platform::Linux { layer_shell: false } => {
            assert(first_at(actions, OverlayAction::Show, 2));
            assert(sizes(actions[0], width, height) && places(actions[1], width, height));
        },
        Platform::Windows => {
            assert(first_at(actions, OverlayAction::Show, 1));
            assert(sizes(actions[0], width, height) && places(actions[0], width, height));
            assert(actions[2] == OverlayAction::Raise);
        },
        Platform::MacOs => {
            assert(first_at(actions, OverlayAction::Show, 2));
            assert(sizes(actions[0], width, height) && places(actions[1], width, height));
            assert(actions[3] == OverlayAction::Follow);
        },
    }
}

/// A visible overlay is put where it belongs in its platform's way: a layer surface is anchored, on
/// Windows the window is placed in the size of what it last showed, and elsewhere it is moved as it
/// is.
pub proof fn law_how_a_visible_overlay_moves(
    platform: Platform,
    streaming: bool,
    live_text: bool,
)
    ensures
        ({
            let action = move_action(platform, streaming, live_text);
            &&& platform == (Platform::Linux { layer_shell: true }) ==> action is AnchorSurface
            &&& platform is Windows && streaming && live_text ==> action == (OverlayAction::Place {
                width: 400,
                height: 120,
            })
            &&& platform is Windows && !(streaming && live_text) ==> action
                == (OverlayAction::Place { width: 94, height: 26 })
            &&& platform is MacOs || platform == (Platform::Linux { layer_shell: false }) ==> action
                == (OverlayAction::MoveAsSized { width: 134, height: 26 })
        }),
{
    reveal_strlit("streaming");
    reveal_strlit("recording");
    assert("streaming"@[0] == 's' && "recording"@[0] == 'r');
}

/// A point is on a monitor from its left and top edges on, up to but not on the right and bottom
/// ones; monitors side by side share no point.
pub proof fn law_which_points_are_on_a_monitor(x: int, y: int, monitor: MonitorBounds)
    requires
        monitor.width <= i32::MAX,
        monitor.height <= i32::MAX,
    ensures
        within(x, y, monitor) <==> 0 <= x - monitor.x < monitor.width && 0 <= y - monitor.y
            < monitor.height,
{
}

/// A size that no signed number holds has no points.
pub proof fn law_an_impossible_monitor_has_no_points(x: int, y: int, monitor: MonitorBounds)
    requires
        monitor.width > i32::MAX || monitor.height > i32::MAX,
    ensures
        !within(x, y, monitor),
{
}

/// A window is the Dock's bar if it is the Dock's and on level twenty; its wallpaper is not.
pub proof fn law_what_the_dock_bar_is(window: ListedWindow)
    ensures
        is_dock_bar(window) <==> window.owned_by_dock && (window.layer matches Some(layer) && layer
            == 20),
{
}

/// Showing the overlay counts, remembers on Windows whether it streams, and changes nothing else.
pub proof fn law_what_a_show_remembers(state: OverlayState, platform: Platform, name: Seq<char>)
    ensures
        ({
            let shown = state.shown(platform, name);
            &&& state.show_generation < u64::MAX ==> shown.show_generation == state.show_generation
                + 1
            &&& state.show_generation == u64::MAX ==> shown.show_generation == 0
            &&& platform is Windows ==> shown.streaming == (name == "streaming"@)
            &&& platform !is Windows ==> shown.streaming == state.streaming
            &&& shown.enabled == state.enabled
            &&& shown.visible == state.visible
            &&& shown.follow_generation == state.follow_generation
            &&& shown.last_level_emit == state.last_level_emit
        }),
{
}

} // verus!
