use handy::overlay::{
    dock_is_listed, is_mouse_within_monitor, may_create_overlay, monitor_with_cursor, next_frame,
    overlay_dimensions, update_overlay_enabled_cache, HideAction, ListedWindow, MonitorBounds, OverlayAction,
    OverlayState, Platform, OVERLAY_BASE_HEIGHT, OVERLAY_HEIGHT, OVERLAY_REST_WIDTH,
    OVERLAY_SLACK, OVERLAY_STREAM_HEIGHT, OVERLAY_STREAM_WIDTH, OVERLAY_WIDTH, OVERLAY_WORK_WIDTH,
};

fn monitor(x: i32, y: i32, width: u32, height: u32) -> MonitorBounds {
    MonitorBounds {
        x,
        y,
        width,
        height,
    }
}

#[test]
fn monitor_hit_test_uses_half_open_physical_bounds() {
    let bounds = monitor(-2560, -200, 2560, 1440);

    assert!(is_mouse_within_monitor((-2560, -200), &bounds));
    assert!(is_mouse_within_monitor((-1, 1239), &bounds));
    assert!(!is_mouse_within_monitor((0, 0), &bounds));
    assert!(!is_mouse_within_monitor((-1, 1240), &bounds));
}

#[test]
fn windows_cursor_hit_test_does_not_scale_physical_monitor_bounds() {
    let bounds = monitor(1920, 0, 3840, 2160);
    let cursor = (5000, 1000);

    assert!(is_mouse_within_monitor(cursor, &bounds));

    // Scaled bounds would leave out a cursor that is visibly inside.
    let scale = 1.5;
    let logical = monitor(
        (bounds.x as f64 / scale) as i32,
        (bounds.y as f64 / scale) as i32,
        (bounds.width as f64 / scale) as u32,
        (bounds.height as f64 / scale) as u32,
    );
    assert!(!is_mouse_within_monitor(cursor, &logical));
}

#[test]
fn overlay_dimensions_track_the_card_each_state_draws() {
    let listening = (
        OVERLAY_REST_WIDTH + OVERLAY_SLACK,
        OVERLAY_BASE_HEIGHT + OVERLAY_SLACK,
    );
    let working = (
        OVERLAY_WORK_WIDTH + OVERLAY_SLACK,
        OVERLAY_BASE_HEIGHT + OVERLAY_SLACK,
    );

    assert_eq!(overlay_dimensions("recording", false), listening);
    assert_eq!(overlay_dimensions("streaming", false), listening);
    assert_eq!(overlay_dimensions("transcribing", false), working);
    assert_eq!(overlay_dimensions("processing", false), working);
    assert_eq!(listening, (94, 26));
    assert_eq!(working, (134, 26));
}

#[test]
fn overlay_dimensions_reserve_the_panel_only_for_live_text() {
    assert_eq!(
        overlay_dimensions("streaming", true),
        (OVERLAY_STREAM_WIDTH, OVERLAY_STREAM_HEIGHT)
    );
    assert_eq!(
        overlay_dimensions("transcribing", true),
        overlay_dimensions("transcribing", false)
    );
    assert_eq!(overlay_dimensions("streaming", true), (400, 120));
}

#[test]
fn neutral_compact_size_covers_the_widest_compact_state() {
    let (w, h) = overlay_dimensions("transcribing", false);
    assert!(OVERLAY_WIDTH >= w, "{OVERLAY_WIDTH} < {w}");
    assert!(OVERLAY_HEIGHT >= h, "{OVERLAY_HEIGHT} < {h}");
}

#[test]
fn the_first_monitor_with_the_cursor_is_taken() {
    let monitors = [
        monitor(0, 0, 100, 100),
        monitor(100, 0, 100, 100),
        monitor(50, 50, 100, 100),
    ];
    assert_eq!(monitor_with_cursor(Some((60, 60)), &monitors), Some(0));
    assert_eq!(monitor_with_cursor(Some((100, 60)), &monitors), Some(1));
    assert_eq!(monitor_with_cursor(Some((60, 120)), &monitors), Some(2));
    assert_eq!(monitor_with_cursor(Some((500, 0)), &monitors), None);
    assert_eq!(monitor_with_cursor(None, &monitors), None);
}

#[test]
fn the_dock_is_its_bar_and_not_the_wallpaper() {
    let wallpaper = ListedWindow {
        layer: Some(-2147483624),
        owned_by_dock: true,
    };
    let menu = ListedWindow {
        layer: Some(20),
        owned_by_dock: false,
    };
    let unknown = ListedWindow {
        layer: None,
        owned_by_dock: true,
    };
    let bar = ListedWindow {
        layer: Some(20),
        owned_by_dock: true,
    };
    assert!(!dock_is_listed(&[wallpaper, menu, unknown]));
    assert!(dock_is_listed(&[wallpaper, bar, menu]));
    assert!(!dock_is_listed(&[]));
}

#[test]
fn only_linux_makes_an_overlay_without_a_position() {
    assert!(may_create_overlay(
        Platform::Linux { layer_shell: false },
        false
    ));
    assert!(!may_create_overlay(Platform::Windows, false));
    assert!(!may_create_overlay(Platform::MacOs, false));
    assert!(may_create_overlay(Platform::Windows, true));
}

#[test]
fn windows_places_the_overlay_again_after_showing_it() {
    let mut state = OverlayState::new();
    let actions = state.show(Platform::Windows, "streaming", true, true, true);
    let place = OverlayAction::Place {
        width: 400,
        height: 120,
    };
    assert_eq!(
        actions,
        vec![
            place,
            OverlayAction::Show,
            OverlayAction::Raise,
            place,
            OverlayAction::EmitState
        ]
    );
    assert!(state.streaming);
    assert_eq!(state.reposition(Platform::Windows, true), place);
}

#[test]
fn every_platform_sizes_before_it_shows() {
    let mut state = OverlayState::new();
    assert_eq!(
        state.show(Platform::MacOs, "recording", false, true, true),
        vec![
            OverlayAction::Resize {
                width: 94,
                height: 26
            },
            OverlayAction::Move {
                width: 94,
                height: 26
            },
            OverlayAction::Show,
            OverlayAction::Follow,
            OverlayAction::EmitState
        ]
    );
    assert_eq!(
        state.show(
            Platform::Linux { layer_shell: true },
            "processing",
            false,
            true,
            true
        ),
        vec![
            OverlayAction::ConfigureSurface {
                width: 134,
                height: 26
            },
            OverlayAction::Show,
            OverlayAction::EmitState
        ]
    );
    assert_eq!(
        state.reposition(Platform::Linux { layer_shell: true }, false),
        OverlayAction::AnchorSurface
    );
    assert_eq!(
        state.reposition(Platform::MacOs, false),
        OverlayAction::MoveAsSized {
            width: 134,
            height: 26
        }
    );
}

#[test]
fn a_style_without_an_overlay_shows_none() {
    let mut state = OverlayState::new();
    assert!(state
        .show(Platform::MacOs, "recording", false, false, true)
        .is_empty());
    assert!(state
        .show(Platform::MacOs, "recording", false, true, false)
        .is_empty());
    assert_eq!(state.show_generation, 0);
}

#[test]
fn a_stale_hide_is_skipped() {
    let mut state = OverlayState::new();
    state.show(Platform::MacOs, "recording", false, true, true);
    // The fade-out comes at once, whatever the settings are by now.
    update_overlay_enabled_cache(&mut state, false);
    assert_eq!(
        state.schedule_hide(true),
        vec![
            HideAction::EmitHide,
            HideAction::HideLater {
                delay_ms: 300,
                scheduled_at: 1
            }
        ]
    );
    assert!(state.hide_is_due(1));
    state.show(Platform::MacOs, "recording", false, true, true);
    assert!(!state.hide_is_due(1));
    assert!(state.schedule_hide(false).is_empty());
}

#[test]
fn a_later_loop_takes_over() {
    let mut state = OverlayState::new();
    let first = state.start_following();
    assert!(state.keeps_following(first));
    let second = state.start_following();
    assert!(!state.keeps_following(first));
    assert!(state.keeps_following(second));
    state.schedule_hide(true);
    assert!(!state.keeps_following(second));
}

#[test]
fn the_target_is_looked_up_every_eighth_frame() {
    let mut frame = 0;
    let mut looked_up = Vec::new();
    for _ in 0..24 {
        let (next, recompute) = next_frame(frame);
        frame = next;
        if recompute {
            looked_up.push(frame);
        }
    }
    assert_eq!(looked_up, vec![8, 16, 24]);
    assert_eq!(next_frame(u64::MAX), (0, true));
}

#[test]
fn levels_are_throttled_and_need_an_enabled_overlay() {
    let mut state = OverlayState::new();
    assert!(!state.emits_ready());
    assert!(!state.admit_levels(1_000));
    update_overlay_enabled_cache(&mut state, true);
    assert!(state.emits_ready());
    assert!(state.admit_levels(1_000));
    assert!(!state.admit_levels(1_032));
    assert!(state.admit_levels(1_033));
    // A clock that steps back waits until it has caught up.
    assert!(!state.admit_levels(500));
    update_overlay_enabled_cache(&mut state, false);
    assert!(!state.admit_levels(9_000));
}
