use magic_cursor::errors::PlatformError;
use magic_cursor::platform::apply_click_through_style;
use magic_cursor::platform::initial_overlay_style;
use magic_cursor::platform::placement_over_monitor;
use magic_cursor::platform::style_has_click_through;
use magic_cursor::platform::MonitorRect;
use magic_cursor::platform::WindowPlacement;
use magic_cursor::platform::EX_STYLE_LAYERED;
use magic_cursor::platform::EX_STYLE_NO_ACTIVATE;
use magic_cursor::platform::EX_STYLE_TOOL_WINDOW;
use magic_cursor::platform::EX_STYLE_TRANSPARENT;
use magic_cursor::polling::flip_vertical;
use magic_cursor::polling::poll_gate;
use magic_cursor::polling::tick_sample;
use magic_cursor::polling::CursorSample;
use magic_cursor::polling::TickAction;
use magic_cursor::polling::IDLE_INTERVAL_MS;
use magic_cursor::polling::POLL_INTERVAL_MS;

#[test]
fn enabling_sets_transparent_and_its_layered_prerequisite() {
    let styled = apply_click_through_style(0x100, true);
    assert_eq!(styled, 0x100 | EX_STYLE_LAYERED | EX_STYLE_TRANSPARENT);
    assert_eq!(styled, 0x8_0120);
    assert!(style_has_click_through(styled));
}

#[test]
fn disabling_clears_only_the_transparent_bit() {
    let styled = apply_click_through_style(0x8_0120, false);
    assert_eq!(styled, 0x8_0100);
    // the layered prerequisite stays set, the unrelated bit stays set
    assert_eq!(styled & EX_STYLE_LAYERED, EX_STYLE_LAYERED);
    assert_eq!(styled & 0x100, 0x100);
    assert!(!style_has_click_through(styled));
}

#[test]
fn disabling_never_touches_foreign_bits() {
    let styled = apply_click_through_style(0x120, false);
    assert_eq!(styled, 0x100);
}

#[test]
fn style_change_is_idempotent() {
    let once = apply_click_through_style(0x40, true);
    assert_eq!(apply_click_through_style(once, true), once);
    let off = apply_click_through_style(once, false);
    assert_eq!(apply_click_through_style(off, false), off);
}

#[test]
fn startup_style_carries_all_four_overlay_bits() {
    let styled = initial_overlay_style(0);
    assert_eq!(
        styled,
        EX_STYLE_LAYERED | EX_STYLE_TRANSPARENT | EX_STYLE_TOOL_WINDOW | EX_STYLE_NO_ACTIVATE
    );
    assert_eq!(styled, 0x808_00a0);
    assert!(style_has_click_through(styled));
}

#[test]
fn placement_covers_the_monitor_exactly() {
    let rect = MonitorRect { left: -1920, top: 0, right: 1920, bottom: 1080 };
    let placement = placement_over_monitor(rect).unwrap();
    assert_eq!(
        placement,
        WindowPlacement { x: -1920, y: 0, width: 3840, height: 1080 }
    );
}

#[test]
fn degenerate_monitor_rectangle_is_a_platform_failure() {
    let rect = MonitorRect { left: 10, top: 0, right: 0, bottom: 1080 };
    assert_eq!(placement_over_monitor(rect), Err(PlatformError::CallFailed));
    let rect = MonitorRect { left: i32::MIN, top: 0, right: i32::MAX, bottom: 10 };
    assert_eq!(placement_over_monitor(rect), Err(PlatformError::CallFailed));
}

#[test]
fn polling_samples_only_while_tracking_is_on() {
    assert_eq!(poll_gate(Some(true)), TickAction::Sample);
    assert_eq!(poll_gate(Some(false)), TickAction::Idle);
    // a poisoned guard skips the tick instead of crashing the loop
    assert_eq!(poll_gate(None), TickAction::Idle);
}

#[test]
fn polling_intervals_match_the_design() {
    assert_eq!(POLL_INTERVAL_MS, 16);
    assert_eq!(IDLE_INTERVAL_MS, 100);
}

#[test]
fn successful_query_becomes_a_sample() {
    let sample = tick_sample(Ok((640, 360)), 2560, 1440);
    assert_eq!(
        sample,
        Some(CursorSample { x: 640, y: 360, screen_width: 2560, screen_height: 1440 })
    );
}

#[test]
fn failed_query_skips_the_tick() {
    assert_eq!(tick_sample(Err(PlatformError::CallFailed), 2560, 1440), None);
}

#[test]
fn vertical_flip_converts_bottom_left_coordinates() {
    assert_eq!(flip_vertical(1080, 300), 780);
    assert_eq!(flip_vertical(1080, 0), 1080);
    assert_eq!(flip_vertical(1080, 1080), 0);
}
