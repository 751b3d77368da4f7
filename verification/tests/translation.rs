//! Request translation: code and identifier bounds, finiteness policy,
//! clamping and output selection.

use eis_bridge::geometry::{clamp_to_rect, find_output, sat_add_i64, OutputRect, Pos};
use eis_bridge::translate::{
    translate, Coord, HostSnapshot, Injection, InputRequest, RejectReason, TranslateOutcome,
    MAX_EVDEV_KEYCODE, MAX_TOUCH_ID,
};

fn fin(units: i64) -> Coord {
    Coord { finite: true, units }
}

fn non_finite() -> Coord {
    // What the wire boundary makes of a NaN or infinite value.
    Coord { finite: false, units: 0 }
}

fn single_output() -> HostSnapshot {
    HostSnapshot {
        pointer: Pos { x: 100, y: 100 },
        outputs: vec![OutputRect { x: 0, y: 0, w: 1920, h: 1080 }],
        active_output: OutputRect { x: 0, y: 0, w: 1920, h: 1080 },
    }
}

fn dual_output() -> HostSnapshot {
    HostSnapshot {
        pointer: Pos { x: 100, y: 100 },
        outputs: vec![
            OutputRect { x: 0, y: 0, w: 1920, h: 1080 },
            OutputRect { x: 1920, y: 0, w: 1280, h: 1024 },
        ],
        active_output: OutputRect { x: 0, y: 0, w: 1920, h: 1080 },
    }
}

#[test]
fn key_above_max_dropped_key_in_range_injects_once() {
    let s = single_output();
    let dropped = translate(&InputRequest::Key { keycode: 0x300, pressed: true }, &s);
    assert_eq!(dropped, TranslateOutcome::Dropped(RejectReason::KeycodeOutOfRange));
    let injected = translate(&InputRequest::Key { keycode: 0x010, pressed: true }, &s);
    assert_eq!(
        injected,
        TranslateOutcome::Inject(Injection::Key { keycode: 0x010, pressed: true })
    );
}

#[test]
fn keycode_boundary_is_inclusive() {
    let s = single_output();
    let at_max = translate(
        &InputRequest::Key { keycode: MAX_EVDEV_KEYCODE, pressed: false },
        &s,
    );
    assert_eq!(
        at_max,
        TranslateOutcome::Inject(Injection::Key { keycode: MAX_EVDEV_KEYCODE, pressed: false })
    );
}

#[test]
fn button_above_max_dropped_button_in_range_injects() {
    let s = single_output();
    let dropped = translate(&InputRequest::Button { code: 0x300, pressed: true }, &s);
    assert_eq!(dropped, TranslateOutcome::Dropped(RejectReason::ButtonCodeOutOfRange));
    let injected = translate(&InputRequest::Button { code: 0x110, pressed: true }, &s);
    assert_eq!(
        injected,
        TranslateOutcome::Inject(Injection::Button { code: 0x110, pressed: true })
    );
}

#[test]
fn non_finite_motion_and_scroll_never_inject() {
    let s = single_output();
    for req in [
        InputRequest::RelativeMotion { dx: non_finite(), dy: fin(0) },
        InputRequest::RelativeMotion { dx: fin(0), dy: non_finite() },
        InputRequest::AbsoluteMotion { x: non_finite(), y: fin(5) },
        InputRequest::Scroll { dx: fin(1), dy: non_finite() },
    ] {
        let r = translate(&req, &s);
        assert_eq!(r, TranslateOutcome::Dropped(RejectReason::NonFiniteCoordinate));
    }
}

#[test]
fn huge_relative_motion_clamps_to_output_edge() {
    let s = single_output();
    // A wire delta like 1e300 saturates to the largest representable value
    // at the boundary; the motion must clamp to the output's far edge, not
    // wrap or escape the display.
    let r = translate(
        &InputRequest::RelativeMotion { dx: fin(i64::MAX), dy: fin(0) },
        &s,
    );
    assert_eq!(
        r,
        TranslateOutcome::Inject(Injection::PointerMotion {
            pos: Pos { x: 1919, y: 100 },
            output: None,
        })
    );
}

#[test]
fn relative_motion_inside_output_moves_exactly() {
    let s = single_output();
    let r = translate(&InputRequest::RelativeMotion { dx: fin(25), dy: fin(-40) }, &s);
    assert_eq!(
        r,
        TranslateOutcome::Inject(Injection::PointerMotion {
            pos: Pos { x: 125, y: 60 },
            output: Some(0),
        })
    );
}

#[test]
fn absolute_motion_picks_containing_output() {
    let s = dual_output();
    let r = translate(&InputRequest::AbsoluteMotion { x: fin(2000), y: fin(500) }, &s);
    assert_eq!(
        r,
        TranslateOutcome::Inject(Injection::PointerMotion {
            pos: Pos { x: 2000, y: 500 },
            output: Some(1),
        })
    );
}

#[test]
fn absolute_motion_below_origin_clamps_to_near_corner() {
    let s = single_output();
    let r = translate(&InputRequest::AbsoluteMotion { x: fin(-50), y: fin(2000) }, &s);
    assert_eq!(
        r,
        TranslateOutcome::Inject(Injection::PointerMotion {
            pos: Pos { x: 0, y: 1079 },
            output: None,
        })
    );
}

#[test]
fn motion_with_no_outputs_falls_back_to_active() {
    let s = HostSnapshot {
        pointer: Pos { x: 10, y: 10 },
        outputs: Vec::new(),
        active_output: OutputRect { x: 0, y: 0, w: 800, h: 600 },
    };
    let r = translate(&InputRequest::RelativeMotion { dx: fin(10000), dy: fin(10000) }, &s);
    assert_eq!(
        r,
        TranslateOutcome::Inject(Injection::PointerMotion {
            pos: Pos { x: 799, y: 599 },
            output: None,
        })
    );
}

#[test]
fn scroll_carries_only_non_zero_axes() {
    let s = single_output();
    let r = translate(&InputRequest::Scroll { dx: fin(0), dy: fin(5) }, &s);
    assert_eq!(
        r,
        TranslateOutcome::Inject(Injection::Scroll { horizontal: None, vertical: Some(5) })
    );
    let r2 = translate(&InputRequest::Scroll { dx: fin(-3), dy: fin(0) }, &s);
    assert_eq!(
        r2,
        TranslateOutcome::Inject(Injection::Scroll { horizontal: Some(-3), vertical: None })
    );
}

#[test]
fn scroll_with_both_axes_zero_injects_empty_frame() {
    let s = single_output();
    let r = translate(&InputRequest::Scroll { dx: fin(0), dy: fin(0) }, &s);
    assert_eq!(
        r,
        TranslateOutcome::Inject(Injection::Scroll { horizontal: None, vertical: None })
    );
}

#[test]
fn touch_id_above_bound_drops_down_and_motion_but_not_up() {
    let s = single_output();
    let down = translate(
        &InputRequest::TouchDown { id: 257, x: fin(10), y: fin(10) },
        &s,
    );
    assert_eq!(down, TranslateOutcome::Dropped(RejectReason::TouchIdOutOfRange));
    let motion = translate(
        &InputRequest::TouchMotion { id: 300, x: fin(10), y: fin(10) },
        &s,
    );
    assert_eq!(motion, TranslateOutcome::Dropped(RejectReason::TouchIdOutOfRange));
    // Touch-up for an unknown or absurd identifier is still delivered.
    let up = translate(&InputRequest::TouchUp { id: 9999 }, &s);
    assert_eq!(up, TranslateOutcome::Inject(Injection::TouchUp { id: 9999 }));
    let cancel = translate(&InputRequest::TouchCancel, &s);
    assert_eq!(cancel, TranslateOutcome::Inject(Injection::TouchCancel));
}

#[test]
fn touch_id_boundary_is_inclusive() {
    let s = single_output();
    let r = translate(
        &InputRequest::TouchDown { id: MAX_TOUCH_ID, x: fin(50), y: fin(60) },
        &s,
    );
    assert_eq!(
        r,
        TranslateOutcome::Inject(Injection::TouchDown {
            id: MAX_TOUCH_ID,
            pos: Pos { x: 50, y: 60 },
            output: Some(0),
        })
    );
}

#[test]
fn touch_outside_every_output_has_no_target() {
    let s = single_output();
    let r = translate(
        &InputRequest::TouchDown { id: 1, x: fin(-100), y: fin(-100) },
        &s,
    );
    assert_eq!(
        r,
        TranslateOutcome::Inject(Injection::TouchDown {
            id: 1,
            pos: Pos { x: -100, y: -100 },
            output: None,
        })
    );
}

#[test]
fn non_finite_touch_coordinates_drop() {
    let s = single_output();
    let r = translate(
        &InputRequest::TouchDown { id: 1, x: non_finite(), y: fin(0) },
        &s,
    );
    assert_eq!(r, TranslateOutcome::Dropped(RejectReason::NonFiniteCoordinate));
}

#[test]
fn clamp_formula_is_exact() {
    let rect = OutputRect { x: 0, y: 0, w: 1920, h: 1080 };
    let c = clamp_to_rect(&Pos { x: -50, y: 2000 }, &rect);
    assert_eq!(c, Pos { x: 0, y: 1079 });
    let inside = clamp_to_rect(&Pos { x: 12, y: 34 }, &rect);
    assert_eq!(inside, Pos { x: 12, y: 34 });
    let shifted = OutputRect { x: 1920, y: 0, w: 1280, h: 1024 };
    let far = clamp_to_rect(&Pos { x: i64::MAX, y: i64::MIN }, &shifted);
    assert_eq!(far, Pos { x: 1920 + 1280 - 1, y: 0 });
}

#[test]
fn saturating_add_holds_the_edges() {
    assert_eq!(sat_add_i64(i64::MAX, 1), i64::MAX);
    assert_eq!(sat_add_i64(i64::MIN, -1), i64::MIN);
    assert_eq!(sat_add_i64(40, 2), 42);
}

#[test]
fn find_output_picks_first_match() {
    // Overlapping outputs: the first containing rectangle wins.
    let outputs = vec![
        OutputRect { x: 0, y: 0, w: 100, h: 100 },
        OutputRect { x: 50, y: 0, w: 100, h: 100 },
    ];
    assert_eq!(find_output(&outputs, &Pos { x: 60, y: 10 }), Some(0));
    assert_eq!(find_output(&outputs, &Pos { x: 120, y: 10 }), Some(1));
    assert_eq!(find_output(&outputs, &Pos { x: 300, y: 10 }), None);
    assert_eq!(find_output(&Vec::new(), &Pos { x: 0, y: 0 }), None);
}
