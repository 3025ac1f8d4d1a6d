use gilrs_xinput::{compare_state, is_mask_eq, Axis, AxisValue, Button, Event, RawPad};

fn pad() -> RawPad {
    RawPad::zeroed()
}

#[test]
fn identical_snapshots_yield_no_events() {
    let mut p = pad();
    p.buttons = 0x1234;
    p.thumb_lx = -200;
    p.left_trigger = 17;
    assert!(compare_state(&p, &p).is_empty());
    assert!(compare_state(&pad(), &pad()).is_empty());
}

#[test]
fn half_left_stick_x_is_one_half() {
    let prev = pad();
    let mut cur = pad();
    cur.thumb_lx = 16384;
    let events = compare_state(&prev, &cur);
    assert_eq!(
        events,
        vec![Event::AxisChanged(Axis::LeftStickX, AxisValue { num: 16384, den: 32767 }, 0)]
    );
    match events[0] {
        Event::AxisChanged(_, v, _) => {
            let f = v.num as f32 / v.den as f32;
            assert!((f - 0.5).abs() < 0.001);
        }
        _ => panic!("expected an axis event"),
    }
}

#[test]
fn single_axis_changes_give_one_event_each() {
    let cases: Vec<(Axis, u16, i32, RawPad)> = vec![
        (Axis::LeftTrigger2, 4, 255, RawPad { left_trigger: 255, ..pad() }),
        (Axis::RightTrigger2, 5, 51, RawPad { right_trigger: 51, ..pad() }),
        (Axis::LeftStickX, 0, 32767, RawPad { thumb_lx: 32767, ..pad() }),
        (Axis::LeftStickY, 1, -100, RawPad { thumb_ly: -100, ..pad() }),
        (Axis::RightStickX, 2, 7, RawPad { thumb_rx: 7, ..pad() }),
        (Axis::RightStickY, 3, -32767, RawPad { thumb_ry: -32767, ..pad() }),
    ];
    for (axis, code, num, cur) in cases {
        let den = if code >= 4 { 255 } else { 32767 };
        assert_eq!(
            compare_state(&pad(), &cur),
            vec![Event::AxisChanged(axis, AxisValue { num, den }, code)]
        );
    }
}

#[test]
fn most_negative_stick_reading_is_clamped() {
    let cur = RawPad { thumb_ry: -32768, ..pad() };
    assert_eq!(
        compare_state(&pad(), &cur),
        vec![Event::AxisChanged(Axis::RightStickY, AxisValue { num: -32767, den: 32767 }, 3)]
    );
}

#[test]
fn single_button_press_and_release() {
    let prev = pad();
    let cur = RawPad { buttons: 0x1000, ..pad() };
    assert_eq!(compare_state(&prev, &cur), vec![Event::ButtonPressed(Button::South, 0x1000)]);
    assert_eq!(compare_state(&cur, &prev), vec![Event::ButtonReleased(Button::South, 0x1000)]);
    let up = RawPad { buttons: 0x8001, ..pad() };
    let down = RawPad { buttons: 0x0001, ..pad() };
    assert_eq!(compare_state(&up, &down), vec![Event::ButtonReleased(Button::North, 0x8000)]);
}

#[test]
fn untracked_bits_give_no_event() {
    let cur = RawPad { buttons: 0x0c00, ..pad() };
    assert!(compare_state(&pad(), &cur).is_empty());
}

#[test]
fn events_come_axes_first_in_canonical_order() {
    let cur = RawPad {
        buttons: 0x0001 | 0x0200 | 0x4000,
        left_trigger: 1,
        thumb_ry: 2,
        thumb_lx: 3,
        ..pad()
    };
    assert_eq!(
        compare_state(&pad(), &cur),
        vec![
            Event::AxisChanged(Axis::LeftTrigger2, AxisValue { num: 1, den: 255 }, 4),
            Event::AxisChanged(Axis::LeftStickX, AxisValue { num: 3, den: 32767 }, 0),
            Event::AxisChanged(Axis::RightStickY, AxisValue { num: 2, den: 32767 }, 3),
            Event::ButtonPressed(Button::DPadUp, 0x0001),
            Event::ButtonPressed(Button::RightTrigger, 0x0200),
            Event::ButtonPressed(Button::West, 0x4000),
        ]
    );
}

#[test]
fn every_tracked_button_has_its_mask() {
    let table = [
        (Button::DPadUp, 0x0001u16),
        (Button::DPadDown, 0x0002),
        (Button::DPadLeft, 0x0004),
        (Button::DPadRight, 0x0008),
        (Button::Start, 0x0010),
        (Button::Select, 0x0020),
        (Button::LeftThumb, 0x0040),
        (Button::RightThumb, 0x0080),
        (Button::LeftTrigger, 0x0100),
        (Button::RightTrigger, 0x0200),
        (Button::South, 0x1000),
        (Button::East, 0x2000),
        (Button::West, 0x4000),
        (Button::North, 0x8000),
    ];
    for (button, mask) in table {
        let cur = RawPad { buttons: mask, ..pad() };
        assert_eq!(compare_state(&pad(), &cur), vec![Event::ButtonPressed(button, mask)]);
    }
}

#[test]
fn mask_equality() {
    assert!(is_mask_eq(0x0001, 0x0003, 0x0001));
    assert!(!is_mask_eq(0x0001, 0x0002, 0x0001));
    assert!(is_mask_eq(0x0000, 0x0010, 0x0001));
    assert!(is_mask_eq(0x0003, 0x0001, 0x0003));
}
