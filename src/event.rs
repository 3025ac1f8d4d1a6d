//! Raw controller snapshots and the events derived from comparing two of them.

use vstd::prelude::*;

verus! {

/// Number of digital buttons tracked in a raw button mask.
pub const BUTTON_COUNT: usize = 14;

/// Largest magnitude of a trigger reading.
pub const TRIGGER_MAX: i32 = 255;

/// Largest magnitude of a thumb stick reading.
pub const STICK_MAX: i32 = 32767;

/// Logical axes reported by a controller, in the order their changes are emitted.
#[derive(Clone, Copy, Debug, PartialEq, Eq, Structural)]
pub enum Axis {
    LeftTrigger2,
    RightTrigger2,
    LeftStickX,
    LeftStickY,
    RightStickX,
    RightStickY,
}

/// Logical buttons reported by a controller, in the order their changes are emitted.
#[derive(Clone, Copy, Debug, PartialEq, Eq, Structural)]
pub enum Button {
    DPadUp,
    DPadDown,
    DPadLeft,
    DPadRight,
    Start,
    Select,
    LeftThumb,
    RightThumb,
    LeftTrigger,
    RightTrigger,
    South,
    East,
    West,
    North,
}

/// An axis position as the fraction `num / den`; `den` is the axis's full range.
#[derive(Clone, Copy, Debug, PartialEq, Eq, Structural)]
pub struct AxisValue {
    pub num: i32,
    pub den: i32,
}

/// A discrete change observed on one controller slot.
#[derive(Clone, Copy, Debug, PartialEq, Eq, Structural)]
pub enum Event {
    Connected,
    Disconnected,
    /// The button and the raw bit mask that reported it.
    ButtonPressed(Button, u16),
    ButtonReleased(Button, u16),
    /// The axis, its normalised position and its native axis code.
    AxisChanged(Axis, AxisValue, u16),
}

/// One raw controller snapshot as the hardware reports it.
#[derive(Clone, Copy, Debug, PartialEq, Eq, Structural)]
pub struct RawPad {
    pub buttons: u16,
    pub left_trigger: u8,
    pub right_trigger: u8,
    pub thumb_lx: i16,
    pub thumb_ly: i16,
    pub thumb_rx: i16,
    pub thumb_ry: i16,
}

impl RawPad {
    pub open spec fn spec_zeroed() -> RawPad {
        RawPad {
            buttons: 0,
            left_trigger: 0,
            right_trigger: 0,
            thumb_lx: 0,
            thumb_ly: 0,
            thumb_rx: 0,
            thumb_ry: 0,
        }
    }

    /// A snapshot with every axis at rest and no button held.
    pub fn zeroed() -> (r: RawPad)
        ensures
            r == RawPad::spec_zeroed(),
    {
        RawPad {
            buttons: 0,
            left_trigger: 0,
            right_trigger: 0,
            thumb_lx: 0,
            thumb_ly: 0,
            thumb_rx: 0,
            thumb_ry: 0,
        }
    }
}

/// The raw reading of axis `a` in snapshot `p`.
pub open spec fn axis_raw(p: RawPad, a: Axis) -> int {
    match a {
        Axis::LeftTrigger2 => p.left_trigger as int,
        Axis::RightTrigger2 => p.right_trigger as int,
        Axis::LeftStickX => p.thumb_lx as int,
        Axis::LeftStickY => p.thumb_ly as int,
        Axis::RightStickX => p.thumb_rx as int,
        Axis::RightStickY => p.thumb_ry as int,
    }
}

/// The largest magnitude representable for axis `a`.
pub open spec fn axis_max(a: Axis) -> int {
    match a {
        Axis::LeftTrigger2 | Axis::RightTrigger2 => TRIGGER_MAX as int,
        _ => STICK_MAX as int,
    }
}

/// The native code attached to changes of axis `a`.
pub open spec fn axis_code(a: Axis) -> u16 {
    match a {
        Axis::LeftStickX => 0,
        Axis::LeftStickY => 1,
        Axis::RightStickX => 2,
        Axis::RightStickY => 3,
        Axis::LeftTrigger2 => 4,
        Axis::RightTrigger2 => 5,
    }
}

/// `raw / axis_max(a)`, clamped to `[-1, 1]`.
pub open spec fn normalized(a: Axis, raw: int) -> AxisValue {
    let m = axis_max(a);
    let n = if raw < -m {
        -m
    } else if raw > m {
        m
    } else {
        raw
    };
    AxisValue { num: n as i32, den: m as i32 }
}

/// The event reporting the position of axis `a` in snapshot `p`.
pub open spec fn axis_event(a: Axis, p: RawPad) -> Event {
    Event::AxisChanged(a, normalized(a, axis_raw(p, a)), axis_code(a))
}

/// The events owed to axis `a` between two snapshots: one when its reading changed.
pub open spec fn axis_delta(a: Axis, prev: RawPad, cur: RawPad) -> Seq<Event> {
    if axis_raw(prev, a) != axis_raw(cur, a) {
        seq![axis_event(a, cur)]
    } else {
        seq![]
    }
}

/// Axis events between two snapshots, in canonical axis order.
pub open spec fn axis_events(prev: RawPad, cur: RawPad) -> Seq<Event> {
    axis_delta(Axis::LeftTrigger2, prev, cur) + axis_delta(Axis::RightTrigger2, prev, cur)
        + axis_delta(Axis::LeftStickX, prev, cur) + axis_delta(Axis::LeftStickY, prev, cur)
        + axis_delta(Axis::RightStickX, prev, cur) + axis_delta(Axis::RightStickY, prev, cur)
}

/// The `k`-th tracked button in canonical order.
pub open spec fn button_at(k: int) -> Button {
    if k == 0 {
        Button::DPadUp
    } else if k == 1 {
        Button::DPadDown
    } else if k == 2 {
        Button::DPadLeft
    } else if k == 3 {
        Button::DPadRight
    } else if k == 4 {
        Button::Start
    } else if k == 5 {
        Button::Select
    } else if k == 6 {
        Button::LeftThumb
    } else if k == 7 {
        Button::RightThumb
    } else if k == 8 {
        Button::LeftTrigger
    } else if k == 9 {
        Button::RightTrigger
    } else if k == 10 {
        Button::South
    } else if k == 11 {
        Button::East
    } else if k == 12 {
        Button::West
    } else {
        Button::North
    }
}

/// Bit position of the `k`-th tracked button in the raw mask (bits 10 and 11 are unused).
pub open spec fn bit_at(k: int) -> u16 {
    if k < 10 {
        k as u16
    } else {
        (k + 2) as u16
    }
}

/// Raw mask of the `k`-th tracked button.
pub open spec fn mask_at(k: int) -> u16 {
    (1u16 << bit_at(k))
}

pub open spec fn is_set(buttons: u16, mask: u16) -> bool {
    buttons & mask != 0
}

/// The events owed to the `k`-th button between two masks.
pub open spec fn button_delta(prev: u16, cur: u16, k: int) -> Seq<Event> {
    let m = mask_at(k);
    if is_set(prev, m) == is_set(cur, m) {
        seq![]
    } else if is_set(cur, m) {
        seq![Event::ButtonPressed(button_at(k), m)]
    } else {
        seq![Event::ButtonReleased(button_at(k), m)]
    }
}

/// Button events for the first `n` tracked buttons, in canonical order.
pub open spec fn button_events_upto(prev: u16, cur: u16, n: nat) -> Seq<Event>
    decreases n,
{
    if n == 0 {
        seq![]
    } else {
        button_events_upto(prev, cur, (n - 1) as nat) + button_delta(prev, cur, n - 1)
    }
}

/// Every event owed between two snapshots: axes first, then buttons.
pub open spec fn events_between(prev: RawPad, cur: RawPad) -> Seq<Event> {
    axis_events(prev, cur) + button_events_upto(prev.buttons, cur.buttons, BUTTON_COUNT as nat)
}

/// Whether `l` and `r` agree on the bits selected by `mask` being all clear.
pub fn is_mask_eq(l: u16, r: u16, mask: u16) -> (eq: bool)
    ensures
        eq == (is_set(l, mask) == is_set(r, mask)),
{
    (l & mask != 0) == (r & mask != 0)
}

fn button_entry(k: usize) -> (r: (Button, u16))
    requires
        k < BUTTON_COUNT,
    ensures
        r.0 == button_at(k as int),
        r.1 == bit_at(k as int),
{
    match k {
        0 => (Button::DPadUp, 0),
        1 => (Button::DPadDown, 1),
        2 => (Button::DPadLeft, 2),
        3 => (Button::DPadRight, 3),
        4 => (Button::Start, 4),
        5 => (Button::Select, 5),
        6 => (Button::LeftThumb, 6),
        7 => (Button::RightThumb, 7),
        8 => (Button::LeftTrigger, 8),
        9 => (Button::RightTrigger, 9),
        10 => (Button::South, 12),
        11 => (Button::East, 13),
        12 => (Button::West, 14),
        _ => (Button::North, 15),
    }
}

fn raw_axis(p: &RawPad, a: Axis) -> (r: i32)
    ensures
        r as int == axis_raw(*p, a),
{
    match a {
        Axis::LeftTrigger2 => p.left_trigger as i32,
        Axis::RightTrigger2 => p.right_trigger as i32,
        Axis::LeftStickX => p.thumb_lx as i32,
        Axis::LeftStickY => p.thumb_ly as i32,
        Axis::RightStickX => p.thumb_rx as i32,
        Axis::RightStickY => p.thumb_ry as i32,
    }
}

fn normalize(a: Axis, raw: i32) -> (v: AxisValue)
    ensures
        v == normalized(a, raw as int),
{
    let m: i32 = match a {
        Axis::LeftTrigger2 | Axis::RightTrigger2 => TRIGGER_MAX,
        _ => STICK_MAX,
    };
    let n: i32 = if raw < -m {
        -m
    } else if raw > m {
        m
    } else {
        raw
    };
    AxisValue { num: n, den: m }
}

fn code_of(a: Axis) -> (c: u16)
    ensures
        c == axis_code(a),
{
    match a {
        Axis::LeftStickX => 0,
        Axis::LeftStickY => 1,
        Axis::RightStickX => 2,
        Axis::RightStickY => 3,
        Axis::LeftTrigger2 => 4,
        Axis::RightTrigger2 => 5,
    }
}

fn push_axis_change(events: &mut Vec<Event>, a: Axis, prev: &RawPad, cur: &RawPad)
    ensures
        final(events)@ == old(events)@ + axis_delta(a, *prev, *cur),
{
    let before = raw_axis(prev, a);
    let after = raw_axis(cur, a);
    if before != after {
        events.push(Event::AxisChanged(a, normalize(a, after), code_of(a)));
    }
    assert(events@ =~= old(events)@ + axis_delta(a, *prev, *cur));
}

/// The events that turn snapshot `prev` into snapshot `cur`.
pub fn compare_state(prev: &RawPad, cur: &RawPad) -> (events: Vec<Event>)
    ensures
        events@ == events_between(*prev, *cur),
{
    let mut events: Vec<Event> = Vec::new();
    push_axis_change(&mut events, Axis::LeftTrigger2, prev, cur);
    push_axis_change(&mut events, Axis::RightTrigger2, prev, cur);
    push_axis_change(&mut events, Axis::LeftStickX, prev, cur);
    push_axis_change(&mut events, Axis::LeftStickY, prev, cur);
    push_axis_change(&mut events, Axis::RightStickX, prev, cur);
    push_axis_change(&mut events, Axis::RightStickY, prev, cur);
    assert(events@ =~= axis_events(*prev, *cur) + button_events_upto(
        prev.buttons,
        cur.buttons,
        0,
    ));
    let mut k: usize = 0;
    while k < BUTTON_COUNT
        invariant
            k <= BUTTON_COUNT,
            events@ == axis_events(*prev, *cur) + button_events_upto(
                prev.buttons,
                cur.buttons,
                k as nat,
            ),
        decreases BUTTON_COUNT - k,
    {
        let (button, bit) = button_entry(k);
        let mask: u16 = 1u16 << bit;
        if !is_mask_eq(cur.buttons, prev.buttons, mask) {
            if cur.buttons & mask != 0 {
                events.push(Event::ButtonPressed(button, mask));
            } else {
                events.push(Event::ButtonReleased(button, mask));
            }
        }
        assert(events@ =~= axis_events(*prev, *cur) + button_events_upto(
            prev.buttons,
            cur.buttons,
            (k + 1) as nat,
        ));
        k = k + 1;
    }
    events
}

proof fn lemma_bits_apart(x: u16, a: u16, b: u16) by (bit_vector)
    requires
        a < 16,
        b < 16,
        a != b,
    ensures
        ((x ^ (1u16 << a)) & (1u16 << b) != 0) == (x & (1u16 << b) != 0),
{
}

proof fn lemma_bit_flipped(x: u16, a: u16) by (bit_vector)
    requires
        a < 16,
    ensures
        ((x ^ (1u16 << a)) & (1u16 << a) != 0) != (x & (1u16 << a) != 0),
{
}

proof fn lemma_same_mask_no_events(b: u16, n: nat)
    ensures
        button_events_upto(b, b, n) == Seq::<Event>::empty(),
    decreases n,
{
    if n > 0 {
        lemma_same_mask_no_events(b, (n - 1) as nat);
        assert(button_events_upto(b, b, n) =~= Seq::<Event>::empty());
    }
}

/// Comparing a snapshot with itself yields no event.
pub proof fn lemma_unchanged_snapshot_is_silent(s: RawPad)
    ensures
        events_between(s, s) == Seq::<Event>::empty(),
{
    lemma_same_mask_no_events(s.buttons, BUTTON_COUNT as nat);
    assert(events_between(s, s) =~= Seq::<Event>::empty());
}

/// Two snapshots that differ in the reading of axis `a` alone yield exactly one
/// event: the change of `a` to its new reading over the axis's full range, which
/// lies in `[-1, 1]` for a stick and in `[0, 1]` for a trigger.
pub proof fn lemma_single_axis_change(prev: RawPad, cur: RawPad, a: Axis)
    requires
        prev.buttons == cur.buttons,
        axis_raw(prev, a) != axis_raw(cur, a),
        forall|b: Axis| b != a ==> axis_raw(prev, b) == axis_raw(cur, b),
    ensures
        events_between(prev, cur) == seq![axis_event(a, cur)],
        axis_event(a, cur) == Event::AxisChanged(
            a,
            normalized(a, axis_raw(cur, a)),
            axis_code(a),
        ),
        normalized(a, axis_raw(cur, a)).den == axis_max(a),
        -axis_max(a) <= normalized(a, axis_raw(cur, a)).num <= axis_max(a),
        (a == Axis::LeftTrigger2 || a == Axis::RightTrigger2) ==> normalized(
            a,
            axis_raw(cur, a),
        ).num >= 0,
{
    lemma_same_mask_no_events(prev.buttons, BUTTON_COUNT as nat);
    assert(axis_raw(prev, Axis::LeftTrigger2) != axis_raw(cur, Axis::LeftTrigger2) <==> a
        == Axis::LeftTrigger2);
    assert(axis_raw(prev, Axis::RightTrigger2) != axis_raw(cur, Axis::RightTrigger2) <==> a
        == Axis::RightTrigger2);
    assert(axis_raw(prev, Axis::LeftStickX) != axis_raw(cur, Axis::LeftStickX) <==> a
        == Axis::LeftStickX);
    assert(axis_raw(prev, Axis::LeftStickY) != axis_raw(cur, Axis::LeftStickY) <==> a
        == Axis::LeftStickY);
    assert(axis_raw(prev, Axis::RightStickX) != axis_raw(cur, Axis::RightStickX) <==> a
        == Axis::RightStickX);
    assert(axis_raw(prev, Axis::RightStickY) != axis_raw(cur, Axis::RightStickY) <==> a
        == Axis::RightStickY);
    assert(events_between(prev, cur) =~= seq![axis_event(a, cur)]);
}

/// The single event owed when only the `k`-th tracked button changed.
pub open spec fn button_toggle_event(cur: u16, k: int) -> Event {
    if is_set(cur, mask_at(k)) {
        Event::ButtonPressed(button_at(k), mask_at(k))
    } else {
        Event::ButtonReleased(button_at(k), mask_at(k))
    }
}

proof fn lemma_one_bit_upto(prev: u16, k: int, n: nat)
    requires
        0 <= k < BUTTON_COUNT,
        n <= BUTTON_COUNT,
    ensures
        button_events_upto(prev, prev ^ mask_at(k), n) == (if n <= k {
            Seq::<Event>::empty()
        } else {
            seq![button_toggle_event(prev ^ mask_at(k), k)]
        }),
    decreases n,
{
    if n > 0 {
        let j = n - 1;
        lemma_one_bit_upto(prev, k, (n - 1) as nat);
        if j == k {
            lemma_bit_flipped(prev, bit_at(k));
        } else {
            lemma_bits_apart(prev, bit_at(k), bit_at(j));
        }
        assert(button_events_upto(prev, prev ^ mask_at(k), n) =~= (if n <= k {
            Seq::<Event>::empty()
        } else {
            seq![button_toggle_event(prev ^ mask_at(k), k)]
        }));
    }
}

/// Two snapshots whose axes agree and whose button masks differ in the bit of
/// the `k`-th tracked button alone yield exactly one event: that button pressed
/// when its bit is now set, released when it is now clear.
pub proof fn lemma_single_button_change(prev: RawPad, cur: RawPad, k: int)
    requires
        0 <= k < BUTTON_COUNT,
        cur.buttons == prev.buttons ^ mask_at(k),
        forall|a: Axis| axis_raw(prev, a) == axis_raw(cur, a),
    ensures
        events_between(prev, cur) == seq![button_toggle_event(cur.buttons, k)],
        is_set(cur.buttons, mask_at(k)) != is_set(prev.buttons, mask_at(k)),
{
    lemma_one_bit_upto(prev.buttons, k, BUTTON_COUNT as nat);
    lemma_bit_flipped(prev.buttons, bit_at(k));
    assert(axis_raw(prev, Axis::LeftTrigger2) == axis_raw(cur, Axis::LeftTrigger2));
    assert(axis_raw(prev, Axis::RightTrigger2) == axis_raw(cur, Axis::RightTrigger2));
    assert(axis_raw(prev, Axis::LeftStickX) == axis_raw(cur, Axis::LeftStickX));
    assert(axis_raw(prev, Axis::LeftStickY) == axis_raw(cur, Axis::LeftStickY));
    assert(axis_raw(prev, Axis::RightStickX) == axis_raw(cur, Axis::RightStickX));
    assert(axis_raw(prev, Axis::RightStickY) == axis_raw(cur, Axis::RightStickY));
    assert(events_between(prev, cur) =~= seq![button_toggle_event(cur.buttons, k)]);
}

} // verus!
