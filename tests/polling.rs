use gilrs_xinput::{
    Axis, AxisValue, Event, RawPad, ReadResult, SlotState, Worker, CONNECTION_CHECK_INTERVAL,
};

fn success(packet: u32) -> ReadResult {
    ReadResult::Success { packet, pad: RawPad::zeroed() }
}

#[test]
fn reconnect_sequence_reports_each_transition_once() {
    let mut s = SlotState::new(false);
    let mut link = Vec::new();
    let reads = [
        ReadResult::Failed,
        success(1),
        success(1),
        ReadResult::Failed,
        success(2),
        ReadResult::NotConnected,
        ReadResult::Failed,
        ReadResult::NotConnected,
        success(2),
        success(3),
    ];
    for r in reads {
        for e in s.apply_read(r) {
            if e == Event::Connected || e == Event::Disconnected {
                link.push(e);
            }
        }
    }
    assert_eq!(link, vec![Event::Connected, Event::Disconnected, Event::Connected]);
    assert!(s.connected);
}

#[test]
fn changed_packet_diffs_and_stores_snapshot() {
    let mut s = SlotState::new(true);
    let pad = RawPad { right_trigger: 255, ..RawPad::zeroed() };
    let events = s.apply_read(ReadResult::Success { packet: 7, pad });
    assert_eq!(
        events,
        vec![Event::AxisChanged(Axis::RightTrigger2, AxisValue { num: 255, den: 255 }, 5)]
    );
    assert_eq!(s.packet, 7);
    assert_eq!(s.pad, pad);
}

#[test]
fn unchanged_packet_is_not_diffed() {
    let mut s = SlotState::new(true);
    let pad = RawPad { thumb_lx: 500, ..RawPad::zeroed() };
    assert!(s.apply_read(ReadResult::Success { packet: 0, pad }).is_empty());
    assert_eq!(s.pad, RawPad::zeroed());
}

#[test]
fn failed_read_changes_nothing() {
    let mut s = SlotState::new(true);
    assert!(s.apply_read(ReadResult::Failed).is_empty());
    assert!(s.connected);
    let mut d = SlotState::new(false);
    assert!(d.apply_read(ReadResult::NotConnected).is_empty());
    assert!(!d.connected);
}

#[test]
fn disconnected_slots_are_queried_on_a_throttled_schedule() {
    let mut w = Worker::new([true, false, false, false]);
    assert!(w.should_query(0));
    assert!(w.should_query(1));
    w.finish_tick();
    assert!(w.should_query(0));
    assert!(!w.should_query(1));
    for _ in 1..CONNECTION_CHECK_INTERVAL {
        w.finish_tick();
    }
    assert!(w.should_query(1));
    assert_eq!(w.apply_read(1, success(4)), vec![Event::Connected]);
    w.finish_tick();
    assert!(w.should_query(1));
}
