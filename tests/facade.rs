use gilrs_xinput::{
    deadzones, BatteryReading, Event, FfError, FfMessage, Gilrs, MappingError, MappingSource,
    PowerInfo, Status,
};
use std::sync::mpsc;

fn facade() -> (Gilrs, mpsc::Sender<(usize, Event)>, mpsc::Receiver<FfMessage>) {
    let (fftx, ffrx) = mpsc::sync_channel(4);
    let (tx, rx) = mpsc::channel();
    (Gilrs::new([true, false, true, false], fftx, rx), tx, ffrx)
}

#[test]
fn out_of_range_ids_get_the_stand_in() {
    let (g, _tx, _ffrx) = facade();
    assert_eq!(g.last_gamepad_hint(), 4);
    for id in [4usize, 5, 100, usize::MAX] {
        let p = g.gamepad(id);
        assert_eq!(p.name(), "");
        assert!(p.uuid().is_nil());
        assert_eq!(p.status(), Status::NotObserved);
        assert!(p.ff_sender.is_none());
    }
}

#[test]
fn slots_are_named_and_numbered() {
    let (g, _tx, _ffrx) = facade();
    assert_eq!(g.gamepad(0).name(), "XInput Controller 1");
    assert_eq!(g.gamepad(3).name(), "XInput Controller 4");
    assert_eq!(g.gamepad(2).id(), 2);
    assert_eq!(g.gamepad(0).status(), Status::Connected);
    assert_eq!(g.gamepad(1).status(), Status::NotObserved);
    assert!(g.gamepad(2).is_connected());
    assert!(g.gamepad(1).uuid().is_nil());
}

#[test]
fn changing_the_stand_in_leaves_real_slots_alone() {
    let (mut g, _tx, _ffrx) = facade();
    g.gamepad_mut(9).name = String::from("changed");
    assert_eq!(g.gamepad(0).name(), "XInput Controller 1");
    g.gamepad_mut(1).status = Status::Disconnected;
    assert_eq!(g.gamepad(1).status(), Status::Disconnected);
}

#[test]
fn next_event_never_blocks() {
    let (mut g, tx, _ffrx) = facade();
    assert_eq!(g.next_event(), None);
    tx.send((2, Event::Connected)).unwrap();
    assert_eq!(g.next_event(), Some((2, Event::Connected)));
    assert_eq!(g.next_event(), None);
}

#[test]
fn effect_commands_reach_the_worker_channel() {
    let (g, _tx, ffrx) = facade();
    let msg = FfMessage { id: 1, kind: gilrs_xinput::FfMessageType::Stop };
    g.gamepad(1).ff_sender().try_send(msg).unwrap();
    assert_eq!(ffrx.try_recv().unwrap(), msg);
}

#[test]
fn uuid_carries_the_stored_value() {
    let (mut g, _tx, _ffrx) = facade();
    g.gamepad_mut(0).uuid = 0x1234;
    assert_eq!(g.gamepad(0).uuid().as_u128(), 0x1234);
}

#[test]
fn unsupported_operations_report_so() {
    let (mut g, _tx, _ffrx) = facade();
    let p = g.gamepad_mut(0);
    assert_eq!(p.set_mapping("abc", true, None), Err(MappingError::NotImplemented));
    assert_eq!(p.set_ff_gain(10), Err(FfError::FfNotSupported));
    assert_eq!(p.mapping_source(), MappingSource::Driver);
    assert_eq!(p.max_ff_effects(), 1);
    assert!(p.is_ff_supported());
    assert_eq!(p.get_free_ff_idx(), Some(0));
}

#[test]
fn with_mappings_ignores_the_mapping() {
    let (fftx, _ffrx) = mpsc::sync_channel(4);
    let (_tx, rx) = mpsc::channel();
    let g = Gilrs::with_mappings("xx", [false; 4], fftx, rx);
    assert_eq!(g.gamepad(3).status(), Status::NotObserved);
}

#[test]
fn battery_readings_map_to_power_info() {
    let (g, _tx, _ffrx) = facade();
    let p = g.gamepad(0);
    let info = |battery_type, level| BatteryReading::Info { battery_type, level };
    assert_eq!(p.power_info(BatteryReading::Unavailable), PowerInfo::Unknown);
    assert_eq!(p.power_info(info(1, 0)), PowerInfo::Wired);
    assert_eq!(p.power_info(info(2, 0)), PowerInfo::Discharging(0));
    assert_eq!(p.power_info(info(3, 1)), PowerInfo::Discharging(33));
    assert_eq!(p.power_info(info(2, 2)), PowerInfo::Discharging(67));
    assert_eq!(p.power_info(info(3, 3)), PowerInfo::Charged);
    assert_eq!(p.power_info(info(0xff, 3)), PowerInfo::Unknown);
}

#[test]
fn deadzones_lie_in_unit_range() {
    let d = deadzones();
    assert_eq!((d.left_stick.num, d.left_stick.den), (7849, 65534));
    assert_eq!((d.right_stick.num, d.right_stick.den), (8689, 65534));
    assert_eq!((d.left_trigger2.num, d.left_trigger2.den), (30, 255));
    for t in [d.left_stick, d.right_stick, d.left_trigger2, d.right_trigger2] {
        assert!(t.den > 0 && t.num <= t.den);
    }
}
