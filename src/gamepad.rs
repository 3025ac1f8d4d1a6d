//! Controller slots and the facade that owns them.

use crate::event::Event;
use crate::ff::FfMessage;
use crate::worker::SLOT_COUNT;
use std::sync::mpsc::{Receiver, SyncSender};
use uuid::Uuid;
use vstd::prelude::*;

verus! {

#[verifier::external_type_specification]
#[verifier::external_body]
pub struct ExUuid(Uuid);

#[verifier::external_type_specification]
#[verifier::external_body]
#[verifier::reject_recursive_types(T)]
pub struct ExReceiver<T>(Receiver<T>);

#[verifier::external_type_specification]
#[verifier::external_body]
#[verifier::reject_recursive_types(T)]
pub struct ExSyncSender<T>(SyncSender<T>);

/// Relies on `uuid::Uuid::from_u128`: the identifier with the given 128-bit value.
#[verifier::external_body]
fn uuid_from_value(value: u128) -> Uuid {
    Uuid::from_u128(value)
}

/// Relies on `std::sync::mpsc::Receiver::try_recv`: a message already waiting,
/// if any, without blocking.
#[verifier::external_body]
fn try_receive(rx: &Receiver<(usize, Event)>) -> Option<(usize, Event)> {
    rx.try_recv().ok()
}

/// Relies on `Clone` for `std::sync::mpsc::SyncSender`: another sender into the
/// same channel.
#[verifier::external_body]
fn clone_sender(tx: &SyncSender<FfMessage>) -> SyncSender<FfMessage> {
    tx.clone()
}

/// The decimal digit naming slot `id`, counted from one.
pub open spec fn slot_digit(id: u32) -> char {
    if id == 0 {
        '1'
    } else if id == 1 {
        '2'
    } else if id == 2 {
        '3'
    } else {
        '4'
    }
}

/// Display name of the controller in slot `id`.
pub open spec fn controller_name(id: u32) -> Seq<char> {
    seq!['X', 'I', 'n', 'p', 'u', 't', ' ', 'C', 'o', 'n', 't', 'r', 'o', 'l', 'l', 'e', 'r', ' ']
        + seq![slot_digit(id)]
}

/// The display name of the controller in slot `id`.
fn format_controller_name(id: u32) -> (r: String)
    requires
        id < SLOT_COUNT,
    ensures
        r@ == controller_name(id),
{
    let mut name = String::from_str("XInput Controller ");
    let digit: &str = if id == 0 {
        "1"
    } else if id == 1 {
        "2"
    } else if id == 2 {
        "3"
    } else {
        "4"
    };
    proof {
        reveal_strlit("XInput Controller ");
        reveal_strlit("1");
        reveal_strlit("2");
        reveal_strlit("3");
        reveal_strlit("4");
    }
    name.append(digit);
    assert(name@ =~= controller_name(id));
    name
}

/// Connection status of a slot.
#[derive(Clone, Copy, Debug, PartialEq, Eq, Structural)]
pub enum Status {
    Connected,
    Disconnected,
    NotObserved,
}

/// Battery state of a controller.
#[derive(Clone, Copy, Debug, PartialEq, Eq, Structural)]
pub enum PowerInfo {
    Unknown,
    Wired,
    /// Charge left, in percent.
    Discharging(u8),
    Charged,
}

/// What the hardware answered when asked for a controller's battery.
#[derive(Clone, Copy, Debug, PartialEq, Eq, Structural)]
pub enum BatteryReading {
    Unavailable,
    Info { battery_type: u8, level: u8 },
}

pub const BATTERY_TYPE_WIRED: u8 = 1;
pub const BATTERY_TYPE_ALKALINE: u8 = 2;
pub const BATTERY_TYPE_NIMH: u8 = 3;
pub const BATTERY_LEVEL_EMPTY: u8 = 0;
pub const BATTERY_LEVEL_LOW: u8 = 1;
pub const BATTERY_LEVEL_MEDIUM: u8 = 2;
pub const BATTERY_LEVEL_FULL: u8 = 3;

/// The battery state that `reading` reports.
pub open spec fn power_of(reading: BatteryReading) -> PowerInfo {
    match reading {
        BatteryReading::Unavailable => PowerInfo::Unknown,
        BatteryReading::Info { battery_type, level } => {
            if battery_type == BATTERY_TYPE_WIRED {
                PowerInfo::Wired
            } else if battery_type == BATTERY_TYPE_ALKALINE || battery_type == BATTERY_TYPE_NIMH {
                if level == BATTERY_LEVEL_EMPTY {
                    PowerInfo::Discharging(0)
                } else if level == BATTERY_LEVEL_LOW {
                    PowerInfo::Discharging(33)
                } else if level == BATTERY_LEVEL_MEDIUM {
                    PowerInfo::Discharging(67)
                } else if level == BATTERY_LEVEL_FULL {
                    PowerInfo::Charged
                } else {
                    PowerInfo::Unknown
                }
            } else {
                PowerInfo::Unknown
            }
        },
    }
}

/// Where a slot's control mapping comes from.
#[derive(Clone, Copy, Debug, PartialEq, Eq, Structural)]
pub enum MappingSource {
    SdlMappings,
    Driver,
    Unmapped,
}

#[derive(Clone, Copy, Debug, PartialEq, Eq, Structural)]
pub enum MappingError {
    NotImplemented,
}

#[derive(Clone, Copy, Debug, PartialEq, Eq, Structural)]
pub enum FfError {
    FfNotSupported,
}

/// A threshold `num / den` on an axis's normalised position.
#[derive(Clone, Copy, Debug, PartialEq, Eq, Structural)]
pub struct Threshold {
    pub num: u32,
    pub den: u32,
}

/// Whether `t` lies in `[0, 1]`.
pub open spec fn in_unit(t: Threshold) -> bool {
    t.den > 0 && t.num <= t.den
}

/// Per-axis thresholds below which a position counts as rest.
#[derive(Clone, Copy, Debug, PartialEq, Eq, Structural)]
pub struct Deadzones {
    pub left_stick: Threshold,
    pub right_stick: Threshold,
    pub left_trigger2: Threshold,
    pub right_trigger2: Threshold,
}

pub const LEFT_THUMB_DEADZONE: u32 = 7849;
pub const RIGHT_THUMB_DEADZONE: u32 = 8689;
pub const TRIGGER_THRESHOLD: u32 = 30;
pub const STICK_SPAN: u32 = 65534;
pub const TRIGGER_SPAN: u32 = 255;

pub open spec fn spec_deadzones() -> Deadzones {
    Deadzones {
        left_stick: Threshold { num: LEFT_THUMB_DEADZONE, den: STICK_SPAN },
        right_stick: Threshold { num: RIGHT_THUMB_DEADZONE, den: STICK_SPAN },
        left_trigger2: Threshold { num: TRIGGER_THRESHOLD, den: TRIGGER_SPAN },
        right_trigger2: Threshold { num: 0, den: TRIGGER_SPAN },
    }
}

/// The deadzone profile of every slot.
pub fn deadzones() -> (d: Deadzones)
    ensures
        d == spec_deadzones(),
        in_unit(d.left_stick),
        in_unit(d.right_stick),
        in_unit(d.left_trigger2),
        in_unit(d.right_trigger2),
{
    Deadzones {
        left_stick: Threshold { num: LEFT_THUMB_DEADZONE, den: STICK_SPAN },
        right_stick: Threshold { num: RIGHT_THUMB_DEADZONE, den: STICK_SPAN },
        left_trigger2: Threshold { num: TRIGGER_THRESHOLD, den: TRIGGER_SPAN },
        right_trigger2: Threshold { num: 0, den: TRIGGER_SPAN },
    }
}

/// One controller slot.
pub struct Gamepad {
    pub name: String,
    /// The 128-bit value of the slot's stable identifier.
    pub uuid: u128,
    pub id: u32,
    /// Where the slot's effect commands go; absent on the stand-in slot.
    pub ff_sender: Option<SyncSender<FfMessage>>,
    pub status: Status,
    pub deadzones: Deadzones,
}

/// Whether `g` holds the stand-in values answered for a slot that does not exist.
pub open spec fn is_stand_in(g: Gamepad) -> bool {
    &&& g.name@ == Seq::<char>::empty()
    &&& g.uuid == 0
    &&& g.id == u32::MAX
    &&& g.ff_sender is None
    &&& g.status == Status::NotObserved
    &&& g.deadzones == spec_deadzones()
}

/// Whether `g` is slot `id` as set up at start, connected or not.
pub open spec fn is_fresh_slot(g: Gamepad, id: u32, connected: bool) -> bool {
    &&& g.name@ == controller_name(id)
    &&& g.uuid == 0
    &&& g.id == id
    &&& g.ff_sender is Some
    &&& g.status == (if connected {
        Status::Connected
    } else {
        Status::NotObserved
    })
    &&& g.deadzones == spec_deadzones()
}

impl Gamepad {
    /// The stand-in slot.
    fn none() -> (g: Gamepad)
        ensures
            is_stand_in(g),
    {
        Gamepad {
            name: String::new(),
            uuid: 0,
            id: u32::MAX,
            ff_sender: None,
            status: Status::NotObserved,
            deadzones: deadzones(),
        }
    }

    pub fn name(&self) -> (r: &str)
        ensures
            r@ == self.name@,
    {
        self.name.as_str()
    }

    /// The slot's stable identifier, the one whose value is `self.uuid`.
    pub fn uuid(&self) -> Uuid {
        uuid_from_value(self.uuid)
    }

    pub fn status(&self) -> (r: Status)
        ensures
            r == self.status,
    {
        self.status
    }

    pub fn is_connected(&self) -> (r: bool)
        ensures
            r == (self.status == Status::Connected),
    {
        self.status == Status::Connected
    }

    /// The battery state reported by `reading`, the hardware's answer for this slot.
    pub fn power_info(&self, reading: BatteryReading) -> (r: PowerInfo)
        ensures
            r == power_of(reading),
    {
        match reading {
            BatteryReading::Unavailable => PowerInfo::Unknown,
            BatteryReading::Info { battery_type, level } => {
                if battery_type == BATTERY_TYPE_WIRED {
                    PowerInfo::Wired
                } else if battery_type == BATTERY_TYPE_ALKALINE || battery_type
                    == BATTERY_TYPE_NIMH {
                    if level == BATTERY_LEVEL_EMPTY {
                        PowerInfo::Discharging(0)
                    } else if level == BATTERY_LEVEL_LOW {
                        PowerInfo::Discharging(33)
                    } else if level == BATTERY_LEVEL_MEDIUM {
                        PowerInfo::Discharging(67)
                    } else if level == BATTERY_LEVEL_FULL {
                        PowerInfo::Charged
                    } else {
                        PowerInfo::Unknown
                    }
                } else {
                    PowerInfo::Unknown
                }
            },
        }
    }

    /// The driver maps the controls itself.
    pub fn mapping_source(&self) -> (r: MappingSource)
        ensures
            r == MappingSource::Driver,
    {
        MappingSource::Driver
    }

    /// Custom mappings are not supported: always `NotImplemented`, nothing changes.
    pub fn set_mapping(&mut self, _mapping: &str, _strict: bool, _name: Option<&str>) -> (r:
        Result<String, MappingError>)
        ensures
            r == Err::<String, MappingError>(MappingError::NotImplemented),
            *final(self) == *old(self),
    {
        Err(MappingError::NotImplemented)
    }

    pub fn max_ff_effects(&self) -> (r: usize)
        ensures
            r == 1,
    {
        1
    }

    pub fn is_ff_supported(&self) -> (r: bool)
        ensures
            r,
    {
        true
    }

    /// Effect gain cannot be set: always `FfNotSupported`, nothing changes.
    pub fn set_ff_gain(&mut self, gain: u16) -> (r: Result<(), FfError>)
        ensures
            r == Err::<(), FfError>(FfError::FfNotSupported),
            *final(self) == *old(self),
    {
        Err(FfError::FfNotSupported)
    }

    /// Where this slot's effect commands go. Only real slots have one.
    pub fn ff_sender(&self) -> (r: &SyncSender<FfMessage>)
        requires
            self.ff_sender is Some,
        ensures
            Some(*r) == self.ff_sender,
    {
        self.ff_sender.as_ref().unwrap()
    }

    /// The index the next effect gets: a slot holds a single effect.
    pub fn get_free_ff_idx(&self) -> (r: Option<u8>)
        ensures
            r == Some(0u8),
    {
        Some(0)
    }

    /// The slot number, truncated to a byte.
    pub fn id(&self) -> (r: u8)
        ensures
            r == self.id % 256,
    {
        (self.id % 256) as u8
    }
}

/// Slot `id`, connected or not, sending its effect commands into `ff_sender`.
fn gamepad_new(id: u32, ff_sender: SyncSender<FfMessage>, connected: bool) -> (g: Gamepad)
    requires
        id < SLOT_COUNT,
    ensures
        is_fresh_slot(g, id, connected),
        g.ff_sender == Some(ff_sender),
{
    Gamepad {
        name: format_controller_name(id),
        uuid: 0,
        id,
        ff_sender: Some(ff_sender),
        status: if connected {
            Status::Connected
        } else {
            Status::NotObserved
        },
        deadzones: deadzones(),
    }
}

/// The slots, the stand-in answered for ids out of range, and the receiving
/// end of the worker's event channel.
pub struct Gilrs {
    gamepads: Vec<Gamepad>,
    rx: Receiver<(usize, Event)>,
    not_observed: Gamepad,
}

impl Gilrs {
    pub closed spec fn slots(&self) -> Seq<Gamepad> {
        self.gamepads@
    }

    pub closed spec fn stand_in(&self) -> Gamepad {
        self.not_observed
    }

    pub open spec fn wf(&self) -> bool {
        self.slots().len() == SLOT_COUNT
    }

    /// A facade over freshly set up slots, connected as `connected` says, whose
    /// effect commands go to `ff_sender` and whose events come from `events`.
    pub fn new(
        connected: [bool; 4],
        ff_sender: SyncSender<FfMessage>,
        events: Receiver<(usize, Event)>,
    ) -> (g: Gilrs)
        ensures
            g.wf(),
            forall|i: int|
                0 <= i < SLOT_COUNT ==> is_fresh_slot(
                    #[trigger] g.slots()[i],
                    i as u32,
                    connected[i],
                ),
            is_stand_in(g.stand_in()),
    {
        let mut gamepads: Vec<Gamepad> = Vec::new();
        let mut i: usize = 0;
        while i < SLOT_COUNT
            invariant
                i <= SLOT_COUNT,
                gamepads@.len() == i,
                forall|j: int|
                    0 <= j < i ==> is_fresh_slot(#[trigger] gamepads@[j], j as u32, connected[j]),
            decreases SLOT_COUNT - i,
        {
            let tx = clone_sender(&ff_sender);
            gamepads.push(gamepad_new(i as u32, tx, connected[i]));
            i = i + 1;
        }
        Gilrs { gamepads, rx: events, not_observed: Gamepad::none() }
    }

    /// As `new`: the driver maps the controls, so the mapping text is not read.
    pub fn with_mappings(
        _sdl_mapping: &str,
        connected: [bool; 4],
        ff_sender: SyncSender<FfMessage>,
        events: Receiver<(usize, Event)>,
    ) -> (g: Gilrs)
        ensures
            g.wf(),
            forall|i: int|
                0 <= i < SLOT_COUNT ==> is_fresh_slot(
                    #[trigger] g.slots()[i],
                    i as u32,
                    connected[i],
                ),
            is_stand_in(g.stand_in()),
    {
        Self::new(connected, ff_sender, events)
    }

    /// The next event of the worker with its slot id, if one is waiting;
    /// never blocks. The slots are untouched.
    pub fn next_event(&mut self) -> (r: Option<(usize, Event)>)
        ensures
            final(self).slots() == old(self).slots(),
            final(self).stand_in() == old(self).stand_in(),
    {
        try_receive(&self.rx)
    }

    /// Slot `id`, or the stand-in when there is no such slot.
    pub fn gamepad(&self, id: usize) -> (r: &Gamepad)
        requires
            self.wf(),
        ensures
            id < SLOT_COUNT ==> *r == self.slots()[id as int],
            id >= SLOT_COUNT ==> *r == self.stand_in(),
    {
        if id < self.gamepads.len() {
            &self.gamepads[id]
        } else {
            &self.not_observed
        }
    }

    /// Slot `id` for change, or the stand-in when there is no such slot; a
    /// change to the stand-in reaches no real slot.
    pub fn gamepad_mut(&mut self, id: usize) -> (r: &mut Gamepad)
        requires
            old(self).wf(),
        ensures
            id < SLOT_COUNT ==> *r == old(self).slots()[id as int] && final(self).slots()
                == old(self).slots().update(id as int, *final(r)) && final(self).stand_in()
                == old(self).stand_in(),
            id >= SLOT_COUNT ==> *r == old(self).stand_in() && final(self).slots() == old(
                self,
            ).slots() && final(self).stand_in() == *final(r),
    {
        if id < self.gamepads.len() {
            &mut self.gamepads[id]
        } else {
            &mut self.not_observed
        }
    }

    /// The number of slots: every real slot id is below it.
    pub fn last_gamepad_hint(&self) -> (r: usize)
        requires
            self.wf(),
        ensures
            r == SLOT_COUNT,
    {
        self.gamepads.len()
    }
}

} // verus!
