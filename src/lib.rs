//! Polling engine and force-feedback scheduler for a fixed bank of XInput
//! controller slots.
//!
//! The hardware itself stays outside the library: callers read raw controller
//! snapshots, hand them to [`Worker`], forward the events it produces and
//! perform the motor commands it returns.

pub mod event;
pub mod ff;
pub mod gamepad;
pub mod worker;

pub use event::{compare_state, is_mask_eq, Axis, AxisValue, Button, Event, RawPad, BUTTON_COUNT};
pub use ff::{Effect, EffectData, FfMessage, FfMessageType, Rumble};
pub use worker::{ReadResult, SlotState, Worker, CONNECTION_CHECK_INTERVAL, SLOT_COUNT};
pub use gamepad::{deadzones, BatteryReading, Deadzones, FfError, Gamepad, Gilrs, MappingError, MappingSource, PowerInfo, Status, Threshold};
