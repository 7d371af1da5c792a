//! One physical device as the three sources know it. Each source owns its own
//! fields, so what one of them reports never overwrites what another did.

use crate::platform_api::{capability_by_instance, first_capability_of, DeviceCapability};
use vstd::prelude::*;
use vstd::string::*;

verus! {

/// An instant: whole seconds since the Unix epoch and the nanoseconds of the
/// second that has begun.
#[derive(Clone, Copy, Debug, PartialEq, Eq, Structural)]
pub struct Timestamp {
    pub secs: i64,
    pub nanos: u32,
}

impl Timestamp {
    /// The instant in nanoseconds since the epoch.
    pub open spec fn total_nanos(self) -> int {
        self.secs * 1_000_000_000 + self.nanos
    }

    /// An instant from seconds and nanoseconds.
    pub fn new(secs: i64, nanos: u32) -> (r: Timestamp)
        ensures
            r.secs == secs,
            r.nanos == nanos,
    {
        Timestamp { secs, nanos }
    }

    /// Whether more than `seconds` have passed from `earlier` to this
    /// instant.
    pub fn is_more_than_after(&self, earlier: &Timestamp, seconds: u32) -> (r: bool)
        ensures
            r == (self.total_nanos() - earlier.total_nanos() > seconds * 1_000_000_000),
    {
        let now: i128 = (self.secs as i128) * 1_000_000_000 + (self.nanos as i128);
        let then: i128 = (earlier.secs as i128) * 1_000_000_000 + (earlier.nanos as i128);
        let limit: i128 = (seconds as i128) * 1_000_000_000;
        now - then > limit
    }
}

/// What LAN discovery announced of a device. That the record is there says
/// that the device can be reached on the LAN.
#[derive(Debug)]
pub struct LanDevice {
    pub ip: String,
    pub sku: String,
    pub device: String,
}

/// The latest status that a device gave over the LAN.
#[derive(Clone, Copy, Debug, PartialEq, Eq, Structural)]
pub struct LanDeviceStatus {
    pub on: bool,
    pub brightness: u8,
    pub red: u8,
    pub green: u8,
    pub blue: u8,
    pub color_temperature_kelvin: u32,
}

/// The static descriptor of a device from the cloud API.
#[derive(Debug)]
pub struct HttpDeviceInfo {
    pub sku: String,
    pub device: String,
    pub device_name: String,
    pub capabilities: Vec<DeviceCapability>,
}

impl HttpDeviceInfo {
    /// The first capability with the given instance name.
    pub fn capability_by_instance(&self, instance: &str) -> (r: Option<&DeviceCapability>)
        ensures
            match r {
                Some(c) => first_capability_of(self.capabilities@, instance@, 0) == Some(*c),
                None => first_capability_of(self.capabilities@, instance@, 0) is None,
            },
    {
        capability_by_instance(&self.capabilities, instance)
    }
}

/// The dynamic state of a device from the cloud API, with the instant at
/// which it was taken.
#[derive(Clone, Copy, Debug, PartialEq, Eq, Structural)]
pub struct HttpDeviceState {
    pub online: bool,
    pub updated: Timestamp,
}

/// A device as the companion API lists it.
#[derive(Debug)]
pub struct UndocDeviceEntry {
    pub sku: String,
    pub device: String,
    pub device_name: String,
    pub group_id: u64,
}

/// The companion API's entry for a device, with the name of its room where
/// the room is known.
#[derive(Debug)]
pub struct UndocDeviceInfo {
    pub entry: UndocDeviceEntry,
    pub room_name: Option<String>,
}

/// An `UndocDeviceInfo` with the room's name as text.
pub struct UndocDeviceInfoView {
    pub entry: UndocDeviceEntry,
    pub room_name: Option<Seq<char>>,
}

impl View for UndocDeviceInfo {
    type V = UndocDeviceInfoView;

    open spec fn view(&self) -> UndocDeviceInfoView {
        UndocDeviceInfoView {
            entry: self.entry,
            room_name: match self.room_name {
                Some(name) => Some(name@),
                None => None,
            },
        }
    }
}

/// Everything known of one device. `sku` and `id` together are its identity.
#[derive(Debug)]
pub struct Device {
    pub sku: String,
    pub id: String,
    pub lan_device: Option<LanDevice>,
    pub lan_device_status: Option<LanDeviceStatus>,
    pub http_device_info: Option<HttpDeviceInfo>,
    pub http_device_state: Option<HttpDeviceState>,
    pub undoc_device_info: Option<UndocDeviceInfo>,
}

/// A `Device` with its identity as text.
pub struct DeviceView {
    pub sku: Seq<char>,
    pub id: Seq<char>,
    pub lan_device: Option<LanDevice>,
    pub lan_device_status: Option<LanDeviceStatus>,
    pub http_device_info: Option<HttpDeviceInfo>,
    pub http_device_state: Option<HttpDeviceState>,
    pub undoc_device_info: Option<UndocDeviceInfoView>,
}

impl View for Device {
    type V = DeviceView;

    open spec fn view(&self) -> DeviceView {
        DeviceView {
            sku: self.sku@,
            id: self.id@,
            lan_device: self.lan_device,
            lan_device_status: self.lan_device_status,
            http_device_info: self.http_device_info,
            http_device_state: self.http_device_state,
            undoc_device_info: match self.undoc_device_info {
                Some(info) => Some(info@),
                None => None,
            },
        }
    }
}

impl DeviceView {
    /// A device of which only the identity is known.
    pub open spec fn unknown(sku: Seq<char>, id: Seq<char>) -> DeviceView {
        DeviceView {
            sku,
            id,
            lan_device: None,
            lan_device_status: None,
            http_device_info: None,
            http_device_state: None,
            undoc_device_info: None,
        }
    }

    /// The device has the identity `(sku, id)`.
    pub open spec fn has_identity(self, sku: Seq<char>, id: Seq<char>) -> bool {
        self.sku == sku && self.id == id
    }
}

impl Device {
    /// A device of which only the identity is known.
    pub fn new(sku: &str, id: &str) -> (r: Device)
        ensures
            r@ == DeviceView::unknown(sku@, id@),
    {
        Device {
            sku: String::from_str(sku),
            id: String::from_str(id),
            lan_device: None,
            lan_device_status: None,
            http_device_info: None,
            http_device_state: None,
            undoc_device_info: None,
        }
    }

    /// The latest state from the cloud API, by which alone the freshness of
    /// the device is judged.
    pub fn device_state(&self) -> (r: Option<&HttpDeviceState>)
        ensures
            match r {
                Some(s) => self.http_device_state == Some(*s),
                None => self.http_device_state is None,
            },
    {
        self.http_device_state.as_ref()
    }

    /// Records what LAN discovery announced. No other field changes.
    pub fn set_lan_device(&mut self, device: LanDevice)
        ensures
            final(self)@ == (DeviceView { lan_device: Some(device), ..old(self)@ }),
    {
        self.lan_device = Some(device);
    }

    /// Records the status that the device gave over the LAN. No other field
    /// changes.
    pub fn set_lan_device_status(&mut self, status: LanDeviceStatus)
        ensures
            final(self)@ == (DeviceView { lan_device_status: Some(status), ..old(self)@ }),
    {
        self.lan_device_status = Some(status);
    }

    /// Records the descriptor from the cloud API. No other field changes.
    pub fn set_http_device_info(&mut self, info: HttpDeviceInfo)
        ensures
            final(self)@ == (DeviceView { http_device_info: Some(info), ..old(self)@ }),
    {
        self.http_device_info = Some(info);
    }

    /// Records the state from the cloud API, and with it the instant from
    /// which its age counts. No other field changes.
    pub fn set_http_device_state(&mut self, state: HttpDeviceState)
        ensures
            final(self)@ == (DeviceView { http_device_state: Some(state), ..old(self)@ }),
    {
        self.http_device_state = Some(state);
    }

    /// Records the companion API's entry together with the name of the room,
    /// where one was found. No other field changes.
    pub fn set_undoc_device_info(&mut self, entry: UndocDeviceEntry, room_name: Option<&str>)
        ensures
            final(self)@ == (DeviceView {
                undoc_device_info: Some(
                    UndocDeviceInfoView {
                        entry,
                        room_name: match room_name {
                            Some(name) => Some(name@),
                            None => None,
                        },
                    },
                ),
                ..old(self)@
            }),
    {
        let room_name = match room_name {
            Some(name) => Some(String::from_str(name)),
            None => None,
        };
        self.undoc_device_info = Some(UndocDeviceInfo { entry, room_name });
    }
}

} // verus!
