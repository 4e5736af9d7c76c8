//! Battery and device information of a KDE Connect device.
use vstd::prelude::*;

verus! {

/// Battery state as the `battery` interface of a device publishes it.
#[derive(Debug, Clone, Copy)]
pub struct BatteryStatus {
    pub is_charging: bool,
    /// Charge in percent.
    pub charge: i64,
}

/// The kind of a device.
#[derive(Debug, Clone, Copy, PartialEq, Eq)]
pub enum DeviceType {
    Phone,
    Tablet,
    Desktop,
    Laptop,
}

/// Properties of a device as its `device` interface publishes them.
#[derive(Debug)]
pub struct DeviceInfoData {
    pub status_icon_name: String,
    pub is_paired: bool,
    pub is_reachable: bool,
    pub is_pair_requested_by_peer: bool,
    pub name: String,
    pub icon_name: String,
    pub active_provider_names: Vec<String>,
    pub is_pair_requested: bool,
    pub reachable_addresses: Vec<String>,
    pub pair_state: i64,
    pub supported_plugins: Vec<String>,
    pub type_: DeviceType,
    pub verification_key: String,
}

} // verus!
