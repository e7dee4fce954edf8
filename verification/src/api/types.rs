//! What the daemon tells of devices and of itself.

use vstd::prelude::*;

use crate::text::text_option;

verus! {

/// The speed of a device.
#[derive(Debug, Clone, Copy, PartialEq, Eq, Structural)]
pub enum UsbSpeed {
    Low,
    Full,
    High,
    Super,
    SuperPlus,
    Unknown,
}

/// A device, local or remote.
#[derive(Debug, Clone)]
pub struct DeviceInfo {
    pub bus_id: String,
    pub vendor_id: u16,
    pub product_id: u16,
    pub manufacturer: Option<String>,
    pub product: Option<String>,
    pub device_class: u8,
    pub speed: UsbSpeed,
    pub is_bound: bool,
}

/// A device on offer.
#[derive(Debug, Clone)]
pub struct ExportedDeviceInfo {
    pub bus_id: String,
    pub vendor_id: u16,
    pub product_id: u16,
    pub manufacturer: Option<String>,
    pub product: Option<String>,
    pub device_class: u8,
    pub speed: UsbSpeed,
    pub num_clients: u32,
}

/// An imported device.
#[derive(Debug, Clone)]
pub struct ImportedDeviceInfo {
    pub port: u32,
    pub host: String,
    pub remote_bus_id: String,
    pub vendor_id: u16,
    pub product_id: u16,
    pub speed: UsbSpeed,
}

/// The state of the daemon.
#[derive(Debug, Clone)]
pub struct DaemonStatus {
    pub version: String,
    pub uptime_secs: u64,
    pub exported_devices: u32,
    pub imported_devices: u32,
    pub active_connections: u32,
}

/// What is told of a device.
pub struct DeviceInfoModel {
    pub bus_id: Seq<char>,
    pub vendor_id: u16,
    pub product_id: u16,
    pub manufacturer: Option<Seq<char>>,
    pub product: Option<Seq<char>>,
    pub device_class: u8,
    pub speed: UsbSpeed,
    pub is_bound: bool,
}

impl View for DeviceInfo {
    type V = DeviceInfoModel;

    open spec fn view(&self) -> DeviceInfoModel {
        DeviceInfoModel {
            bus_id: self.bus_id@,
            vendor_id: self.vendor_id,
            product_id: self.product_id,
            manufacturer: text_option(self.manufacturer),
            product: text_option(self.product),
            device_class: self.device_class,
            speed: self.speed,
            is_bound: self.is_bound,
        }
    }
}

/// What is told of a device on offer.
pub struct ExportedInfoModel {
    pub bus_id: Seq<char>,
    pub vendor_id: u16,
    pub product_id: u16,
    pub manufacturer: Option<Seq<char>>,
    pub product: Option<Seq<char>>,
    pub device_class: u8,
    pub speed: UsbSpeed,
    pub num_clients: u32,
}

impl View for ExportedDeviceInfo {
    type V = ExportedInfoModel;

    open spec fn view(&self) -> ExportedInfoModel {
        ExportedInfoModel {
            bus_id: self.bus_id@,
            vendor_id: self.vendor_id,
            product_id: self.product_id,
            manufacturer: text_option(self.manufacturer),
            product: text_option(self.product),
            device_class: self.device_class,
            speed: self.speed,
            num_clients: self.num_clients,
        }
    }
}

/// What is told of devices.
pub open spec fn info_models(v: Seq<DeviceInfo>) -> Seq<DeviceInfoModel> {
    Seq::new(v.len(), |i: int| v[i]@)
}

/// What is told of devices on offer.
pub open spec fn exported_models(v: Seq<ExportedDeviceInfo>) -> Seq<ExportedInfoModel> {
    Seq::new(v.len(), |i: int| v[i]@)
}

/// What the daemon tells its subscribers.
#[derive(Debug, Clone)]
pub enum DaemonEvent {
    DevicePlugged(DeviceInfo),
    DeviceUnplugged { bus_id: String },
    DeviceBound { bus_id: String },
    DeviceUnbound { bus_id: String },
    ClientConnected { remote_addr: String },
    ClientDisconnected { remote_addr: String },
    Error { message: String },
}

} // verus!
