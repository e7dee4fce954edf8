//! What can be asked of the daemon, and what it answers.

use vstd::prelude::*;

use crate::api::json::texts;
use crate::api::types::{DaemonStatus, DeviceInfo, ExportedDeviceInfo, ImportedDeviceInfo};

verus! {

/// What can be asked of the daemon.
#[allow(inconsistent_fields)]
#[derive(Debug, Clone)]
pub enum ApiMethod {
    ListLocalDevices,
    ListExportedDevices,
    ListRemoteDevices { host: String, port: u16 },
    BindDevice { bus_id: String },
    UnbindDevice { bus_id: String },
    AttachDevice { host: String, port: u16, bus_id: String },
    DetachDevice { port: u32 },
    GetStatus,
    GetDeviceInfo { bus_id: String },
    Subscribe { events: Vec<String> },
}

/// What is asked of the daemon, by what the fields hold.
pub enum ApiMethodModel {
    ListLocalDevices,
    ListExportedDevices,
    ListRemoteDevices { host: Seq<char>, remote_port: u16 },
    BindDevice { bus_id: Seq<char> },
    UnbindDevice { bus_id: Seq<char> },
    AttachDevice { host: Seq<char>, remote_port: u16, bus_id: Seq<char> },
    DetachDevice { port: u32 },
    GetStatus,
    GetDeviceInfo { bus_id: Seq<char> },
    Subscribe { events: Seq<Seq<char>> },
}

impl View for ApiMethod {
    type V = ApiMethodModel;

    open spec fn view(&self) -> ApiMethodModel {
        match *self {
            ApiMethod::ListLocalDevices => ApiMethodModel::ListLocalDevices,
            ApiMethod::ListExportedDevices => ApiMethodModel::ListExportedDevices,
            ApiMethod::ListRemoteDevices { host, port } => ApiMethodModel::ListRemoteDevices {
                host: host@,
                remote_port: port,
            },
            ApiMethod::BindDevice { bus_id } => ApiMethodModel::BindDevice { bus_id: bus_id@ },
            ApiMethod::UnbindDevice { bus_id } => ApiMethodModel::UnbindDevice { bus_id: bus_id@ },
            ApiMethod::AttachDevice { host, port, bus_id } => ApiMethodModel::AttachDevice {
                host: host@,
                remote_port: port,
                bus_id: bus_id@,
            },
            ApiMethod::DetachDevice { port } => ApiMethodModel::DetachDevice { port },
            ApiMethod::GetStatus => ApiMethodModel::GetStatus,
            ApiMethod::GetDeviceInfo { bus_id } => ApiMethodModel::GetDeviceInfo {
                bus_id: bus_id@,
            },
            ApiMethod::Subscribe { events } => ApiMethodModel::Subscribe { events: texts(events@) },
        }
    }
}

impl ApiMethodModel {
    /// The name of the method in a request.
    pub open spec fn name(self) -> Seq<char> {
        match self {
            ApiMethodModel::ListLocalDevices => "list_local_devices"@,
            ApiMethodModel::ListExportedDevices => "list_exported_devices"@,
            ApiMethodModel::ListRemoteDevices { .. } => "list_remote_devices"@,
            ApiMethodModel::BindDevice { .. } => "bind_device"@,
            ApiMethodModel::UnbindDevice { .. } => "unbind_device"@,
            ApiMethodModel::AttachDevice { .. } => "attach_device"@,
            ApiMethodModel::DetachDevice { .. } => "detach_device"@,
            ApiMethodModel::GetStatus => "get_status"@,
            ApiMethodModel::GetDeviceInfo { .. } => "get_device_info"@,
            ApiMethodModel::Subscribe { .. } => "subscribe"@,
        }
    }
}

impl ApiMethod {
    /// The name of the method in a request.
    pub fn method_name(&self) -> (name: &'static str)
        ensures
            name@ == self@.name(),
    {
        match self {
            ApiMethod::ListLocalDevices => "list_local_devices",
            ApiMethod::ListExportedDevices => "list_exported_devices",
            ApiMethod::ListRemoteDevices { .. } => "list_remote_devices",
            ApiMethod::BindDevice { .. } => "bind_device",
            ApiMethod::UnbindDevice { .. } => "unbind_device",
            ApiMethod::AttachDevice { .. } => "attach_device",
            ApiMethod::DetachDevice { .. } => "detach_device",
            ApiMethod::GetStatus => "get_status",
            ApiMethod::GetDeviceInfo { .. } => "get_device_info",
            ApiMethod::Subscribe { .. } => "subscribe",
        }
    }
}

/// What the daemon answers.
#[derive(Debug, Clone)]
pub enum ApiResponse {
    Devices(Vec<DeviceInfo>),
    ExportedDevices(Vec<ExportedDeviceInfo>),
    ImportedDevices(Vec<ImportedDeviceInfo>),
    DeviceInfo(DeviceInfo),
    Status(DaemonStatus),
    /// It was done.
    Done,
}

} // verus!
