//! What the daemon is asked, and what it answers.

use vstd::prelude::*;
use vstd::string::*;

use crate::api::json::{
    is_text, text_list_member, text_member, texts, unsigned_member, Json,
};
use crate::api::jsonrpc::{FramingError, JsonRpcError, JsonRpcRequest, JsonRpcResponse};
use crate::api::methods::{ApiMethod, ApiMethodModel};
use crate::api::types::{
    exported_models, info_models, DaemonStatus, DeviceInfo, DeviceInfoModel, ExportedDeviceInfo,
    ExportedInfoModel, UsbSpeed,
};
use crate::cli::client::params_of;
use crate::client::error::ClientError;
use crate::client::types::{AttachedDevice, RemoteDevice};
use crate::daemon::config::SecurityConfig;
use crate::daemon::device_acl::{allowed, is_device_allowed};
use crate::scan::same;
use crate::server::device::LocalUsbDevice;
use crate::server::error::ServerError;
use crate::server::export::{
    find_local, local_place, Entry, ExportRegistry, HandleId, SessionId,
};
use crate::text::{
    chars_of, copy_text, decimal, decimal_string, hex_digits, hex_string, text_option,
};

verus! {

/// An error of a request, by code, message and detail.
pub type Refusal = (int, Seq<char>, Seq<char>);

/// A parameter is missing or is not what it should be.
pub open spec fn invalid_params(detail: Seq<char>) -> Refusal {
    (-32602, "Invalid params"@, detail)
}

/// The request cannot be served.
pub open spec fn internal_error(detail: Seq<char>) -> Refusal {
    (-32603, "Internal error"@, detail)
}

/// An error says what a refusal says.
pub open spec fn says(e: JsonRpcError, refusal: Refusal) -> bool {
    e.says(refusal.0, refusal.1, refusal.2)
}

/// The text of a parameter, or the refusal where there is none.
pub open spec fn text_param(params: Option<Json>, name: Seq<char>) -> Result<Seq<char>, Refusal> {
    match params {
        Some(p) => match text_member(p, name) {
            Some(s) => Ok(s),
            None => Err(invalid_params("missing '"@ + name + "'"@)),
        },
        None => Err(invalid_params("missing params"@)),
    }
}

/// The number of a parameter, or the refusal where there is none.
pub open spec fn number_param(params: Option<Json>, name: Seq<char>) -> Result<u64, Refusal> {
    match params {
        Some(p) => match unsigned_member(p, name) {
            Some(n) => Ok(n),
            None => Err(invalid_params("missing '"@ + name + "'"@)),
        },
        None => Err(invalid_params("missing params"@)),
    }
}

/// What a request asks, or its refusal. The first parameter that is missing is
/// the one that is named. Of a port as many bits are taken as it has.
pub open spec fn requested(method: Seq<char>, params: Option<Json>) -> Result<
    ApiMethodModel,
    Refusal,
> {
    if method == "list_local_devices"@ {
        Ok(ApiMethodModel::ListLocalDevices)
    } else if method == "list_exported_devices"@ {
        Ok(ApiMethodModel::ListExportedDevices)
    } else if method == "list_remote_devices"@ {
        match text_param(params, "host"@) {
            Ok(host) => match number_param(params, "port"@) {
                Ok(n) => Ok(ApiMethodModel::ListRemoteDevices { host, remote_port: n as u16 }),
                Err(e) => Err(e),
            },
            Err(e) => Err(e),
        }
    } else if method == "bind_device"@ {
        match text_param(params, "bus_id"@) {
            Ok(bus_id) => Ok(ApiMethodModel::BindDevice { bus_id }),
            Err(e) => Err(e),
        }
    } else if method == "unbind_device"@ {
        match text_param(params, "bus_id"@) {
            Ok(bus_id) => Ok(ApiMethodModel::UnbindDevice { bus_id }),
            Err(e) => Err(e),
        }
    } else if method == "attach_device"@ {
        match text_param(params, "host"@) {
            Ok(host) => match number_param(params, "port"@) {
                Ok(n) => match text_param(params, "bus_id"@) {
                    Ok(bus_id) => Ok(
                        ApiMethodModel::AttachDevice { host, remote_port: n as u16, bus_id },
                    ),
                    Err(e) => Err(e),
                },
                Err(e) => Err(e),
            },
            Err(e) => Err(e),
        }
    } else if method == "detach_device"@ {
        match number_param(params, "port"@) {
            Ok(n) => Ok(ApiMethodModel::DetachDevice { port: n as u32 }),
            Err(e) => Err(e),
        }
    } else if method == "get_status"@ {
        Ok(ApiMethodModel::GetStatus)
    } else if method == "get_device_info"@ {
        match text_param(params, "bus_id"@) {
            Ok(bus_id) => Ok(ApiMethodModel::GetDeviceInfo { bus_id }),
            Err(e) => Err(e),
        }
    } else if method == "subscribe"@ {
        Ok(
            ApiMethodModel::Subscribe {
                events: match params {
                    Some(p) => match text_list_member(p, "events"@) {
                        Some(v) => v,
                        None => Seq::empty(),
                    },
                    None => Seq::empty(),
                },
            },
        )
    } else {
        Err((-32601, "Method not found"@, method))
    }
}

fn missing(name: &str) -> (e: JsonRpcError)
    ensures
        says(e, invalid_params("missing '"@ + name@ + "'"@)),
{
    JsonRpcError::invalid_params("missing '".to_owned().concat(name).concat("'").as_str())
}

fn take_text(params: &Option<Json>, name: &str) -> (r: Result<String, JsonRpcError>)
    ensures
        match text_param(*params, name@) {
            Ok(s) => r matches Ok(t) && t@ == s,
            Err(refusal) => r matches Err(e) && says(e, refusal),
        },
{
    match params {
        Some(p) => match p.get_text(name) {
            Some(s) => Ok(s.clone()),
            None => Err(missing(name)),
        },
        None => Err(JsonRpcError::invalid_params("missing params")),
    }
}

fn take_number(params: &Option<Json>, name: &str) -> (r: Result<u64, JsonRpcError>)
    ensures
        match number_param(*params, name@) {
            Ok(n) => r == Ok::<u64, JsonRpcError>(n),
            Err(refusal) => r matches Err(e) && says(e, refusal),
        },
{
    match params {
        Some(p) => match p.get_unsigned(name) {
            Some(n) => Ok(n),
            None => Err(missing(name)),
        },
        None => Err(JsonRpcError::invalid_params("missing params")),
    }
}

fn is_named(method: &Vec<char>, name: &str) -> (b: bool)
    ensures
        b == (method@ == name@),
{
    same(method, &chars_of(name))
}

/// What a request asks, or the error where it asks nothing.
pub fn parse_request(method: &str, params: &Option<Json>) -> (r: Result<ApiMethod, JsonRpcError>)
    ensures
        match requested(method@, *params) {
            Ok(m) => r matches Ok(x) && x@ == m,
            Err(refusal) => r matches Err(e) && says(e, refusal),
        },
{
    let name = chars_of(method);
    if is_named(&name, "list_local_devices") {
        Ok(ApiMethod::ListLocalDevices)
    } else if is_named(&name, "list_exported_devices") {
        Ok(ApiMethod::ListExportedDevices)
    } else if is_named(&name, "list_remote_devices") {
        match take_text(params, "host") {
            Ok(host) => match take_number(params, "port") {
                Ok(n) => Ok(ApiMethod::ListRemoteDevices { host, port: n as u16 }),
                Err(e) => Err(e),
            },
            Err(e) => Err(e),
        }
    } else if is_named(&name, "bind_device") {
        match take_text(params, "bus_id") {
            Ok(bus_id) => Ok(ApiMethod::BindDevice { bus_id }),
            Err(e) => Err(e),
        }
    } else if is_named(&name, "unbind_device") {
        match take_text(params, "bus_id") {
            Ok(bus_id) => Ok(ApiMethod::UnbindDevice { bus_id }),
            Err(e) => Err(e),
        }
    } else if is_named(&name, "attach_device") {
        match take_text(params, "host") {
            Ok(host) => match take_number(params, "port") {
                Ok(n) => match take_text(params, "bus_id") {
                    Ok(bus_id) => Ok(ApiMethod::AttachDevice { host, port: n as u16, bus_id }),
                    Err(e) => Err(e),
                },
                Err(e) => Err(e),
            },
            Err(e) => Err(e),
        }
    } else if is_named(&name, "detach_device") {
        match take_number(params, "port") {
            Ok(n) => Ok(ApiMethod::DetachDevice { port: n as u32 }),
            Err(e) => Err(e),
        }
    } else if is_named(&name, "get_status") {
        Ok(ApiMethod::GetStatus)
    } else if is_named(&name, "get_device_info") {
        match take_text(params, "bus_id") {
            Ok(bus_id) => Ok(ApiMethod::GetDeviceInfo { bus_id }),
            Err(e) => Err(e),
        }
    } else if is_named(&name, "subscribe") {
        let events: Vec<String> = match params {
            Some(p) => match p.get_text_list("events") {
                Some(v) => v,
                None => Vec::new(),
            },
            None => Vec::new(),
        };
        assert(texts(Seq::<String>::empty()) =~= Seq::empty());
        Ok(ApiMethod::Subscribe { events })
    } else {
        Err(JsonRpcError::method_not_found(method))
    }
}

proof fn lemma_method_names_differ()
    ensures
        forall|m: ApiMethodModel|
            #![trigger m.name()]
            {
                &&& !(m is ListLocalDevices) ==> m.name() != "list_local_devices"@
                &&& !(m is ListExportedDevices) ==> m.name() != "list_exported_devices"@
                &&& !(m is ListRemoteDevices) ==> m.name() != "list_remote_devices"@
                &&& !(m is BindDevice) ==> m.name() != "bind_device"@
                &&& !(m is UnbindDevice) ==> m.name() != "unbind_device"@
                &&& !(m is AttachDevice) ==> m.name() != "attach_device"@
                &&& !(m is DetachDevice) ==> m.name() != "detach_device"@
                &&& !(m is GetStatus) ==> m.name() != "get_status"@
                &&& !(m is GetDeviceInfo) ==> m.name() != "get_device_info"@
                &&& !(m is Subscribe) ==> m.name() != "subscribe"@
            },
{
    reveal_strlit("list_local_devices");
    reveal_strlit("list_exported_devices");
    reveal_strlit("list_remote_devices");
    reveal_strlit("bind_device");
    reveal_strlit("unbind_device");
    reveal_strlit("attach_device");
    reveal_strlit("detach_device");
    reveal_strlit("get_status");
    reveal_strlit("get_device_info");
    reveal_strlit("subscribe");
    assert("list_exported_devices"@.len() == 21);
    assert("list_local_devices"@.len() == 18);
    assert("list_remote_devices"@.len() == 19);
    assert("bind_device"@.len() == 11);
    assert("unbind_device"@.len() == 13);
    assert("attach_device"@.len() == 13);
    assert("detach_device"@.len() == 13);
    assert("get_status"@.len() == 10);
    assert("get_device_info"@.len() == 15);
    assert("subscribe"@.len() == 9);
    assert("unbind_device"@[0] == 'u');
    assert("attach_device"@[0] == 'a');
    assert("detach_device"@[0] == 'd');
}

/// The daemon reads of a request what the command line has written.
pub proof fn law_request_round_trip(m: ApiMethodModel, params: Option<Json>)
    requires
        params_of(m, params),
    ensures
        requested(m.name(), params) == Ok::<ApiMethodModel, Refusal>(m),
{
    lemma_method_names_differ();
    reveal_strlit("host");
    reveal_strlit("port");
    reveal_strlit("bus_id");
    reveal_strlit("events");
    assert("host"@[0] == 'h');
    assert("port"@[0] == 'p');
    assert("bus_id"@[0] == 'b');
    reveal_with_fuel(crate::api::json::member_place, 4);
    match m {
        ApiMethodModel::Subscribe { events } => {
            let j = params.unwrap();
            let ms = j->Object_0;
            let a = ms@[0].1->Array_0;
            assert(text_list_member(j, "events"@).unwrap() =~= events);
        },
        ApiMethodModel::AttachDevice { host, remote_port, bus_id } => {
            let ms = params.unwrap()->Object_0;
            assert(ms@.skip(1)[0] == ms@[1]);
            assert(ms@.skip(1).skip(1)[0] == ms@[2]);
        },
        ApiMethodModel::ListRemoteDevices { host, remote_port } => {
            let ms = params.unwrap()->Object_0;
            assert(ms@.skip(1)[0] == ms@[1]);
        },
        _ => {},
    }
}

/// The speed of a device by its number.
pub open spec fn speed_of(speed: u32) -> UsbSpeed {
    if speed == 1 {
        UsbSpeed::Low
    } else if speed == 2 {
        UsbSpeed::Full
    } else if speed == 3 {
        UsbSpeed::High
    } else if speed == 5 {
        UsbSpeed::Super
    } else {
        UsbSpeed::Unknown
    }
}

/// The speed of a device by its number.
pub fn speed_to_api(speed: u32) -> (s: UsbSpeed)
    ensures
        s == speed_of(speed),
{
    match speed {
        1 => UsbSpeed::Low,
        2 => UsbSpeed::Full,
        3 => UsbSpeed::High,
        5 => UsbSpeed::Super,
        _ => UsbSpeed::Unknown,
    }
}

/// What is told of a device of this host.
pub open spec fn local_info(d: LocalUsbDevice, is_bound: bool) -> DeviceInfoModel {
    DeviceInfoModel {
        bus_id: d.bus_id@,
        vendor_id: d.vendor_id,
        product_id: d.product_id,
        manufacturer: text_option(d.manufacturer),
        product: text_option(d.product),
        device_class: d.device_class,
        speed: speed_of(d.speed),
        is_bound,
    }
}

/// What is told of a device of this host.
pub fn local_to_device_info(d: &LocalUsbDevice, is_bound: bool) -> (i: DeviceInfo)
    ensures
        i@ == local_info(*d, is_bound),
{
    DeviceInfo {
        bus_id: d.bus_id.clone(),
        vendor_id: d.vendor_id,
        product_id: d.product_id,
        manufacturer: copy_text(&d.manufacturer),
        product: copy_text(&d.product),
        device_class: d.device_class,
        speed: speed_to_api(d.speed),
        is_bound,
    }
}

/// What is told of a device of another host. Its server does not tell the
/// names of manufacturer and product.
pub open spec fn remote_info(d: RemoteDevice) -> DeviceInfoModel {
    DeviceInfoModel {
        bus_id: d.busid@,
        vendor_id: d.id_vendor,
        product_id: d.id_product,
        manufacturer: None,
        product: None,
        device_class: d.device_class,
        speed: speed_of(d.speed),
        is_bound: false,
    }
}

/// What is told of the devices of another host, in order.
pub fn remote_to_device_infos(devices: &Vec<RemoteDevice>) -> (v: Vec<DeviceInfo>)
    ensures
        info_models(v@) == Seq::new(devices@.len(), |i: int| remote_info(devices@[i])),
{
    let mut out: Vec<DeviceInfo> = Vec::new();
    let mut i: usize = 0;
    while i < devices.len()
        invariant
            i <= devices@.len(),
            info_models(out@) =~= Seq::new(i as nat, |k: int| remote_info(devices@[k])),
        decreases devices@.len() - i,
    {
        let d = &devices[i];
        let ghost before = out@;
        let info = DeviceInfo {
            bus_id: d.busid.clone(),
            vendor_id: d.id_vendor,
            product_id: d.id_product,
            manufacturer: None,
            product: None,
            device_class: d.device_class,
            speed: speed_to_api(d.speed),
            is_bound: false,
        };
        out.push(info);
        assert(info_models(out@) =~= info_models(before).push(info@));
        i = i + 1;
    }
    out
}

/// Answer which devices this host has, by what looking for them gave.
pub fn handle_list_local_devices(found: &Result<Vec<LocalUsbDevice>, ServerError>) -> (r: Result<
    Vec<DeviceInfo>,
    JsonRpcError,
>)
    ensures
        match *found {
            Ok(devices) => r matches Ok(v) && info_models(v@) == Seq::new(
                devices@.len(),
                |i: int| local_info(devices@[i], false),
            ),
            Err(_) => r matches Err(e) && says(e, internal_error("USB enumeration failed"@)),
        },
{
    match found {
        Ok(devices) => {
            let mut out: Vec<DeviceInfo> = Vec::new();
            let mut i: usize = 0;
            while i < devices.len()
                invariant
                    i <= devices@.len(),
                    info_models(out@) =~= Seq::new(
                        i as nat,
                        |k: int| local_info(devices@[k], false),
                    ),
                decreases devices@.len() - i,
            {
                let ghost before = out@;
                let info = local_to_device_info(&devices[i], false);
                out.push(info);
                assert(info_models(out@) =~= info_models(before).push(info@));
                i = i + 1;
            }
            Ok(out)
        },
        Err(_) => Err(JsonRpcError::internal_error("USB enumeration failed")),
    }
}

/// The address of a server as it is written, from its host and port.
pub fn address_text(host: &str, port: u16) -> (s: String)
    ensures
        s@ == host@ + ":"@ + decimal(port as nat),
{
    host.to_owned().concat(":").concat(decimal_string(port as u64).as_str())
}

/// The error on an address that is none, by the reason why.
pub fn address_error(reason: &str) -> (e: JsonRpcError)
    ensures
        says(e, invalid_params("invalid address: "@ + reason@)),
{
    JsonRpcError::invalid_params("invalid address: ".to_owned().concat(reason).as_str())
}

/// Answer which devices another host offers, by what asking it gave.
pub fn handle_list_remote_devices(found: &Result<Vec<RemoteDevice>, ClientError>) -> (r: Result<
    Vec<DeviceInfo>,
    JsonRpcError,
>)
    ensures
        match *found {
            Ok(devices) => r matches Ok(v) && info_models(v@) == Seq::new(
                devices@.len(),
                |i: int| remote_info(devices@[i]),
            ),
            Err(_) => r matches Err(e) && says(e, internal_error("remote list failed"@)),
        },
{
    match found {
        Ok(devices) => Ok(remote_to_device_infos(devices)),
        Err(_) => Err(JsonRpcError::internal_error("remote list failed")),
    }
}

/// A text member.
fn text_entry(name: &str, value: &str) -> (m: (String, Json))
    ensures
        m.0@ == name@,
        is_text(m.1, value@),
{
    (name.to_owned(), Json::Str(value.to_owned()))
}

/// Answer that a device was attached, or why not. Where the client could not
/// even be set up, `outcome` is `None`.
pub fn handle_attach_device(
    bus_id: &str,
    outcome: &Option<Result<AttachedDevice, ClientError>>,
) -> (r: Result<Json, JsonRpcError>)
    ensures
        match *outcome {
            Some(Ok(attached)) => r matches Ok(Json::Object(ms)) && ms@.len() == 3 && ms@[0].0@
                == "status"@ && is_text(ms@[0].1, "ok"@) && ms@[1].0@ == "port"@ && ms@[1].1
                == Json::Unsigned(attached.port as u64) && ms@[2].0@ == "bus_id"@ && is_text(
                ms@[2].1,
                bus_id@,
            ),
            Some(Err(_)) => r matches Err(e) && says(e, internal_error("attach device failed"@)),
            None => r matches Err(e) && says(e, internal_error("client initialization failed"@)),
        },
{
    match outcome {
        Some(Ok(attached)) => {
            let mut ms: Vec<(String, Json)> = Vec::new();
            ms.push(text_entry("status", "ok"));
            ms.push(("port".to_owned(), Json::Unsigned(attached.port as u64)));
            ms.push(text_entry("bus_id", bus_id));
            Ok(Json::Object(ms))
        },
        Some(Err(_)) => Err(JsonRpcError::internal_error("attach device failed")),
        None => Err(JsonRpcError::internal_error("client initialization failed")),
    }
}

/// Answer that a device was detached, or why not. Where the client could not
/// even be set up, `outcome` is `None`.
pub fn handle_detach_device(port: u32, outcome: &Option<Result<(), ClientError>>) -> (r: Result<
    Json,
    JsonRpcError,
>)
    ensures
        match *outcome {
            Some(Ok(_)) => r matches Ok(Json::Object(ms)) && ms@.len() == 2 && ms@[0].0@
                == "status"@ && is_text(ms@[0].1, "ok"@) && ms@[1].0@ == "port"@ && ms@[1].1
                == Json::Unsigned(port as u64),
            Some(Err(_)) => r matches Err(e) && says(e, internal_error("detach device failed"@)),
            None => r matches Err(e) && says(e, internal_error("client initialization failed"@)),
        },
{
    match outcome {
        Some(Ok(_)) => {
            let mut ms: Vec<(String, Json)> = Vec::new();
            ms.push(text_entry("status", "ok"));
            ms.push(("port".to_owned(), Json::Unsigned(port as u64)));
            Ok(Json::Object(ms))
        },
        Some(Err(_)) => Err(JsonRpcError::internal_error("detach device failed")),
        None => Err(JsonRpcError::internal_error("client initialization failed")),
    }
}

/// The refusal of a bus ID that no device has.
pub open spec fn not_found(bus_id: Seq<char>) -> Refusal {
    invalid_params("device '"@ + bus_id + "' not found"@)
}

fn device_not_found(bus_id: &str) -> (e: JsonRpcError)
    ensures
        says(e, not_found(bus_id@)),
{
    JsonRpcError::invalid_params(
        "device '".to_owned().concat(bus_id).concat("' not found").as_str(),
    )
}

/// Answer what a device of this host is, by what looking for devices gave.
pub fn handle_get_device_info(
    bus_id: &str,
    found: &Result<Vec<LocalUsbDevice>, ServerError>,
) -> (r: Result<DeviceInfo, JsonRpcError>)
    ensures
        match *found {
            Ok(devices) => {
                let i = local_place(devices@, bus_id@);
                if i < devices@.len() {
                    r matches Ok(info) && info@ == local_info(devices@[i], false)
                } else {
                    r matches Err(e) && says(e, not_found(bus_id@))
                }
            },
            Err(_) => r matches Err(e) && says(e, internal_error("device enumeration failed"@)),
        },
{
    match found {
        Ok(devices) => {
            let i: usize = find_local(devices, bus_id);
            if i < devices.len() {
                Ok(local_to_device_info(&devices[i], false))
            } else {
                Err(device_not_found(bus_id))
            }
        },
        Err(_) => Err(JsonRpcError::internal_error("device enumeration failed")),
    }
}

/// Answer that the client was subscribed to events.
pub fn handle_subscribe() -> (j: Json)
    ensures
        j matches Json::Object(ms) && ms@.len() == 1 && ms@[0].0@ == "status"@ && is_text(
            ms@[0].1,
            "ok"@,
        ),
{
    let mut ms: Vec<(String, Json)> = Vec::new();
    ms.push(text_entry("status", "ok"));
    Json::Object(ms)
}

/// Answer a message that is no JSON request, by the reason why.
pub fn parse_failure(reason: &str) -> (r: JsonRpcResponse)
    ensures
        r.jsonrpc@ == "2.0"@,
        r.result is None,
        r.id is None,
        r.error matches Some(e) && e.says(-32700, "Parse error"@, reason@),
{
    JsonRpcResponse::error(None, JsonRpcError::parse_error(reason))
}

/// Tell a subscriber of an event.
pub fn event_notification(event: &str) -> (r: JsonRpcRequest)
    ensures
        r.jsonrpc@ == "2.0"@,
        r.method@ == "event"@,
        r.params matches Some(p) && is_text(p, event@),
        r.id is None,
{
    JsonRpcRequest::notification("event", Some(Json::Str(event.to_owned())))
}

/// What happens on a connection to a client.
#[derive(Debug)]
pub enum ConnectionEvent {
    /// A message came: a request, or else the reason why it is none.
    Message(Result<JsonRpcRequest, String>),
    /// No message could be read.
    ReadFailed(FramingError),
    /// Something happened of which subscribers are told.
    Happened(String),
    /// The daemon shuts down.
    Shutdown,
}

/// What is done about it.
#[derive(Debug)]
pub enum ConnectionAction {
    /// Serve what is asked, and answer under this identification.
    Serve(ApiMethod, Option<Json>),
    /// Answer this.
    Reply(JsonRpcResponse),
    /// Tell this.
    Notify(JsonRpcRequest),
    /// Close the connection: without an error where the client has closed it
    /// or the daemon shuts down.
    Close(Option<FramingError>),
}

/// What is done about what happens on a connection. A message that is no
/// request, and a request that asks nothing, are answered; the connection goes
/// on.
pub fn on_connection(event: ConnectionEvent) -> (a: ConnectionAction)
    ensures
        match event {
            ConnectionEvent::Message(Ok(req)) => match requested(req.method@, req.params) {
                Ok(m) => a matches ConnectionAction::Serve(x, id) && x@ == m && id == req.id,
                Err(refusal) => a matches ConnectionAction::Reply(r) && r.jsonrpc@ == "2.0"@
                    && r.result is None && r.id == req.id && (r.error matches Some(e) && says(
                    e,
                    refusal,
                )),
            },
            ConnectionEvent::Message(Err(reason)) => a matches ConnectionAction::Reply(r)
                && r.jsonrpc@ == "2.0"@ && r.result is None && r.id is None && (
            r.error matches Some(e) && e.says(-32700, "Parse error"@, reason@)),
            ConnectionEvent::ReadFailed(FramingError::ConnectionClosed) => a
                == ConnectionAction::Close(None),
            ConnectionEvent::ReadFailed(e) => a == ConnectionAction::Close(Some(e)),
            ConnectionEvent::Happened(text) => a matches ConnectionAction::Notify(n) && n.jsonrpc@
                == "2.0"@ && n.method@ == "event"@ && n.id is None && (n.params matches Some(p)
                && is_text(p, text@)),
            ConnectionEvent::Shutdown => a == ConnectionAction::Close(None),
        },
{
    match event {
        ConnectionEvent::Message(Ok(req)) => match parse_request(req.method.as_str(), &req.params) {
            Ok(m) => ConnectionAction::Serve(m, req.id),
            Err(e) => ConnectionAction::Reply(JsonRpcResponse::error(req.id, e)),
        },
        ConnectionEvent::Message(Err(reason)) => ConnectionAction::Reply(
            parse_failure(reason.as_str()),
        ),
        ConnectionEvent::ReadFailed(e) => match e {
            FramingError::ConnectionClosed => ConnectionAction::Close(None),
            other => ConnectionAction::Close(Some(other)),
        },
        ConnectionEvent::Happened(text) => ConnectionAction::Notify(
            event_notification(text.as_str()),
        ),
        ConnectionEvent::Shutdown => ConnectionAction::Close(None),
    }
}

/// What is told of a device on offer.
pub open spec fn exported_info(e: Entry) -> ExportedInfoModel {
    ExportedInfoModel {
        bus_id: e.bus_id@,
        vendor_id: e.exported.device.vendor_id,
        product_id: e.exported.device.product_id,
        manufacturer: text_option(e.exported.device.manufacturer),
        product: text_option(e.exported.device.product),
        device_class: e.exported.device.device_class,
        speed: speed_of(e.exported.device.speed),
        num_clients: if e.exported.active_session is Some {
            1
        } else {
            0
        },
    }
}

/// How many devices some client has imported.
pub open spec fn active_count(entries: Seq<Entry>) -> nat
    decreases entries.len(),
{
    if entries.len() == 0 {
        0
    } else {
        active_count(entries.drop_last()) + if entries.last().exported.active_session is Some {
            1nat
        } else {
            0nat
        }
    }
}

/// What the daemon answers by.
#[derive(Debug)]
pub struct ApiState {
    /// The devices on offer.
    pub registry: ExportRegistry,
    /// Which devices may be offered.
    pub security: SecurityConfig,
}

impl ApiState {
    /// The state of a daemon with a registry.
    pub fn new(registry: ExportRegistry, security: SecurityConfig) -> (s: Self)
        ensures
            s.registry == registry,
            s.security == security,
    {
        ApiState { registry, security }
    }

    /// Answer which devices are on offer, in the order in which they were bound.
    pub fn handle_list_exported_devices(&self) -> (v: Vec<ExportedDeviceInfo>)
        ensures
            exported_models(v@) == Seq::new(
                self.registry.entries().len(),
                |i: int| exported_info(self.registry.entries()[i]),
            ),
    {
        let entries = self.registry.inner();
        let mut out: Vec<ExportedDeviceInfo> = Vec::new();
        let mut i: usize = 0;
        while i < entries.len()
            invariant
                i <= entries@.len(),
                exported_models(out@) =~= Seq::new(i as nat, |k: int| exported_info(entries@[k])),
            decreases entries@.len() - i,
        {
            let ghost before = out@;
            let d = &entries[i].exported.device;
            let num_clients: u32 = match entries[i].exported.active_session {
                Some(_) => 1,
                None => 0,
            };
            let info = ExportedDeviceInfo {
                bus_id: entries[i].bus_id.clone(),
                vendor_id: d.vendor_id,
                product_id: d.product_id,
                manufacturer: copy_text(&d.manufacturer),
                product: copy_text(&d.product),
                device_class: d.device_class,
                speed: speed_to_api(d.speed),
                num_clients,
            };
            out.push(info);
            assert(exported_models(out@) =~= exported_models(before).push(info@));
            i = i + 1;
        }
        out
    }

    /// Whether a device of this host may be offered, by what looking for
    /// devices gave: there must be one, and it must be allowed.
    pub open spec fn bind_refusal(
        self,
        bus_id: Seq<char>,
        found: Result<Vec<LocalUsbDevice>, ServerError>,
    ) -> Option<Refusal> {
        match found {
            Ok(devices) => {
                let i = local_place(devices@, bus_id);
                if i >= devices@.len() {
                    Some(not_found(bus_id))
                } else {
                    let d = devices@[i];
                    if allowed(
                        d.vendor_id,
                        d.product_id,
                        self.security@.allowed_devices,
                        self.security@.denied_devices,
                    ) {
                        None
                    } else {
                        Some(
                            internal_error(
                                "device "@ + hex_digits(d.vendor_id as nat, 4) + ":"@ + hex_digits(
                                    d.product_id as nat,
                                    4,
                                ) + " is not allowed by ACL policy"@,
                            ),
                        )
                    }
                }
            },
            Err(_) => Some(internal_error("USB enumeration failed"@)),
        }
    }

    /// Whether a device of this host may be offered.
    pub fn check_bind(
        &self,
        bus_id: &str,
        found: &Result<Vec<LocalUsbDevice>, ServerError>,
    ) -> (r: Result<(), JsonRpcError>)
        ensures
            match self.bind_refusal(bus_id@, *found) {
                None => r is Ok,
                Some(refusal) => r matches Err(e) && says(e, refusal),
            },
    {
        match found {
            Ok(devices) => {
                let i: usize = find_local(devices, bus_id);
                if i >= devices.len() {
                    return Err(device_not_found(bus_id));
                }
                let vid: u16 = devices[i].vendor_id;
                let pid: u16 = devices[i].product_id;
                if !is_device_allowed(vid, pid, &self.security) {
                    return Err(
                        JsonRpcError::internal_error(
                            "device ".to_owned().concat(hex_string(vid as u32, 4).as_str()).concat(
                                ":",
                            ).concat(hex_string(pid as u32, 4).as_str()).concat(
                                " is not allowed by ACL policy",
                            ).as_str(),
                        ),
                    );
                }
                Ok(())
            },
            Err(_) => Err(JsonRpcError::internal_error("USB enumeration failed")),
        }
    }

    /// Offer a device of this host, where it may be offered: `found` is what
    /// looking for devices gave at first, `local_devices` the devices that were
    /// there when it was opened, and `opened` what opening it gave.
    pub fn handle_bind_device(
        &mut self,
        bus_id: &str,
        found: &Result<Vec<LocalUsbDevice>, ServerError>,
        local_devices: Vec<LocalUsbDevice>,
        opened: Result<HandleId, ServerError>,
    ) -> (r: Result<Json, JsonRpcError>)
        requires
            old(self).registry.well_formed(),
        ensures
            final(self).registry.well_formed(),
            final(self).security == old(self).security,
            match old(self).bind_refusal(bus_id@, *found) {
                Some(refusal) => {
                    &&& final(self).registry == old(self).registry
                    &&& r matches Err(e) && says(e, refusal)
                },
                None => {
                    let i = local_place(local_devices@, bus_id@);
                    if !old(self).registry.bound(bus_id@) && i < local_devices@.len()
                        && opened is Ok {
                        &&& old(self).registry.with_device(
                            final(self).registry,
                            bus_id@,
                            local_devices@[i],
                            opened->Ok_0,
                        )
                        &&& r matches Ok(Json::Object(ms)) && ms@.len() == 2 && ms@[0].0@
                            == "status"@ && is_text(ms@[0].1, "ok"@) && ms@[1].0@ == "bus_id"@
                            && is_text(ms@[1].1, bus_id@)
                    } else {
                        &&& final(self).registry == old(self).registry
                        &&& r matches Err(e) && says(e, internal_error("bind device failed"@))
                    }
                },
            },
    {
        match self.check_bind(bus_id, found) {
            Ok(_) => {},
            Err(e) => return Err(e),
        }
        match self.registry.bind_device(bus_id, local_devices, opened) {
            Ok(_) => {
                let mut ms: Vec<(String, Json)> = Vec::new();
                ms.push(text_entry("status", "ok"));
                ms.push(text_entry("bus_id", bus_id));
                Ok(Json::Object(ms))
            },
            Err(_) => Err(JsonRpcError::internal_error("bind device failed")),
        }
    }

    /// Stop offering a device, and answer whether a client had imported it. The
    /// second part of the result is that client's session.
    pub fn handle_unbind_device(&mut self, bus_id: &str) -> (r: Result<
        (Json, Option<SessionId>),
        JsonRpcError,
    >)
        requires
            old(self).registry.well_formed(),
        ensures
            final(self).registry.well_formed(),
            final(self).security == old(self).security,
            if old(self).registry.bound(bus_id@) {
                let session = old(self).registry.exported(bus_id@).active_session;
                &&& old(self).registry.without_device(final(self).registry, bus_id@)
                &&& r matches Ok((Json::Object(ms), s)) && s == session && ms@.len() == 3
                    && ms@[0].0@ == "status"@ && is_text(ms@[0].1, "ok"@) && ms@[1].0@ == "bus_id"@
                    && is_text(ms@[1].1, bus_id@) && ms@[2].0@ == "had_active_session"@ && ms@[2].1
                    == Json::Bool(session is Some)
            } else {
                &&& final(self).registry == old(self).registry
                &&& r matches Err(e) && says(e, internal_error("unbind device failed"@))
            },
    {
        match self.registry.unbind_device(bus_id) {
            Ok(session) => {
                let had: bool = match session {
                    Some(_) => true,
                    None => false,
                };
                let mut ms: Vec<(String, Json)> = Vec::new();
                ms.push(text_entry("status", "ok"));
                ms.push(text_entry("bus_id", bus_id));
                ms.push(("had_active_session".to_owned(), Json::Bool(had)));
                Ok((Json::Object(ms), session))
            },
            Err(_) => Err(JsonRpcError::internal_error("unbind device failed")),
        }
    }

    /// Answer what state the daemon is in: its version, how long it has run,
    /// how many devices are on offer, and how many of them a client has.
    pub fn handle_get_status(&self, version: &str, uptime_secs: u64) -> (s: DaemonStatus)
        ensures
            s.version@ == version@,
            s.uptime_secs == uptime_secs,
            s.exported_devices == self.registry.entries().len() as u32,
            s.imported_devices == 0,
            s.active_connections == active_count(self.registry.entries()) as u32,
    {
        let entries = self.registry.inner();
        let mut active: usize = 0;
        let mut i: usize = 0;
        assert(entries@.take(0) =~= Seq::empty());
        while i < entries.len()
            invariant
                i <= entries@.len(),
                active == active_count(entries@.take(i as int)),
                active <= i,
            decreases entries@.len() - i,
        {
            proof {
                assert(entries@.take(i + 1).drop_last() =~= entries@.take(i as int));
                assert(entries@.take(i + 1).last() == entries@[i as int]);
            }
            match entries[i].exported.active_session {
                Some(_) => {
                    active = active + 1;
                },
                None => {},
            }
            i = i + 1;
        }
        assert(entries@.take(i as int) =~= entries@);
        DaemonStatus {
            version: version.to_owned(),
            uptime_secs,
            exported_devices: entries.len() as u32,
            imported_devices: 0,
            active_connections: active as u32,
        }
    }
}

/// A device that the configuration denies is never put on offer.
pub proof fn law_denied_is_not_offered(
    state: ApiState,
    bus_id: Seq<char>,
    devices: Vec<LocalUsbDevice>,
)
    requires
        local_place(devices@, bus_id) < devices@.len(),
        !allowed(
            devices@[local_place(devices@, bus_id)].vendor_id,
            devices@[local_place(devices@, bus_id)].product_id,
            state.security@.allowed_devices,
            state.security@.denied_devices,
        ),
    ensures
        state.bind_refusal(bus_id, Ok(devices)) is Some,
{
}

/// What a request asks is read from the parameters of these names: the host, the
/// port and the bus ID of an import, each in its own place.
pub proof fn law_request_read(
    method: &str,
    params: Json,
    host: Seq<char>,
    port: u64,
    bus_id: Seq<char>,
    r: Result<ApiMethod, JsonRpcError>,
)
    requires
        call_ensures(parse_request, (method, &Some(params)), r),
        text_member(params, "host"@) == Some(host),
        unsigned_member(params, "port"@) == Some(port),
        text_member(params, "bus_id"@) == Some(bus_id),
        port <= 65535,
    ensures
        method@ == "attach_device"@ ==> (r matches Ok(
            ApiMethod::AttachDevice { host: h, port: p, bus_id: b },
        ) && h@ == host && p == port && b@ == bus_id),
        method@ == "list_remote_devices"@ ==> (r matches Ok(
            ApiMethod::ListRemoteDevices { host: h, port: p },
        ) && h@ == host && p == port),
        method@ == "bind_device"@ ==> (r matches Ok(ApiMethod::BindDevice { bus_id: b }) && b@
            == bus_id),
        method@ == "unbind_device"@ ==> (r matches Ok(ApiMethod::UnbindDevice { bus_id: b }) && b@
            == bus_id),
        method@ == "detach_device"@ ==> (r matches Ok(ApiMethod::DetachDevice { port: p }) && p
            == port),
        method@ == "get_device_info"@ ==> (r matches Ok(ApiMethod::GetDeviceInfo { bus_id: b })
            && b@ == bus_id),
{
    lemma_method_names_differ();
    assert(ApiMethodModel::AttachDevice { host, remote_port: 0, bus_id }.name()
        == "attach_device"@);
    assert(ApiMethodModel::ListRemoteDevices { host, remote_port: 0 }.name()
        == "list_remote_devices"@);
    assert(ApiMethodModel::BindDevice { bus_id }.name() == "bind_device"@);
    assert(ApiMethodModel::UnbindDevice { bus_id }.name() == "unbind_device"@);
    assert(ApiMethodModel::DetachDevice { port: 0 }.name() == "detach_device"@);
    assert(ApiMethodModel::GetDeviceInfo { bus_id }.name() == "get_device_info"@);
    assert(port <= 65535 ==> (port as u16) as u64 == port && (port as u32) as u64 == port)
        by (bit_vector);
}

/// The speeds of the bus have their own names, each by its number.
pub proof fn law_speed_names(speed: u32, s: UsbSpeed)
    requires
        call_ensures(speed_to_api, (speed,), s),
    ensures
        s == UsbSpeed::Low <==> speed == 1,
        s == UsbSpeed::Full <==> speed == 2,
        s == UsbSpeed::High <==> speed == 3,
        s == UsbSpeed::Super <==> speed == 5,
        s == UsbSpeed::Unknown <==> speed != 1 && speed != 2 && speed != 3 && speed != 5,
{
}

/// What is told of a device of this host is what it is, field by field.
pub proof fn law_local_told(d: LocalUsbDevice, is_bound: bool, i: DeviceInfo, s: UsbSpeed)
    requires
        call_ensures(local_to_device_info, (&d, is_bound), i),
        call_ensures(speed_to_api, (d.speed,), s),
    ensures
        i.bus_id@ == d.bus_id@,
        i.vendor_id == d.vendor_id,
        i.product_id == d.product_id,
        i.manufacturer is Some <==> d.manufacturer is Some,
        d.manufacturer matches Some(m) ==> (i.manufacturer matches Some(n) && n@ == m@),
        i.product is Some <==> d.product is Some,
        d.product matches Some(m) ==> (i.product matches Some(n) && n@ == m@),
        i.device_class == d.device_class,
        i.speed == s,
        i.is_bound == is_bound,
{
}

/// What is told of the devices of another host is what its server says of them,
/// in their order.
pub proof fn law_remote_told(
    found: Vec<RemoteDevice>,
    r: Result<Vec<DeviceInfo>, JsonRpcError>,
    k: int,
    s: UsbSpeed,
)
    requires
        call_ensures(handle_list_remote_devices, (&Ok(found),), r),
        0 <= k < found@.len(),
        call_ensures(speed_to_api, (found@[k].speed,), s),
    ensures
        r matches Ok(v) && v@.len() == found@.len() && v@[k].bus_id@ == found@[k].busid@
            && v@[k].vendor_id == found@[k].id_vendor && v@[k].product_id == found@[k].id_product
            && v@[k].device_class == found@[k].device_class && v@[k].speed == s
            && v@[k].manufacturer is None && v@[k].product is None && !v@[k].is_bound,
{
    if let Ok(v) = r {
        let m = info_models(v@);
        assert(m.len() == v@.len());
        assert(m[k] == v@[k]@);
        assert(m[k] == remote_info(found@[k]));
    }
}

/// The devices of this host are told of in their order.
pub proof fn law_locals_told(
    found: Vec<LocalUsbDevice>,
    r: Result<Vec<DeviceInfo>, JsonRpcError>,
    k: int,
    i: DeviceInfo,
)
    requires
        call_ensures(handle_list_local_devices, (&Ok(found),), r),
        0 <= k < found@.len(),
        call_ensures(local_to_device_info, (&found@[k], false), i),
    ensures
        r matches Ok(v) && v@.len() == found@.len() && v@[k]@ == i@,
{
    if let Ok(v) = r {
        let m = info_models(v@);
        assert(m.len() == v@.len());
        assert(m[k] == v@[k]@);
        assert(m[k] == local_info(found@[k], false));
    }
}

/// What is told of a device on offer is what it is, under the bus ID it was
/// bound by, with one client where a session has it and none else.
pub proof fn law_exported_told(state: ApiState, v: Vec<ExportedDeviceInfo>, k: int)
    requires
        call_ensures(ApiState::handle_list_exported_devices, (&state,), v),
        0 <= k < v@.len(),
    ensures
        v@.len() == state.registry.entries().len(),
        ({
            let e = state.registry.entries()[k];
            &&& v@[k].bus_id@ == e.bus_id@
            &&& v@[k].vendor_id == e.exported.device.vendor_id
            &&& v@[k].product_id == e.exported.device.product_id
            &&& v@[k].device_class == e.exported.device.device_class
            &&& e.exported.device.manufacturer matches Some(m) ==> (v@[k].manufacturer matches Some(
                n,
            ) && n@ == m@)
            &&& e.exported.device.product matches Some(m) ==> (v@[k].product matches Some(n) && n@
                == m@)
            &&& v@[k].num_clients == 1 <==> e.exported.active_session is Some
            &&& v@[k].num_clients == 0 <==> e.exported.active_session is None
        }),
{
    let m = exported_models(v@);
    assert(m.len() == v@.len());
    assert(m[k] == v@[k]@);
    assert(m[k] == exported_info(state.registry.entries()[k]));
}

/// A device that a denied pattern stands for is not put on offer, and the
/// registry stays as it was.
pub proof fn law_denied_stays_off(
    state: &mut ApiState,
    bus_id: &str,
    devices: Vec<LocalUsbDevice>,
    local_devices: Vec<LocalUsbDevice>,
    opened: Result<HandleId, ServerError>,
    at: usize,
    r: Result<Json, JsonRpcError>,
)
    requires
        call_ensures(
            ApiState::handle_bind_device,
            (state, bus_id, &Ok(devices), local_devices, opened),
            r,
        ),
        call_ensures(find_local, (&devices, bus_id), at),
        at < devices@.len(),
        call_ensures(
            is_device_allowed,
            (
                devices@[at as int].vendor_id,
                devices@[at as int].product_id,
                &old(state).security,
            ),
            false,
        ),
    ensures
        r is Err,
        final(state).registry == old(state).registry,
{
}

/// The answer to an import names the port that the device was attached to and
/// its bus ID; the answer to a detachment names the port.
pub proof fn law_attach_answers(
    bus_id: &str,
    attached: AttachedDevice,
    port: u32,
    a: Result<Json, JsonRpcError>,
    d: Result<Json, JsonRpcError>,
)
    requires
        call_ensures(handle_attach_device, (bus_id, &Some(Ok(attached))), a),
        call_ensures(handle_detach_device, (port, &Some(Ok(()))), d),
    ensures
        a matches Ok(Json::Object(ms)) && ms@.len() == 3 && ms@[1].0@ == "port"@ && ms@[1].1
            == Json::Unsigned(attached.port as u64) && ms@[2].0@ == "bus_id"@ && (
        ms@[2].1 matches Json::Str(b) && b@ == bus_id@),
        d matches Ok(Json::Object(ms)) && ms@.len() == 2 && ms@[1].0@ == "port"@ && ms@[1].1
            == Json::Unsigned(port as u64),
{
}

/// The state of the daemon counts the devices on offer, and of these the ones
/// that a client has.
pub proof fn law_status_counts(
    state: ApiState,
    version: &str,
    uptime_secs: u64,
    s: DaemonStatus,
)
    requires
        call_ensures(ApiState::handle_get_status, (&state, version, uptime_secs), s),
        state.registry.entries().len() <= u32::MAX,
    ensures
        s.version@ == version@,
        s.uptime_secs == uptime_secs,
        s.exported_devices == state.registry.entries().len(),
        s.active_connections <= s.exported_devices,
        (forall|i: int|
            0 <= i < state.registry.entries().len() ==> (
            #[trigger] state.registry.entries()[i]).exported.active_session is Some)
            ==> s.active_connections == s.exported_devices,
        (forall|i: int|
            0 <= i < state.registry.entries().len() ==> (
            #[trigger] state.registry.entries()[i]).exported.active_session is None)
            ==> s.active_connections == 0,
{
    lemma_active_count(state.registry.entries());
}

proof fn lemma_active_count(es: Seq<Entry>)
    ensures
        active_count(es) <= es.len(),
        (forall|i: int| 0 <= i < es.len() ==> (#[trigger] es[i]).exported.active_session is Some)
            ==> active_count(es) == es.len(),
        (forall|i: int| 0 <= i < es.len() ==> (#[trigger] es[i]).exported.active_session is None)
            ==> active_count(es) == 0,
    decreases es.len(),
{
    if es.len() > 0 {
        let front = es.drop_last();
        lemma_active_count(front);
        assert(es.last() == es[es.len() - 1]);
        assert(forall|i: int| 0 <= i < front.len() ==> #[trigger] front[i] == es[i]);
    }
}

/// What happens on a connection leads to what it calls for: a request is served
/// or refused under its own identification, a closed connection and the end of
/// the daemon close it, and any other failure closes it with the failure.
pub proof fn law_connections(event: ConnectionEvent, a: ConnectionAction)
    requires
        call_ensures(on_connection, (event,), a),
    ensures
        event matches ConnectionEvent::Message(Ok(req)) ==> match a {
            ConnectionAction::Serve(_, id) => id == req.id,
            ConnectionAction::Reply(r) => r.id == req.id && r.error is Some && r.result is None,
            _ => false,
        },
        event matches ConnectionEvent::Message(Err(_)) ==> (a matches ConnectionAction::Reply(r)
            && r.id is None && (r.error matches Some(e) && e.code == -32700)),
        event matches ConnectionEvent::ReadFailed(e) ==> (a matches ConnectionAction::Close(c) && (
        e is ConnectionClosed <==> c is None)),
        event is Shutdown ==> a == ConnectionAction::Close(None),
        event matches ConnectionEvent::Happened(text) ==> (a matches ConnectionAction::Notify(n)
            && n.id is None && (n.params matches Some(Json::Str(t)) && t@ == text@)),
{
}

/// What is told of a device of this host, by its bus ID, is told of the first
/// device that has it; a bus ID that none has is an error of the request.
pub proof fn law_device_info(
    bus_id: &str,
    found: Vec<LocalUsbDevice>,
    at: usize,
    r: Result<DeviceInfo, JsonRpcError>,
)
    requires
        call_ensures(handle_get_device_info, (bus_id, &Ok(found)), r),
        call_ensures(find_local, (&found, bus_id), at),
    ensures
        r is Ok <==> at < found@.len(),
        r matches Ok(i) ==> i.bus_id@ == bus_id@ && i.vendor_id == found@[at as int].vendor_id
            && i.product_id == found@[at as int].product_id && i.device_class
            == found@[at as int].device_class && !i.is_bound,
        r matches Err(e) ==> e.code == -32602,
{
}

/// The answer to taking a device off offer says whether a client had it, and
/// hands back the session of that client.
pub proof fn law_unbind_answers(
    state: &mut ApiState,
    bus_id: &str,
    r: Result<(Json, Option<SessionId>), JsonRpcError>,
)
    requires
        call_ensures(ApiState::handle_unbind_device, (state, bus_id), r),
    ensures
        r is Ok <==> old(state).registry.bound(bus_id@),
        r matches Ok(p) ==> p.1 == old(state).registry.exported(bus_id@).active_session && (
        p.0 matches Json::Object(ms) && ms@.len() == 3 && ms@[1].0@ == "bus_id"@ && (
        ms@[1].1 matches Json::Str(b) && b@ == bus_id@) && ms@[2].0@ == "had_active_session"@
            && ms@[2].1 == Json::Bool(p.1 is Some)),
        r is Err ==> final(state).registry == old(state).registry,
{
}

/// An address is written as the host, a colon and the port.
pub proof fn law_address_written(host: &str, port: u16, s: String)
    requires
        call_ensures(address_text, (host, port), s),
    ensures
        s@ == host@ + seq![':'] + decimal(port as nat),
{
    reveal_strlit(":");
    assert(":"@ =~= seq![':']);
}

} // verus!
