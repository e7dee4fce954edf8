//! What is asked of the daemon, as a request.

use vstd::prelude::*;
use vstd::string::*;

use crate::api::json::{is_text, is_text_list, texts, Json};
use crate::api::jsonrpc::{FramingError, JsonRpcError, JsonRpcRequest, JsonRpcResponse};
use crate::api::methods::{ApiMethod, ApiMethodModel};
use crate::daemon::api_server::{law_request_round_trip, parse_request};
use crate::daemon::config::{parse_port, port_of};
use crate::text::{signed_decimal, signed_decimal_string};

verus! {

/// The port of the daemon where it is reached by a port.
pub const DEFAULT_API_PORT: u16 = 9241;

/// The port that stands in the place of a socket's path.
pub open spec fn api_port(socket_path: Seq<char>) -> u16 {
    match port_of(socket_path) {
        Some(p) => p,
        None => DEFAULT_API_PORT,
    }
}

/// The port that stands in the place of a socket's path.
pub fn parse_api_port(socket_path: &str) -> (p: u16)
    ensures
        p == api_port(socket_path@),
{
    match parse_port(socket_path) {
        Some(p) => p,
        None => DEFAULT_API_PORT,
    }
}

/// What can go wrong when the daemon is asked.
#[derive(Debug)]
pub enum ClientError {
    /// It could not be reached.
    ConnectionFailed(std::io::Error),
    /// A message could not be sent or received.
    Framing(FramingError),
    /// The request could not be written as JSON, for this reason.
    Serialize(String),
    /// The response is not what it should be, for this reason.
    Deserialize(String),
    /// The daemon answered with an error.
    RpcError(JsonRpcError),
}

impl ClientError {
    /// The text of the error. The detail of an error that the daemon answered
    /// with is given as it is written in JSON.
    pub fn message(&self, detail: &Option<String>) -> (s: String)
        ensures
            match *self {
                ClientError::ConnectionFailed(e) => exists|t: String|
                    #![auto]
                    to_string_from_display_ensures::<std::io::Error>(&e, t) && s@
                        == "cannot connect to daemon: "@ + t@ + " (is the daemon running?)"@,
                ClientError::Framing(e) => exists|t: Seq<char>|
                    #![auto]
                    e.has_text(t) && s@ == "communication error: "@ + t,
                ClientError::Serialize(t) => s@ == "failed to serialize request: "@ + t@,
                ClientError::Deserialize(t) => s@ == "failed to deserialize response: "@ + t@,
                ClientError::RpcError(e) => s@ == "daemon error ("@ + signed_decimal(e.code as int)
                    + "): "@ + e.message@ + match *detail {
                    Some(d) => if e.data is Some {
                        " - "@ + d@
                    } else {
                        Seq::empty()
                    },
                    None => Seq::empty(),
                },
            },
    {
        match self {
            ClientError::ConnectionFailed(e) => {
                let t = e.to_string();
                "cannot connect to daemon: ".to_owned().concat(t.as_str()).concat(
                    " (is the daemon running?)",
                )
            },
            ClientError::Framing(e) => {
                let t = e.message();
                assert(e.has_text(t@));
                "communication error: ".to_owned().concat(t.as_str())
            },
            ClientError::Serialize(t) => "failed to serialize request: ".to_owned().concat(
                t.as_str(),
            ),
            ClientError::Deserialize(t) => "failed to deserialize response: ".to_owned().concat(
                t.as_str(),
            ),
            ClientError::RpcError(e) => {
                let text = "daemon error (".to_owned().concat(
                    signed_decimal_string(e.code as i64).as_str(),
                ).concat("): ").concat(e.message.as_str());
                assert(text@ + Seq::<char>::empty() =~= text@);
                match (&e.data, detail) {
                    (Some(_), Some(d)) => {
                        let more = " - ".to_owned().concat(d.as_str());
                        text.concat(more.as_str())
                    },
                    _ => text,
                }
            },
        }
    }
}

/// Parameters are those of a method.
pub open spec fn params_of(m: ApiMethodModel, params: Option<Json>) -> bool {
    match m {
        ApiMethodModel::ListLocalDevices => params is None,
        ApiMethodModel::ListExportedDevices => params is None,
        ApiMethodModel::GetStatus => params is None,
        ApiMethodModel::ListRemoteDevices { host, remote_port } => params matches Some(
            Json::Object(ms),
        ) && ms@.len() == 2 && ms@[0].0@ == "host"@ && is_text(ms@[0].1, host) && ms@[1].0@
            == "port"@ && ms@[1].1 == Json::Unsigned(remote_port as u64),
        ApiMethodModel::BindDevice { bus_id } => bus_params(params, bus_id),
        ApiMethodModel::UnbindDevice { bus_id } => bus_params(params, bus_id),
        ApiMethodModel::AttachDevice { host, remote_port, bus_id } => params matches Some(
            Json::Object(ms),
        ) && ms@.len() == 3 && ms@[0].0@ == "host"@ && is_text(ms@[0].1, host) && ms@[1].0@
            == "port"@ && ms@[1].1 == Json::Unsigned(remote_port as u64) && ms@[2].0@ == "bus_id"@
            && is_text(ms@[2].1, bus_id),
        ApiMethodModel::DetachDevice { port } => params matches Some(Json::Object(ms)) && ms@.len()
            == 1 && ms@[0].0@ == "port"@ && ms@[0].1 == Json::Unsigned(port as u64),
        ApiMethodModel::GetDeviceInfo { bus_id } => bus_params(params, bus_id),
        ApiMethodModel::Subscribe { events } => params matches Some(Json::Object(ms)) && ms@.len()
            == 1 && ms@[0].0@ == "events"@ && is_text_list(ms@[0].1, events),
    }
}

/// Parameters name a bus ID and nothing else.
pub open spec fn bus_params(params: Option<Json>, bus_id: Seq<char>) -> bool {
    params matches Some(Json::Object(ms)) && ms@.len() == 1 && ms@[0].0@ == "bus_id"@ && is_text(
        ms@[0].1,
        bus_id,
    )
}

fn bus_object(bus_id: &String) -> (r: Option<Json>)
    ensures
        bus_params(r, bus_id@),
{
    let mut ms: Vec<(String, Json)> = Vec::new();
    ms.push(("bus_id".to_owned(), Json::Str(bus_id.clone())));
    Some(Json::Object(ms))
}

fn text_array(v: &Vec<String>) -> (j: Json)
    ensures
        is_text_list(j, texts(v@)),
{
    let mut out: Vec<Json> = Vec::new();
    let mut i: usize = 0;
    while i < v.len()
        invariant
            i <= v@.len(),
            out@.len() == i,
            forall|k: int| 0 <= k < i ==> is_text(#[trigger] out@[k], v@[k]@),
        decreases v@.len() - i,
    {
        out.push(Json::Str(v[i].clone()));
        i = i + 1;
    }
    Json::Array(out)
}

/// A method as a request names it, and its parameters.
pub fn method_to_rpc(method: &ApiMethod) -> (r: (&'static str, Option<Json>))
    ensures
        r.0@ == method@.name(),
        params_of(method@, r.1),
{
    let name = method.method_name();
    let params = match method {
        ApiMethod::ListLocalDevices => None,
        ApiMethod::ListExportedDevices => None,
        ApiMethod::GetStatus => None,
        ApiMethod::ListRemoteDevices { host, port } => {
            let mut ms: Vec<(String, Json)> = Vec::new();
            ms.push(("host".to_owned(), Json::Str(host.clone())));
            ms.push(("port".to_owned(), Json::Unsigned(*port as u64)));
            Some(Json::Object(ms))
        },
        ApiMethod::BindDevice { bus_id } => bus_object(bus_id),
        ApiMethod::UnbindDevice { bus_id } => bus_object(bus_id),
        ApiMethod::AttachDevice { host, port, bus_id } => {
            let mut ms: Vec<(String, Json)> = Vec::new();
            ms.push(("host".to_owned(), Json::Str(host.clone())));
            ms.push(("port".to_owned(), Json::Unsigned(*port as u64)));
            ms.push(("bus_id".to_owned(), Json::Str(bus_id.clone())));
            Some(Json::Object(ms))
        },
        ApiMethod::DetachDevice { port } => {
            let mut ms: Vec<(String, Json)> = Vec::new();
            ms.push(("port".to_owned(), Json::Unsigned(*port as u64)));
            Some(Json::Object(ms))
        },
        ApiMethod::GetDeviceInfo { bus_id } => bus_object(bus_id),
        ApiMethod::Subscribe { events } => {
            let mut ms: Vec<(String, Json)> = Vec::new();
            ms.push(("events".to_owned(), text_array(events)));
            Some(Json::Object(ms))
        },
    };
    (name, params)
}

/// The request by which the daemon is asked.
pub fn daemon_request(method: &ApiMethod) -> (r: JsonRpcRequest)
    ensures
        r.jsonrpc@ == "2.0"@,
        r.method@ == method@.name(),
        params_of(method@, r.params),
        r.id == Some(Json::Unsigned(1)),
{
    let (name, params) = method_to_rpc(method);
    JsonRpcRequest::new(name, params, 1)
}

/// What the daemon's response means: the result, which is null where there is
/// none, or else the error.
pub fn daemon_result(response: JsonRpcResponse) -> (r: Result<Json, ClientError>)
    ensures
        match response.error {
            Some(e) => r == Err::<Json, ClientError>(ClientError::RpcError(e)),
            None => r == Ok::<Json, ClientError>(
                match response.result {
                    Some(v) => v,
                    None => Json::Null,
                },
            ),
        },
{
    match response.outcome() {
        Ok(v) => Ok(v),
        Err(e) => Err(ClientError::RpcError(e)),
    }
}

/// What is asked of the daemon arrives there as it was asked, method and
/// parameters.
pub proof fn law_asked_arrives(
    method: ApiMethod,
    request: JsonRpcRequest,
    name: &str,
    r: Result<ApiMethod, JsonRpcError>,
)
    requires
        call_ensures(daemon_request, (&method,), request),
        name@ == request.method@,
        call_ensures(parse_request, (name, &request.params), r),
    ensures
        r matches Ok(m) && m@ == method@,
        request.id == Some(Json::Unsigned(1)),
{
    law_request_round_trip(method@, request.params);
}

/// The parameters stand under their names: the host, the port and the bus ID of
/// an import, in this order; of the others those that they have.
pub proof fn law_parameters(method: ApiMethod, r: (&'static str, Option<Json>))
    requires
        call_ensures(method_to_rpc, (&method,), r),
    ensures
        method matches ApiMethod::AttachDevice { host, port, bus_id } ==> (r.1 matches Some(
            Json::Object(ms),
        ) && ms@.len() == 3 && ms@[0].0@ == "host"@ && (ms@[0].1 matches Json::Str(h) && h@
            == host@) && ms@[1].0@ == "port"@ && ms@[1].1 == Json::Unsigned(port as u64)
            && ms@[2].0@ == "bus_id"@ && (ms@[2].1 matches Json::Str(b) && b@ == bus_id@)),
        method matches ApiMethod::ListRemoteDevices { host, port } ==> (r.1 matches Some(
            Json::Object(ms),
        ) && ms@.len() == 2 && ms@[0].0@ == "host"@ && (ms@[0].1 matches Json::Str(h) && h@
            == host@) && ms@[1].0@ == "port"@ && ms@[1].1 == Json::Unsigned(port as u64)),
        method matches ApiMethod::DetachDevice { port } ==> r.0@ == "detach_device"@ && (
        r.1 matches Some(Json::Object(ms)) && ms@.len() == 1 && ms@[0].0@ == "port"@ && ms@[0].1
            == Json::Unsigned(port as u64)),
        method matches ApiMethod::BindDevice { bus_id } ==> r.0@ == "bind_device"@ && (
        r.1 matches Some(Json::Object(ms)) && ms@.len() == 1 && ms@[0].0@ == "bus_id"@ && (
        ms@[0].1 matches Json::Str(b) && b@ == bus_id@)),
        method matches ApiMethod::UnbindDevice { bus_id } ==> r.0@ == "unbind_device"@ && (
        r.1 matches Some(Json::Object(ms)) && ms@.len() == 1 && ms@[0].0@ == "bus_id"@ && (
        ms@[0].1 matches Json::Str(b) && b@ == bus_id@)),
        method is AttachDevice ==> r.0@ == "attach_device"@,
        method is ListRemoteDevices ==> r.0@ == "list_remote_devices"@,
        method is ListLocalDevices ==> r.0@ == "list_local_devices"@ && r.1 is None,
        method is ListExportedDevices ==> r.0@ == "list_exported_devices"@ && r.1 is None,
        method is GetStatus ==> r.0@ == "get_status"@ && r.1 is None,
{
}

/// The daemon's answer is its result, or its error where it has one.
pub proof fn law_answers(response: JsonRpcResponse, r: Result<Json, ClientError>)
    requires
        call_ensures(daemon_result, (response,), r),
    ensures
        r is Err <==> response.error is Some,
        response.error matches Some(e) ==> r == Err::<Json, ClientError>(ClientError::RpcError(e)),
        response.error is None ==> (response.result matches Some(v) ==> r == Ok::<
            Json,
            ClientError,
        >(v)),
{
}

/// The port of the daemon is the one that is named, and else 9241.
pub proof fn law_daemon_port(path: &str, p: u16, named: Option<u16>)
    requires
        call_ensures(parse_api_port, (path,), p),
        call_ensures(parse_port, (path,), named),
    ensures
        named matches Some(n) ==> p == n,
        named is None ==> p == 9241,
{
}

} // verus!
