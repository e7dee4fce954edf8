//! The devices that a server offers.

use vstd::prelude::*;

use crate::client::error::ClientError;
use crate::client::types::{remote_of, RemoteDevice, RemoteDeviceModel};
use crate::protocol::codes::OpCode;
use crate::protocol::device::field_text;
use crate::protocol::discovery::{OpMessage, OpReqDevlist};
use crate::protocol::error::ProtocolError;

verus! {

/// How long to wait for a server to take a connection, in seconds.
pub const CONNECT_TIMEOUT_SECS: u64 = 5;

/// The request for the devices of a server.
pub fn devlist_request() -> (m: OpMessage)
    ensures
        m == OpMessage::ReqDevlist(OpReqDevlist),
{
    OpMessage::ReqDevlist(OpReqDevlist)
}

/// What remote devices are.
pub open spec fn remote_models(ds: Seq<RemoteDevice>) -> Seq<RemoteDeviceModel> {
    Seq::new(ds.len(), |i: int| ds[i]@)
}

/// The code of a discovery message.
pub open spec fn code_of(m: OpMessage) -> u16 {
    match m {
        OpMessage::ReqDevlist(_) => OpCode::OpReqDevlist.spec_code(),
        OpMessage::RepDevlist(_) => OpCode::OpRepDevlist.spec_code(),
        OpMessage::ReqImport(_) => OpCode::OpReqImport.spec_code(),
        OpMessage::RepImport(_) => OpCode::OpRepImport.spec_code(),
    }
}

/// What a client makes of the answer to a request for the devices: the devices
/// in their order, unless the status is an error or the message is another.
pub fn list_remote_devices(reply: OpMessage) -> (r: Result<Vec<RemoteDevice>, ClientError>)
    ensures
        match reply {
            OpMessage::RepDevlist(rep) => if rep.status != 0 {
                r == Err::<Vec<RemoteDevice>, ClientError>(
                    ClientError::DevlistError { status: rep.status },
                )
            } else {
                r matches Ok(ds) && remote_models(ds@) == Seq::new(
                    rep.devices@.len(),
                    |i: int| remote_of(rep.devices@[i]),
                )
            },
            other => r == Err::<Vec<RemoteDevice>, ClientError>(
                ClientError::Protocol(ProtocolError::InvalidOpCode(code_of(other))),
            ),
        },
{
    match reply {
        OpMessage::RepDevlist(rep) => {
            if rep.status != 0 {
                return Err(ClientError::DevlistError { status: rep.status });
            }
            let mut out: Vec<RemoteDevice> = Vec::new();
            let mut i: usize = 0;
            while i < rep.devices.len()
                invariant
                    i <= rep.devices@.len(),
                    remote_models(out@) =~= Seq::new(
                        i as nat,
                        |j: int| remote_of(rep.devices@[j]),
                    ),
                decreases rep.devices.len() - i,
            {
                let ghost before = remote_models(out@);
                let d = RemoteDevice::from(&rep.devices[i]);
                out.push(d);
                assert(remote_models(out@) =~= before.push(d@));
                i = i + 1;
            }
            Ok(out)
        },
        OpMessage::ReqDevlist(_) => Err(
            ClientError::Protocol(ProtocolError::InvalidOpCode(OpCode::OpReqDevlist.code())),
        ),
        OpMessage::ReqImport(_) => Err(
            ClientError::Protocol(ProtocolError::InvalidOpCode(OpCode::OpReqImport.code())),
        ),
        OpMessage::RepImport(_) => Err(
            ClientError::Protocol(ProtocolError::InvalidOpCode(OpCode::OpRepImport.code())),
        ),
    }
}

/// The devices that a client sees are those of the server's reply, in their
/// order, each with its own bus ID, path, vendor, product, release, class and
/// speed; a reply with another status than zero is an error with that status.
pub proof fn law_devices_seen(
    reply: OpMessage,
    r: Result<Vec<RemoteDevice>, ClientError>,
    i: int,
)
    requires
        call_ensures(list_remote_devices, (reply,), r),
    ensures
        r is Ok <==> (reply matches OpMessage::RepDevlist(rep) && rep.status == 0),
        reply matches OpMessage::RepDevlist(rep) ==> (rep.status != 0 ==> (r matches Err(
            ClientError::DevlistError { status },
        ) && status == rep.status)),
        r matches Ok(ds) ==> {
            let devices = reply->RepDevlist_0.devices@;
            &&& ds@.len() == devices.len()
            &&& 0 <= i < ds@.len() ==> {
                &&& ds@[i].busid@ == field_text(devices[i].busid@)
                &&& ds@[i].path@ == field_text(devices[i].path@)
                &&& ds@[i].id_vendor == devices[i].id_vendor
                &&& ds@[i].id_product == devices[i].id_product
                &&& ds@[i].bcd_device == devices[i].bcd_device
                &&& ds@[i].device_class == devices[i].device_class
                &&& ds@[i].device_subclass == devices[i].device_subclass
                &&& ds@[i].device_protocol == devices[i].device_protocol
                &&& ds@[i].speed == devices[i].speed
                &&& ds@[i].num_interfaces == devices[i].num_interfaces
                &&& ds@[i].interface_classes@.len() == devices[i].interfaces@.len()
                &&& forall|k: int|
                    0 <= k < devices[i].interfaces@.len()
                        ==> #[trigger] ds@[i].interface_classes@[k]
                        == devices[i].interfaces@[k].interface_class
            }
        },
{
    if let Ok(ds) = r {
        let m = remote_models(ds@);
        assert(m.len() == ds@.len());
        if 0 <= i < ds@.len() {
            assert(m[i] == ds@[i]@);
            assert(m[i] == remote_of(reply->RepDevlist_0.devices@[i]));
        }
    }
}

/// What a client asks a server for is the list of its devices.
pub proof fn law_devices_asked(m: OpMessage)
    requires
        call_ensures(devlist_request, (), m),
    ensures
        m is ReqDevlist,
{
}

} // verus!
