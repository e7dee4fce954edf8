//! Devices on offer, attached devices, and requests that are under way.

use bytes::Bytes;
use extender::client::engine::{
    build_device_descriptor, check_detach, next_mac_attach, plan_attach, plan_attach_macos,
    ClientEngine, MacAttachState,
};
use extender::client::error::ClientError;
use extender::client::forward::{ForwardAction, Forwarder};
use extender::client::types::{PortStatus, ServerAddr, VhciPort};
use extender::client::vhci_macos::{
    MacOSVhciDriver, PendingRequest, SELECTOR_COMPLETE_REQUEST, SELECTOR_CONFIGURE_DEVICE,
    SELECTOR_CREATE_DEVICE, SELECTOR_DESTROY_DEVICE, SELECTOR_GET_DEVICE_COUNT,
    SELECTOR_GET_PENDING_OUTPUT, SELECTOR_SUBMIT_INPUT,
};
use extender::protocol::codec::{read_urb_message, write_urb_message, ReadStep};
use extender::protocol::codes::Command;
use extender::protocol::device::UsbDevice;
use extender::protocol::urb::{CmdUnlink, RetSubmit, RetUnlink, UrbMessage, UsbipHeaderBasic};
use extender::server::device::LocalUsbDevice;
use extender::server::error::ServerError;
use extender::server::export::ExportRegistry;

#[test]
fn test_registry_new_is_empty() {
    let registry = ExportRegistry::new();
    let list = registry.list_devices().unwrap();
    assert!(list.is_empty());
}

#[test]
fn test_unbind_not_bound_error() {
    let mut registry = ExportRegistry::new();
    let result = registry.unbind_device("1-1");
    assert!(matches!(result, Err(ServerError::DeviceNotBound { .. })));
}

#[test]
fn test_acquire_not_bound_error() {
    let mut registry = ExportRegistry::new();
    let result = registry.try_acquire("1-1");
    assert!(matches!(result, Err(ServerError::DeviceNotBound { .. })));
}

#[test]
fn test_release_nonexistent_is_noop() {
    let mut registry = ExportRegistry::new();
    registry.release("1-1", 42);
    assert_eq!(registry.len(), 0);
}

#[test]
fn test_bind_device_not_found() {
    let mut registry = ExportRegistry::new();
    let result = registry.bind_device("99-99", vec![], Ok(0));
    assert!(matches!(result, Err(ServerError::DeviceNotFound { .. })));
}

fn local(bus_id: &str) -> LocalUsbDevice {
    LocalUsbDevice {
        bus_number: 1,
        device_address: 2,
        vendor_id: 0x1234,
        product_id: 0x5678,
        manufacturer: None,
        product: None,
        device_class: 0,
        device_subclass: 0,
        device_protocol: 0,
        bcd_device: 0x0100,
        bus_id: bus_id.to_string(),
        speed: 3,
        num_configurations: 1,
        interfaces: vec![],
        port_numbers: vec![1],
    }
}

#[test]
fn one_session_at_a_time() {
    let mut registry = ExportRegistry::default();
    registry.bind_device_with("1-1", local("1-1"), 11).unwrap();
    assert!(matches!(
        registry.bind_device_with("1-1", local("1-1"), 12),
        Err(ServerError::DeviceAlreadyBound { .. })
    ));
    assert!(matches!(
        registry.bind_device("1-1", vec![], Ok(1)),
        Err(ServerError::DeviceAlreadyBound { .. })
    ));
    assert!(matches!(
        registry.bind_device(
            "1-2",
            vec![local("1-2")],
            Err(ServerError::DeviceInUse {
                bus_id: "1-2".to_string()
            })
        ),
        Err(ServerError::DeviceInUse { .. })
    ));

    let (handle, _, first) = registry.try_acquire("1-1").unwrap();
    assert_eq!(handle, 11);
    assert!(matches!(
        registry.try_acquire("1-1"),
        Err(ServerError::DeviceInUse { .. })
    ));
    assert_eq!(registry.list_devices().unwrap().len(), 1);
    // Another session cannot give it back.
    registry.release("1-1", first + 1);
    assert!(registry.try_acquire("1-1").is_err());
    registry.release("1-1", first);
    assert_eq!(registry.list_devices().unwrap().len(), 1);
    let (_, _, second) = registry.try_acquire("1-1").unwrap();
    assert_ne!(first, second);
    assert_eq!(registry.unbind_device("1-1").unwrap(), Some(second));
    assert!(!registry.contains("1-1"));
}

fn remote() -> UsbDevice {
    UsbDevice {
        path: UsbDevice::path_from_str("/sys/devices/usb1/1-1"),
        busid: UsbDevice::busid_from_str("1-1").unwrap(),
        busnum: 1,
        devnum: 2,
        speed: 3,
        id_vendor: 0x1234,
        id_product: 0x5678,
        bcd_device: 0x0100,
        device_class: 9,
        device_subclass: 1,
        device_protocol: 2,
        configuration_value: 1,
        num_configurations: 1,
        num_interfaces: 0,
        interfaces: vec![],
    }
}

fn port(hub: &str, port: u32, status: PortStatus) -> VhciPort {
    VhciPort {
        hub: hub.to_string(),
        port,
        status,
        speed: 0,
        devid: 0,
        sockfd: 0,
        local_busid: String::new(),
    }
}

#[test]
fn ports_are_taken_and_given_back() {
    let ports = [
        port("ss", 8, PortStatus::Free),
        port("hs", 0, PortStatus::InUse),
        port("hs", 1, PortStatus::Free),
    ];
    let plan = plan_attach(&remote(), &ports).unwrap();
    assert_eq!(plan.port, 1);
    assert_eq!(plan.devid, 0x0001_0002);
    assert!(matches!(
        plan_attach(&remote(), &ports[..2]),
        Err(ClientError::NoFreePort { speed: 3 })
    ));

    let addr = ServerAddr {
        ip: "10.0.0.1".to_string(),
        ipv6: false,
        port: 3240,
    };
    let mut engine = ClientEngine::new();
    let attached = engine.record_attach(&plan, &addr, "1-1");
    assert_eq!(attached.port, 1);
    assert_eq!(attached.busid, "1-1");
    assert!(engine.contains(1));
    assert!(engine.check_detach_macos(1).is_ok());
    assert!(engine.check_detach_macos(2).is_err());
    let listed = engine.get_imported_devices_macos();
    assert_eq!(listed.len(), 1);
    engine.remove(1);
    assert!(!engine.contains(1));

    assert!(check_detach(&ports, 0).is_ok());
    assert!(matches!(
        check_detach(&ports, 1),
        Err(ClientError::PortNotAttached { .. })
    ));
    assert!(check_detach(&ports, 77).is_err());
}

#[test]
fn attaching_through_the_driver() {
    let plan = plan_attach_macos(&remote());
    assert_eq!(plan.attach.port, 0x0001_0002);
    assert_eq!(
        plan.descriptor,
        [18, 1, 0, 2, 9, 1, 2, 64, 0x34, 0x12, 0x78, 0x56, 0, 1, 0, 0, 0, 1]
    );
    assert_eq!(build_device_descriptor(&remote()), plan.descriptor);
    let mut at = MacAttachState::Create;
    for ok in [true, false, true] {
        at = next_mac_attach(at, ok);
    }
    assert_eq!(at, MacAttachState::Failed);
    assert_eq!(
        next_mac_attach(MacAttachState::Configure, true),
        MacAttachState::Attached
    );
    assert_eq!(
        next_mac_attach(MacAttachState::Configure, false),
        MacAttachState::Undo
    );
}

fn header(command: Command, seqnum: u32) -> UsbipHeaderBasic {
    UsbipHeaderBasic {
        command: command.code(),
        seqnum,
        devid: 7,
        direction: 1,
        ep: 1,
    }
}

fn result(seqnum: u32, status: i32, data: &[u8]) -> UrbMessage {
    UrbMessage::RetSubmit(RetSubmit {
        header: header(Command::RetSubmit, seqnum),
        status,
        actual_length: data.len() as u32,
        start_frame: 0,
        number_of_packets: 0,
        error_count: 0,
        transfer_buffer: Bytes::copy_from_slice(data),
        iso_packet_descriptors: vec![],
    })
}

fn request(request_id: u32, endpoint: u32, data: &[u8]) -> Option<PendingRequest> {
    Some(PendingRequest {
        device_id: 7,
        endpoint,
        request_id,
        data: data.to_vec(),
    })
}

#[test]
fn requests_are_forwarded_and_completed() {
    let mut f = Forwarder::new(7);
    assert!(matches!(f.on_poll(None), ForwardAction::Continue));
    let first = match f.on_poll(request(100, 0x81, &[])) {
        ForwardAction::Send(cmd) => cmd,
        other => panic!("unexpected {other:?}"),
    };
    assert_eq!((first.header.direction, first.header.ep), (1, 1));
    assert_eq!(first.header.devid, 7);
    let second = match f.on_poll(request(101, 0x02, &[1, 2, 3])) {
        ForwardAction::Send(cmd) => cmd,
        other => panic!("unexpected {other:?}"),
    };
    assert_eq!((second.header.direction, second.header.ep), (0, 2));
    assert_eq!(second.transfer_buffer.as_ref(), &[1, 2, 3]);
    // The server reads what was meant.
    for cmd in [&first, &second] {
        let msg = UrbMessage::CmdSubmit(cmd.clone());
        let mut wire = Vec::new();
        write_urb_message(&mut wire, &msg);
        match read_urb_message(&wire) {
            ReadStep::Message(m) => assert_eq!(m, msg),
            other => panic!("unexpected {other:?}"),
        }
    }
    assert_ne!(first.header.seqnum, second.header.seqnum);

    // The results come in another order.
    match f.on_message(result(second.header.seqnum, -32, &[])) {
        ForwardAction::Complete {
            request_id, status, ..
        } => assert_eq!((request_id, status), (101, 0xe000_02bcu32 as i32)),
        other => panic!("unexpected {other:?}"),
    }
    match f.on_message(result(first.header.seqnum, 0, &[9, 8])) {
        ForwardAction::Complete {
            request_id,
            status,
            data,
        } => {
            assert_eq!((request_id, status), (100, 0));
            assert_eq!(data.as_ref(), &[9, 8]);
        }
        other => panic!("unexpected {other:?}"),
    }
    // Each request is completed once.
    assert!(matches!(
        f.on_message(result(first.header.seqnum, 0, &[])),
        ForwardAction::Continue
    ));
    assert!(matches!(
        f.on_message(UrbMessage::RetUnlink(RetUnlink {
            header: header(Command::RetUnlink, 1),
            status: 0,
        })),
        ForwardAction::Continue
    ));
    assert!(matches!(
        f.on_message(UrbMessage::CmdUnlink(CmdUnlink {
            header: header(Command::CmdUnlink, 1),
            unlink_seqnum: 0,
        })),
        ForwardAction::Continue
    ));

    let third = match f.on_poll(request(102, 0x81, &[])) {
        ForwardAction::Send(cmd) => cmd,
        other => panic!("unexpected {other:?}"),
    };
    assert!(matches!(
        f.on_write_failure(third.header.seqnum),
        ForwardAction::Stop
    ));
    assert!(matches!(
        f.on_message(result(third.header.seqnum, 0, &[])),
        ForwardAction::Continue
    ));
    assert!(matches!(f.on_read_failure(), ForwardAction::Stop));
}

#[test]
fn calls_of_the_driver() {
    let d = MacOSVhciDriver { connect: 1 };
    let c = d.create_device(2, 7);
    assert_eq!((c.selector, c.scalars), (SELECTOR_CREATE_DEVICE, vec![2, 7]));
    let c = d.destroy_device(7);
    assert_eq!((c.selector, c.scalars), (SELECTOR_DESTROY_DEVICE, vec![7]));
    let c = d.submit_input(7, 1, &[9, 9]);
    assert_eq!((c.selector, c.scalars), (SELECTOR_SUBMIT_INPUT, vec![7, 1, 2]));
    assert_eq!(c.data, [9, 9]);
    let c = d.configure_device(7, 6, &[1]);
    assert_eq!((c.selector, c.scalars), (SELECTOR_CONFIGURE_DEVICE, vec![7, 6]));
    let c = d.complete_request(7, 3, -1, &[]);
    assert_eq!(
        (c.selector, c.scalars),
        (SELECTOR_COMPLETE_REQUEST, vec![7, 3, 0xFFFF_FFFF])
    );
    let c = d.poll_pending_output(7);
    assert_eq!((c.selector, c.scalars), (SELECTOR_GET_PENDING_OUTPUT, vec![7]));
    let c = d.count_devices();
    assert_eq!((c.selector, c.scalars), (SELECTOR_GET_DEVICE_COUNT, vec![]));
    assert_eq!(d.device_count(0, 5).unwrap(), 5);
    assert!(matches!(
        d.device_count(-3, 5),
        Err(ClientError::IOKit { code: -3, .. })
    ));
}

#[test]
fn polls_of_the_driver() {
    let d = MacOSVhciDriver { connect: 1 };
    assert!(d.get_pending_output(0, &[]).unwrap().is_none());
    let mut out = Vec::new();
    for n in [7u32, 0x81, 2, 0, 55, 0] {
        out.extend_from_slice(&n.to_le_bytes());
    }
    match d.get_pending_output(0, &out) {
        Err(ClientError::IOKit { code, message }) => {
            assert_eq!(code, -1);
            assert_eq!(message, "get_pending_output: truncated payload 26 > 24");
        }
        other => panic!("unexpected {other:?}"),
    }
    out.extend_from_slice(&[8, 9, 10]);
    let p = d.get_pending_output(0, &out).unwrap().unwrap();
    assert_eq!((p.device_id, p.endpoint, p.request_id), (7, 0x81, 55));
    assert_eq!(p.data, [8, 9]);
    match d.get_pending_output(0, &out[..10]) {
        Err(ClientError::IOKit { message, .. }) => {
            assert_eq!(message, "get_pending_output: short header 10 < 24")
        }
        other => panic!("unexpected {other:?}"),
    }
    match d.get_pending_output(5, &out) {
        Err(ClientError::IOKit { code, message }) => {
            assert_eq!((code, message.as_str()), (5, "get_pending_output failed"))
        }
        other => panic!("unexpected {other:?}"),
    }
}

#[test]
fn a_session_is_never_given_twice() {
    let mut registry = ExportRegistry::new();
    let mut given = Vec::new();
    for _ in 0..3 {
        registry.bind_device_with("1-1", local("1-1"), 7).unwrap();
        for _ in 0..2 {
            let (_, _, session) = registry.try_acquire("1-1").unwrap();
            assert!(registry.try_acquire("1-1").is_err());
            given.push(session);
            registry.release("1-1", session);
        }
        registry.unbind_device("1-1").unwrap();
    }
    assert_eq!(given, vec![1, 2, 3, 4, 5, 6]);
}

#[test]
fn what_cannot_be_described_is_not_taken() {
    let mut registry = ExportRegistry::new();
    let long = "1-".to_owned() + &"1.".repeat(20) + "1";
    registry.bind_device_with(&long, local(&long), 7).unwrap();
    registry.bind_device_with("1-1", local("1-1"), 8).unwrap();
    for _ in 0..2 {
        assert!(matches!(
            registry.try_acquire(&long),
            Err(ServerError::Protocol(_))
        ));
        assert!(registry.inner()[0].exported.active_session.is_none());
    }
    let (_, _, session) = registry.try_acquire("1-1").unwrap();
    assert_eq!(session, 1);
}
