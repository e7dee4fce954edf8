//! The daemon: configuration, process file, privileges, requests.

use extender::api::json::Json;
use extender::api::jsonrpc::{FramingError, JsonRpcError, JsonRpcRequest};
use extender::api::methods::ApiMethod;
use extender::api::types::UsbSpeed;
use extender::cli::client::method_to_rpc;
use extender::client::error::ClientError;
use extender::client::types::{AttachedDevice, RemoteDevice, ServerAddr};
use extender::daemon::api_server::{
    address_error, address_text, handle_attach_device, handle_detach_device,
    handle_get_device_info, handle_list_local_devices, handle_list_remote_devices,
    handle_subscribe, on_connection, parse_request, speed_to_api, ApiState, ConnectionAction,
    ConnectionEvent,
};
use extender::daemon::config::{
    ClientConfig, Config, ConfigFile, DaemonConfig, Environment, SecurityConfig, ServerConfig,
};
use extender::daemon::mdns::{advertisement, hostname_or_default};
use extender::daemon::privileges::{
    create_pid_file, drop_privileges, pid_file_text, process_named, remove_pid_file, DropEvent,
    DropStep, Lookup, PidFile, PrivilegeError,
};
use extender::daemon::run::{tls_choice, Daemon, LogFormat, RunStep, TlsChoice};
use extender::server::device::LocalUsbDevice;
use extender::server::error::{ServerError, UsbError};
use extender::server::export::ExportRegistry;

#[test]
fn test_default_config() {
    let cfg = Config::default_for(false, &None);
    assert_eq!(cfg.server.listen_address, "127.0.0.1");
    assert_eq!(cfg.server.port, 3240);
    assert_eq!(cfg.server.max_connections, 16);
    assert_eq!(cfg.daemon.log_level, "info");
    assert_eq!(cfg.daemon.log_format, "text");
    assert!(cfg.security.allowed_devices.is_empty());
    assert!(cfg.security.denied_devices.is_empty());
}

#[test]
fn paths_by_user() {
    let root = Config::default_for(true, &Some("/run/user/0".to_string()));
    assert_eq!(root.daemon.socket_path, "/var/run/extender.sock");
    assert_eq!(root.daemon.pid_file, "/var/run/extender.pid");
    assert_eq!(root.client.vhci_path, "/sys/devices/platform/vhci_hcd.0");
    let user = Config::default_for(false, &Some("/run/user/1000".to_string()));
    assert_eq!(user.daemon.pid_file, "/run/user/1000/extender.pid");
    assert!(user.daemon.drop_user.is_none());
}

fn no_environment() -> Environment {
    Environment {
        host: None,
        port: None,
        socket: None,
        log_level: None,
    }
}

#[test]
fn test_env_override() {
    let mut cfg = Config::default_for(false, &None);
    cfg.apply_env_overrides(Environment {
        host: Some("192.168.1.1".to_string()),
        port: Some("7777".to_string()),
        socket: Some("/tmp/override.sock".to_string()),
        log_level: Some("trace".to_string()),
    });

    assert_eq!(cfg.server.port, 7777);
    assert_eq!(cfg.server.listen_address, "192.168.1.1");
    assert_eq!(cfg.daemon.socket_path, "/tmp/override.sock");
    assert_eq!(cfg.daemon.log_level, "trace");

    let mut env = no_environment();
    env.port = Some("not a port".to_string());
    cfg.apply_env_overrides(env);
    assert_eq!(cfg.server.port, 7777);
}

fn server_section(port: u16) -> ServerConfig {
    ServerConfig {
        listen_address: "0.0.0.0".to_string(),
        port,
        max_connections: 1,
    }
}

#[test]
fn sections_of_the_highest_layer() {
    let system = ConfigFile {
        server: Some(server_section(1)),
        client: Some(ClientConfig {
            vhci_path: "/custom".to_string(),
        }),
        daemon: None,
        security: Some(SecurityConfig {
            allowed_devices: vec!["1234:*".to_string()],
            denied_devices: vec![],
        }),
    };
    let user = ConfigFile {
        server: Some(server_section(2)),
        client: None,
        daemon: None,
        security: None,
    };
    let mut env = no_environment();
    env.log_level = Some("warn".to_string());
    let c = Config::load(
        Config::default_for(false, &None),
        Some(system),
        Some(user),
        env,
    );
    assert_eq!(c.server.port, 2);
    assert_eq!(c.client.vhci_path, "/custom");
    assert_eq!(c.security.allowed_devices, ["1234:*"]);
    assert_eq!(c.daemon.socket_path, "/tmp/extender.sock");
    assert_eq!(c.daemon.log_level, "warn");
    let plain = Config::load(
        Config::default_for(true, &None),
        None,
        None,
        no_environment(),
    );
    assert_eq!(plain.server.port, 3240);
}

#[test]
fn process_files() {
    let text = |s: &str| PidFile::Text(s.to_string());
    assert_eq!(pid_file_text(4711), "4711\n");
    assert_eq!(process_named(&text(&pid_file_text(4711))), Some(4711));
    assert_eq!(process_named(&text(" 12 \n")), Some(12));
    assert_eq!(process_named(&text("no number")), None);
    assert_eq!(process_named(&text("4294967296")), None);
    assert_eq!(process_named(&PidFile::Absent), None);

    assert!(!create_pid_file("/p", &PidFile::Absent, false).unwrap());
    assert!(create_pid_file("/p", &PidFile::Unreadable, true).unwrap());
    assert!(create_pid_file("/p", &text("999999999\n"), false).unwrap());
    match create_pid_file("/p", &text("17\n"), true) {
        Err(e) => {
            assert_eq!(
                e.message(),
                "PID file /p exists and process 17 is still running"
            );
            assert!(matches!(e, PrivilegeError::PidFileStale { pid: 17, .. }));
        }
        Ok(_) => panic!("the process is running"),
    }

    assert!(remove_pid_file(&text(&pid_file_text(4711)), 4711));
    assert!(!remove_pid_file(&text(&pid_file_text(4711)), 4712));
    assert!(!remove_pid_file(&PidFile::Unreadable, 1));
}

#[test]
fn test_drop_privileges_nonexistent_user() {
    let missing = || DropEvent::LookedUp(Lookup::Missing);
    let result = drop_privileges(DropStep::LookUpGroup, &missing());
    assert!(result.is_ok());
    let result = drop_privileges(result.unwrap(), &missing());
    assert!(result.is_ok());
    assert_eq!(result.unwrap(), DropStep::Done);
}

#[test]
fn privileges_are_given_up_group_first() {
    let found = |n| DropEvent::LookedUp(Lookup::Found(n));
    let done = DropEvent::Changed(Ok(()));
    let mut at = DropStep::LookUpGroup;
    let mut seen = Vec::new();
    for event in [found(5), DropEvent::Changed(Ok(())), found(6), done] {
        at = drop_privileges(at, &event).unwrap();
        seen.push(at);
    }
    assert_eq!(
        seen,
        [
            DropStep::SetGroup(5),
            DropStep::LookUpUser,
            DropStep::SetUser(6),
            DropStep::Done
        ]
    );
    let failed = DropEvent::Changed(Err("EPERM".to_string()));
    assert_eq!(
        drop_privileges(DropStep::SetGroup(5), &failed)
            .unwrap_err()
            .message(),
        "privilege drop failed: setgid(5): EPERM"
    );
    assert_eq!(
        drop_privileges(DropStep::SetUser(6), &failed)
            .unwrap_err()
            .message(),
        "privilege drop failed: setuid(6): EPERM"
    );
    let unknown = DropEvent::LookedUp(Lookup::Failed("x".to_string()));
    assert_eq!(
        drop_privileges(DropStep::LookUpUser, &unknown).unwrap(),
        DropStep::Done
    );
    let io = std::io::Error::new(std::io::ErrorKind::Other, "disk");
    assert_eq!(PrivilegeError::Io(io).message(), "I/O error: disk");
}

fn daemon() -> Daemon {
    Daemon::new(Config::default_for(false, &None))
}

#[test]
fn process_file_beside_the_socket() {
    let mut d = daemon();
    assert_eq!(d.pid_file(&Some("/x".to_string())), "/x/extender.pid");
    assert_eq!(d.pid_file(&None), "/tmp/extender.pid");
    d.config.daemon.pid_file = "/var/other.pid".to_string();
    assert_eq!(d.pid_file(&Some("/x".to_string())), "/var/other.pid");
    d.config.daemon.pid_file = "short".to_string();
    assert_eq!(d.pid_file(&None), "short");
}

#[test]
fn plans_of_the_daemon() {
    let mut d = daemon();
    assert_eq!(d.log_format(), LogFormat::Text);
    d.config.daemon.log_format = "json".to_string();
    assert_eq!(d.log_format(), LogFormat::Json);
    assert_eq!(d.listen_addr(), "127.0.0.1:3240");
    assert!(d.drop_to().is_none());
    d.config.daemon.drop_user = Some("u".to_string());
    assert!(d.drop_to().is_none());
    d.config.daemon.drop_group = Some("g".to_string());
    assert_eq!(d.drop_to(), Some(("u".to_string(), "g".to_string())));
    let some = Some("x".to_string());
    assert!(matches!(tls_choice(&None, &None, &some), TlsChoice::Plain));
    assert!(matches!(
        tls_choice(&some, &None, &None),
        TlsChoice::Incomplete
    ));
    assert!(matches!(
        tls_choice(&some, &some, &some),
        TlsChoice::Encrypted { ca_path: Some(_), .. }
    ));
}

#[test]
fn steps_of_the_daemon() {
    let mut d = daemon();
    d.config.daemon = DaemonConfig {
        drop_user: Some("u".to_string()),
        drop_group: Some("g".to_string()),
        ..DaemonConfig::default_for(false, &None)
    };
    let mut at = RunStep::CreatePidFile;
    let mut seen = vec![at];
    while at != RunStep::Finished {
        at = d.next_step(at, true, true);
        seen.push(at);
    }
    assert_eq!(
        seen,
        [
            RunStep::CreatePidFile,
            RunStep::ReadAddress,
            RunStep::StartServer,
            RunStep::BindApi,
            RunStep::DropPrivileges,
            RunStep::Advertise,
            RunStep::HandleSignals,
            RunStep::Serve,
            RunStep::StopServer,
            RunStep::StopAdvertising,
            RunStep::RemovePidFile,
            RunStep::Finished,
        ]
    );
    assert_eq!(
        d.next_step(RunStep::CreatePidFile, false, true),
        RunStep::Failed
    );
    assert_eq!(
        d.next_step(RunStep::DropPrivileges, false, true),
        RunStep::Failed
    );
    assert_eq!(
        d.next_step(RunStep::StartServer, false, true),
        RunStep::BindApi
    );
    assert_eq!(
        d.next_step(RunStep::BindApi, false, true),
        RunStep::DropPrivileges
    );
    assert_eq!(
        daemon().next_step(RunStep::BindApi, true, false),
        RunStep::HandleSignals
    );
    assert_eq!(
        daemon().next_step(RunStep::BindApi, false, false),
        RunStep::HandleSignals
    );
    assert_eq!(
        daemon().next_step(RunStep::BindApi, false, true),
        RunStep::Advertise
    );
}

#[test]
fn what_is_advertised() {
    let a = advertisement("box", 3240, "0.1.0", 2);
    assert_eq!(a.instance_name, "Extender on box");
    assert_eq!(a.host, "box.local.");
    assert_eq!(a.port, 3240);
    assert_eq!(
        a.properties,
        [
            ("version".to_string(), "0.1.0".to_string()),
            ("devices".to_string(), "2".to_string())
        ]
    );
    assert_eq!(hostname_or_default(None), "extender");
    assert_eq!(hostname_or_default(Some("h".to_string())), "h");
}

fn detail(e: &JsonRpcError) -> &str {
    match &e.data {
        Some(Json::Str(s)) => s,
        other => panic!("unexpected {other:?}"),
    }
}

#[test]
fn requests_come_back_as_they_were_asked() {
    let asked = vec![
        ApiMethod::ListLocalDevices,
        ApiMethod::ListExportedDevices,
        ApiMethod::ListRemoteDevices {
            host: "h".to_string(),
            port: 1,
        },
        ApiMethod::BindDevice {
            bus_id: "1-1".to_string(),
        },
        ApiMethod::UnbindDevice {
            bus_id: "1-2".to_string(),
        },
        ApiMethod::AttachDevice {
            host: "h".to_string(),
            port: 65535,
            bus_id: "b".to_string(),
        },
        ApiMethod::DetachDevice { port: 7 },
        ApiMethod::GetStatus,
        ApiMethod::GetDeviceInfo {
            bus_id: "1-3".to_string(),
        },
        ApiMethod::Subscribe {
            events: vec!["a".to_string(), "b".to_string()],
        },
    ];
    for m in asked {
        let (name, params) = method_to_rpc(&m);
        let read = parse_request(name, &params).unwrap();
        assert_eq!(format!("{read:?}"), format!("{m:?}"));
    }
}

#[test]
fn requests_that_ask_nothing() {
    let e = parse_request("no_such_method", &None).unwrap_err();
    assert_eq!(e.code, -32601);
    assert_eq!(detail(&e), "no_such_method");
    let e = parse_request("bind_device", &None).unwrap_err();
    assert_eq!(e.code, -32602);
    assert_eq!(detail(&e), "missing params");
    let empty = Some(Json::Object(vec![]));
    let e = parse_request("attach_device", &empty).unwrap_err();
    assert_eq!(detail(&e), "missing 'host'");
    let host = ("host".to_string(), Json::Str("h".to_string()));
    let only_host = Some(Json::Object(vec![host]));
    let e = parse_request("attach_device", &only_host).unwrap_err();
    assert_eq!(detail(&e), "missing 'port'");
    let e = parse_request("list_remote_devices", &only_host).unwrap_err();
    assert_eq!(detail(&e), "missing 'port'");
    let e = parse_request("get_device_info", &only_host).unwrap_err();
    assert_eq!(detail(&e), "missing 'bus_id'");
    let text_port = Some(Json::Object(vec![(
        "port".to_string(),
        Json::Str("1".to_string()),
    )]));
    let e = parse_request("detach_device", &text_port).unwrap_err();
    assert_eq!(detail(&e), "missing 'port'");
    match parse_request("subscribe", &None).unwrap() {
        ApiMethod::Subscribe { events } => assert!(events.is_empty()),
        other => panic!("unexpected {other:?}"),
    }
}

#[test]
fn ports_are_cut_to_their_bits() {
    let params = Some(Json::Object(vec![
        ("host".to_string(), Json::Str("h".to_string())),
        ("port".to_string(), Json::Unsigned(65536 + 80)),
    ]));
    match parse_request("list_remote_devices", &params).unwrap() {
        ApiMethod::ListRemoteDevices { port, .. } => assert_eq!(port, 80),
        other => panic!("unexpected {other:?}"),
    }
}

fn local(bus_id: &str, vid: u16, pid: u16) -> LocalUsbDevice {
    LocalUsbDevice {
        bus_number: 1,
        device_address: 2,
        vendor_id: vid,
        product_id: pid,
        manufacturer: Some("Acme".to_string()),
        product: None,
        device_class: 3,
        device_subclass: 0,
        device_protocol: 0,
        bcd_device: 0x0100,
        bus_id: bus_id.to_string(),
        speed: 3,
        num_configurations: 1,
        interfaces: vec![],
        port_numbers: vec![1],
    }
}

#[test]
fn local_devices_are_told() {
    let found = Ok(vec![local("1-1", 1, 2)]);
    let v = handle_list_local_devices(&found).unwrap();
    assert_eq!(v.len(), 1);
    assert_eq!(v[0].bus_id, "1-1");
    assert_eq!(v[0].manufacturer.as_deref(), Some("Acme"));
    assert_eq!(v[0].speed, UsbSpeed::High);
    assert!(!v[0].is_bound);
    let failed = Err(ServerError::Enumeration(UsbError::Io));
    let e = handle_list_local_devices(&failed).unwrap_err();
    assert_eq!((e.code, detail(&e)), (-32603, "USB enumeration failed"));
    assert_eq!(handle_get_device_info("1-1", &found).unwrap().product_id, 2);
    let e = handle_get_device_info("9-9", &found).unwrap_err();
    assert_eq!((e.code, detail(&e)), (-32602, "device '9-9' not found"));
    let e = handle_get_device_info("1-1", &failed).unwrap_err();
    assert_eq!((e.code, detail(&e)), (-32603, "device enumeration failed"));
}

#[test]
fn speeds_by_number() {
    assert_eq!(speed_to_api(1), UsbSpeed::Low);
    assert_eq!(speed_to_api(2), UsbSpeed::Full);
    assert_eq!(speed_to_api(5), UsbSpeed::Super);
    assert_eq!(speed_to_api(4), UsbSpeed::Unknown);
}

#[test]
fn remote_devices_are_told() {
    let d = RemoteDevice {
        busid: "2-1".to_string(),
        path: String::new(),
        id_vendor: 7,
        id_product: 8,
        bcd_device: 0,
        device_class: 9,
        device_subclass: 0,
        device_protocol: 0,
        speed: 5,
        num_interfaces: 0,
        interface_classes: vec![],
    };
    let v = handle_list_remote_devices(&Ok(vec![d])).unwrap();
    assert_eq!(v[0].bus_id, "2-1");
    assert!(v[0].manufacturer.is_none());
    assert_eq!(v[0].speed, UsbSpeed::Super);
    let failed = Err(ClientError::DevlistError { status: 1 });
    let e = handle_list_remote_devices(&failed).unwrap_err();
    assert_eq!((e.code, detail(&e)), (-32603, "remote list failed"));
    assert_eq!(address_text("10.0.0.1", 3240), "10.0.0.1:3240");
    assert_eq!(detail(&address_error("bad")), "invalid address: bad");
}

#[test]
fn attaching_and_detaching_are_answered() {
    let attached = AttachedDevice {
        port: 2,
        busid: "1-1".to_string(),
        server_addr: ServerAddr {
            ip: "1.1.1.1".to_string(),
            ipv6: false,
            port: 3240,
        },
        id_vendor: 0,
        id_product: 0,
        speed: 3,
    };
    let j = handle_attach_device("1-1", &Some(Ok(attached))).unwrap();
    assert_eq!(j.get_text("status").unwrap(), "ok");
    assert_eq!(j.get_unsigned("port"), Some(2));
    assert_eq!(j.get_text("bus_id").unwrap(), "1-1");
    let failed = Some(Err(ClientError::PlatformNotSupported));
    let e = handle_attach_device("1-1", &failed).unwrap_err();
    assert_eq!(detail(&e), "attach device failed");
    let e = handle_attach_device("1-1", &None).unwrap_err();
    assert_eq!(detail(&e), "client initialization failed");
    let j = handle_detach_device(2, &Some(Ok(()))).unwrap();
    assert_eq!(j.get_unsigned("port"), Some(2));
    let e = handle_detach_device(2, &Some(Err(ClientError::PlatformNotSupported))).unwrap_err();
    assert_eq!(detail(&e), "detach device failed");
    let e = handle_detach_device(2, &None).unwrap_err();
    assert_eq!(detail(&e), "client initialization failed");
    assert_eq!(handle_subscribe().get_text("status").unwrap(), "ok");
}

fn state(denied: &[&str]) -> ApiState {
    ApiState::new(
        ExportRegistry::new(),
        SecurityConfig {
            allowed_devices: vec![],
            denied_devices: denied.iter().map(|s| s.to_string()).collect(),
        },
    )
}

#[test]
fn binding_and_unbinding() {
    let devices = || vec![local("1-1", 0x1234, 0x5678)];
    let mut s = state(&[]);
    let j = s
        .handle_bind_device("1-1", &Ok(devices()), devices(), Ok(9))
        .unwrap();
    assert_eq!(j.get_text("bus_id").unwrap(), "1-1");
    let listed = s.handle_list_exported_devices();
    assert_eq!(listed.len(), 1);
    assert_eq!(listed[0].num_clients, 0);
    let e = s
        .handle_bind_device("1-1", &Ok(devices()), devices(), Ok(9))
        .unwrap_err();
    assert_eq!((e.code, detail(&e)), (-32603, "bind device failed"));

    let (_, _, session) = s.registry.try_acquire("1-1").unwrap();
    assert_eq!(s.handle_list_exported_devices()[0].num_clients, 1);
    let status = s.handle_get_status("0.1.0", 60);
    assert_eq!(status.version, "0.1.0");
    assert_eq!(status.uptime_secs, 60);
    assert_eq!(status.exported_devices, 1);
    assert_eq!(status.imported_devices, 0);
    assert_eq!(status.active_connections, 1);

    let (j, had) = s.handle_unbind_device("1-1").unwrap();
    assert_eq!(j.get("had_active_session"), Some(&Json::Bool(true)));
    assert_eq!(had, Some(session));
    let e = s.handle_unbind_device("1-1").unwrap_err();
    assert_eq!((e.code, detail(&e)), (-32603, "unbind device failed"));
    assert_eq!(s.handle_get_status("0.1.0", 60).exported_devices, 0);
}

#[test]
fn devices_that_may_not_be_bound() {
    let devices = || vec![local("1-1", 0x1234, 0x00ab)];
    let mut s = state(&["1234:*"]);
    let e = s
        .handle_bind_device("1-1", &Ok(devices()), devices(), Ok(1))
        .unwrap_err();
    assert_eq!(
        (e.code, detail(&e)),
        (-32603, "device 1234:00ab is not allowed by ACL policy")
    );
    let e = s.check_bind("2-2", &Ok(devices())).unwrap_err();
    assert_eq!((e.code, detail(&e)), (-32602, "device '2-2' not found"));
    let e = s
        .check_bind("1-1", &Err(ServerError::Enumeration(UsbError::Io)))
        .unwrap_err();
    assert_eq!(detail(&e), "USB enumeration failed");
    assert_eq!(s.registry.len(), 0);
}

#[test]
fn connections() {
    let req = JsonRpcRequest::new("get_status", None, 5);
    match on_connection(ConnectionEvent::Message(Ok(req))) {
        ConnectionAction::Serve(ApiMethod::GetStatus, id) => {
            assert_eq!(id, Some(Json::Unsigned(5)))
        }
        other => panic!("unexpected {other:?}"),
    }
    let req = JsonRpcRequest::new("bind_device", None, 6);
    match on_connection(ConnectionEvent::Message(Ok(req))) {
        ConnectionAction::Reply(r) => {
            assert_eq!(r.error.unwrap().code, -32602);
            assert_eq!(r.id, Some(Json::Unsigned(6)));
        }
        other => panic!("unexpected {other:?}"),
    }
    match on_connection(ConnectionEvent::Message(Err("bad".to_string()))) {
        ConnectionAction::Reply(r) => {
            assert_eq!(r.error.unwrap().code, -32700);
            assert!(r.id.is_none());
        }
        other => panic!("unexpected {other:?}"),
    }
    match on_connection(ConnectionEvent::Happened("plugged".to_string())) {
        ConnectionAction::Notify(n) => {
            assert_eq!(n.method, "event");
            assert_eq!(n.params, Some(Json::Str("plugged".to_string())));
        }
        other => panic!("unexpected {other:?}"),
    }
    assert!(matches!(
        on_connection(ConnectionEvent::ReadFailed(FramingError::ConnectionClosed)),
        ConnectionAction::Close(None)
    ));
    assert!(matches!(
        on_connection(ConnectionEvent::ReadFailed(FramingError::MessageTooLarge(1))),
        ConnectionAction::Close(Some(FramingError::MessageTooLarge(1)))
    ));
    assert!(matches!(
        on_connection(ConnectionEvent::Shutdown),
        ConnectionAction::Close(None)
    ));
}
