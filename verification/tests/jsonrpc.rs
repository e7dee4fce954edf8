//! Requests, responses and the framing of messages.

use extender::api::json::Json;
use extender::api::jsonrpc::{
    read_failure, read_message, write_message, FrameStep, FramingError, JsonRpcError,
    JsonRpcRequest, JsonRpcResponse, MAX_MESSAGE_SIZE,
};

#[test]
fn test_request_serialization() {
    let req = JsonRpcRequest::new("get_status", None, 1);
    assert_eq!(req.jsonrpc, "2.0");
    assert_eq!(req.method, "get_status");
    assert_eq!(req.id, Some(Json::Unsigned(1)));
}

#[test]
fn test_notification_has_no_id() {
    let notif = JsonRpcRequest::notification("device_plugged", None);
    assert!(notif.id.is_none());
    assert_eq!(notif.method, "device_plugged");
}

#[test]
fn test_success_response() {
    let ok = Json::Object(vec![("status".to_string(), Json::Str("ok".to_string()))]);
    let resp = JsonRpcResponse::success(Some(Json::Unsigned(1)), ok);
    assert!(resp.result.is_some());
    assert!(resp.error.is_none());
}

#[test]
fn test_error_response() {
    let resp = JsonRpcResponse::error(
        Some(Json::Unsigned(1)),
        JsonRpcError::method_not_found("unknown_method"),
    );
    assert!(resp.result.is_none());
    assert!(resp.error.is_some());
    assert_eq!(resp.error.unwrap().code, -32601);
}

#[test]
fn test_error_codes() {
    assert_eq!(JsonRpcError::parse_error("bad json").code, -32700);
    assert_eq!(JsonRpcError::invalid_request("missing field").code, -32600);
    assert_eq!(JsonRpcError::method_not_found("foo").code, -32601);
    assert_eq!(JsonRpcError::invalid_params("wrong type").code, -32602);
    assert_eq!(JsonRpcError::internal_error("panic").code, -32603);
}

#[test]
fn messages_and_details_of_errors() {
    let e = JsonRpcError::invalid_params("missing 'port'");
    assert_eq!(e.message, "Invalid params");
    assert_eq!(e.data, Some(Json::Str("missing 'port'".to_string())));
    assert_eq!(JsonRpcError::parse_error("x").message, "Parse error");
    assert_eq!(JsonRpcError::invalid_request("x").message, "Invalid Request");
    assert_eq!(JsonRpcError::method_not_found("x").message, "Method not found");
    assert_eq!(JsonRpcError::internal_error("x").message, "Internal error");
}

#[test]
fn outcome_of_a_response() {
    let done = JsonRpcResponse::answer(None, Ok(Json::Bool(true)));
    assert_eq!(done.outcome().unwrap(), Json::Bool(true));
    let refused = JsonRpcResponse::answer(None, Err(JsonRpcError::internal_error("no")));
    assert_eq!(refused.outcome().unwrap_err().code, -32603);
    let empty = JsonRpcResponse {
        jsonrpc: "2.0".to_string(),
        result: None,
        error: None,
        id: None,
    };
    assert_eq!(empty.outcome().unwrap(), Json::Null);
}

#[test]
fn framing_gives_the_message_back() {
    let mut buf = Vec::new();
    write_message(&mut buf, b"hello").unwrap();
    assert_eq!(buf, [0, 0, 0, 5, b'h', b'e', b'l', b'l', b'o']);
    match read_message(&buf) {
        FrameStep::Message(m) => assert_eq!(m, b"hello"),
        other => panic!("unexpected {other:?}"),
    }
    assert!(matches!(read_message(&buf[..2]), FrameStep::NeedMore(2)));
    assert!(matches!(read_message(&buf[..6]), FrameStep::NeedMore(3)));
}

#[test]
fn framing_refuses_what_is_too_large() {
    let mut buf = Vec::new();
    let large = vec![0u8; MAX_MESSAGE_SIZE as usize + 1];
    let r = write_message(&mut buf, &large);
    assert!(matches!(r, Err(FramingError::MessageTooLarge(65537))));
    assert!(buf.is_empty());
    assert_eq!(
        r.unwrap_err().message(),
        "message too large: 65537 bytes (max 65536)"
    );
    let largest = vec![0u8; MAX_MESSAGE_SIZE as usize];
    assert!(write_message(&mut buf, &largest).is_ok());
    let step = read_message(&[0x00, 0x01, 0x00, 0x01]);
    assert!(matches!(
        step,
        FrameStep::Failed(FramingError::MessageTooLarge(65537))
    ));
}

#[test]
fn end_of_stream_closes_only_between_messages() {
    let eof = || std::io::Error::from(std::io::ErrorKind::UnexpectedEof);
    assert!(matches!(
        read_failure(0, true, eof()),
        FramingError::ConnectionClosed
    ));
    assert!(matches!(read_failure(5, true, eof()), FramingError::Io(_)));
    assert!(matches!(read_failure(0, false, eof()), FramingError::Io(_)));
    assert_eq!(FramingError::ConnectionClosed.message(), "connection closed");
    let e = std::io::Error::new(std::io::ErrorKind::Other, "broken");
    assert_eq!(FramingError::Io(e).message(), "I/O error: broken");
}
