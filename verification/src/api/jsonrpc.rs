//! JSON-RPC 2.0 messages, and their framing by length.

use vstd::prelude::*;
use vstd::slice::{slice_subrange, slice_to_vec};
use vstd::string::*;

use crate::api::json::{is_text, Json};
use crate::endian::{be32, be32_at, lemma_be32_at};
use crate::protocol::buf::{get_u32, put_slice, put_u32};
use crate::text::{decimal, decimal_string};

verus! {

/// A request, or a notification where there is no identifier.
#[derive(Debug)]
pub struct JsonRpcRequest {
    pub jsonrpc: String,
    pub method: String,
    pub params: Option<Json>,
    pub id: Option<Json>,
}

impl JsonRpcRequest {
    /// A request.
    pub fn new(method: &str, params: Option<Json>, id: u64) -> (r: Self)
        ensures
            r.jsonrpc@ == "2.0"@,
            r.method@ == method@,
            r.params == params,
            r.id == Some(Json::Unsigned(id)),
    {
        JsonRpcRequest {
            jsonrpc: "2.0".to_owned(),
            method: method.to_owned(),
            params,
            id: Some(Json::Unsigned(id)),
        }
    }

    /// A notification.
    pub fn notification(method: &str, params: Option<Json>) -> (r: Self)
        ensures
            r.jsonrpc@ == "2.0"@,
            r.method@ == method@,
            r.params == params,
            r.id is None,
    {
        JsonRpcRequest {
            jsonrpc: "2.0".to_owned(),
            method: method.to_owned(),
            params,
            id: None,
        }
    }
}

/// The error of a response.
#[derive(Debug)]
pub struct JsonRpcError {
    pub code: i32,
    pub message: String,
    pub data: Option<Json>,
}

impl JsonRpcError {
    /// The error has this code, this message and this detail.
    pub open spec fn says(self, code: int, message: Seq<char>, detail: Seq<char>) -> bool {
        &&& self.code == code
        &&& self.message@ == message
        &&& self.data matches Some(d) && is_text(d, detail)
    }

    /// The message is no JSON.
    pub fn parse_error(detail: &str) -> (e: Self)
        ensures
            e.says(-32700, "Parse error"@, detail@),
    {
        JsonRpcError {
            code: -32700,
            message: "Parse error".to_owned(),
            data: Some(Json::Str(detail.to_owned())),
        }
    }

    /// The message is no request.
    pub fn invalid_request(detail: &str) -> (e: Self)
        ensures
            e.says(-32600, "Invalid Request"@, detail@),
    {
        JsonRpcError {
            code: -32600,
            message: "Invalid Request".to_owned(),
            data: Some(Json::Str(detail.to_owned())),
        }
    }

    /// There is no such method.
    pub fn method_not_found(method: &str) -> (e: Self)
        ensures
            e.says(-32601, "Method not found"@, method@),
    {
        JsonRpcError {
            code: -32601,
            message: "Method not found".to_owned(),
            data: Some(Json::Str(method.to_owned())),
        }
    }

    /// A parameter is missing or is not what it should be.
    pub fn invalid_params(detail: &str) -> (e: Self)
        ensures
            e.says(-32602, "Invalid params"@, detail@),
    {
        JsonRpcError {
            code: -32602,
            message: "Invalid params".to_owned(),
            data: Some(Json::Str(detail.to_owned())),
        }
    }

    /// The request cannot be served.
    pub fn internal_error(detail: &str) -> (e: Self)
        ensures
            e.says(-32603, "Internal error"@, detail@),
    {
        JsonRpcError {
            code: -32603,
            message: "Internal error".to_owned(),
            data: Some(Json::Str(detail.to_owned())),
        }
    }
}

/// A response.
#[derive(Debug)]
pub struct JsonRpcResponse {
    pub jsonrpc: String,
    pub result: Option<Json>,
    pub error: Option<JsonRpcError>,
    pub id: Option<Json>,
}

impl JsonRpcResponse {
    /// The response to a request that was served.
    pub fn success(id: Option<Json>, result: Json) -> (r: Self)
        ensures
            r.jsonrpc@ == "2.0"@,
            r.result == Some(result),
            r.error is None,
            r.id == id,
    {
        JsonRpcResponse { jsonrpc: "2.0".to_owned(), result: Some(result), error: None, id }
    }

    /// The response to a request that was not served.
    pub fn error(id: Option<Json>, error: JsonRpcError) -> (r: Self)
        ensures
            r.jsonrpc@ == "2.0"@,
            r.result is None,
            r.error == Some(error),
            r.id == id,
    {
        JsonRpcResponse { jsonrpc: "2.0".to_owned(), result: None, error: Some(error), id }
    }

    /// The response to a request, by what serving it gave.
    pub fn answer(id: Option<Json>, outcome: Result<Json, JsonRpcError>) -> (r: Self)
        ensures
            r.jsonrpc@ == "2.0"@,
            r.id == id,
            match outcome {
                Ok(v) => r.result == Some(v) && r.error is None,
                Err(e) => r.result is None && r.error == Some(e),
            },
    {
        match outcome {
            Ok(v) => JsonRpcResponse::success(id, v),
            Err(e) => JsonRpcResponse::error(id, e),
        }
    }

    /// What a caller makes of a response: its error where it has one, else its
    /// result, where nothing counts as null.
    pub fn outcome(self) -> (r: Result<Json, JsonRpcError>)
        ensures
            match self.error {
                Some(e) => r == Err::<Json, JsonRpcError>(e),
                None => r == Ok::<Json, JsonRpcError>(
                    match self.result {
                        Some(v) => v,
                        None => Json::Null,
                    },
                ),
            },
    {
        match self.error {
            Some(e) => Err(e),
            None => match self.result {
                Some(v) => Ok(v),
                None => Ok(Json::Null),
            },
        }
    }
}

/// The largest message, in bytes.
pub const MAX_MESSAGE_SIZE: u32 = 65536;

/// What can go wrong with the framing of messages.
#[derive(Debug)]
pub enum FramingError {
    /// Reading or writing failed.
    Io(std::io::Error),
    /// The message is larger than allowed.
    MessageTooLarge(u32),
    /// The connection was closed between messages.
    ConnectionClosed,
}

impl FramingError {
    /// The error has this text. That of an I/O error is a fixed prefix and the
    /// text that the error gives of itself.
    pub open spec fn has_text(self, s: Seq<char>) -> bool {
        match self {
            FramingError::Io(e) => exists|t: String|
                #![auto]
                to_string_from_display_ensures::<std::io::Error>(&e, t) && s == "I/O error: "@ + t@,
            FramingError::MessageTooLarge(n) => s == "message too large: "@ + decimal(n as nat)
                + " bytes (max 65536)"@,
            FramingError::ConnectionClosed => s == "connection closed"@,
        }
    }

    /// The text of the error.
    pub fn message(&self) -> (s: String)
        ensures
            self.has_text(s@),
    {
        match self {
            FramingError::Io(e) => "I/O error: ".to_owned().concat(e.to_string().as_str()),
            FramingError::MessageTooLarge(n) => "message too large: ".to_owned().concat(
                decimal_string(*n as u64).as_str(),
            ).concat(" bytes (max 65536)"),
            FramingError::ConnectionClosed => "connection closed".to_owned(),
        }
    }
}

/// Append a message with its length in front. A message that is larger than
/// allowed is refused, and nothing is appended; the error tells the length in 32
/// bits.
pub fn write_message(buf: &mut Vec<u8>, msg: &[u8]) -> (r: Result<(), FramingError>)
    ensures
        if msg@.len() > MAX_MESSAGE_SIZE {
            &&& r == Err::<(), FramingError>(FramingError::MessageTooLarge(msg@.len() as u32))
            &&& final(buf)@ == old(buf)@
        } else {
            &&& r is Ok
            &&& final(buf)@ == old(buf)@ + be32(msg@.len() as u32) + msg@
        },
{
    let len: u32 = msg.len() as u32;
    if msg.len() > MAX_MESSAGE_SIZE as usize {
        return Err(FramingError::MessageTooLarge(len));
    }
    put_u32(buf, len);
    put_slice(buf, msg);
    Ok(())
}

/// What to do after some bytes of a message have arrived.
#[derive(Debug)]
pub enum FrameStep {
    /// Read this many more bytes, and look again.
    NeedMore(usize),
    /// The message is complete.
    Message(Vec<u8>),
    /// The bytes are no message.
    Failed(FramingError),
}

/// Look at the bytes that have arrived: first the length, then the message.
pub fn read_message(received: &[u8]) -> (r: FrameStep)
    ensures
        if received@.len() < 4 {
            r == FrameStep::NeedMore((4 - received@.len()) as usize)
        } else if be32_at(received@, 0) > MAX_MESSAGE_SIZE {
            r == FrameStep::Failed(FramingError::MessageTooLarge(be32_at(received@, 0)))
        } else if received@.len() < 4 + be32_at(received@, 0) {
            r == FrameStep::NeedMore((4 + be32_at(received@, 0) - received@.len()) as usize)
        } else {
            r matches FrameStep::Message(m) && m@ == received@.subrange(
                4,
                4 + be32_at(received@, 0),
            )
        },
{
    if received.len() < 4 {
        return FrameStep::NeedMore(4 - received.len());
    }
    let mut head: &[u8] = received;
    let len = get_u32(&mut head);
    if len > MAX_MESSAGE_SIZE {
        return FrameStep::Failed(FramingError::MessageTooLarge(len));
    }
    let end: usize = 4 + len as usize;
    if received.len() < end {
        return FrameStep::NeedMore(end - received.len());
    }
    FrameStep::Message(slice_to_vec(slice_subrange(received, 4, end)))
}

/// The error for a read that failed after some bytes of a message: the end of
/// the stream before the length is complete is a closed connection.
pub fn read_failure(received: usize, end_of_stream: bool, e: std::io::Error) -> (r: FramingError)
    ensures
        r == if received < 4 && end_of_stream {
            FramingError::ConnectionClosed
        } else {
            FramingError::Io(e)
        },
{
    if received < 4 && end_of_stream {
        FramingError::ConnectionClosed
    } else {
        FramingError::Io(e)
    }
}

/// A framed message that is no larger than allowed is read back as it was,
/// whatever follows, and takes four bytes more than it has.
pub proof fn law_framing_round_trip(msg: Seq<u8>, rest: Seq<u8>)
    requires
        msg.len() <= MAX_MESSAGE_SIZE,
    ensures
        ({
            let b = be32(msg.len() as u32) + msg + rest;
            &&& be32_at(b, 0) == msg.len()
            &&& b.subrange(4, 4 + be32_at(b, 0)) == msg
        }),
{
    let b = be32(msg.len() as u32) + msg + rest;
    assert(b.subrange(0, 4) =~= be32(msg.len() as u32));
    lemma_be32_at(b, 0, msg.len() as u32);
    assert(b.subrange(4, 4 + (msg.len() as int)) =~= msg);
}

/// A message that was written is read back as it was, and the connection asks
/// for no byte more; the first four bytes are its length, most significant byte
/// first.
pub proof fn law_message_written_and_read(
    buf: &mut Vec<u8>,
    msg: &[u8],
    received: &[u8],
    written: Result<(), FramingError>,
    step: FrameStep,
)
    requires
        old(buf)@.len() == 0,
        call_ensures(write_message, (buf, msg), written),
        received@ == final(buf)@,
        call_ensures(read_message, (received,), step),
    ensures
        written is Ok <==> msg@.len() <= 65536,
        written is Err ==> final(buf)@.len() == 0,
        written is Ok ==> (step matches FrameStep::Message(m) && m@ == msg@) && received@.len() == 4
            + msg@.len() && ((received@[0] * 256 + received@[1]) * 256 + received@[2]) * 256
            + received@[3] == msg@.len(),
{
    if msg@.len() <= 65536 {
        law_framing_round_trip(msg@, Seq::empty());
        let b = be32(msg@.len() as u32) + msg@ + Seq::empty();
        assert(received@ =~= b);
        crate::endian::law_bytes_stand_for(b, 0);
    }
}

/// While a message is not complete, exactly as many bytes are asked for as are
/// missing of its length or, once that is there, of the message.
pub proof fn law_bytes_asked(received: &[u8], n: usize)
    requires
        call_ensures(read_message, (received,), FrameStep::NeedMore(n)),
    ensures
        n > 0,
        received@.len() < 4 ==> received@.len() + n == 4,
        received@.len() >= 4 ==> received@.len() + n == 4 + be32_at(received@, 0) && be32_at(
            received@,
            0,
        ) <= 65536,
{
}

/// Each error has the code that the protocol has for it, and tells its detail.
pub proof fn law_error_codes(
    detail: &str,
    parse: JsonRpcError,
    request: JsonRpcError,
    method: JsonRpcError,
    params: JsonRpcError,
    internal: JsonRpcError,
)
    requires
        call_ensures(JsonRpcError::parse_error, (detail,), parse),
        call_ensures(JsonRpcError::invalid_request, (detail,), request),
        call_ensures(JsonRpcError::method_not_found, (detail,), method),
        call_ensures(JsonRpcError::invalid_params, (detail,), params),
        call_ensures(JsonRpcError::internal_error, (detail,), internal),
    ensures
        parse.code == -32700,
        request.code == -32600,
        method.code == -32601,
        params.code == -32602,
        internal.code == -32603,
        parse.data matches Some(Json::Str(s)) && s@ == detail@,
        request.data matches Some(Json::Str(s)) && s@ == detail@,
        method.data matches Some(Json::Str(s)) && s@ == detail@,
        params.data matches Some(Json::Str(s)) && s@ == detail@,
        internal.data matches Some(Json::Str(s)) && s@ == detail@,
{
}

/// What serving a request gave is what the caller makes of the response, and
/// the response has the identification of the request.
pub proof fn law_answer_and_outcome(
    id: Option<Json>,
    outcome: Result<Json, JsonRpcError>,
    response: JsonRpcResponse,
    r: Result<Json, JsonRpcError>,
)
    requires
        call_ensures(JsonRpcResponse::answer, (id, outcome), response),
        call_ensures(JsonRpcResponse::outcome, (response,), r),
    ensures
        r == outcome,
        response.id == id,
        response.result is Some <==> outcome is Ok,
        response.error is Some <==> outcome is Err,
{
}

/// The end of the stream between messages closes the connection; within one, or
/// any other failure, is an error of its own.
pub proof fn law_read_failures(
    received: usize,
    end_of_stream: bool,
    e: std::io::Error,
    r: FramingError,
)
    requires
        call_ensures(read_failure, (received, end_of_stream, e), r),
    ensures
        r is ConnectionClosed <==> received < 4 && end_of_stream,
        r is Io <==> !(received < 4 && end_of_stream),
{
}

} // verus!
