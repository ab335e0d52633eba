//! Protocol messages and their JSON form.
//!
//! Every message is a JSON object with a `seq` number and a `type` that is
//! one of `request`, `response` and `event`.  Which of the three a message
//! is follows from `type` alone, never from which other members happen to be
//! there.
use crate::framing::{encode_frame, frame, lemma_frame_round_trip, parse_frame, Parsed};
use crate::json::{
    as_boolean, as_natural, as_text, boolean, empty_object, member, natural, parse, parsed, print,
    printed, set_member, shape_of, text, Shape,
};
use serde_json::Value;
use vstd::prelude::*;

verus! {

/// A request: one that this client issues, or one that the adapter
/// addresses to the client.
#[derive(Debug, Clone, PartialEq)]
pub struct Request {
    pub seq: u64,
    pub command: String,
    pub arguments: Option<Value>,
}

/// The answer to the request numbered `request_seq`.
#[derive(Debug, Clone, PartialEq)]
pub struct Response {
    pub seq: u64,
    pub request_seq: u64,
    pub success: bool,
    pub command: String,
    /// Set by the adapter where `success` is false.
    pub message: Option<String>,
    pub body: Option<Value>,
}

/// A notification that answers no request.
#[derive(Debug, Clone, PartialEq)]
pub struct Event {
    pub seq: u64,
    pub event: String,
    pub body: Option<Value>,
}

#[derive(Debug, Clone, PartialEq)]
pub enum Payload {
    Event(Event),
    Request(Request),
    Response(Response),
}

pub struct RequestView {
    pub seq: u64,
    pub command: Seq<char>,
    pub arguments: Option<Value>,
}

pub struct ResponseView {
    pub seq: u64,
    pub request_seq: u64,
    pub success: bool,
    pub command: Seq<char>,
    pub message: Option<Seq<char>>,
    pub body: Option<Value>,
}

pub struct EventView {
    pub seq: u64,
    pub event: Seq<char>,
    pub body: Option<Value>,
}

pub enum PayloadView {
    Event(EventView),
    Request(RequestView),
    Response(ResponseView),
}

impl View for Request {
    type V = RequestView;

    open spec fn view(&self) -> RequestView {
        RequestView { seq: self.seq, command: self.command@, arguments: self.arguments }
    }
}

impl View for Response {
    type V = ResponseView;

    open spec fn view(&self) -> ResponseView {
        ResponseView {
            seq: self.seq,
            request_seq: self.request_seq,
            success: self.success,
            command: self.command@,
            message: match self.message {
                Some(m) => Some(m@),
                None => None,
            },
            body: self.body,
        }
    }
}

impl View for Event {
    type V = EventView;

    open spec fn view(&self) -> EventView {
        EventView { seq: self.seq, event: self.event@, body: self.body }
    }
}

impl View for Payload {
    type V = PayloadView;

    open spec fn view(&self) -> PayloadView {
        match self {
            Payload::Event(e) => PayloadView::Event(e@),
            Payload::Request(r) => PayloadView::Request(r@),
            Payload::Response(r) => PayloadView::Response(r@),
        }
    }
}

/// Why a JSON value is no protocol message.
#[derive(Clone, Copy, Debug, PartialEq, Eq, Structural)]
pub enum ShapeError {
    /// The value is no object, or its `type` is missing, is no string, or is
    /// none of `request`, `response` and `event`.
    UnknownType,
    /// A request without a `seq` number or a `command` string.
    MalformedRequest,
    /// A response without a `seq` number, a `request_seq` number, a
    /// `success` flag or a `command` string.
    MalformedResponse,
    /// An event without a `seq` number or an `event` string.
    MalformedEvent,
}

/// Why bytes are no protocol message.
#[derive(Clone, Copy, Debug, PartialEq, Eq, Structural)]
pub enum DecodeError {
    /// The bytes are not JSON.
    Syntax,
    /// The bytes are JSON, but no message.
    Shape(ShapeError),
}

/// The member of `v` under `key`, where `v` is an object that has one.
pub open spec fn field(v: Value, key: Seq<char>) -> Option<Value> {
    match shape_of(v) {
        Shape::Object(members) => if members.contains_key(key) {
            Some(members[key])
        } else {
            None
        },
        _ => None,
    }
}

/// The member of `v` under `key`, where it is a string.
pub open spec fn text_field(v: Value, key: Seq<char>) -> Option<Seq<char>> {
    match field(v, key) {
        Some(m) => match shape_of(m) {
            Shape::Text(s) => Some(s),
            _ => None,
        },
        None => None,
    }
}

/// The member of `v` under `key`, where it is a whole number from 0 to
/// 2^64 - 1.
pub open spec fn natural_field(v: Value, key: Seq<char>) -> Option<u64> {
    match field(v, key) {
        Some(m) => match shape_of(m) {
            Shape::Natural(n) => Some(n),
            _ => None,
        },
        None => None,
    }
}

/// The member of `v` under `key`, where it is a boolean.
pub open spec fn bool_field(v: Value, key: Seq<char>) -> Option<bool> {
    match field(v, key) {
        Some(m) => match shape_of(m) {
            Shape::Bool(b) => Some(b),
            _ => None,
        },
        None => None,
    }
}

pub open spec fn read_request(v: Value) -> Result<PayloadView, ShapeError> {
    match (natural_field(v, "seq"@), text_field(v, "command"@)) {
        (Some(seq), Some(command)) => Ok(
            PayloadView::Request(RequestView { seq, command, arguments: field(v, "arguments"@) }),
        ),
        _ => Err(ShapeError::MalformedRequest),
    }
}

pub open spec fn read_response(v: Value) -> Result<PayloadView, ShapeError> {
    match (
        natural_field(v, "seq"@),
        natural_field(v, "request_seq"@),
        bool_field(v, "success"@),
        text_field(v, "command"@),
    ) {
        (Some(seq), Some(request_seq), Some(success), Some(command)) => Ok(
            PayloadView::Response(
                ResponseView {
                    seq,
                    request_seq,
                    success,
                    command,
                    message: text_field(v, "message"@),
                    body: field(v, "body"@),
                },
            ),
        ),
        _ => Err(ShapeError::MalformedResponse),
    }
}

pub open spec fn read_event(v: Value) -> Result<PayloadView, ShapeError> {
    match (natural_field(v, "seq"@), text_field(v, "event"@)) {
        (Some(seq), Some(event)) => Ok(
            PayloadView::Event(EventView { seq, event, body: field(v, "body"@) }),
        ),
        _ => Err(ShapeError::MalformedEvent),
    }
}

/// The message that the JSON value `v` is.
pub open spec fn read_payload(v: Value) -> Result<PayloadView, ShapeError> {
    match text_field(v, "type"@) {
        Some(kind) => if kind == "request"@ {
            read_request(v)
        } else if kind == "response"@ {
            read_response(v)
        } else if kind == "event"@ {
            read_event(v)
        } else {
            Err(ShapeError::UnknownType)
        },
        None => Err(ShapeError::UnknownType),
    }
}

/// The message that the bytes `text` are.
pub open spec fn read_message(text: Seq<u8>) -> Result<PayloadView, DecodeError> {
    match parsed(text) {
        Some(v) => match read_payload(v) {
            Ok(p) => Ok(p),
            Err(e) => Err(DecodeError::Shape(e)),
        },
        None => Err(DecodeError::Syntax),
    }
}

fn same_text(a: &String, b: &str) -> (r: bool)
    ensures
        r == (a@ == b@),
{
    let b_owned: String = b.to_owned();
    *a == b_owned
}

fn copy_member(v: &Value, key: &str) -> (r: Option<Value>)
    ensures
        r == field(*v, key@),
{
    match member(v, key) {
        Some(m) => Some(m.clone()),
        None => None,
    }
}

fn text_member(v: &Value, key: &str) -> (r: Option<String>)
    ensures
        match r {
            Some(s) => text_field(*v, key@) == Some(s@),
            None => text_field(*v, key@) is None,
        },
{
    match member(v, key) {
        Some(m) => as_text(m),
        None => None,
    }
}

fn natural_member(v: &Value, key: &str) -> (r: Option<u64>)
    ensures
        r == natural_field(*v, key@),
{
    match member(v, key) {
        Some(m) => as_natural(m),
        None => None,
    }
}

fn bool_member(v: &Value, key: &str) -> (r: Option<bool>)
    ensures
        r == bool_field(*v, key@),
{
    match member(v, key) {
        Some(m) => as_boolean(m),
        None => None,
    }
}

fn request_from_json(v: &Value) -> (r: Result<Payload, ShapeError>)
    ensures
        match r {
            Ok(p) => read_request(*v) == Ok::<PayloadView, ShapeError>(p@),
            Err(e) => read_request(*v) == Err::<PayloadView, ShapeError>(e),
        },
{
    let seq: u64 = match natural_member(v, "seq") {
        Some(seq) => seq,
        None => {
            return Err(ShapeError::MalformedRequest);
        },
    };
    let command: String = match text_member(v, "command") {
        Some(command) => command,
        None => {
            return Err(ShapeError::MalformedRequest);
        },
    };
    Ok(Payload::Request(Request { seq, command, arguments: copy_member(v, "arguments") }))
}

fn response_from_json(v: &Value) -> (r: Result<Payload, ShapeError>)
    ensures
        match r {
            Ok(p) => read_response(*v) == Ok::<PayloadView, ShapeError>(p@),
            Err(e) => read_response(*v) == Err::<PayloadView, ShapeError>(e),
        },
{
    let seq: u64 = match natural_member(v, "seq") {
        Some(seq) => seq,
        None => {
            return Err(ShapeError::MalformedResponse);
        },
    };
    let request_seq: u64 = match natural_member(v, "request_seq") {
        Some(request_seq) => request_seq,
        None => {
            return Err(ShapeError::MalformedResponse);
        },
    };
    let success: bool = match bool_member(v, "success") {
        Some(success) => success,
        None => {
            return Err(ShapeError::MalformedResponse);
        },
    };
    let command: String = match text_member(v, "command") {
        Some(command) => command,
        None => {
            return Err(ShapeError::MalformedResponse);
        },
    };
    Ok(
        Payload::Response(
            Response {
                seq,
                request_seq,
                success,
                command,
                message: text_member(v, "message"),
                body: copy_member(v, "body"),
            },
        ),
    )
}

fn event_from_json(v: &Value) -> (r: Result<Payload, ShapeError>)
    ensures
        match r {
            Ok(p) => read_event(*v) == Ok::<PayloadView, ShapeError>(p@),
            Err(e) => read_event(*v) == Err::<PayloadView, ShapeError>(e),
        },
{
    let seq: u64 = match natural_member(v, "seq") {
        Some(seq) => seq,
        None => {
            return Err(ShapeError::MalformedEvent);
        },
    };
    let event: String = match text_member(v, "event") {
        Some(event) => event,
        None => {
            return Err(ShapeError::MalformedEvent);
        },
    };
    Ok(Payload::Event(Event { seq, event, body: copy_member(v, "body") }))
}

/// Reads a JSON value as a message.  `type` decides the kind; a message
/// that lacks a member its kind requires is refused as malformed.
pub fn payload_from_json(v: &Value) -> (r: Result<Payload, ShapeError>)
    ensures
        match r {
            Ok(p) => read_payload(*v) == Ok::<PayloadView, ShapeError>(p@),
            Err(e) => read_payload(*v) == Err::<PayloadView, ShapeError>(e),
        },
{
    let kind: String = match text_member(v, "type") {
        Some(kind) => kind,
        None => {
            return Err(ShapeError::UnknownType);
        },
    };
    if same_text(&kind, "request") {
        request_from_json(v)
    } else if same_text(&kind, "response") {
        response_from_json(v)
    } else if same_text(&kind, "event") {
        event_from_json(v)
    } else {
        Err(ShapeError::UnknownType)
    }
}

/// Reads the payload of one frame as a message.
pub fn decode_payload(text: &[u8]) -> (r: Result<Payload, DecodeError>)
    ensures
        match r {
            Ok(p) => read_message(text@) == Ok::<PayloadView, DecodeError>(p@),
            Err(e) => read_message(text@) == Err::<PayloadView, DecodeError>(e),
        },
{
    match parse(text) {
        Ok(v) => match payload_from_json(&v) {
            Ok(p) => Ok(p),
            Err(e) => Err(DecodeError::Shape(e)),
        },
        Err(_) => Err(DecodeError::Syntax),
    }
}

/// The keys of a request object.
pub open spec fn request_keys(with_arguments: bool) -> Set<Seq<char>> {
    let required = set!["seq"@, "type"@, "command"@];
    if with_arguments {
        required.insert("arguments"@)
    } else {
        required
    }
}

/// `v` is the JSON form of the request `r`: an object with `seq`, with
/// `type` set to `request`, with `command`, with `arguments` where the
/// request has them, and with nothing else.
pub open spec fn is_request_json(v: Value, r: RequestView) -> bool {
    &&& shape_of(v) matches Shape::Object(members) && members.dom() =~= request_keys(
        r.arguments is Some,
    )
    &&& natural_field(v, "seq"@) == Some(r.seq)
    &&& text_field(v, "type"@) == Some("request"@)
    &&& text_field(v, "command"@) == Some(r.command)
    &&& field(v, "arguments"@) == r.arguments
}

/// The keys of a response object.
pub open spec fn response_keys(with_message: bool, with_body: bool) -> Set<Seq<char>> {
    let required = set!["seq"@, "type"@, "request_seq"@, "success"@, "command"@];
    let messaged = if with_message {
        required.insert("message"@)
    } else {
        required
    };
    if with_body {
        messaged.insert("body"@)
    } else {
        messaged
    }
}

/// `v` is the JSON form of the response `r`: an object with `seq`, with
/// `type` set to `response`, with `request_seq`, `success` and `command`,
/// with `message` and `body` where the response has them, and with nothing
/// else.
pub open spec fn is_response_json(v: Value, r: ResponseView) -> bool {
    &&& shape_of(v) matches Shape::Object(members) && members.dom() =~= response_keys(
        r.message is Some,
        r.body is Some,
    )
    &&& natural_field(v, "seq"@) == Some(r.seq)
    &&& text_field(v, "type"@) == Some("response"@)
    &&& natural_field(v, "request_seq"@) == Some(r.request_seq)
    &&& bool_field(v, "success"@) == Some(r.success)
    &&& text_field(v, "command"@) == Some(r.command)
    &&& text_field(v, "message"@) == r.message
    &&& field(v, "body"@) == r.body
}

/// The texts that name kinds and members differ from one another.
proof fn lemma_names_differ()
    ensures
        "seq"@.len() == 3,
        "type"@.len() == 4 && "type"@[0] == 't',
        "body"@.len() == 4 && "body"@[0] == 'b',
        "command"@.len() == 7 && "command"@[0] == 'c',
        "success"@.len() == 7 && "success"@[0] == 's',
        "message"@.len() == 7 && "message"@[0] == 'm',
        "request"@.len() == 7 && "request"@[0] == 'r',
        "arguments"@.len() == 9,
        "request_seq"@.len() == 11,
        "response"@.len() == 8,
        "event"@.len() == 5,
{
    reveal_strlit("seq");
    reveal_strlit("type");
    reveal_strlit("body");
    reveal_strlit("command");
    reveal_strlit("success");
    reveal_strlit("message");
    reveal_strlit("request");
    reveal_strlit("arguments");
    reveal_strlit("request_seq");
    reveal_strlit("response");
    reveal_strlit("event");
}

/// The JSON form of a request.
pub fn request_to_json(request: &Request) -> (v: Value)
    ensures
        is_request_json(v, request@),
{
    proof {
        lemma_names_differ();
    }
    let mut v: Value = empty_object();
    set_member(&mut v, "seq", natural(request.seq));
    set_member(&mut v, "type", text("request"));
    set_member(&mut v, "command", text(request.command.as_str()));
    match &request.arguments {
        Some(arguments) => {
            set_member(&mut v, "arguments", arguments.clone());
        },
        None => {},
    }
    v
}

/// The JSON form of a response.
pub fn response_to_json(response: &Response) -> (v: Value)
    ensures
        is_response_json(v, response@),
{
    proof {
        lemma_names_differ();
    }
    let mut v: Value = empty_object();
    set_member(&mut v, "seq", natural(response.seq));
    set_member(&mut v, "type", text("response"));
    set_member(&mut v, "request_seq", natural(response.request_seq));
    set_member(&mut v, "success", boolean(response.success));
    set_member(&mut v, "command", text(response.command.as_str()));
    match &response.message {
        Some(message) => {
            set_member(&mut v, "message", text(message.as_str()));
        },
        None => {},
    }
    match &response.body {
        Some(body) => {
            set_member(&mut v, "body", body.clone());
        },
        None => {},
    }
    v
}

/// Writes `v` as compact JSON text and puts the text into a frame.  `None`
/// where `serde_json` refuses to write the value.
pub fn frame_json(v: &Value) -> (r: Option<Vec<u8>>)
    ensures
        match printed(*v) {
            Some(payload) => r matches Some(bytes) && bytes@ == frame(payload),
            None => r is None,
        },
{
    match print(v) {
        Ok(payload) => Some(encode_frame(payload.as_slice())),
        Err(_) => None,
    }
}

/// The bytes that carry `request` on the wire: the frame of the text of its
/// JSON form.  `None` where `serde_json` refuses to write that form.
pub fn encode_request(request: &Request) -> (r: Option<Vec<u8>>)
    ensures
        exists|v: Value|
            #![trigger is_request_json(v, request@)]
            is_request_json(v, request@) && match printed(v) {
                Some(payload) => r matches Some(bytes) && bytes@ == frame(payload),
                None => r is None,
            },
{
    let v: Value = request_to_json(request);
    frame_json(&v)
}

/// The bytes that carry `response` on the wire: the frame of the text of
/// its JSON form.  `None` where `serde_json` refuses to write that form.
pub fn encode_response(response: &Response) -> (r: Option<Vec<u8>>)
    ensures
        exists|v: Value|
            #![trigger is_response_json(v, response@)]
            is_response_json(v, response@) && match printed(v) {
                Some(payload) => r matches Some(bytes) && bytes@ == frame(payload),
                None => r is None,
            },
{
    let v: Value = response_to_json(response);
    frame_json(&v)
}

/// Round trip of a request through its JSON form: the value that stands for
/// a request reads back as that request, with the same number, command and
/// arguments.
pub proof fn lemma_request_round_trip(v: Value, r: RequestView)
    requires
        is_request_json(v, r),
    ensures
        read_payload(v) == Ok::<PayloadView, ShapeError>(PayloadView::Request(r)),
{
}

/// Round trip of a response through its JSON form.
pub proof fn lemma_response_round_trip(v: Value, r: ResponseView)
    requires
        is_response_json(v, r),
    ensures
        read_payload(v) == Ok::<PayloadView, ShapeError>(PayloadView::Response(r)),
{
    lemma_names_differ();
}

/// Round trip of a request over the wire: where the text that `serde_json`
/// writes for the JSON form of a request reads back as the value it was
/// written from, the frame of that text, whatever follows it, decodes to
/// the text, and the text to the request, with its number, command and
/// arguments unchanged.
pub proof fn lemma_request_survives_the_wire(
    request: RequestView,
    v: Value,
    payload: Seq<u8>,
    rest: Seq<u8>,
)
    requires
        is_request_json(v, request),
        printed(v) == Some(payload),
        parsed(payload) == Some(v),
        payload.len() <= usize::MAX,
    ensures
        parse_frame(frame(payload) + rest) == (Parsed::Frame {
            payload,
            consumed: frame(payload).len() as int,
        }),
        read_message(payload) == Ok::<PayloadView, DecodeError>(PayloadView::Request(request)),
{
    lemma_frame_round_trip(payload, rest);
    lemma_request_round_trip(v, request);
}

} // verus!
