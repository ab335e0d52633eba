use dap::framing::{decode_frame, Decoded};
use dap::message::{
    decode_payload, encode_request, encode_response, frame_json, payload_from_json,
    request_to_json, response_to_json, DecodeError, Event, Payload, Request, Response, ShapeError,
};
use serde_json::Value;

fn json(text: &str) -> Value {
    serde_json::from_str(text).unwrap()
}

fn through_the_wire(request: &Request) -> Payload {
    let bytes = encode_request(request).unwrap();
    match decode_frame(&bytes) {
        Decoded::Frame { payload, consumed } => {
            assert_eq!(consumed, bytes.len());
            decode_payload(&payload).unwrap()
        }
        other => panic!("unexpected {:?}", other),
    }
}

#[test]
fn request_to_json_writes_the_members_of_a_request() {
    let request = Request {
        seq: 3,
        command: "next".to_string(),
        arguments: Some(json("{\"threadId\":1}")),
    };
    assert_eq!(
        request_to_json(&request),
        json("{\"seq\":3,\"type\":\"request\",\"command\":\"next\",\"arguments\":{\"threadId\":1}}")
    );
}

#[test]
fn request_to_json_leaves_out_absent_arguments() {
    let request = Request { seq: 0, command: "threads".to_string(), arguments: None };
    assert_eq!(
        request_to_json(&request),
        json("{\"seq\":0,\"type\":\"request\",\"command\":\"threads\"}")
    );
}

#[test]
fn response_to_json_writes_the_members_of_a_response() {
    let response = Response {
        seq: 9,
        request_seq: 4,
        success: false,
        command: "runInTerminal".to_string(),
        message: Some("not supported".to_string()),
        body: None,
    };
    assert_eq!(
        response_to_json(&response),
        json(
            "{\"seq\":9,\"type\":\"response\",\"request_seq\":4,\"success\":false,\
             \"command\":\"runInTerminal\",\"message\":\"not supported\"}"
        )
    );
    let with_body = Response {
        seq: 1,
        request_seq: 0,
        success: true,
        command: "x".to_string(),
        message: None,
        body: Some(json("[1,2]")),
    };
    assert_eq!(
        response_to_json(&with_body),
        json("{\"seq\":1,\"type\":\"response\",\"request_seq\":0,\"success\":true,\"command\":\"x\",\"body\":[1,2]}")
    );
}

#[test]
fn frame_json_frames_the_compact_text() {
    let bytes = frame_json(&json("{ \"a\" : [ 1, true ] }")).unwrap();
    assert_eq!(bytes, b"Content-Length: 14\r\n\r\n{\"a\":[1,true]}".to_vec());
}

#[test]
fn encode_request_then_decode_gives_the_request_back() {
    let shapes = [
        "17",
        "-4",
        "\"text with \\\"quotes\\\" and \\r\\n line ends\"",
        "true",
        "false",
        "null",
        "[]",
        "{}",
        "{\"threadId\":1,\"granularity\":\"statement\"}",
        "{\"a\":{\"b\":{\"c\":[1,\"two\",false,{\"d\":null}]}},\"e\":\"\\u00e9\"}",
        "{\"big\":18446744073709551615}",
    ];
    for (i, shape) in shapes.iter().enumerate() {
        let request = Request {
            seq: i as u64,
            command: format!("command{}", i),
            arguments: Some(json(shape)),
        };
        assert_eq!(through_the_wire(&request), Payload::Request(request));
    }
    let bare = Request { seq: u64::MAX, command: "".to_string(), arguments: None };
    assert_eq!(through_the_wire(&bare), Payload::Request(bare));
}

#[test]
fn encode_response_then_decode_gives_the_response_back() {
    let response = Response {
        seq: 2,
        request_seq: 1,
        success: false,
        command: "startDebugging".to_string(),
        message: Some("not supported".to_string()),
        body: Some(json("{\"error\":{\"id\":1}}")),
    };
    let bytes = encode_response(&response).unwrap();
    match decode_frame(&bytes) {
        Decoded::Frame { payload, .. } => {
            assert_eq!(decode_payload(&payload), Ok(Payload::Response(response)));
        }
        other => panic!("unexpected {:?}", other),
    }
}

#[test]
fn payload_from_json_reads_an_event() {
    let v = json("{\"seq\":5,\"type\":\"event\",\"event\":\"stopped\",\"body\":{\"reason\":\"breakpoint\",\"threadId\":1}}");
    assert_eq!(
        payload_from_json(&v),
        Ok(Payload::Event(Event {
            seq: 5,
            event: "stopped".to_string(),
            body: Some(json("{\"reason\":\"breakpoint\",\"threadId\":1}")),
        }))
    );
    let bare = json("{\"seq\":6,\"type\":\"event\",\"event\":\"initialized\"}");
    assert_eq!(
        payload_from_json(&bare),
        Ok(Payload::Event(Event { seq: 6, event: "initialized".to_string(), body: None }))
    );
}

#[test]
fn payload_from_json_reads_a_response() {
    let v = json(
        "{\"seq\":8,\"type\":\"response\",\"request_seq\":2,\"success\":false,\
         \"command\":\"launch\",\"message\":\"no program\"}",
    );
    assert_eq!(
        payload_from_json(&v),
        Ok(Payload::Response(Response {
            seq: 8,
            request_seq: 2,
            success: false,
            command: "launch".to_string(),
            message: Some("no program".to_string()),
            body: None,
        }))
    );
}

#[test]
fn payload_from_json_reads_a_request_of_the_adapter() {
    let v = json("{\"seq\":1,\"type\":\"request\",\"command\":\"runInTerminal\",\"arguments\":{\"args\":[\"a\"]}}");
    assert_eq!(
        payload_from_json(&v),
        Ok(Payload::Request(Request {
            seq: 1,
            command: "runInTerminal".to_string(),
            arguments: Some(json("{\"args\":[\"a\"]}")),
        }))
    );
}

#[test]
fn payload_from_json_keeps_an_explicit_null_body() {
    let v = json("{\"seq\":1,\"type\":\"event\",\"event\":\"e\",\"body\":null}");
    assert_eq!(
        payload_from_json(&v),
        Ok(Payload::Event(Event { seq: 1, event: "e".to_string(), body: Some(Value::Null) }))
    );
}

#[test]
fn payload_from_json_goes_by_type_and_not_by_members() {
    let v = json(
        "{\"seq\":1,\"type\":\"event\",\"event\":\"output\",\"command\":\"next\",\
         \"request_seq\":0,\"success\":true}",
    );
    assert!(matches!(payload_from_json(&v), Ok(Payload::Event(_))));
}

#[test]
fn payload_from_json_refuses_an_unknown_type() {
    for text in [
        "{\"seq\":1,\"command\":\"next\"}",
        "{\"seq\":1,\"type\":\"reply\"}",
        "{\"seq\":1,\"type\":7}",
        "{\"seq\":1,\"type\":\"Request\",\"command\":\"next\"}",
        "[1,2]",
        "\"request\"",
        "null",
    ] {
        assert_eq!(payload_from_json(&json(text)), Err(ShapeError::UnknownType), "{}", text);
    }
}

#[test]
fn payload_from_json_refuses_a_malformed_request() {
    for text in [
        "{\"type\":\"request\",\"command\":\"next\"}",
        "{\"seq\":1,\"type\":\"request\"}",
        "{\"seq\":-1,\"type\":\"request\",\"command\":\"next\"}",
        "{\"seq\":1.5,\"type\":\"request\",\"command\":\"next\"}",
        "{\"seq\":\"1\",\"type\":\"request\",\"command\":\"next\"}",
        "{\"seq\":1,\"type\":\"request\",\"command\":7}",
    ] {
        assert_eq!(payload_from_json(&json(text)), Err(ShapeError::MalformedRequest), "{}", text);
    }
}

#[test]
fn payload_from_json_refuses_a_malformed_response() {
    for text in [
        "{\"type\":\"response\",\"request_seq\":1,\"success\":true,\"command\":\"next\"}",
        "{\"seq\":1,\"type\":\"response\",\"success\":true,\"command\":\"next\"}",
        "{\"seq\":1,\"type\":\"response\",\"request_seq\":1,\"command\":\"next\"}",
        "{\"seq\":1,\"type\":\"response\",\"request_seq\":1,\"success\":true}",
        "{\"seq\":1,\"type\":\"response\",\"request_seq\":1,\"success\":\"true\",\"command\":\"next\"}",
    ] {
        assert_eq!(payload_from_json(&json(text)), Err(ShapeError::MalformedResponse), "{}", text);
    }
}

#[test]
fn payload_from_json_refuses_a_malformed_event() {
    for text in [
        "{\"type\":\"event\",\"event\":\"stopped\"}",
        "{\"seq\":1,\"type\":\"event\"}",
        "{\"seq\":1,\"type\":\"event\",\"event\":null}",
    ] {
        assert_eq!(payload_from_json(&json(text)), Err(ShapeError::MalformedEvent), "{}", text);
    }
}

#[test]
fn payload_from_json_takes_a_message_that_is_no_text_as_absent() {
    let v = json("{\"seq\":1,\"type\":\"response\",\"request_seq\":1,\"success\":false,\"command\":\"c\",\"message\":5}");
    match payload_from_json(&v) {
        Ok(Payload::Response(response)) => assert_eq!(response.message, None),
        other => panic!("unexpected {:?}", other),
    }
}

#[test]
fn decode_payload_tells_syntax_from_shape() {
    assert_eq!(decode_payload(b"{\"seq\":1,"), Err(DecodeError::Syntax));
    assert_eq!(decode_payload(b""), Err(DecodeError::Syntax));
    assert_eq!(decode_payload(b"\xff\xfe"), Err(DecodeError::Syntax));
    assert_eq!(decode_payload(b"{}"), Err(DecodeError::Shape(ShapeError::UnknownType)));
    assert_eq!(
        decode_payload(b"{\"type\":\"event\"}"),
        Err(DecodeError::Shape(ShapeError::MalformedEvent))
    );
    assert!(matches!(
        decode_payload(b" {\"seq\":1, \"type\":\"event\", \"event\":\"e\"} "),
        Ok(Payload::Event(_))
    ));
}
