use mdcs::plugin::instance::PendingCall;
use mdcs::plugin::request::{
    DescribeDevice, ReadAttribute, Request, RunAction, Signal, WriteAttribute,
};
use mdcs::plugin::response::{
    Action, ActionResult, Attribute, AttributeValue, Device, Error, PluginResponse, Status,
};
use mdcs::plugin::wire::{
    classify_request_datum, decode_request, decode_response, encode_request, encode_response,
    DatumState,
};

fn request_round_trip(request: Request) {
    let mut bytes = Vec::new();
    encode_request(&request, &mut bytes);
    let (decoded, end) = decode_request(&bytes, 0).expect("own encoding decodes");
    assert_eq!(decoded, request);
    assert_eq!(end, bytes.len());
}

fn response_round_trip(response: PluginResponse) {
    let mut bytes = Vec::new();
    encode_response(&response, &mut bytes);
    let (decoded, end) = decode_response(&bytes, 0).expect("own encoding decodes");
    assert_eq!(decoded, response);
    assert_eq!(end, bytes.len());
}

#[test]
fn every_request_round_trips() {
    request_round_trip(Request::Signal(Signal::Quit));
    request_round_trip(Request::DescribeDevice(DescribeDevice {}));
    request_round_trip(Request::ReadAttribute(ReadAttribute { path: "serial".to_string() }));
    request_round_trip(Request::WriteAttribute(WriteAttribute {
        path: "level".to_string(),
        value: vec![1, 2, 3],
    }));
    request_round_trip(Request::RunAction(RunAction {
        path: "say".to_string(),
        input: vec![],
    }));
}

#[test]
fn every_response_round_trips() {
    response_round_trip(PluginResponse::Status(Status::Okay));
    response_round_trip(PluginResponse::Error(Error {
        message: "Path not found".to_string(),
        path: Some("missing".to_string()),
    }));
    response_round_trip(PluginResponse::Error(Error {
        message: "Failed to unserialize request".to_string(),
        path: None,
    }));
    response_round_trip(PluginResponse::Device(Device {
        name: "host".to_string(),
        attributes: vec![Attribute {
            path: "serial".to_string(),
            flags: vec!["read".to_string()],
            schema: "\"string\"".to_string(),
        }],
        actions: vec![Action {
            path: "say".to_string(),
            input_schema: "\"string\"".to_string(),
            output_schema: "\"null\"".to_string(),
        }],
    }));
    response_round_trip(PluginResponse::Device(Device {
        name: "empty".to_string(),
        attributes: vec![],
        actions: vec![],
    }));
    response_round_trip(PluginResponse::AttributeValue(AttributeValue {
        value: vec![5, 6],
        time: 1700000000000,
    }));
    response_round_trip(PluginResponse::ActionResult(ActionResult {
        output: vec![],
        start: 1700000000000,
        end: 1700000000007,
    }));
}

#[test]
fn request_streams_carry_records_back_to_back() {
    let mut stream = Vec::new();
    encode_request(
        &Request::ReadAttribute(ReadAttribute { path: "serial".to_string() }),
        &mut stream,
    );
    encode_request(&Request::Signal(Signal::Quit), &mut stream);
    let (first, after_first) = decode_request(&stream, 0).unwrap();
    assert_eq!(
        first,
        Request::ReadAttribute(ReadAttribute { path: "serial".to_string() })
    );
    let (second, end) = decode_request(&stream, after_first).unwrap();
    assert_eq!(second, Request::Signal(Signal::Quit));
    assert_eq!(end, stream.len());
}

#[test]
fn truncated_records_are_refused() {
    let mut bytes = Vec::new();
    encode_request(
        &Request::ReadAttribute(ReadAttribute { path: "serial".to_string() }),
        &mut bytes,
    );
    bytes.truncate(bytes.len() - 1);
    assert!(decode_request(&bytes, 0).is_none());
    assert!(decode_response(&[9], 0).is_none());
    assert!(decode_request(&[], 0).is_none());
}

#[test]
fn pending_call_carries_one_request_and_one_response() {
    let call = PendingCall::new(Request::ReadAttribute(ReadAttribute {
        path: "serial".to_string(),
    }));
    assert!(!call.is_complete());

    let outbound = call.wire_request();
    let (request, _) = decode_request(&outbound, 0).unwrap();
    assert_eq!(
        request,
        Request::ReadAttribute(ReadAttribute { path: "serial".to_string() })
    );

    let response = PluginResponse::AttributeValue(AttributeValue {
        value: vec![1],
        time: 12345,
    });
    let mut inbound = Vec::new();
    encode_response(&response, &mut inbound);

    let mut call = call;
    let consumed = call.complete_from(&inbound, 0).expect("response decodes");
    assert_eq!(consumed, inbound.len());
    assert!(call.is_complete());
    assert_eq!(call.take_response(), response);
}

#[test]
fn completion_with_garbage_leaves_the_slot_empty() {
    let mut call = PendingCall::new(Request::Signal(Signal::Quit));
    assert!(call.complete_from(&[250, 1], 0).is_none());
    assert!(!call.is_complete());
}

#[test]
fn classifier_tells_slow_senders_from_broken_ones() {
    let mut bytes = Vec::new();
    encode_request(
        &Request::ReadAttribute(ReadAttribute { path: "serial".to_string() }),
        &mut bytes,
    );
    assert_eq!(classify_request_datum(&bytes, 0), DatumState::Complete);

    // a record cut anywhere short of its end is incomplete, not broken
    for cut in 0..bytes.len() {
        assert_eq!(classify_request_datum(&bytes[..cut], 0), DatumState::Incomplete);
    }

    // an unknown tag can never begin a record
    assert_eq!(classify_request_datum(&[9, 1, 2], 0), DatumState::Malformed);
    // a signal byte naming no signal
    assert_eq!(classify_request_datum(&[0, 7], 0), DatumState::Malformed);
    // a path that is not UTF-8, fully present
    assert_eq!(
        classify_request_datum(&[2, 1, 0, 0, 0, 0, 0, 0, 0, 0xFF], 0),
        DatumState::Malformed
    );
}
