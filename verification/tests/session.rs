//! One full exchange carried entirely in memory: the host side encodes a
//! stream of request records, the plugin side serves them datum by datum
//! until the quit signal, and the host side decodes the response stream.

use mdcs::codec::{decode_value, encode_value};
use mdcs::device::device::{Device, Member};
use mdcs::device::stored::{StoredAction, StoredAttribute};
use mdcs::plugin::request::{ReadAttribute, Request, RunAction, Signal};
use mdcs::plugin::response::{PluginResponse, Status};
use mdcs::plugin::server::PluginServer;
use mdcs::plugin::wire::{decode_response, encode_request};
use mdcs::schema::Schema;
use mdcs::value::Value;

fn host_device() -> PluginServer<StoredAttribute, StoredAction> {
    let mut device: Device<StoredAttribute, StoredAction> = Device::new();
    device
        .insert(
            "serial",
            Member::Attribute(StoredAttribute {
                schema: Schema::String,
                readable: true,
                writable: false,
                value: Value::String("ABC123".to_string()),
            }),
        )
        .unwrap();
    device
        .insert(
            "ping",
            Member::Action(StoredAction {
                input_schema: Schema::Null,
                output_schema: Schema::String,
                output: Value::String("pong".to_string()),
            }),
        )
        .unwrap();
    PluginServer::new("host".to_string(), device)
}

#[test]
fn serve_until_quit_then_stop() {
    // the host writes four requests; the fourth sits after the quit
    // signal and must never be answered
    let mut inbound: Vec<u8> = Vec::new();
    encode_request(
        &Request::ReadAttribute(ReadAttribute { path: "serial".to_string() }),
        &mut inbound,
    );
    encode_request(
        &Request::RunAction(RunAction { path: "ping".to_string(), input: vec![] }),
        &mut inbound,
    );
    encode_request(&Request::Signal(Signal::Quit), &mut inbound);
    encode_request(
        &Request::ReadAttribute(ReadAttribute { path: "serial".to_string() }),
        &mut inbound,
    );

    // the plugin serves the stream in strict alternation until the quit
    // flag rises
    let mut server = host_device();
    let mut outbound: Vec<u8> = Vec::new();
    let mut pos = 0;
    let mut served = 0;
    while pos < inbound.len() && !server.should_quit() {
        pos = server
            .handle_datum(&inbound, pos, &mut outbound)
            .expect("well-formed request stream");
        served += 1;
    }
    assert_eq!(served, 3);
    assert!(server.should_quit());
    assert!(pos < inbound.len(), "the request after quit stays unread");

    // the host reads the three responses back off the stream
    let (first, after_first) = decode_response(&outbound, 0).unwrap();
    match first {
        PluginResponse::AttributeValue(av) => {
            let (value, _) = decode_value(&Schema::String, &av.value, 0).unwrap();
            assert_eq!(value, Value::String("ABC123".to_string()));
        }
        other => panic!("expected AttributeValue, got {:?}", other),
    }
    let (second, after_second) = decode_response(&outbound, after_first).unwrap();
    match second {
        PluginResponse::ActionResult(result) => {
            assert!(result.start <= result.end);
            let expected =
                encode_value(&Schema::String, &Value::String("pong".to_string())).unwrap();
            assert_eq!(result.output, expected);
        }
        other => panic!("expected ActionResult, got {:?}", other),
    }
    let (third, end) = decode_response(&outbound, after_second).unwrap();
    assert_eq!(third, PluginResponse::Status(Status::Okay));
    assert_eq!(end, outbound.len());
}

#[test]
fn malformed_request_datum_is_answered_with_an_error() {
    let mut server = host_device();
    let mut outbound: Vec<u8> = Vec::new();
    // tag 9 names no request record
    let next = server.handle_datum(&[9, 9, 9], 0, &mut outbound);
    assert!(next.is_none());
    let (response, _) = decode_response(&outbound, 0).unwrap();
    match response {
        PluginResponse::Error(error) => {
            assert_eq!(error.message, "Failed to unserialize request");
            assert_eq!(error.path, None);
        }
        other => panic!("expected Error, got {:?}", other),
    }
    assert!(!server.should_quit());
}
