use mdcs::codec::encode_value;
use mdcs::device::action::Action;
use mdcs::device::attribute::{Attribute, AttributeFlags};
use mdcs::device::error::DeviceError;
use mdcs::device::device::{Device, Member};
use mdcs::device::stored::{DeclaredAction, DeclaredAttribute, StoredAction, StoredAttribute};
use mdcs::plugin::request::{
    DescribeDevice, ReadAttribute, Request, RunAction, Signal, WriteAttribute,
};
use mdcs::plugin::response::{PluginResponse, Status};
use mdcs::plugin::server::PluginServer;
use mdcs::schema::Schema;
use mdcs::value::Value;

type TestDevice = Device<StoredAttribute, StoredAction>;

fn serial_device() -> TestDevice {
    let mut device: TestDevice = Device::new();
    device
        .insert(
            "serial",
            Member::Attribute(StoredAttribute {
                schema: Schema::String,
                readable: true,
                writable: false,
                value: Value::String("ABC123".to_string()),
            }),
        )
        .unwrap();
    device
}

#[test]
fn flags_match_capability_bits() {
    let both = DeclaredAttribute { schema: Schema::Null, readable: true, writable: true };
    assert_eq!(both.flags(), vec![AttributeFlags::Read, AttributeFlags::Write]);
    let read_only = DeclaredAttribute { schema: Schema::Null, readable: true, writable: false };
    assert_eq!(read_only.flags(), vec![AttributeFlags::Read]);
    let write_only = DeclaredAttribute { schema: Schema::Null, readable: false, writable: true };
    assert_eq!(write_only.flags(), vec![AttributeFlags::Write]);
    let neither = DeclaredAttribute { schema: Schema::Null, readable: false, writable: false };
    assert_eq!(neither.flags(), vec![]);
}

#[test]
fn declared_members_default_to_not_implemented() {
    let attribute = DeclaredAttribute { schema: Schema::Long, readable: true, writable: true };
    assert_eq!(attribute.read(), Err(DeviceError::NotImplemented));
    assert_eq!(attribute.write(Value::Long(1)), Err(DeviceError::NotImplemented));
    let action = DeclaredAction { input_schema: Schema::Null, output_schema: Schema::Null };
    assert_eq!(action.run(Value::Null), Err(DeviceError::NotImplemented));
}

#[test]
fn read_serial_returns_encoded_value() {
    let mut server = PluginServer::new("host".to_string(), serial_device());
    let request = Request::ReadAttribute(ReadAttribute { path: "serial".to_string() });
    match server.process_request(&request) {
        PluginResponse::AttributeValue(av) => {
            let expected =
                encode_value(&Schema::String, &Value::String("ABC123".to_string())).unwrap();
            assert_eq!(av.value, expected);
            assert!(av.time >= 0);
        }
        other => panic!("expected AttributeValue, got {:?}", other),
    }
}

#[test]
fn write_serial_is_refused() {
    let mut server = PluginServer::new("host".to_string(), serial_device());
    let request = Request::WriteAttribute(WriteAttribute {
        path: "serial".to_string(),
        value: vec![1, 2, 3],
    });
    match server.process_request(&request) {
        PluginResponse::Error(error) => {
            assert_eq!(error.message, "Attribute not writable");
            assert_eq!(error.path.as_deref(), Some("serial"));
        }
        other => panic!("expected Error, got {:?}", other),
    }
}

#[test]
fn read_missing_path_reports_not_found() {
    let empty: TestDevice = Device::new();
    let mut server = PluginServer::new("host".to_string(), empty);
    let request = Request::ReadAttribute(ReadAttribute { path: "missing".to_string() });
    match server.process_request(&request) {
        PluginResponse::Error(error) => {
            assert_eq!(error.message, "Path not found");
            assert_eq!(error.path.as_deref(), Some("missing"));
        }
        other => panic!("expected Error, got {:?}", other),
    }
}

#[test]
fn read_non_readable_attribute_is_refused() {
    let mut device: TestDevice = Device::new();
    device
        .insert(
            "hidden",
            Member::Attribute(StoredAttribute {
                schema: Schema::Long,
                readable: false,
                writable: true,
                value: Value::Long(5),
            }),
        )
        .unwrap();
    let mut server = PluginServer::new("host".to_string(), device);
    let request = Request::ReadAttribute(ReadAttribute { path: "hidden".to_string() });
    match server.process_request(&request) {
        PluginResponse::Error(error) => {
            assert_eq!(error.message, "Attribute not readable");
            assert_eq!(error.path.as_deref(), Some("hidden"));
        }
        other => panic!("expected Error, got {:?}", other),
    }
}

#[test]
fn write_with_undecodable_payload_is_refused() {
    let mut device: TestDevice = Device::new();
    device
        .insert(
            "level",
            Member::Attribute(StoredAttribute {
                schema: Schema::Long,
                readable: false,
                writable: true,
                value: Value::Long(5),
            }),
        )
        .unwrap();
    let mut server = PluginServer::new("host".to_string(), device);
    // three bytes can never hold a 64-bit value
    let request = Request::WriteAttribute(WriteAttribute {
        path: "level".to_string(),
        value: vec![1, 2, 3],
    });
    match server.process_request(&request) {
        PluginResponse::Error(error) => {
            assert_eq!(error.message, "Failed to unserialize value");
            assert_eq!(error.path.as_deref(), Some("level"));
        }
        other => panic!("expected Error, got {:?}", other),
    }
}

#[test]
fn successful_write_echoes_payload() {
    let mut device: TestDevice = Device::new();
    device
        .insert(
            "level",
            Member::Attribute(StoredAttribute {
                schema: Schema::Long,
                readable: false,
                writable: true,
                value: Value::Long(5),
            }),
        )
        .unwrap();
    let mut server = PluginServer::new("host".to_string(), device);
    let payload = encode_value(&Schema::Long, &Value::Long(42)).unwrap();
    let request = Request::WriteAttribute(WriteAttribute {
        path: "level".to_string(),
        value: payload.clone(),
    });
    match server.process_request(&request) {
        PluginResponse::AttributeValue(av) => {
            assert_eq!(av.value, payload);
            assert!(av.time >= 0);
        }
        other => panic!("expected AttributeValue, got {:?}", other),
    }
}

#[test]
fn run_action_orders_timestamps() {
    let mut device: TestDevice = Device::new();
    device
        .insert(
            "ping",
            Member::Action(StoredAction {
                input_schema: Schema::Null,
                output_schema: Schema::String,
                output: Value::String("pong".to_string()),
            }),
        )
        .unwrap();
    let mut server = PluginServer::new("host".to_string(), device);
    let request = Request::RunAction(RunAction { path: "ping".to_string(), input: vec![] });
    match server.process_request(&request) {
        PluginResponse::ActionResult(result) => {
            assert!(result.start <= result.end);
            assert!(result.start >= 0);
            let expected =
                encode_value(&Schema::String, &Value::String("pong".to_string())).unwrap();
            assert_eq!(result.output, expected);
        }
        other => panic!("expected ActionResult, got {:?}", other),
    }
}

#[test]
fn run_action_with_undecodable_input_is_refused() {
    let mut device: TestDevice = Device::new();
    device
        .insert(
            "ping",
            Member::Action(StoredAction {
                input_schema: Schema::Long,
                output_schema: Schema::Null,
                output: Value::Null,
            }),
        )
        .unwrap();
    let mut server = PluginServer::new("host".to_string(), device);
    let request = Request::RunAction(RunAction { path: "ping".to_string(), input: vec![1] });
    match server.process_request(&request) {
        PluginResponse::Error(error) => {
            assert_eq!(error.message, "Failed to unserialize input value");
            assert_eq!(error.path.as_deref(), Some("ping"));
        }
        other => panic!("expected Error, got {:?}", other),
    }
}

#[test]
fn declared_attribute_read_reports_not_implemented() {
    let mut device: Device<DeclaredAttribute, DeclaredAction> = Device::new();
    device
        .insert(
            "bare",
            Member::Attribute(DeclaredAttribute {
                schema: Schema::Long,
                readable: true,
                writable: false,
            }),
        )
        .unwrap();
    let mut server = PluginServer::new("host".to_string(), device);
    let request = Request::ReadAttribute(ReadAttribute { path: "bare".to_string() });
    match server.process_request(&request) {
        PluginResponse::Error(error) => {
            assert_eq!(error.message, "Failed to read attribute: Method not implemented");
            assert_eq!(error.path.as_deref(), Some("bare"));
        }
        other => panic!("expected Error, got {:?}", other),
    }
}

#[test]
fn read_on_action_path_reports_kind_mismatch() {
    let mut device: TestDevice = Device::new();
    device
        .insert(
            "ping",
            Member::Action(StoredAction {
                input_schema: Schema::Null,
                output_schema: Schema::Null,
                output: Value::Null,
            }),
        )
        .unwrap();
    let mut server = PluginServer::new("host".to_string(), device);
    let request = Request::ReadAttribute(ReadAttribute { path: "ping".to_string() });
    match server.process_request(&request) {
        PluginResponse::Error(error) => {
            assert_eq!(error.message, "Path does not refer to an attribute");
        }
        other => panic!("expected Error, got {:?}", other),
    }
}

#[test]
fn quit_signal_acknowledges_and_raises_the_flag() {
    let mut server = PluginServer::new("host".to_string(), serial_device());
    assert!(!server.should_quit());
    let response = server.process_request(&Request::Signal(Signal::Quit));
    assert_eq!(response, PluginResponse::Status(Status::Okay));
    assert!(server.should_quit());
}

#[test]
fn describe_lists_every_member() {
    let mut device: TestDevice = serial_device();
    device
        .insert(
            "ping",
            Member::Action(StoredAction {
                input_schema: Schema::Null,
                output_schema: Schema::String,
                output: Value::String("pong".to_string()),
            }),
        )
        .unwrap();
    let mut server = PluginServer::new("host".to_string(), device);
    match server.process_request(&Request::DescribeDevice(DescribeDevice {})) {
        PluginResponse::Device(description) => {
            assert_eq!(description.name, "host");
            assert_eq!(description.attributes.len(), 1);
            let attribute = &description.attributes[0];
            assert_eq!(attribute.path, "serial");
            assert_eq!(attribute.flags, vec!["read".to_string()]);
            assert_eq!(attribute.schema, "\"string\"");
            assert_eq!(description.actions.len(), 1);
            let action = &description.actions[0];
            assert_eq!(action.path, "ping");
            assert_eq!(action.input_schema, "\"null\"");
            assert_eq!(action.output_schema, "\"string\"");
        }
        other => panic!("expected Device, got {:?}", other),
    }
}
