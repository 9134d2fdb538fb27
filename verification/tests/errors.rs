use mdcs::device::error::DeviceError;
use mdcs::schema::Schema;
use mdcs::time::timestamp;
use mdcs::value::Value;

#[test]
fn every_error_kind_renders_one_line() {
    assert_eq!(
        DeviceError::Io("pipe closed".to_string()).message(),
        "IO error: pipe closed"
    );
    assert_eq!(
        DeviceError::InternalError("odd state".to_string()).message(),
        "Internal error: odd state"
    );
    assert_eq!(DeviceError::NotImplemented.message(), "Method not implemented");
    assert_eq!(DeviceError::OutOfSync.message(), "Resource out of sync");
    assert_eq!(
        DeviceError::ActionRunInvalid("say".to_string()).message(),
        "Action cannot be run: say"
    );
    assert_eq!(
        DeviceError::AttributeReadInvalid("serial".to_string()).message(),
        "Attribute cannot be read: serial"
    );
    assert_eq!(
        DeviceError::AttributeWriteInvalid("serial".to_string()).message(),
        "Attribute cannot be written: serial"
    );
    assert_eq!(
        DeviceError::PathExists("serial".to_string()).message(),
        "Device path already exists: serial"
    );
    assert_eq!(
        DeviceError::PathNotFound("serial".to_string()).message(),
        "Device path not found: serial"
    );
}

#[test]
fn plain_messages_wrap_as_internal_errors() {
    let error = DeviceError::from("lost track".to_string());
    assert_eq!(error, DeviceError::InternalError("lost track".to_string()));
}

#[test]
fn timestamps_are_nonnegative_milliseconds() {
    let first = timestamp();
    assert!(first >= 0);
    // January 2020 in milliseconds since the epoch: any sane clock is past it
    assert!(first > 1_577_836_800_000);
}

#[test]
fn schemas_render_as_self_describing_strings() {
    assert_eq!(Schema::Null.to_json(), "\"null\"");
    assert_eq!(Schema::Boolean.to_json(), "\"boolean\"");
    assert_eq!(Schema::Int.to_json(), "\"int\"");
    assert_eq!(Schema::Long.to_json(), "\"long\"");
    assert_eq!(Schema::Double.to_json(), "\"double\"");
    assert_eq!(Schema::Bytes.to_json(), "\"bytes\"");
    assert_eq!(Schema::String.to_json(), "\"string\"");
}

#[test]
fn values_know_their_schema() {
    assert!(Value::String("x".to_string()).matches_schema(&Schema::String));
    assert!(!Value::String("x".to_string()).matches_schema(&Schema::Bytes));
    assert!(Value::Null.matches_schema(&Schema::Null));
    let original = Value::Bytes(vec![1, 2]);
    assert_eq!(original.duplicate(), original);
}
