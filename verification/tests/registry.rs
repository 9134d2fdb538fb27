use mdcs::device::device::{Device, Member};
use mdcs::device::error::DeviceError;
use mdcs::device::stored::{StoredAction, StoredAttribute};
use mdcs::schema::Schema;
use mdcs::value::Value;

fn string_attribute(text: &str) -> StoredAttribute {
    StoredAttribute {
        schema: Schema::String,
        readable: true,
        writable: false,
        value: Value::String(text.to_string()),
    }
}

#[test]
fn inserted_path_is_found_and_occupied() {
    let mut device: Device<StoredAttribute, StoredAction> = Device::new();
    let member = Member::Attribute(string_attribute("ABC123"));
    assert!(device.insert("serial", member).is_ok());

    match device.get("serial") {
        Some(Member::Attribute(attribute)) => {
            assert_eq!(attribute.value, Value::String("ABC123".to_string()));
        }
        _ => panic!("expected the inserted attribute"),
    }

    let again = Member::Attribute(string_attribute("XYZ789"));
    match device.insert("serial", again) {
        Err(DeviceError::PathExists(path)) => assert_eq!(path, "serial"),
        other => panic!("expected PathExists, got {:?}", other),
    }
}

#[test]
fn absent_path_remove_fails_and_get_is_none() {
    let mut device: Device<StoredAttribute, StoredAction> = Device::new();
    match device.remove("missing") {
        Err(DeviceError::PathNotFound(path)) => assert_eq!(path, "missing"),
        other => panic!("expected PathNotFound, got {:?}", other),
    }
    assert!(device.get("missing").is_none());
}

#[test]
fn remove_then_reinsert() {
    let mut device: Device<StoredAttribute, StoredAction> = Device::new();
    device
        .insert("serial", Member::Attribute(string_attribute("one")))
        .unwrap();
    device.remove("serial").unwrap();
    assert!(device.get("serial").is_none());
    device
        .insert("serial", Member::Attribute(string_attribute("two")))
        .unwrap();
    match device.get("serial") {
        Some(Member::Attribute(attribute)) => {
            assert_eq!(attribute.value, Value::String("two".to_string()));
        }
        _ => panic!("expected the reinserted attribute"),
    }
}

#[test]
fn iteration_keeps_insertion_order() {
    let mut device: Device<StoredAttribute, StoredAction> = Device::new();
    device
        .insert("b", Member::Attribute(string_attribute("1")))
        .unwrap();
    device
        .insert("a", Member::Attribute(string_attribute("2")))
        .unwrap();
    device
        .insert("c", Member::Attribute(string_attribute("3")))
        .unwrap();
    let paths: Vec<&str> = device.iter().iter().map(|pair| pair.0.as_str()).collect();
    assert_eq!(paths, vec!["b", "a", "c"]);
}
