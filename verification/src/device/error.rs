use vstd::prelude::*;

verus! {

/// The error taxonomy of the device layer: registry precondition failures
/// (`PathExists`, `PathNotFound`), the default not-implemented behaviour of
/// declared members, capability violations, resource and transport failures,
/// and wrapped lower-level causes kept as text for diagnostics.
#[derive(Debug, PartialEq)]
pub enum DeviceError {
    /// A lower-level I/O failure, with its cause rendered as text.
    Io(String),
    /// A generic, unclassified failure.
    InternalError(String),
    /// The default behaviour of an attribute or action whose I/O has not
    /// been wired up yet.
    NotImplemented,
    /// The underlying resource no longer matches what the member expects.
    OutOfSync,
    /// An action that cannot be run, naming the offending path.
    ActionRunInvalid(String),
    /// An attribute that cannot be read, naming the offending path.
    AttributeReadInvalid(String),
    /// An attribute that cannot be written, naming the offending path.
    AttributeWriteInvalid(String),
    /// `insert` was asked to store a member under an occupied path.
    PathExists(String),
    /// `remove` or a lookup was asked for a vacant path.
    PathNotFound(String),
}

impl DeviceError {
    /// The human-readable rendering of the error, one line per kind.
    pub open spec fn spec_message(&self) -> Seq<char> {
        match self {
            DeviceError::Io(cause) => "IO error: "@ + cause@,
            DeviceError::InternalError(msg) => "Internal error: "@ + msg@,
            DeviceError::NotImplemented => "Method not implemented"@,
            DeviceError::OutOfSync => "Resource out of sync"@,
            DeviceError::ActionRunInvalid(path) => "Action cannot be run: "@ + path@,
            DeviceError::AttributeReadInvalid(path) => "Attribute cannot be read: "@ + path@,
            DeviceError::AttributeWriteInvalid(path) => "Attribute cannot be written: "@
                + path@,
            DeviceError::PathExists(path) => "Device path already exists: "@ + path@,
            DeviceError::PathNotFound(path) => "Device path not found: "@ + path@,
        }
    }

    /// Renders the error as one line of text.
    pub fn message(&self) -> (r: String)
        ensures
            r@ == self.spec_message(),
    {
        match self {
            DeviceError::Io(cause) => String::from_str("IO error: ").concat(cause.as_str()),
            DeviceError::InternalError(msg) => String::from_str("Internal error: ").concat(
                msg.as_str(),
            ),
            DeviceError::NotImplemented => String::from_str("Method not implemented"),
            DeviceError::OutOfSync => String::from_str("Resource out of sync"),
            DeviceError::ActionRunInvalid(path) => String::from_str("Action cannot be run: ")
                .concat(path.as_str()),
            DeviceError::AttributeReadInvalid(path) => String::from_str(
                "Attribute cannot be read: ",
            ).concat(path.as_str()),
            DeviceError::AttributeWriteInvalid(path) => String::from_str(
                "Attribute cannot be written: ",
            ).concat(path.as_str()),
            DeviceError::PathExists(path) => String::from_str("Device path already exists: ")
                .concat(path.as_str()),
            DeviceError::PathNotFound(path) => String::from_str("Device path not found: ")
                .concat(path.as_str()),
        }
    }
}

impl core::convert::From<String> for DeviceError {
    /// Wraps a plain message as a generic failure.
    fn from(msg: String) -> (r: DeviceError) {
        DeviceError::InternalError(msg)
    }
}

impl vstd::std_specs::convert::FromSpecImpl<String> for DeviceError {
    open spec fn obeys_from_spec() -> bool {
        true
    }

    open spec fn from_spec(msg: String) -> DeviceError {
        DeviceError::InternalError(msg)
    }
}

} // verus!
