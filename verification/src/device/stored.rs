use vstd::prelude::*;

use crate::device::action::Action;
use crate::device::attribute::Attribute;
use crate::device::error::DeviceError;
use crate::schema::Schema;
use crate::value::Value;

verus! {

/// An attribute declared by shape alone: it exposes a schema and its
/// capability bits but leaves `read` and `write` at their default
/// not-implemented failure, the state of an attribute whose I/O has not
/// been wired up yet.
pub struct DeclaredAttribute {
    pub schema: Schema,
    pub readable: bool,
    pub writable: bool,
}

impl Attribute for DeclaredAttribute {
    open spec fn spec_schema(&self) -> Schema {
        self.schema
    }

    open spec fn spec_readable(&self) -> bool {
        self.readable
    }

    open spec fn spec_writable(&self) -> bool {
        self.writable
    }

    fn schema(&self) -> Schema {
        self.schema
    }

    fn readable(&self) -> bool {
        self.readable
    }

    fn writable(&self) -> bool {
        self.writable
    }

    /// Not wired up: always the not-implemented failure.
    fn read(&self) -> (r: Result<Value, DeviceError>)
        ensures
            r == Err::<Value, DeviceError>(DeviceError::NotImplemented),
    {
        Err(DeviceError::NotImplemented)
    }

    /// Not wired up: the value is ignored and the not-implemented
    /// failure comes back, whatever was written.
    fn write(&self, _value: Value) -> (r: Result<(), DeviceError>)
        ensures
            r == Err::<(), DeviceError>(DeviceError::NotImplemented),
    {
        Err(DeviceError::NotImplemented)
    }
}

/// An attribute backed by a stored value: reads yield the value,
/// writes are acknowledged and discarded.
pub struct StoredAttribute {
    pub schema: Schema,
    pub readable: bool,
    pub writable: bool,
    pub value: Value,
}

impl Attribute for StoredAttribute {
    open spec fn spec_schema(&self) -> Schema {
        self.schema
    }

    open spec fn spec_readable(&self) -> bool {
        self.readable
    }

    open spec fn spec_writable(&self) -> bool {
        self.writable
    }

    fn schema(&self) -> Schema {
        self.schema
    }

    fn readable(&self) -> bool {
        self.readable
    }

    fn writable(&self) -> bool {
        self.writable
    }

    fn read(&self) -> (r: Result<Value, DeviceError>)
        ensures
            r matches Ok(v) && v@ == self.value@,
    {
        Ok(self.value.duplicate())
    }

    fn write(&self, _value: Value) -> (r: Result<(), DeviceError>)
        ensures
            r is Ok,
    {
        Ok(())
    }
}

/// An action declared by shape alone: it exposes its schemas but leaves
/// `run` at its default not-implemented failure.
pub struct DeclaredAction {
    pub input_schema: Schema,
    pub output_schema: Schema,
}

impl Action for DeclaredAction {
    open spec fn spec_input_schema(&self) -> Schema {
        self.input_schema
    }

    open spec fn spec_output_schema(&self) -> Schema {
        self.output_schema
    }

    fn input_schema(&self) -> Schema {
        self.input_schema
    }

    fn output_schema(&self) -> Schema {
        self.output_schema
    }

    /// Not wired up: the input is ignored and the not-implemented
    /// failure comes back, whatever was asked.
    fn run(&self, _input: Value) -> (r: Result<Value, DeviceError>)
        ensures
            r == Err::<Value, DeviceError>(DeviceError::NotImplemented),
    {
        Err(DeviceError::NotImplemented)
    }
}

/// An action backed by a stored output value: every run succeeds and
/// yields that value, whatever the input.
pub struct StoredAction {
    pub input_schema: Schema,
    pub output_schema: Schema,
    pub output: Value,
}

impl Action for StoredAction {
    open spec fn spec_input_schema(&self) -> Schema {
        self.input_schema
    }

    open spec fn spec_output_schema(&self) -> Schema {
        self.output_schema
    }

    fn input_schema(&self) -> Schema {
        self.input_schema
    }

    fn output_schema(&self) -> Schema {
        self.output_schema
    }

    fn run(&self, _input: Value) -> (r: Result<Value, DeviceError>)
        ensures
            r matches Ok(v) && v@ == self.output@,
    {
        Ok(self.output.duplicate())
    }
}

} // verus!
