use vstd::prelude::*;

use crate::device::error::DeviceError;
use crate::schema::Schema;
use crate::value::{conforms, Value};

verus! {

/// An invokable schema-typed operation exposed by a device: a value of the
/// input shape goes in, a value of the output shape comes out. `run`
/// defaults to a not-implemented failure so a plugin can declare an
/// action's shape before wiring it up.
pub trait Action {
    /// The value-type descriptor of the input; the empty shape until an
    /// implementation declares one.
    open spec fn spec_input_schema(&self) -> Schema {
        Schema::Null
    }

    /// The value-type descriptor of the output; the empty shape
    /// likewise.
    open spec fn spec_output_schema(&self) -> Schema {
        Schema::Null
    }

    fn input_schema(&self) -> (r: Schema)
        ensures
            r == self.spec_input_schema(),
    ;

    fn output_schema(&self) -> (r: Schema)
        ensures
            r == self.spec_output_schema(),
    ;

    /// Runs the action; the input must have the declared input shape.
    fn run(&self, input: Value) -> (r: Result<Value, DeviceError>)
        requires
            conforms(input@, self.spec_input_schema()),
    {
        Err(DeviceError::NotImplemented)
    }
}

} // verus!
