use vstd::prelude::*;

verus! {

/// A value-type descriptor. A schema governs how a payload value is encoded
/// to bytes and decoded back, and it determines the byte boundary of one
/// datum inside a continuous stream (see `codec`).
#[derive(Clone, Copy, Debug, PartialEq, Eq, Structural)]
pub enum Schema {
    /// The empty value; encodes to zero bytes.
    Null,
    Boolean,
    /// A signed 32-bit integer.
    Int,
    /// A signed 64-bit integer; also the timestamp format.
    Long,
    /// A 64-bit IEEE-754 value, carried as its raw bit pattern.
    Double,
    /// An arbitrary byte string.
    Bytes,
    /// A Unicode text string.
    String,
}

impl Schema {
    /// The self-describing rendering of the schema: its name as a quoted
    /// JSON string, the form `DescribeDevice` reports to the host.
    pub open spec fn spec_json(&self) -> Seq<char> {
        match self {
            Schema::Null => "\"null\""@,
            Schema::Boolean => "\"boolean\""@,
            Schema::Int => "\"int\""@,
            Schema::Long => "\"long\""@,
            Schema::Double => "\"double\""@,
            Schema::Bytes => "\"bytes\""@,
            Schema::String => "\"string\""@,
        }
    }

    /// Renders the schema as a self-describing JSON string.
    pub fn to_json(&self) -> (r: String)
        ensures
            r@ == self.spec_json(),
    {
        match self {
            Schema::Null => String::from_str("\"null\""),
            Schema::Boolean => String::from_str("\"boolean\""),
            Schema::Int => String::from_str("\"int\""),
            Schema::Long => String::from_str("\"long\""),
            Schema::Double => String::from_str("\"double\""),
            Schema::Bytes => String::from_str("\"bytes\""),
            Schema::String => String::from_str("\"string\""),
        }
    }
}

} // verus!
