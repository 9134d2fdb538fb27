use vstd::prelude::*;
use vstd::slice::slice_to_vec;

use crate::schema::Schema;

verus! {

/// A payload value as it travels through the protocol: the runtime shape a
/// schema describes. Floating-point payloads are carried as their raw
/// 64-bit IEEE-754 pattern; producing or consuming an actual `f64` is the
/// caller's concern at the process edge.
#[derive(Debug, PartialEq)]
pub enum Value {
    Null,
    Boolean(bool),
    Int(i32),
    Long(i64),
    /// The raw bit pattern of a 64-bit IEEE-754 value.
    Double(u64),
    Bytes(Vec<u8>),
    String(String),
}

/// The mathematical model of a `Value`: the same shape over `Seq` instead
/// of `Vec` and `String`. All codec and server contracts speak of this
/// model.
pub enum ValueModel {
    Null,
    Boolean(bool),
    Int(i32),
    Long(i64),
    Double(u64),
    Bytes(Seq<u8>),
    String(Seq<char>),
}

impl View for Value {
    type V = ValueModel;

    open spec fn view(&self) -> ValueModel {
        match self {
            Value::Null => ValueModel::Null,
            Value::Boolean(b) => ValueModel::Boolean(*b),
            Value::Int(i) => ValueModel::Int(*i),
            Value::Long(l) => ValueModel::Long(*l),
            Value::Double(bits) => ValueModel::Double(*bits),
            Value::Bytes(b) => ValueModel::Bytes(b@),
            Value::String(s) => ValueModel::String(s@),
        }
    }
}

/// Whether a value has the shape a schema describes; only conforming
/// values can be encoded against the schema.
pub open spec fn conforms(v: ValueModel, s: Schema) -> bool {
    match (v, s) {
        (ValueModel::Null, Schema::Null) => true,
        (ValueModel::Boolean(_), Schema::Boolean) => true,
        (ValueModel::Int(_), Schema::Int) => true,
        (ValueModel::Long(_), Schema::Long) => true,
        (ValueModel::Double(_), Schema::Double) => true,
        (ValueModel::Bytes(_), Schema::Bytes) => true,
        (ValueModel::String(_), Schema::String) => true,
        _ => false,
    }
}

impl Value {
    /// Whether this value has the shape the schema describes.
    pub fn matches_schema(&self, s: &Schema) -> (r: bool)
        ensures
            r == conforms(self@, *s),
    {
        match (self, s) {
            (Value::Null, Schema::Null) => true,
            (Value::Boolean(_), Schema::Boolean) => true,
            (Value::Int(_), Schema::Int) => true,
            (Value::Long(_), Schema::Long) => true,
            (Value::Double(_), Schema::Double) => true,
            (Value::Bytes(_), Schema::Bytes) => true,
            (Value::String(_), Schema::String) => true,
            _ => false,
        }
    }

    /// A fresh value equal to this one.
    pub fn duplicate(&self) -> (r: Value)
        ensures
            r@ == self@,
    {
        match self {
            Value::Null => Value::Null,
            Value::Boolean(b) => Value::Boolean(*b),
            Value::Int(i) => Value::Int(*i),
            Value::Long(l) => Value::Long(*l),
            Value::Double(bits) => Value::Double(*bits),
            Value::Bytes(b) => Value::Bytes(slice_to_vec(b.as_slice())),
            Value::String(s) => Value::String(s.clone()),
        }
    }
}

} // verus!
