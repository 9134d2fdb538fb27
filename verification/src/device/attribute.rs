use vstd::prelude::*;

use crate::device::error::DeviceError;
use crate::schema::Schema;
use crate::value::{conforms, Value};

verus! {

/// The capability bits of an attribute, rendered as flags.
#[derive(Clone, Copy, Debug, PartialEq, Eq, Hash, Structural)]
pub enum AttributeFlags {
    Read,
    Write,
}

/// The flag list implied by an attribute's capability bits, in canonical
/// order: `Read` exactly when readable, `Write` exactly when writable.
pub open spec fn spec_flags(readable: bool, writable: bool) -> Seq<AttributeFlags> {
    if readable && writable {
        seq![AttributeFlags::Read, AttributeFlags::Write]
    } else if readable {
        seq![AttributeFlags::Read]
    } else if writable {
        seq![AttributeFlags::Write]
    } else {
        Seq::empty()
    }
}

/// The set of flags implied by an attribute's capability bits.
pub open spec fn spec_flag_set(readable: bool, writable: bool) -> Set<AttributeFlags> {
    Set::new(
        |f: AttributeFlags|
            (f == AttributeFlags::Read && readable) || (f == AttributeFlags::Write && writable),
    )
}

/// The flag list carries exactly the implied set: `{Read}` for
/// readable-only, `{Write}` for writable-only, both for both, empty for
/// neither.
pub proof fn lemma_flags_match_capabilities(readable: bool, writable: bool)
    ensures
        spec_flags(readable, writable).to_set() == spec_flag_set(readable, writable),
{
    let s = spec_flags(readable, writable);
    assert forall|f: AttributeFlags| s.to_set().contains(f) implies spec_flag_set(
        readable,
        writable,
    ).contains(f) by {
        let i = choose|i: int| 0 <= i < s.len() && s[i] == f;
    }
    assert forall|f: AttributeFlags| spec_flag_set(readable, writable).contains(f) implies s
        .to_set()
        .contains(f) by {
        if f == AttributeFlags::Read {
            assert(s[0] == f);
        } else {
            assert(s[s.len() - 1] == f);
        }
    }
    assert(spec_flags(readable, writable).to_set() =~= spec_flag_set(readable, writable));
}

/// A readable/writable schema-typed value exposed by a device. Concrete
/// device types implement this; the registry and the server touch members
/// only through it. The capability bits default to false and `read` /
/// `write` to a not-implemented failure, so a plugin can declare an
/// attribute's shape before its I/O is wired up.
pub trait Attribute {
    /// The value-type descriptor governing this attribute's payloads;
    /// the empty shape until an implementation declares one.
    open spec fn spec_schema(&self) -> Schema {
        Schema::Null
    }

    /// Whether `read` may be called.
    open spec fn spec_readable(&self) -> bool {
        false
    }

    /// Whether `write` may be called.
    open spec fn spec_writable(&self) -> bool {
        false
    }

    fn schema(&self) -> (r: Schema)
        ensures
            r == self.spec_schema(),
    ;

    fn readable(&self) -> (r: bool)
        ensures
            r == self.spec_readable(),
    ;

    fn writable(&self) -> (r: bool)
        ensures
            r == self.spec_writable(),
    ;

    /// The flags derived from the capability bits; always exactly the set
    /// `spec_flag_set` implies.
    fn flags(&self) -> (r: Vec<AttributeFlags>)
        ensures
            r@ == spec_flags(self.spec_readable(), self.spec_writable()),
            r@.to_set() == spec_flag_set(self.spec_readable(), self.spec_writable()),
    {
        let mut flags: Vec<AttributeFlags> = Vec::new();
        if self.readable() {
            flags.push(AttributeFlags::Read);
        }
        if self.writable() {
            flags.push(AttributeFlags::Write);
        }
        proof {
            assert(flags@ =~= spec_flags(self.spec_readable(), self.spec_writable()));
            lemma_flags_match_capabilities(self.spec_readable(), self.spec_writable());
        }
        flags
    }

    /// Reads the current value; only a readable attribute may be asked.
    fn read(&self) -> (r: Result<Value, DeviceError>)
        requires
            self.spec_readable(),
    {
        Err(DeviceError::NotImplemented)
    }

    /// Writes a value of the attribute's own shape; only a writable
    /// attribute may be asked.
    fn write(&self, value: Value) -> (r: Result<(), DeviceError>)
        requires
            self.spec_writable(),
            conforms(value@, self.spec_schema()),
    {
        Err(DeviceError::NotImplemented)
    }
}

} // verus!
