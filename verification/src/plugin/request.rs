use vstd::prelude::*;

verus! {

/// An in-band lifecycle control message; `Quit` is the only one.
#[derive(Clone, Copy, Debug, PartialEq, Eq, Structural)]
pub enum Signal {
    Quit,
}

/// Asks the plugin to describe every member of its device.
#[derive(Debug, PartialEq)]
pub struct DescribeDevice {}

/// Asks the plugin to read the attribute under `path`.
#[derive(Debug, PartialEq)]
pub struct ReadAttribute {
    pub path: String,
}

/// Asks the plugin to write `value`, encoded against the attribute's own
/// schema, to the attribute under `path`.
#[derive(Debug, PartialEq)]
pub struct WriteAttribute {
    pub path: String,
    pub value: Vec<u8>,
}

/// Asks the plugin to run the action under `path` on `input`, encoded
/// against the action's input schema.
#[derive(Debug, PartialEq)]
pub struct RunAction {
    pub path: String,
    pub input: Vec<u8>,
}

/// The closed catalog of requests a host may send.
#[derive(Debug, PartialEq)]
pub enum Request {
    Signal(Signal),
    DescribeDevice(DescribeDevice),
    ReadAttribute(ReadAttribute),
    WriteAttribute(WriteAttribute),
    RunAction(RunAction),
}

/// The mathematical model of a `Request`.
pub enum RequestModel {
    Signal(Signal),
    DescribeDevice,
    ReadAttribute { path: Seq<char> },
    WriteAttribute { path: Seq<char>, value: Seq<u8> },
    RunAction { path: Seq<char>, input: Seq<u8> },
}

impl View for Request {
    type V = RequestModel;

    open spec fn view(&self) -> RequestModel {
        match self {
            Request::Signal(s) => RequestModel::Signal(*s),
            Request::DescribeDevice(_) => RequestModel::DescribeDevice,
            Request::ReadAttribute(args) => RequestModel::ReadAttribute { path: args.path@ },
            Request::WriteAttribute(args) => RequestModel::WriteAttribute {
                path: args.path@,
                value: args.value@,
            },
            Request::RunAction(args) => RequestModel::RunAction {
                path: args.path@,
                input: args.input@,
            },
        }
    }
}

} // verus!
