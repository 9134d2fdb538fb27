//! The plugin-side dispatch: one device served over the request/response
//! catalog. Each request is decoded, answered against the device, and the
//! response encoded, in strict alternation; protocol-level failures
//! become `Error` responses and never end the exchange, and the `Quit`
//! signal is answered with a success status before the loop is asked to
//! stop.

use vstd::prelude::*;

use crate::codec::{decode_value, encode_value, spec_decode, spec_encode};
use crate::device::action::Action;
use crate::device::attribute::Attribute;
use crate::device::device::{Device, Member};
use crate::device::error::DeviceError;
use crate::plugin::request::{ReadAttribute, Request, RequestModel, RunAction, Signal, WriteAttribute};
use crate::plugin::response::{
    ActionResult, AttributeValue, DeviceModel, ErrorModel, PluginResponse, ResponseModel, Status,
};
use crate::plugin::wire::{decode_request, encode_response, spec_decode_request, spec_encode_response};
use crate::time::timestamp;
use crate::value::{conforms, ValueModel};

verus! {

/// An error response naming the offending path.
pub open spec fn spec_path_error(message: Seq<char>, path: Seq<char>) -> ResponseModel {
    ResponseModel::Error(ErrorModel { message, path: Some(path) })
}

/// An error response with no path, for failures before any path is known.
pub open spec fn spec_nopath_error(message: Seq<char>) -> ResponseModel {
    ResponseModel::Error(ErrorModel { message, path: None })
}

/// The flag names reported for an attribute's capability bits.
pub open spec fn spec_flag_names(readable: bool, writable: bool) -> Seq<Seq<char>> {
    if readable && writable {
        seq!["read"@, "write"@]
    } else if readable {
        seq!["read"@]
    } else if writable {
        seq!["write"@]
    } else {
        Seq::empty()
    }
}

/// The attribute rows of a device description, in member order.
pub open spec fn spec_describe_attrs<A: Attribute, C: Action>(
    entries: Seq<(String, Member<A, C>)>,
) -> Seq<crate::plugin::response::AttributeModel>
    decreases entries.len(),
{
    if entries.len() == 0 {
        Seq::empty()
    } else {
        let rest = spec_describe_attrs(entries.drop_last());
        match entries.last().1 {
            Member::Attribute(a) => rest.push(
                crate::plugin::response::AttributeModel {
                    path: entries.last().0@,
                    flags: spec_flag_names(a.spec_readable(), a.spec_writable()),
                    schema: a.spec_schema().spec_json(),
                },
            ),
            Member::Action(_) => rest,
        }
    }
}

/// The action rows of a device description, in member order.
pub open spec fn spec_describe_actions<A: Attribute, C: Action>(
    entries: Seq<(String, Member<A, C>)>,
) -> Seq<crate::plugin::response::ActionModel>
    decreases entries.len(),
{
    if entries.len() == 0 {
        Seq::empty()
    } else {
        let rest = spec_describe_actions(entries.drop_last());
        match entries.last().1 {
            Member::Attribute(_) => rest,
            Member::Action(c) => rest.push(
                crate::plugin::response::ActionModel {
                    path: entries.last().0@,
                    input_schema: c.spec_input_schema().spec_json(),
                    output_schema: c.spec_output_schema().spec_json(),
                },
            ),
        }
    }
}

/// What answering `ReadAttribute` must yield: the path and capability
/// checks in order, then either a timestamped encoding of some value of
/// the attribute's schema, or an error naming the path. A non-readable
/// attribute is refused before its `read` could even be called.
pub open spec fn read_attribute_post<A: Attribute, C: Action>(
    dev: Device<A, C>,
    path: Seq<char>,
    r: ResponseModel,
) -> bool {
    match dev.spec_get(path) {
        None => r == spec_path_error("Path not found"@, path),
        Some(Member::Action(_)) => r == spec_path_error(
            "Path does not refer to an attribute"@,
            path,
        ),
        Some(Member::Attribute(a)) => if !a.spec_readable() {
            r == spec_path_error("Attribute not readable"@, path)
        } else {
            match r {
                ResponseModel::AttributeValue(av) => av.time >= 0 && (exists|v: ValueModel|
                    conforms(v, a.spec_schema()) && av.value == spec_encode(v)),
                ResponseModel::Error(e) => e.path == Some(path) && ((exists|err: DeviceError|
                    e.message == "Failed to read attribute: "@ + err.spec_message())
                    || e.message == "Failed to serialize value"@),
                _ => false,
            }
        },
    }
}

/// What answering `WriteAttribute` must yield: the same checks, a decode
/// of the payload against the attribute's schema before any write, and
/// on success the original bytes echoed back with a timestamp. A payload
/// that does not decode is refused before `write` could even be called.
pub open spec fn write_attribute_post<A: Attribute, C: Action>(
    dev: Device<A, C>,
    path: Seq<char>,
    value: Seq<u8>,
    r: ResponseModel,
) -> bool {
    match dev.spec_get(path) {
        None => r == spec_path_error("Path not found"@, path),
        Some(Member::Action(_)) => r == spec_path_error(
            "Path does not refer to an attribute"@,
            path,
        ),
        Some(Member::Attribute(a)) => if !a.spec_writable() {
            r == spec_path_error("Attribute not writable"@, path)
        } else {
            match spec_decode(a.spec_schema(), value, 0) {
                None => r == spec_path_error("Failed to unserialize value"@, path),
                Some(_) => match r {
                    ResponseModel::AttributeValue(av) => av.value == value && av.time >= 0,
                    ResponseModel::Error(e) => e.path == Some(path) && (exists|err: DeviceError|
                        e.message == "Failed to write attribute: "@ + err.spec_message()),
                    _ => false,
                },
            }
        },
    }
}

/// What answering `RunAction` must yield: path and kind checks, a decode
/// of the input against the action's input schema, and on success an
/// encoding of some value of the output schema between two ordered
/// timestamps.
pub open spec fn run_action_post<A: Attribute, C: Action>(
    dev: Device<A, C>,
    path: Seq<char>,
    input: Seq<u8>,
    r: ResponseModel,
) -> bool {
    match dev.spec_get(path) {
        None => r == spec_path_error("Path not found"@, path),
        Some(Member::Attribute(_)) => r == spec_path_error(
            "Path does not refer to an action"@,
            path,
        ),
        Some(Member::Action(c)) => match spec_decode(c.spec_input_schema(), input, 0) {
            None => r == spec_path_error("Failed to unserialize input value"@, path),
            Some(_) => match r {
                ResponseModel::ActionResult(ar) => 0 <= ar.start && ar.start <= ar.end && (
                exists|out: ValueModel|
                    conforms(out, c.spec_output_schema()) && ar.output == spec_encode(out)),
                ResponseModel::Error(e) => e.path == Some(path) && ((exists|err: DeviceError|
                    e.message == "Failed to run action: "@ + err.spec_message()) || e.message
                    == "Failed to serialize output value"@),
                _ => false,
            },
        },
    }
}

/// What one dispatch step must yield, whatever the request: the device
/// and name are untouched, the response answers the request as the
/// per-operation contracts say, and the quit flag rises exactly on a
/// `Quit` signal.
pub open spec fn dispatch_post<A: Attribute, C: Action>(
    pre: PluginServer<A, C>,
    post: PluginServer<A, C>,
    req: RequestModel,
    resp: ResponseModel,
) -> bool {
    &&& post.spec_device() == pre.spec_device()
    &&& post.spec_name() == pre.spec_name()
    &&& match req {
        RequestModel::Signal(Signal::Quit) => resp == ResponseModel::Status(Status::Okay)
            && post.spec_quit(),
        RequestModel::DescribeDevice => resp == ResponseModel::Device(
            DeviceModel {
                name: pre.spec_name(),
                attributes: spec_describe_attrs(pre.spec_device().entries()),
                actions: spec_describe_actions(pre.spec_device().entries()),
            },
        ) && post.spec_quit() == pre.spec_quit(),
        RequestModel::ReadAttribute { path } => read_attribute_post(
            pre.spec_device(),
            path,
            resp,
        ) && post.spec_quit() == pre.spec_quit(),
        RequestModel::WriteAttribute { path, value } => write_attribute_post(
            pre.spec_device(),
            path,
            value,
            resp,
        ) && post.spec_quit() == pre.spec_quit(),
        RequestModel::RunAction { path, input } => run_action_post(
            pre.spec_device(),
            path,
            input,
            resp,
        ) && post.spec_quit() == pre.spec_quit(),
    }
}

/// The plugin-side server: a named device, served one request at a time,
/// and a termination flag raised by the `Quit` signal.
pub struct PluginServer<A, C> {
    name: String,
    device: Device<A, C>,
    signal_quit: bool,
}

impl<A: Attribute, C: Action> PluginServer<A, C> {
    /// The device's name as reported by `DescribeDevice`.
    pub closed spec fn spec_name(&self) -> Seq<char> {
        self.name@
    }

    /// The served device.
    pub closed spec fn spec_device(&self) -> Device<A, C> {
        self.device
    }

    /// Whether a `Quit` signal has been answered; the serving loop exits
    /// once this holds.
    pub closed spec fn spec_quit(&self) -> bool {
        self.signal_quit
    }

    /// Well-formedness: the served device is well-formed.
    pub open spec fn wf(&self) -> bool {
        self.spec_device().wf()
    }

    pub fn new(name: String, device: Device<A, C>) -> (r: PluginServer<A, C>)
        requires
            device.wf(),
        ensures
            r.wf(),
            r.spec_name() == name@,
            r.spec_device() == device,
            !r.spec_quit(),
    {
        PluginServer { name, device, signal_quit: false }
    }

    /// Whether the serving loop should stop reading further requests.
    pub fn should_quit(&self) -> (r: bool)
        ensures
            r == self.spec_quit(),
    {
        self.signal_quit
    }

    fn error_response(message: &str, path: &str) -> (r: PluginResponse)
        ensures
            r@ == spec_path_error(message@, path@),
    {
        PluginResponse::Error(
            crate::plugin::response::Error {
                message: String::from_str(message),
                path: Some(String::from_str(path)),
            },
        )
    }

    fn signal(&mut self, signal: &Signal) -> (r: PluginResponse)
        requires
            old(self).wf(),
        ensures
            final(self).wf(),
            final(self).spec_device() == old(self).spec_device(),
            final(self).spec_name() == old(self).spec_name(),
            final(self).spec_quit(),
            r@ == ResponseModel::Status(Status::Okay),
    {
        match signal {
            Signal::Quit => {
                self.signal_quit = true;
                PluginResponse::Status(Status::Okay)
            },
        }
    }

    /// Enumerates every member into a device description. Schema
    /// rendering is total, so a describe call cannot fail.
    fn describe_device(&mut self) -> (r: PluginResponse)
        requires
            old(self).wf(),
        ensures
            *final(self) == *old(self),
            r@ == ResponseModel::Device(
                DeviceModel {
                    name: old(self).spec_name(),
                    attributes: spec_describe_attrs(old(self).spec_device().entries()),
                    actions: spec_describe_actions(old(self).spec_device().entries()),
                },
            ),
    {
        let ghost all = self.device.entries();
        let mut attributes: Vec<crate::plugin::response::Attribute> = Vec::new();
        let mut actions: Vec<crate::plugin::response::Action> = Vec::new();
        let members = self.device.iter();
        let mut i: usize = 0;
        while i < members.len()
            invariant
                members@ == all,
                i <= all.len(),
                attributes.deep_view() == spec_describe_attrs(all.take(i as int)),
                actions.deep_view() == spec_describe_actions(all.take(i as int)),
            decreases all.len() - i,
        {
            let ghost attrs0 = attributes.deep_view();
            let ghost acts0 = actions.deep_view();
            let pair = &members[i];
            match &pair.1 {
                Member::Attribute(attribute) => {
                    let mut flags: Vec<String> = Vec::new();
                    if attribute.readable() {
                        flags.push(String::from_str("read"));
                    }
                    if attribute.writable() {
                        flags.push(String::from_str("write"));
                    }
                    proof {
                        assert(flags.deep_view() =~= spec_flag_names(
                            attribute.spec_readable(),
                            attribute.spec_writable(),
                        ));
                    }
                    let schema = attribute.schema().to_json();
                    attributes.push(
                        crate::plugin::response::Attribute {
                            path: pair.0.clone(),
                            flags,
                            schema,
                        },
                    );
                },
                Member::Action(action) => {
                    let input_schema = action.input_schema().to_json();
                    let output_schema = action.output_schema().to_json();
                    actions.push(
                        crate::plugin::response::Action {
                            path: pair.0.clone(),
                            input_schema,
                            output_schema,
                        },
                    );
                },
            }
            proof {
                assert(all.take(i + 1).drop_last() =~= all.take(i as int));
                assert(all.take(i + 1).last() == all[i as int]);
                match all[i as int].1 {
                    Member::Attribute(a) => {
                        assert(attributes.deep_view() =~= attrs0.push(
                            attributes@[attributes@.len() - 1]@,
                        ));
                        assert(actions.deep_view() =~= acts0);
                    },
                    Member::Action(c) => {
                        assert(actions.deep_view() =~= acts0.push(actions@[actions@.len() - 1]@));
                        assert(attributes.deep_view() =~= attrs0);
                    },
                }
            }
            i += 1;
        }
        proof {
            assert(all.take(all.len() as int) =~= all);
        }
        PluginResponse::Device(
            crate::plugin::response::Device { name: self.name.clone(), attributes, actions },
        )
    }

    /// Resolves the path to a readable attribute, reads it, and returns
    /// the value encoded against the attribute's schema with the current
    /// time; every failure becomes an error naming the path. `read` is
    /// never called on a non-readable attribute.
    fn read_attribute(&mut self, args: &ReadAttribute) -> (r: PluginResponse)
        requires
            old(self).wf(),
        ensures
            *final(self) == *old(self),
            read_attribute_post(old(self).spec_device(), args.path@, r@),
    {
        match self.device.get(args.path.as_str()) {
            None => Self::error_response("Path not found", args.path.as_str()),
            Some(Member::Action(_)) => Self::error_response(
                "Path does not refer to an attribute",
                args.path.as_str(),
            ),
            Some(Member::Attribute(attribute)) => {
                if !attribute.readable() {
                    return Self::error_response("Attribute not readable", args.path.as_str());
                }
                let time = timestamp();
                match attribute.read() {
                    Err(error) => PluginResponse::Error(
                        crate::plugin::response::Error {
                            message: String::from_str("Failed to read attribute: ").concat(
                                error.message().as_str(),
                            ),
                            path: Some(args.path.clone()),
                        },
                    ),
                    Ok(value) => {
                        let schema = attribute.schema();
                        match encode_value(&schema, &value) {
                            None => Self::error_response(
                                "Failed to serialize value",
                                args.path.as_str(),
                            ),
                            Some(bytes) => PluginResponse::AttributeValue(
                                AttributeValue { value: bytes, time },
                            ),
                        }
                    },
                }
            },
        }
    }

    /// Resolves the path to a writable attribute, decodes the payload
    /// against the attribute's schema before any write, and on success
    /// echoes the original bytes back with the current time as an
    /// acknowledgement. A payload that does not decode never reaches
    /// `write`.
    fn write_attribute(&mut self, args: &WriteAttribute) -> (r: PluginResponse)
        requires
            old(self).wf(),
        ensures
            *final(self) == *old(self),
            write_attribute_post(old(self).spec_device(), args.path@, args.value@, r@),
    {
        match self.device.get(args.path.as_str()) {
            None => Self::error_response("Path not found", args.path.as_str()),
            Some(Member::Action(_)) => Self::error_response(
                "Path does not refer to an attribute",
                args.path.as_str(),
            ),
            Some(Member::Attribute(attribute)) => {
                if !attribute.writable() {
                    return Self::error_response("Attribute not writable", args.path.as_str());
                }
                let schema = attribute.schema();
                match decode_value(&schema, args.value.as_slice(), 0) {
                    None => Self::error_response("Failed to unserialize value", args.path.as_str()),
                    Some((decoded, _end)) => {
                        proof {
                            assert(conforms(decoded@, attribute.spec_schema()));
                        }
                        let time = timestamp();
                        match attribute.write(decoded) {
                            Err(error) => PluginResponse::Error(
                                crate::plugin::response::Error {
                                    message: String::from_str("Failed to write attribute: ")
                                        .concat(error.message().as_str()),
                                    path: Some(args.path.clone()),
                                },
                            ),
                            Ok(()) => PluginResponse::AttributeValue(
                                AttributeValue {
                                    value: vstd::slice::slice_to_vec(args.value.as_slice()),
                                    time,
                                },
                            ),
                        }
                    },
                }
            },
        }
    }

    /// Resolves the path to an action, decodes the input against the
    /// action's input schema, runs it between two timestamp readings, and
    /// returns the output encoded against the output schema. The end
    /// timestamp never precedes the start, even if the wall clock steps
    /// backwards between the two readings.
    fn run_action(&mut self, args: &RunAction) -> (r: PluginResponse)
        requires
            old(self).wf(),
        ensures
            *final(self) == *old(self),
            run_action_post(old(self).spec_device(), args.path@, args.input@, r@),
    {
        match self.device.get(args.path.as_str()) {
            None => Self::error_response("Path not found", args.path.as_str()),
            Some(Member::Attribute(_)) => Self::error_response(
                "Path does not refer to an action",
                args.path.as_str(),
            ),
            Some(Member::Action(action)) => {
                let input_schema = action.input_schema();
                match decode_value(&input_schema, args.input.as_slice(), 0) {
                    None => Self::error_response(
                        "Failed to unserialize input value",
                        args.path.as_str(),
                    ),
                    Some((input_value, _end)) => {
                        proof {
                            assert(conforms(input_value@, action.spec_input_schema()));
                        }
                        let start = timestamp();
                        match action.run(input_value) {
                            Err(error) => PluginResponse::Error(
                                crate::plugin::response::Error {
                                    message: String::from_str("Failed to run action: ").concat(
                                        error.message().as_str(),
                                    ),
                                    path: Some(args.path.clone()),
                                },
                            ),
                            Ok(output_value) => {
                                let raw_end = timestamp();
                                let end = if raw_end < start {
                                    start
                                } else {
                                    raw_end
                                };
                                let output_schema = action.output_schema();
                                match encode_value(&output_schema, &output_value) {
                                    None => Self::error_response(
                                        "Failed to serialize output value",
                                        args.path.as_str(),
                                    ),
                                    Some(output) => PluginResponse::ActionResult(
                                        ActionResult { output, start, end },
                                    ),
                                }
                            },
                        }
                    },
                }
            },
        }
    }

    /// Answers one request; never fails, never ends the exchange.
    pub fn process_request(&mut self, request: &Request) -> (r: PluginResponse)
        requires
            old(self).wf(),
        ensures
            final(self).wf(),
            dispatch_post(*old(self), *final(self), request@, r@),
    {
        match request {
            Request::Signal(signal) => self.signal(signal),
            Request::DescribeDevice(_) => self.describe_device(),
            Request::ReadAttribute(args) => self.read_attribute(args),
            Request::WriteAttribute(args) => self.write_attribute(args),
            Request::RunAction(args) => self.run_action(args),
        }
    }

    /// One turn of the serving loop, on bytes instead of a socket: decode
    /// the request datum at `pos`, dispatch it, and append the encoded
    /// response to the outbound stream. A datum that does not decode is
    /// answered with an error carrying no path, and no cursor is
    /// returned, since a malformed stream has no next boundary. The quit
    /// flag rises exactly when the datum is the quit signal, which is
    /// answered with exactly the success status: a loop that stops
    /// reading once `should_quit` holds serves nothing past the quit
    /// request, however much of the stream already arrived.
    pub fn handle_datum(&mut self, buf: &[u8], pos: usize, out: &mut Vec<u8>) -> (r: Option<
        usize,
    >)
        requires
            old(self).wf(),
            pos <= buf@.len(),
        ensures
            final(self).wf(),
            match spec_decode_request(buf@, pos as int) {
                Some((m, end)) => r is Some && r.unwrap() == end && (exists|rm: ResponseModel|
                    #[trigger] dispatch_post(*old(self), *final(self), m, rm) && final(out)@
                        == old(out)@ + spec_encode_response(rm)) && (m == RequestModel::Signal(
                    Signal::Quit,
                ) ==> final(self).spec_quit() && final(out)@ == old(out)@ + spec_encode_response(
                    ResponseModel::Status(Status::Okay),
                )) && (m != RequestModel::Signal(Signal::Quit) ==> final(self).spec_quit() == old(
                    self,
                ).spec_quit()),
                None => r is None && *final(self) == *old(self) && final(out)@ == old(out)@
                    + spec_encode_response(spec_nopath_error("Failed to unserialize request"@)),
            },
    {
        match decode_request(buf, pos) {
            Some((request, end)) => {
                let response = self.process_request(&request);
                encode_response(&response, out);
                proof {
                    assert(dispatch_post(*old(self), *self, request@, response@));
                }
                Some(end)
            },
            None => {
                let response = PluginResponse::Error(
                    crate::plugin::response::Error {
                        message: String::from_str("Failed to unserialize request"),
                        path: None,
                    },
                );
                encode_response(&response, out);
                None
            },
        }
    }
}

} // verus!
