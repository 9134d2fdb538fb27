use vstd::prelude::*;

verus! {

/// The success acknowledgement.
#[derive(Clone, Copy, Debug, PartialEq, Eq, Structural)]
pub enum Status {
    Okay,
}

/// A protocol-level failure, reported through the normal response channel
/// with the offending path when one is known.
#[derive(Debug, PartialEq)]
pub struct Error {
    pub message: String,
    pub path: Option<String>,
}

/// One attribute in a device description: its path, its capability flags
/// rendered as strings, and its schema rendered as a self-describing
/// string.
#[derive(Debug, PartialEq)]
pub struct Attribute {
    pub path: String,
    pub flags: Vec<String>,
    pub schema: String,
}

/// One action in a device description, with both of its schemas rendered.
#[derive(Debug, PartialEq)]
pub struct Action {
    pub path: String,
    pub input_schema: String,
    pub output_schema: String,
}

/// A full device description: the answer to `DescribeDevice`.
#[derive(Debug, PartialEq)]
pub struct Device {
    pub name: String,
    pub attributes: Vec<Attribute>,
    pub actions: Vec<Action>,
}

/// An attribute value encoded against the attribute's schema, stamped
/// with the wall-clock time of the operation.
#[derive(Debug, PartialEq)]
pub struct AttributeValue {
    pub value: Vec<u8>,
    pub time: i64,
}

/// An action's output encoded against its output schema, with the
/// wall-clock timestamps around the run.
#[derive(Debug, PartialEq)]
pub struct ActionResult {
    pub output: Vec<u8>,
    pub start: i64,
    pub end: i64,
}

/// The closed catalog of responses a plugin may send.
#[derive(Debug, PartialEq)]
pub enum PluginResponse {
    Status(Status),
    Error(Error),
    Device(Device),
    AttributeValue(AttributeValue),
    ActionResult(ActionResult),
}

/// The mathematical model of an `Error`.
pub struct ErrorModel {
    pub message: Seq<char>,
    pub path: Option<Seq<char>>,
}

/// The mathematical model of a described attribute.
pub struct AttributeModel {
    pub path: Seq<char>,
    pub flags: Seq<Seq<char>>,
    pub schema: Seq<char>,
}

/// The mathematical model of a described action.
pub struct ActionModel {
    pub path: Seq<char>,
    pub input_schema: Seq<char>,
    pub output_schema: Seq<char>,
}

/// The mathematical model of a device description.
pub struct DeviceModel {
    pub name: Seq<char>,
    pub attributes: Seq<AttributeModel>,
    pub actions: Seq<ActionModel>,
}

/// The mathematical model of an `AttributeValue`.
pub struct AttributeValueModel {
    pub value: Seq<u8>,
    pub time: i64,
}

/// The mathematical model of an `ActionResult`.
pub struct ActionResultModel {
    pub output: Seq<u8>,
    pub start: i64,
    pub end: i64,
}

/// The mathematical model of a `PluginResponse`.
pub enum ResponseModel {
    Status(Status),
    Error(ErrorModel),
    Device(DeviceModel),
    AttributeValue(AttributeValueModel),
    ActionResult(ActionResultModel),
}

impl View for Error {
    type V = ErrorModel;

    open spec fn view(&self) -> ErrorModel {
        ErrorModel {
            message: self.message@,
            path: match &self.path {
                Some(p) => Some(p@),
                None => None,
            },
        }
    }
}

impl View for Attribute {
    type V = AttributeModel;

    open spec fn view(&self) -> AttributeModel {
        AttributeModel {
            path: self.path@,
            flags: self.flags.deep_view(),
            schema: self.schema@,
        }
    }
}

impl View for Action {
    type V = ActionModel;

    open spec fn view(&self) -> ActionModel {
        ActionModel {
            path: self.path@,
            input_schema: self.input_schema@,
            output_schema: self.output_schema@,
        }
    }
}

impl DeepView for Attribute {
    type V = AttributeModel;

    open spec fn deep_view(&self) -> AttributeModel {
        self.view()
    }
}

impl DeepView for Action {
    type V = ActionModel;

    open spec fn deep_view(&self) -> ActionModel {
        self.view()
    }
}

impl View for Device {
    type V = DeviceModel;

    open spec fn view(&self) -> DeviceModel {
        DeviceModel {
            name: self.name@,
            attributes: self.attributes.deep_view(),
            actions: self.actions.deep_view(),
        }
    }
}

impl View for AttributeValue {
    type V = AttributeValueModel;

    open spec fn view(&self) -> AttributeValueModel {
        AttributeValueModel { value: self.value@, time: self.time }
    }
}

impl View for ActionResult {
    type V = ActionResultModel;

    open spec fn view(&self) -> ActionResultModel {
        ActionResultModel { output: self.output@, start: self.start, end: self.end }
    }
}

impl View for PluginResponse {
    type V = ResponseModel;

    open spec fn view(&self) -> ResponseModel {
        match self {
            PluginResponse::Status(s) => ResponseModel::Status(*s),
            PluginResponse::Error(e) => ResponseModel::Error(e@),
            PluginResponse::Device(d) => ResponseModel::Device(d@),
            PluginResponse::AttributeValue(av) => ResponseModel::AttributeValue(av@),
            PluginResponse::ActionResult(ar) => ResponseModel::ActionResult(ar@),
        }
    }
}

} // verus!
