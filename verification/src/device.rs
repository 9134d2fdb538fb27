pub mod action;
pub mod attribute;
pub mod device;
pub mod error;
pub mod stored;

pub use action::Action;
pub use attribute::{Attribute, AttributeFlags};
pub use device::{Device, Member};
pub use error::DeviceError;
