pub mod instance;
pub mod request;
pub mod response;
pub mod server;
pub mod wire;
