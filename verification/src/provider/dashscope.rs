pub mod client;
pub mod payload_laws;
pub mod request_builder;
pub mod request_laws;
