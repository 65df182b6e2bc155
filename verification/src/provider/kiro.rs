pub mod agreement;
pub mod answer_laws;
pub mod client;
pub mod client_helper;
pub mod credential;
pub mod framing;
pub mod payload_laws;
pub mod request_builder;
pub mod request_laws;
pub mod response_builder;
pub mod tool_calls;
