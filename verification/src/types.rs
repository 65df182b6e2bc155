pub mod kiro_response;
pub mod openai_request;
