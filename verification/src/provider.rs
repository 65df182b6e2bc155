pub mod chat;
pub mod content;
pub mod dashscope;
pub mod kiro;
