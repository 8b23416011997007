//! Qwen models: what is sent to them and how their answers are read.

pub mod calls;
pub mod laws;
pub mod markup;
pub mod provider;
pub mod reading_laws;
pub mod request;
pub mod request_laws;
pub mod response;
pub mod response_laws;
pub mod stream;
pub mod stream_laws;
pub mod written;
