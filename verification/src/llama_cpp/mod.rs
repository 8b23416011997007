//! A model that runs inside this process: what it is asked, how its tokens
//! become an answer, and when it is loaded.

pub mod decode;
pub mod generate;
pub mod generate_laws;
pub mod laws;
pub mod prompt;
pub mod provider;
pub mod sampling;
pub mod worker;
