pub mod error;
pub mod launch;
pub mod splitter;

pub use error::Error;
pub use launch::{check_keys, plan_invocation, Invocation};
pub use splitter::parse_input;
