//! A small transform worker: it holds a configured logical pool size and
//! rewrites source text by a fixed literal substitution rule, offered both
//! as a blocking call and as a call that reserves a failure channel for the
//! non-blocking path.

pub mod rule;
pub mod worker;

pub use worker::NativeWorker;
pub use worker::TransformError;
pub use worker::hello_rust;
