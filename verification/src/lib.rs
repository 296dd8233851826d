//! Verified core of an asynchronous script-execution pipeline.
//!
//! The library covers the pure logic of the pipeline: encoding a script for an
//! external interpreter (CRLF normalization plus byte-order-marked UTF-16LE),
//! decoding the interpreter's captured output under uncertain encodings,
//! classifying result lines by severity, assembling the report that is handed
//! back to the caller, and the polling state machine that coordinates one
//! worker per invocation.  File, process and thread plumbing live outside the
//! library and only hand plain values in and out.

pub mod classifier;
pub mod coordinator;
pub mod decoder;
pub mod encoder;
pub mod log;
pub mod report;
pub mod text;
pub mod utf16;
