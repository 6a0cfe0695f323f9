//! Core of a minimal concurrent static-file server: a fixed-size worker
//! pool fed by an ordered job queue, plus the request-line parsing, file
//! route resolution and response formatting that the per-connection
//! handler applies to each accepted connection.

pub mod process;
pub mod request;
pub mod text;
pub mod thread;
