//! A client-side engine for the Yeelight control protocol: correlated
//! request/response messages over one delimiter-framed JSON stream.
//!
//! The crate does no I/O. A connection hands it the bytes it has read and the
//! time, and takes back the bytes to write and what to do next.

pub mod command;
pub mod correlator;
pub mod device;
pub mod error;
pub mod framing;
pub mod ident;
pub mod json;
pub mod listener;
pub mod method;
pub mod property;
pub mod registry;
