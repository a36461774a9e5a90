//! The server's error type.
use vstd::prelude::*;

verus! {

/// An error of the server. Failures reported by outside libraries carry their
/// message text.
#[derive(Debug)]
pub enum Error {
    Protocol(String),
    Config(String),
    Provider(String),
    Store(String),
    Cancelled,
    Http(String),
    Database(String),
    Migration(String),
    Io(String),
    Decode(String),
    Encode(String),
    Json(String),
    RunNotFound(String),
}

/// The server's result type.
pub type Result<T> = core::result::Result<T, Error>;

} // verus!
