//! Errors of the surrounding application.

use vstd::prelude::*;

verus! {

#[derive(Clone, Debug, PartialEq, Eq)]
pub enum AppError {
    FileNotFound(String),
    InvalidFormat(String),
    IoError(String),
    SerializationError(String),
    ProjectNotFound(String),
    InvalidInput(String),
    ComponentNotFound(String),
    InvalidOperation(String),
    DatabaseError(String),
    ThreadError(String),
    Unknown(String),
}

} // verus!
