//! The error kinds of the engine.
use vstd::prelude::*;
use crate::text::{concat2, concat3};

verus! {

/// What went wrong.
pub enum TurboError {
    Config(String),
    Io(String),
    Serialization(String),
    Sandbox(String),
    CompilationFailed,
    RuntimeNotFound(String, String),
    Package(String),
    Unknown(String),
}

/// The text of an error, as shown to users.
pub open spec fn error_text(e: TurboError) -> Seq<char> {
    match e {
        TurboError::Config(m) => "Configuration error: "@ + m@,
        TurboError::Io(m) => "IO error: "@ + m@,
        TurboError::Serialization(m) => "Serialization error: "@ + m@,
        TurboError::Sandbox(m) => "Sandbox error: "@ + m@,
        TurboError::CompilationFailed => "Compilation failed"@,
        TurboError::RuntimeNotFound(l, v) => "Runtime not found: "@ + l@ + ":"@ + v@,
        TurboError::Package(m) => "Package error: "@ + m@,
        TurboError::Unknown(m) => "Unknown error: "@ + m@,
    }
}

impl TurboError {
    /// The text of this error.
    pub fn message(&self) -> (r: String)
        ensures
            r@ == error_text(*self),
    {
        match self {
            TurboError::Config(m) => concat2("Configuration error: ", m.as_str()),
            TurboError::Io(m) => concat2("IO error: ", m.as_str()),
            TurboError::Serialization(m) => concat2("Serialization error: ", m.as_str()),
            TurboError::Sandbox(m) => concat2("Sandbox error: ", m.as_str()),
            TurboError::CompilationFailed => String::from_str("Compilation failed"),
            TurboError::RuntimeNotFound(l, v) => {
                let mut r = concat3("Runtime not found: ", l.as_str(), ":");
                r.append(v.as_str());
                r
            },
            TurboError::Package(m) => concat2("Package error: ", m.as_str()),
            TurboError::Unknown(m) => concat2("Unknown error: ", m.as_str()),
        }
    }
}

} // verus!
