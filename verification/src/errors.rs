use vstd::prelude::*;
use vstd::string::StringExecFns;

verus! {

/// Why a capture backend, or the stream built on it, failed.
#[derive(Clone, Copy, PartialEq, Eq, Structural, Debug)]
pub enum StreamError {
    /// The backend's binary or toolchain could not be located.
    ToolNotFound,
    /// The backend never produced its readiness signal in time.
    StartupTimeout,
    /// The announced surface geometry contradicts itself.
    MalformedGeometry,
    /// The backend process exited or its stream reached end of file.
    ProcessExited,
    /// The multipart framing lost its place.
    ProtocolDesync,
    /// One image failed to decode; the stream itself goes on.
    DecodeFailure,
}

impl StreamError {
    /// The propagation policy: a single bad image is recovered locally and a
    /// framing desync only resets the reader, while every other failure is
    /// terminal for its backend and advances the fallback chain.
    pub fn advances_backend(&self) -> (r: bool)
        ensures
            r == !(self is DecodeFailure || self is ProtocolDesync),
    {
        match self {
            StreamError::DecodeFailure => false,
            StreamError::ProtocolDesync => false,
            _ => true,
        }
    }
}

/// Errors of the simulator session layer.
#[derive(Debug)]
pub enum SimulatorError {
    NoActiveSession,
    SessionNotFound(String),
    ServerError(String),
    StreamError(String),
    Io(String),
    ImageError(String),
}

/// Errors of the project build and simulator toolchain layer.
#[derive(Debug)]
pub enum XcodeError {
    XcodeNotFound(String),
    ProjectNotFound(String),
    InvalidProject(String),
    BuildFailed(String),
    SimulatorError(String),
    Io(String),
    JsonError(String),
}

impl SimulatorError {
    /// A human-readable account of the error.
    pub fn message(&self) -> (r: String)
        ensures
            match self {
                SimulatorError::NoActiveSession => r@ == "no active session"@,
                SimulatorError::SessionNotFound(s) => r@ == s@,
                SimulatorError::ServerError(s) => r@ == s@,
                SimulatorError::StreamError(s) => r@ == s@,
                SimulatorError::Io(s) => r@ == s@,
                SimulatorError::ImageError(s) => r@ == s@,
            },
    {
        match self {
            SimulatorError::NoActiveSession => String::from_str("no active session"),
            SimulatorError::SessionNotFound(s) => s.clone(),
            SimulatorError::ServerError(s) => s.clone(),
            SimulatorError::StreamError(s) => s.clone(),
            SimulatorError::Io(s) => s.clone(),
            SimulatorError::ImageError(s) => s.clone(),
        }
    }
}

} // verus!
