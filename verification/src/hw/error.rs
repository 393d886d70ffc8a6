//! Typed errors of the device protocol.

use vstd::prelude::*;

verus! {

/// The status codes a device reply carries on the wire.
#[derive(Debug, Clone, Copy, PartialEq, Eq, Structural)]
pub enum Errors {
    Success,
    OutOfBounds,
    IllegalArguments,
    ResourceExhaustion,
    DeviceError,
    PropertyNotFound,
}

/// A failure reported by the device protocol, or by the runtime
/// underneath it.
#[derive(Debug, Clone, Copy, PartialEq, Eq, Structural)]
pub enum Error {
    /// The request addressed a register or index out of range.
    OutOfBounds,
    /// The request's arguments were rejected.
    IllegalArguments,
    /// The device side ran out of a resource.
    ResourceExhaustion,
    /// The device itself failed.
    DeviceError,
    /// The named device-tree property does not exist.
    PropertyNotFound,
    /// The runtime failed underneath the protocol.
    HelError(crate::result::Error),
}

/// The typed error a non-success reply status stands for.
pub open spec fn error_of(value: Errors) -> Error {
    match value {
        Errors::Success => Error::DeviceError,
        Errors::OutOfBounds => Error::OutOfBounds,
        Errors::IllegalArguments => Error::IllegalArguments,
        Errors::ResourceExhaustion => Error::ResourceExhaustion,
        Errors::DeviceError => Error::DeviceError,
        Errors::PropertyNotFound => Error::PropertyNotFound,
    }
}

impl Error {
    /// The protocol-level error behind a non-success reply status.
    /// `Errors::Success` is not an error, so it maps to nothing here.
    pub fn from(value: Errors) -> (r: Self)
        requires
            value != Errors::Success,
        ensures
            r == error_of(value),
    {
        match value {
            Errors::Success => Error::DeviceError,
            Errors::OutOfBounds => Error::OutOfBounds,
            Errors::IllegalArguments => Error::IllegalArguments,
            Errors::ResourceExhaustion => Error::ResourceExhaustion,
            Errors::DeviceError => Error::DeviceError,
            Errors::PropertyNotFound => Error::PropertyNotFound,
        }
    }

    /// A short human-readable description of the failure.
    pub fn message(&self) -> String {
        match self {
            Error::OutOfBounds => "out of bounds".to_string(),
            Error::IllegalArguments => "illegal arguments".to_string(),
            Error::ResourceExhaustion => "resource exhaustion".to_string(),
            Error::DeviceError => "device error".to_string(),
            Error::PropertyNotFound => "property not found".to_string(),
            Error::HelError(e) => e.message(),
        }
    }
}

/// The typed result of a device-protocol exchange.
pub type Result<T> = core::result::Result<T, Error>;

} // verus!
