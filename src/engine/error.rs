use vstd::prelude::*;

verus! {

/// Failures of an engine operation.
#[derive(Clone, Debug, PartialEq, Eq)]
pub enum EngineError {
    ClassNotFound(String),
    MethodNotFound(String),
    FieldNotFound(String),
    InstanceNotFound,
    InvocationFailed(String),
    TypeMismatch { expected: String, got: String },
    MemoryError(String),
    NotInitialized,
    InitializationFailed(String),
    UnsupportedOperation(String),
    InvalidArgument(String),
    PlatformError(String),
}

/// The kind of an engine error, without its message.
#[derive(Clone, Copy, Debug, PartialEq, Eq, Structural)]
pub enum ErrorKind {
    ClassNotFound,
    MethodNotFound,
    FieldNotFound,
    InstanceNotFound,
    InvocationFailed,
    TypeMismatch,
    MemoryError,
    NotInitialized,
    InitializationFailed,
    UnsupportedOperation,
    InvalidArgument,
    PlatformError,
}

impl EngineError {
    pub open spec fn spec_kind(self) -> ErrorKind {
        match self {
            EngineError::ClassNotFound(_) => ErrorKind::ClassNotFound,
            EngineError::MethodNotFound(_) => ErrorKind::MethodNotFound,
            EngineError::FieldNotFound(_) => ErrorKind::FieldNotFound,
            EngineError::InstanceNotFound => ErrorKind::InstanceNotFound,
            EngineError::InvocationFailed(_) => ErrorKind::InvocationFailed,
            EngineError::TypeMismatch { .. } => ErrorKind::TypeMismatch,
            EngineError::MemoryError(_) => ErrorKind::MemoryError,
            EngineError::NotInitialized => ErrorKind::NotInitialized,
            EngineError::InitializationFailed(_) => ErrorKind::InitializationFailed,
            EngineError::UnsupportedOperation(_) => ErrorKind::UnsupportedOperation,
            EngineError::InvalidArgument(_) => ErrorKind::InvalidArgument,
            EngineError::PlatformError(_) => ErrorKind::PlatformError,
        }
    }

    /// The kind of this error.
    pub fn kind(&self) -> (r: ErrorKind)
        ensures
            r == self.spec_kind(),
    {
        match self {
            EngineError::ClassNotFound(_) => ErrorKind::ClassNotFound,
            EngineError::MethodNotFound(_) => ErrorKind::MethodNotFound,
            EngineError::FieldNotFound(_) => ErrorKind::FieldNotFound,
            EngineError::InstanceNotFound => ErrorKind::InstanceNotFound,
            EngineError::InvocationFailed(_) => ErrorKind::InvocationFailed,
            EngineError::TypeMismatch { .. } => ErrorKind::TypeMismatch,
            EngineError::MemoryError(_) => ErrorKind::MemoryError,
            EngineError::NotInitialized => ErrorKind::NotInitialized,
            EngineError::InitializationFailed(_) => ErrorKind::InitializationFailed,
            EngineError::UnsupportedOperation(_) => ErrorKind::UnsupportedOperation,
            EngineError::InvalidArgument(_) => ErrorKind::InvalidArgument,
            EngineError::PlatformError(_) => ErrorKind::PlatformError,
        }
    }
}

/// An error of `kind` with the message `text`.
pub fn error_with(kind: ErrorKind, text: &str) -> (r: EngineError)
    ensures
        r.spec_kind() == kind,
{
    let m = text.to_owned();
    match kind {
        ErrorKind::ClassNotFound => EngineError::ClassNotFound(m),
        ErrorKind::MethodNotFound => EngineError::MethodNotFound(m),
        ErrorKind::FieldNotFound => EngineError::FieldNotFound(m),
        ErrorKind::InstanceNotFound => EngineError::InstanceNotFound,
        ErrorKind::InvocationFailed => EngineError::InvocationFailed(m),
        ErrorKind::TypeMismatch => EngineError::TypeMismatch { expected: m, got: String::new() },
        ErrorKind::MemoryError => EngineError::MemoryError(m),
        ErrorKind::NotInitialized => EngineError::NotInitialized,
        ErrorKind::InitializationFailed => EngineError::InitializationFailed(m),
        ErrorKind::UnsupportedOperation => EngineError::UnsupportedOperation(m),
        ErrorKind::InvalidArgument => EngineError::InvalidArgument(m),
        ErrorKind::PlatformError => EngineError::PlatformError(m),
    }
}

} // verus!
