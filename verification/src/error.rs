//! The ways in which an operation of the runtime fails.

use vstd::prelude::*;

verus! {

/// Why an operation failed.
#[derive(Clone, Copy, Debug, PartialEq, Eq, Structural)]
pub enum RuntimeError {
    /// The blackboard has not been started.
    NotRunning,
    /// The blackboard has already been started.
    AlreadyRunning,
    /// A key, a value, an output slot or a function that must be given is
    /// missing.
    NullInput,
    /// The blackboard holds no entry under the key.
    KeyNotFound,
    /// The entry under the key is of another kind than the one asked for.
    TypeMismatch,
    /// The attributes handed to `start` could not be read.
    BadAttributes,
    /// A value has no rendering in the schema.
    UnknownType,
    /// No loaded plugin has the name that another requires.
    CapabilityNotFound,
    /// A plugin does not export the entry that it declares.
    SymbolNotFound,
    /// A plugin could not be loaded or does not describe itself.
    LoadFailed,
}

impl RuntimeError {
    /// What the error says.
    pub open spec fn spec_message(self) -> Seq<char> {
        match self {
            RuntimeError::NotRunning => "Server is not running"@,
            RuntimeError::AlreadyRunning => "Server is already running"@,
            RuntimeError::NullInput => "Input is null pointer"@,
            RuntimeError::KeyNotFound => "Key not found"@,
            RuntimeError::TypeMismatch => "Failed to downcast value for key"@,
            RuntimeError::BadAttributes => "Failed to parse attributes"@,
            RuntimeError::UnknownType => "Unsupported type for key"@,
            RuntimeError::CapabilityNotFound => "Library not found"@,
            RuntimeError::SymbolNotFound => "Capability cannot be loaded"@,
            RuntimeError::LoadFailed => "Summary can not parsed"@,
        }
    }

    /// What the error says, for a log.
    pub fn message(&self) -> (text: &'static str)
        ensures
            text@ == self.spec_message(),
    {
        match self {
            RuntimeError::NotRunning => "Server is not running",
            RuntimeError::AlreadyRunning => "Server is already running",
            RuntimeError::NullInput => "Input is null pointer",
            RuntimeError::KeyNotFound => "Key not found",
            RuntimeError::TypeMismatch => "Failed to downcast value for key",
            RuntimeError::BadAttributes => "Failed to parse attributes",
            RuntimeError::UnknownType => "Unsupported type for key",
            RuntimeError::CapabilityNotFound => "Library not found",
            RuntimeError::SymbolNotFound => "Capability cannot be loaded",
            RuntimeError::LoadFailed => "Summary can not parsed",
        }
    }
}

/// The code that crosses a plugin boundary for a result: `0` for success,
/// `-1` for every failure.
pub open spec fn spec_status(failed: bool) -> i32 {
    if failed {
        -1i32
    } else {
        0i32
    }
}

} // verus!
