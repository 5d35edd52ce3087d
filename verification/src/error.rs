//! The errors of the library.

use vstd::prelude::*;

verus! {

/// Why an operation was refused.
#[derive(Clone, Copy, Debug, PartialEq, Eq, Structural)]
pub enum MemoryError {
    /// No running process has the image name that was asked for.
    ProcessNotFound,
    /// The operating system denied opening, reading, writing or allocating.
    AccessDenied,
    /// The handle was never opened, or was released before.
    InvalidHandle,
    /// A signature text is malformed.
    Parse,
    /// Fewer bytes were written than were handed over.
    Write,
    /// Bytes read as text are not valid UTF-8.
    Decode,
}

impl MemoryError {
    /// The text that stands for the error, as a caller is shown it.
    pub open spec fn text(self) -> Seq<char> {
        match self {
            MemoryError::ProcessNotFound => "Process not found"@,
            MemoryError::AccessDenied => "Access denied"@,
            MemoryError::InvalidHandle => "Invalid handle"@,
            MemoryError::Parse => "Malformed signature"@,
            MemoryError::Write => "Write failed"@,
            MemoryError::Decode => "Invalid text"@,
        }
    }

    /// The text that stands for the error, as a caller is shown it.
    pub fn message(&self) -> (message: String)
        ensures
            message@ == self.text(),
    {
        match self {
            MemoryError::ProcessNotFound => "Process not found".to_owned(),
            MemoryError::AccessDenied => "Access denied".to_owned(),
            MemoryError::InvalidHandle => "Invalid handle".to_owned(),
            MemoryError::Parse => "Malformed signature".to_owned(),
            MemoryError::Write => "Write failed".to_owned(),
            MemoryError::Decode => "Invalid text".to_owned(),
        }
    }
}

} // verus!
