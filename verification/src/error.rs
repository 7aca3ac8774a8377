use vstd::prelude::*;

verus! {

#[verifier::external_type_specification]
#[verifier::external_body]
pub struct ExIoError(std::io::Error);

/// Errors that can occur during shared memory operations.
#[derive(Debug)]
pub enum SMemError {
    /// Shared memory not initialized or already disposed.
    NotInitialized,
    /// Position `pos` + size `size` exceeds capacity `capacity`.
    OutOfBounds { pos: u64, size: u64, capacity: u64 },
    /// Index `index` out of range (length: `length`).
    IndexOutOfRange { index: usize, length: usize },
    /// I/O error.
    Io(std::io::Error),
    /// Platform error.
    Platform(String),
}

pub type SMemResult<T> = Result<T, SMemError>;

} // verus!
