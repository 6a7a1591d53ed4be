use vstd::prelude::*;

verus! {

/// Errors raised by the container operations.
///
/// All of them are unrecoverable at the point of detection and abort the
/// whole operation.
#[derive(Debug)]
pub enum RadError {
    /// The chunk stream ended mid-header or mid-payload: a declared chunk
    /// byte length cannot be satisfied by the remaining bytes.
    TruncatedInput,
    /// Two containers whose preludes are not structurally identical were
    /// handed to concatenation.  The fields name the two offending inputs.
    IncompatibleContainers { first: String, other: String },
    /// The codec refused the prelude or the file-level tag value block at
    /// the front of a container.
    InvalidPrelude,
    /// A read or write failed at the filesystem boundary.  The verified
    /// operations never produce this variant themselves; it exists so that
    /// callers doing the actual file traffic can report failures in the
    /// same taxonomy.
    IOFailure,
}

} // verus!
