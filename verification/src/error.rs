//! The error taxonomy of the library.
//!
//! Decode failures are typed and carry the key of the offending record, so a
//! corrupt catalog entry can be reported without hiding the rest of the
//! catalog.  Scan failures distinguish the engine's outcome categories from a
//! caller's misuse of the cursor state machine.

use vstd::prelude::*;
use crate::status::StatusOutcome;

verus! {

/// Why a record's value bytes were rejected by the catalog decoder.
#[derive(Clone, Copy, Debug, PartialEq, Eq, Structural)]
pub enum MalformedReason {
    /// The byte sequence ended before the structure it declares.
    Truncated,
    /// A declared length does not match the bytes that are present.
    LengthMismatch,
    /// An element carries a type tag outside the supported set.
    InvalidTag,
    /// An element's payload is not a legal value for its type tag.
    InvalidValue,
    /// The record names a storage file but lacks the `ns` field.
    MissingNamespace,
    /// The `ident` field is present but is not a string.
    IdentNotText,
    /// The `ns` field is present but is not a string.
    NamespaceNotText,
    /// The `idxIdent` field is present but is not a sub-document.
    IndexIdentsNotDoc,
    /// A value under `idxIdent` is not a string.
    IndexIdentNotText,
}

/// A typed decode failure: the key of the record whose value bytes were
/// rejected, and the reason.
#[derive(Clone, Copy, Debug, PartialEq, Eq, Structural)]
pub struct MalformedDocument {
    pub record_key: i64,
    pub reason: MalformedReason,
}

/// A failure of the scan as a whole.
#[derive(Clone, Copy, Debug, PartialEq, Eq, Structural)]
pub enum ScanError {
    /// The engine environment could not be opened; carries the status code.
    EngineOpenFailed(i32),
    /// The cursor over the catalog table could not be opened.
    CursorOpenFailed(i32),
    /// An engine operation failed; carries the outcome category of its
    /// status code.
    OperationFailed(StatusOutcome),
    /// The caller misused the cursor state machine, e.g. read a record in a
    /// state that holds none.
    ContractViolation,
}

} // verus!
