//! Classification of engine status codes.
//!
//! Every operation on the storage engine reports a signed 32-bit status
//! code.  `classify` is the single place where a code is mapped to an
//! outcome category; no other part of the library interprets raw codes.

use vstd::prelude::*;

verus! {

/// Success indicator of the engine.
pub const STATUS_SUCCESS: i32 = 0;
/// Engine sentinel: the operation must be retried after a transaction rollback.
pub const STATUS_ROLLBACK: i32 = -31800;
/// Engine sentinel: an insert collided with an existing key.
pub const STATUS_DUPLICATE_KEY: i32 = -31801;
/// Engine sentinel: a generic, non-specific engine failure.
pub const STATUS_ERROR: i32 = -31802;
/// Engine sentinel: a cursor walked past the last record of its table.
pub const STATUS_NOTFOUND: i32 = -31803;
/// Engine sentinel: the engine panicked and the environment is unusable.
pub const STATUS_PANIC: i32 = -31804;
/// Engine sentinel: the operation must be restarted.
pub const STATUS_RESTART: i32 = -31805;
/// Engine sentinel: the environment requires recovery before use.
pub const STATUS_RUN_RECOVERY: i32 = -31806;
/// Engine sentinel: the cache is full and the operation cannot complete.
pub const STATUS_CACHE_FULL: i32 = -31807;

/// The outcome category of one engine status code.
#[derive(Clone, Copy, Debug, PartialEq, Eq, Structural)]
pub enum StatusOutcome {
    /// The operation succeeded.
    Success,
    /// A scan reached the end of its table: normal termination, never an error.
    NotFound,
    /// The operation failed but may be attempted again.
    Retryable,
    /// The operation failed and the whole scan must abort.
    Fatal,
    /// A non-zero code outside the defined sentinels: the single operation
    /// failed, but the failure is not treated as fatal to the process.
    Unknown,
}

/// The outcome category assigned to `code` by the classification table.
pub open spec fn spec_classify(code: i32) -> StatusOutcome {
    if code == STATUS_SUCCESS {
        StatusOutcome::Success
    } else if code == STATUS_NOTFOUND {
        StatusOutcome::NotFound
    } else if code == STATUS_ROLLBACK || code == STATUS_RESTART {
        StatusOutcome::Retryable
    } else if code == STATUS_ERROR || code == STATUS_DUPLICATE_KEY || code == STATUS_PANIC
        || code == STATUS_RUN_RECOVERY || code == STATUS_CACHE_FULL {
        StatusOutcome::Fatal
    } else {
        StatusOutcome::Unknown
    }
}

/// Maps an engine status code to its outcome category.
pub fn classify(code: i32) -> (r: StatusOutcome)
    ensures
        r == spec_classify(code),
{
    if code == STATUS_SUCCESS {
        StatusOutcome::Success
    } else if code == STATUS_NOTFOUND {
        StatusOutcome::NotFound
    } else if code == STATUS_ROLLBACK || code == STATUS_RESTART {
        StatusOutcome::Retryable
    } else if code == STATUS_ERROR || code == STATUS_DUPLICATE_KEY || code == STATUS_PANIC
        || code == STATUS_RUN_RECOVERY || code == STATUS_CACHE_FULL {
        StatusOutcome::Fatal
    } else {
        StatusOutcome::Unknown
    }
}

/// Classification is total and unambiguous: every code falls in exactly one
/// category, each defined sentinel maps to the category of the table, and the
/// categories do not overlap on any code.
pub proof fn lemma_classify_partition(code: i32)
    ensures
        spec_classify(code) == StatusOutcome::Success <==> code == STATUS_SUCCESS,
        spec_classify(code) == StatusOutcome::NotFound <==> code == STATUS_NOTFOUND,
        spec_classify(code) == StatusOutcome::Retryable <==> (code == STATUS_ROLLBACK
            || code == STATUS_RESTART),
        spec_classify(code) == StatusOutcome::Fatal <==> (code == STATUS_ERROR
            || code == STATUS_DUPLICATE_KEY || code == STATUS_PANIC
            || code == STATUS_RUN_RECOVERY || code == STATUS_CACHE_FULL),
        spec_classify(code) == StatusOutcome::Unknown <==> (code != STATUS_SUCCESS
            && code != STATUS_NOTFOUND && code != STATUS_ROLLBACK && code != STATUS_RESTART
            && code != STATUS_ERROR && code != STATUS_DUPLICATE_KEY && code != STATUS_PANIC
            && code != STATUS_RUN_RECOVERY && code != STATUS_CACHE_FULL),
{
}

} // verus!
