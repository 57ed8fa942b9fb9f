//! The handle lifecycle: environment, session, cursor.
//!
//! The engine owns the real handles; this machine owns the ordering rules:
//! a session exists only inside an open environment, a cursor only inside
//! an open session, and closing must run in strict reverse order — cursor,
//! then session, then environment.  Each open call takes the engine's
//! status code and decides; each misuse is rejected with
//! `ContractViolation` and changes nothing.

use vstd::prelude::*;
use crate::status::{StatusOutcome, spec_classify, classify};
use crate::error::ScanError;

verus! {

/// Which engine handles are open.  Well-formed states nest: a cursor
/// implies a session, a session implies an environment.
#[derive(Clone, Copy, Debug, PartialEq, Eq, Structural)]
pub struct EngineHandles {
    pub env_open: bool,
    pub session_open: bool,
    pub cursor_open: bool,
}

/// The nesting invariant: a cursor never outlives its session, a session
/// never outlives its environment.
pub open spec fn handles_wf(h: EngineHandles) -> bool {
    (h.session_open ==> h.env_open) && (h.cursor_open ==> h.session_open)
}

impl EngineHandles {
    /// No handle open.
    pub fn new() -> (r: EngineHandles)
        ensures
            r == (EngineHandles { env_open: false, session_open: false, cursor_open: false }),
            handles_wf(r),
    {
        EngineHandles { env_open: false, session_open: false, cursor_open: false }
    }

    /// Reports the status of the environment-open call.  Opening twice is
    /// a contract violation; a non-success status is `EngineOpenFailed`.
    pub fn open_env(&mut self, code: i32) -> (r: Result<(), ScanError>)
        ensures
            handles_wf(*old(self)) ==> handles_wf(*final(self)),
            old(self).env_open ==> r == Result::<(), ScanError>::Err(
                ScanError::ContractViolation,
            ) && *final(self) == *old(self),
            !old(self).env_open && spec_classify(code) == StatusOutcome::Success ==> r
                == Result::<(), ScanError>::Ok(()) && *final(self) == (EngineHandles {
                env_open: true,
                ..*old(self)
            }),
            !old(self).env_open && spec_classify(code) != StatusOutcome::Success ==> r
                == Result::<(), ScanError>::Err(ScanError::EngineOpenFailed(code)) && *final(self)
                == *old(self),
    {
        if self.env_open {
            return Err(ScanError::ContractViolation);
        }
        if classify(code) == StatusOutcome::Success {
            self.env_open = true;
            Ok(())
        } else {
            Err(ScanError::EngineOpenFailed(code))
        }
    }

    /// Reports the status of the session-open call.  A session needs an
    /// open environment and there is at most one at a time.
    pub fn open_session(&mut self, code: i32) -> (r: Result<(), ScanError>)
        ensures
            handles_wf(*old(self)) ==> handles_wf(*final(self)),
            !old(self).env_open || old(self).session_open ==> r == Result::<(), ScanError>::Err(
                ScanError::ContractViolation,
            ) && *final(self) == *old(self),
            old(self).env_open && !old(self).session_open && spec_classify(code)
                == StatusOutcome::Success ==> r == Result::<(), ScanError>::Ok(()) && *final(self)
                == (EngineHandles { session_open: true, ..*old(self) }),
            old(self).env_open && !old(self).session_open && spec_classify(code)
                != StatusOutcome::Success ==> r == Result::<(), ScanError>::Err(
                ScanError::OperationFailed(spec_classify(code)),
            ) && *final(self) == *old(self),
    {
        if !self.env_open || self.session_open {
            return Err(ScanError::ContractViolation);
        }
        if classify(code) == StatusOutcome::Success {
            self.session_open = true;
            Ok(())
        } else {
            Err(ScanError::OperationFailed(classify(code)))
        }
    }

    /// Reports the status of the cursor-open call.  A cursor needs an open
    /// session; a non-success status is `CursorOpenFailed` (the table does
    /// not exist, for one).
    pub fn open_cursor(&mut self, code: i32) -> (r: Result<(), ScanError>)
        ensures
            handles_wf(*old(self)) ==> handles_wf(*final(self)),
            !old(self).session_open || old(self).cursor_open ==> r == Result::<(), ScanError>::Err(
                ScanError::ContractViolation,
            ) && *final(self) == *old(self),
            old(self).session_open && !old(self).cursor_open && spec_classify(code)
                == StatusOutcome::Success ==> r == Result::<(), ScanError>::Ok(()) && *final(self)
                == (EngineHandles { cursor_open: true, ..*old(self) }),
            old(self).session_open && !old(self).cursor_open && spec_classify(code)
                != StatusOutcome::Success ==> r == Result::<(), ScanError>::Err(
                ScanError::CursorOpenFailed(code),
            ) && *final(self) == *old(self),
    {
        if !self.session_open || self.cursor_open {
            return Err(ScanError::ContractViolation);
        }
        if classify(code) == StatusOutcome::Success {
            self.cursor_open = true;
            Ok(())
        } else {
            Err(ScanError::CursorOpenFailed(code))
        }
    }

    /// Closes the cursor.  Closing one that is not open is a contract
    /// violation.
    pub fn close_cursor(&mut self) -> (r: Result<(), ScanError>)
        ensures
            handles_wf(*old(self)) ==> handles_wf(*final(self)),
            !old(self).cursor_open ==> r == Result::<(), ScanError>::Err(
                ScanError::ContractViolation,
            ) && *final(self) == *old(self),
            old(self).cursor_open ==> r == Result::<(), ScanError>::Ok(()) && *final(self)
                == (EngineHandles { cursor_open: false, ..*old(self) }),
    {
        if !self.cursor_open {
            return Err(ScanError::ContractViolation);
        }
        self.cursor_open = false;
        Ok(())
    }

    /// Closes the session.  A still-open cursor forbids it: release runs
    /// in reverse order of acquisition.
    pub fn close_session(&mut self) -> (r: Result<(), ScanError>)
        ensures
            handles_wf(*old(self)) ==> handles_wf(*final(self)),
            !old(self).session_open || old(self).cursor_open ==> r == Result::<
                (),
                ScanError,
            >::Err(ScanError::ContractViolation) && *final(self) == *old(self),
            old(self).session_open && !old(self).cursor_open ==> r == Result::<(), ScanError>::Ok(
                (),
            ) && *final(self) == (EngineHandles { session_open: false, ..*old(self) }),
    {
        if !self.session_open || self.cursor_open {
            return Err(ScanError::ContractViolation);
        }
        self.session_open = false;
        Ok(())
    }

    /// Closes the environment.  A still-open session forbids it.
    pub fn close_env(&mut self) -> (r: Result<(), ScanError>)
        ensures
            handles_wf(*old(self)) ==> handles_wf(*final(self)),
            !old(self).env_open || old(self).session_open ==> r == Result::<(), ScanError>::Err(
                ScanError::ContractViolation,
            ) && *final(self) == *old(self),
            old(self).env_open && !old(self).session_open ==> r == Result::<(), ScanError>::Ok(
                (),
            ) && *final(self) == (EngineHandles { env_open: false, ..*old(self) }),
    {
        if !self.env_open || self.session_open {
            return Err(ScanError::ContractViolation);
        }
        self.env_open = false;
        Ok(())
    }

    /// Releases whatever is open, in strict reverse order — cursor, then
    /// session, then environment.  From any well-formed state this leaves
    /// every handle closed and violates no ordering rule.
    pub fn close_all(&mut self)
        requires
            handles_wf(*old(self)),
        ensures
            *final(self) == (EngineHandles {
                env_open: false,
                session_open: false,
                cursor_open: false,
            }),
    {
        if self.cursor_open {
            let r = self.close_cursor();
            proof {
                assert(r is Ok);
            }
        }
        if self.session_open {
            let r = self.close_session();
            proof {
                assert(r is Ok);
            }
        }
        if self.env_open {
            let r = self.close_env();
            proof {
                assert(r is Ok);
            }
        }
    }
}

} // verus!
