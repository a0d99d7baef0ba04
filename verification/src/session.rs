//! Session lifecycle of the revision-state backend: one bisection run
//! owns one session, from start to teardown.
//!
//! The embedding program mirrors every transition recorded here onto the
//! real backend (saving the pre-bisection reference point on start,
//! restoring it on end).  The rules live here: starting over an active
//! session is a conflict, while ending or resetting is always safe and
//! idempotent.

use vstd::prelude::*;

verus! {

/// Why starting a session can be refused.
#[derive(Clone, Copy, Debug, PartialEq, Eq, Structural)]
pub enum SessionError {
    /// A session is already active; it must be reset before a new one
    /// can start.
    SessionConflict,
}

/// The backend's session state, as the driver tracks it.
#[derive(Clone, Copy, Debug, PartialEq, Eq, Structural)]
pub struct Session {
    /// Whether a bisection session is active.
    pub active: bool,
}

impl Session {
    /// No session is active at first.
    pub fn new() -> (s: Session)
        ensures
            !s.active,
    {
        Session { active: false }
    }

    /// Begin a fresh session.  Refused with `SessionConflict`, leaving
    /// the state untouched, if one is already active.
    pub fn start(&mut self) -> (r: Result<(), SessionError>)
        ensures
            !old(self).active ==> final(self).active && r == Ok::<(), SessionError>(()),
            old(self).active ==> *final(self) == *old(self) && r == Err::<(), SessionError>(
                SessionError::SessionConflict,
            ),
    {
        if self.active {
            Err(SessionError::SessionConflict)
        } else {
            self.active = true;
            Ok(())
        }
    }

    /// End the session.  Idempotent: afterwards no session is active,
    /// and ending an inactive session changes nothing.
    pub fn end(&mut self)
        ensures
            !final(self).active,
            !old(self).active ==> *final(self) == *old(self),
    {
        self.active = false;
    }

    /// Reset the session state, discarding an active session if there is
    /// one.  Resetting when no session is active is a no-op, not an
    /// error.
    pub fn reset(&mut self)
        ensures
            !final(self).active,
            !old(self).active ==> *final(self) == *old(self),
    {
        self.active = false;
    }
}

} // verus!
