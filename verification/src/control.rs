//! The operator-facing capture switch.
//!
//! The engine is an owned, replaceable value: toggling capture on
//! constructs a brand-new session with a fresh start time and an empty
//! writer registry; toggling it off removes the session whole and hands
//! it back to the caller to be flushed.  Re-enabling therefore never
//! resumes writing into an earlier session's files.

use vstd::prelude::*;
use crate::session::Receiver;
use crate::time::StartTime;

verus! {

/// Owns the running capture session, if any.
pub struct CaptureControl {
    session: Option<Receiver>,
}

impl CaptureControl {
    pub closed spec fn spec_session(&self) -> Option<Receiver> {
        self.session
    }

    /// Capture is enabled exactly while a session is running.
    pub open spec fn spec_is_recording(&self) -> bool {
        self.spec_session() is Some
    }

    pub closed spec fn wf(&self) -> bool {
        self.session matches Some(s) ==> s.wf()
    }

    /// No capture running.
    pub fn new() -> (r: CaptureControl)
        ensures
            r.wf(),
            !r.spec_is_recording(),
    {
        CaptureControl { session: None }
    }

    pub fn is_recording(&self) -> (r: bool)
        ensures
            r == self.spec_is_recording(),
    {
        self.session.is_some()
    }

    /// Flips capture and reports the new state.  Turning it on starts a
    /// brand-new session at the given time, with no writers and no known
    /// identities; turning it off removes the current session and returns
    /// it, untouched, for the caller to flush.
    pub fn toggle_capture(&mut self, now: StartTime) -> (r: (bool, Option<Receiver>))
        requires
            old(self).wf(),
            now.wf(),
        ensures
            final(self).wf(),
            r.0 == final(self).spec_is_recording(),
            final(self).spec_is_recording() == !old(self).spec_is_recording(),
            !old(self).spec_is_recording() ==> r.1 is None && (final(self).spec_session()
                matches Some(s) && s.wf() && s.spec_record() && s.spec_start_time() == now
                && s.tracks() == Map::<u32, Seq<i16>>::empty() && s.identities() == Map::<
                u32,
                u64,
            >::empty()),
            old(self).spec_is_recording() ==> final(self).spec_session() is None && r.1 == old(
                self,
            ).spec_session(),
    {
        let prev = self.session.take();
        match prev {
            Some(s) => (false, Some(s)),
            None => {
                self.session = Some(Receiver::with_start_time(now));
                (true, None)
            },
        }
    }

    /// The running session, for event delivery.
    pub fn current_session(&mut self) -> (r: Option<&mut Receiver>)
        ensures
            old(self).spec_session() is None ==> r is None && *final(self) == *old(self),
            old(self).spec_session() matches Some(s0) ==> (r matches Some(sr) && *sr == s0
                && final(self).spec_session() == Some(*final(sr))),
    {
        match &mut self.session {
            Some(s) => Some(s),
            None => None,
        }
    }
}

} // verus!
