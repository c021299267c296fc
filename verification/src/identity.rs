//! The identity directory: a best-effort map from transient source stream
//! ids to stable speaker identities, populated by identity-announcement
//! events.  Entries persist for the session's lifetime; there is no
//! removal.

use vstd::prelude::*;
use crate::cmap;

verus! {

/// Maps each known source stream id to the announced speaker identity.
pub struct IdentityDirectory {
    map: dashmap::DashMap<u32, u64>,
}

impl View for IdentityDirectory {
    type V = Map<u32, u64>;

    closed spec fn view(&self) -> Map<u32, u64> {
        cmap::dash_entries(self.map)
    }
}

impl IdentityDirectory {
    /// A directory with no identities known yet.
    pub fn new() -> (d: IdentityDirectory)
        ensures
            d@ == Map::<u32, u64>::empty(),
    {
        IdentityDirectory { map: cmap::dash_new() }
    }

    /// Records an identity announcement: an idempotent upsert.  If the
    /// platform reassigns a source id, the last announcement wins; nothing
    /// else in the directory changes.
    pub fn record_identity(&mut self, ssrc: u32, identity: u64)
        ensures
            final(self)@ == old(self)@.insert(ssrc, identity),
    {
        cmap::dash_insert(&mut self.map, ssrc, identity);
    }

    /// Looks a source id up, returning nothing if no announcement has
    /// arrived for it.
    pub fn lookup(&self, ssrc: u32) -> (r: Option<u64>)
        ensures
            r == if self@.contains_key(ssrc) {
                Some(self@[ssrc])
            } else {
                None::<u64>
            },
    {
        cmap::dash_get(&self.map, ssrc)
    }
}

} // verus!
