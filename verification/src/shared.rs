//! An interning map shared between threads.
//!
//! The [`InternMap`] is a value mutated through `&mut`; to let many threads
//! intern against one map, it goes behind a verified reader/writer lock
//! whose invariant is the map's well-formedness. Resolution and the hit
//! path of interning take the shared lock; only filing a new pair takes the
//! exclusive lock, so the common case never blocks readers.
//!
//! Between any two calls here another thread may intern, so nothing
//! relating separate calls can be stated of a shared map; the per-call
//! guarantees — an identifier is never zero, never reused, and always
//! resolves to the text that produced it — are the contracts of
//! [`InternMap`] itself, which is the only thing the lock ever holds.
//!
//! The counter lives inside the same lock as the tables, so the window in
//! which two racing threads could both file the same new text under two
//! identifiers does not exist here: the write path finds the other
//! thread's entry and returns its identifier. The model still tolerates
//! duplicate identifiers for equal text — they can be seeded deliberately —
//! and no resolution is ever wrong either way.

use crate::map::model_wf;
use crate::map::InternMap;
use vstd::prelude::*;
use vstd::rwlock::RwLock;
use vstd::rwlock::RwLockPredicate;

verus! {

/// The lock invariant: whatever map sits behind the lock is well-formed.
pub struct WfPred;

impl RwLockPredicate<InternMap> for WfPred {
    open spec fn inv(self, v: InternMap) -> bool {
        model_wf(v.model())
    }
}

/// A well-formed interning map behind a reader/writer lock. The lock's
/// invariant is [`model_wf`], so every acquisition hands back a well-formed
/// map and every release must leave one.
pub struct SharedInternMap {
    inner: RwLock<InternMap, WfPred>,
}

impl SharedInternMap {
    #[verifier::type_invariant]
    spec fn wf(self) -> bool {
        self.inner.pred() == WfPred
    }

    /// Put a well-formed map behind a fresh lock.
    pub fn new(map: InternMap) -> (s: SharedInternMap)
        requires
            model_wf(map.model()),
    {
        SharedInternMap { inner: RwLock::new(map, Ghost(WfPred)) }
    }

    /// Intern text against the shared map, or report that the identifier
    /// space is exhausted and the text was new. Reading first keeps the
    /// common case — text already interned — free of the exclusive lock;
    /// only new text pays for it. A returned identifier is never zero and,
    /// by the contracts of the map behind the lock, resolves to `text` from
    /// the moment this call returns it; which identifier comes back depends
    /// on what other threads interned first, so no more can be stated.
    pub fn internalize(&self, text: String) -> (r: Option<u32>)
        ensures
            r matches Some(id) ==> id != 0,
    {
        proof {
            use_type_invariant(self);
        }
        let read = self.inner.acquire_read();
        let found = read.borrow().lookup(text.as_str());
        read.release_read();
        match found {
            Some(id) => Some(id),
            None => {
                let (mut map, write) = self.inner.acquire_write();
                let r = map.try_internalize(text);
                write.release_write(map);
                r
            },
        }
    }

    /// Resolve an identifier against the shared map, `None` for one the
    /// map never handed out. What text an identifier resolves to is decided
    /// by the interning that produced it, not by this call, so nothing is
    /// stated here.
    pub fn get(&self, key: u32) -> Option<String> {
        proof {
            use_type_invariant(self);
        }
        let read = self.inner.acquire_read();
        let r = read.borrow().get(key);
        read.release_read();
        r
    }
}

} // verus!
