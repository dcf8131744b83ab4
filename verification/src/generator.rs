use vstd::prelude::*;

use crate::types::SessionId;

verus! {

/// Issues unique, strictly increasing connection identifiers, starting at 1.
/// Identifier 0 is reserved as the "no specific sender" sentinel and is never
/// issued.
pub struct SessionIdGenerator {
    seed: SessionId,
}

impl SessionIdGenerator {
    /// The identifier the next call to `generate` will return.
    pub closed spec fn seed(self) -> int {
        self.seed as int
    }

    /// The set of identifiers issued so far: every identifier from 1 up to,
    /// but not including, the current seed.
    pub open spec fn issued(self) -> Set<SessionId> {
        Set::new(|i: SessionId| 1 <= i < self.seed())
    }

    /// The generator has issued the identifiers below its seed, so the seed
    /// never falls back to (or below) an identifier already handed out.
    pub open spec fn wf(self) -> bool {
        self.seed() >= 1
    }

    /// Returns a fresh identifier: one never returned before, strictly larger
    /// than every identifier issued so far, and at least 1 (never the
    /// sentinel 0).
    pub fn generate(&mut self) -> (id: SessionId)
        requires
            old(self).wf(),
            old(self).seed() < usize::MAX,
        ensures
            final(self).wf(),
            id == old(self).seed(),
            1 <= id,
            !old(self).issued().contains(id),
            final(self).issued() =~= old(self).issued().insert(id),
            final(self).seed() == id + 1,
    {
        let id = self.seed;
        self.seed = self.seed + 1;
        id
    }

    /// Whether another identifier can still be issued. Exhaustion of the
    /// identifier space is an unrecoverable process-level fault, not
    /// something the generator recovers from.
    pub fn has_next(&self) -> (r: bool)
        ensures
            r == (self.seed() < usize::MAX),
    {
        self.seed < usize::MAX
    }
}

impl Default for SessionIdGenerator {
    /// A fresh generator: nothing issued yet, the first identifier will be 1.
    fn default() -> (r: SessionIdGenerator)
        ensures
            r.wf(),
            r.seed() == 1,
            r.issued() =~= Set::<SessionId>::empty(),
    {
        SessionIdGenerator { seed: 1 }
    }
}

} // verus!
