use vstd::prelude::*;

verus! {

/// The capability "these principals proved they initiated this call".
///
/// The cryptographic signature-verification layer sits outside this library;
/// whoever invokes a component hands in the set of identities whose
/// authorization the host has already verified for the current top-level
/// invocation. A component asks this capability, never a signature.
pub struct Auth {
    everyone: bool,
    proven: Vec<u64>,
}

impl Auth {
    /// The set of principals this capability vouches for.
    pub closed spec fn allowed(self) -> Set<u64> {
        if self.everyone {
            Set::full()
        } else {
            self.proven@.to_set()
        }
    }

    /// A capability that vouches for nobody.
    pub fn none() -> (r: Self)
        ensures
            r.allowed() == Set::<u64>::empty(),
    {
        let r = Auth { everyone: false, proven: Vec::new() };
        proof {
            assert(r.allowed() =~= Set::<u64>::empty());
        }
        r
    }

    /// A capability that vouches for every principal, the way a host that has
    /// been told to wave all authorization checks through would.
    pub fn everyone() -> (r: Self)
        ensures
            r.allowed() == Set::<u64>::full(),
    {
        Auth { everyone: true, proven: Vec::new() }
    }

    /// A capability that vouches for the listed principals exactly.
    pub fn signers(proven: Vec<u64>) -> (r: Self)
        ensures
            r.allowed() == proven@.to_set(),
    {
        Auth { everyone: false, proven }
    }

    /// Whether `principal` proved it initiated the current call.
    pub fn allows(&self, principal: u64) -> (r: bool)
        ensures
            r == self.allowed().contains(principal),
    {
        if self.everyone {
            return true;
        }
        let n = self.proven.len();
        let mut i: usize = 0;
        while i < n
            invariant
                n == self.proven.len(),
                i <= n,
                !self.everyone,
                forall|j: int| 0 <= j < i ==> self.proven@[j] != principal,
            decreases n - i,
        {
            if self.proven[i] == principal {
                return true;
            }
            i += 1;
        }
        proof {
            assert(!self.proven@.contains(principal));
        }
        false
    }
}

} // verus!
