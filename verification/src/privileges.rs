//! The restriction of privileges at startup: three steps that are each
//! attempted whatever became of the others.
//!
//! The caller performs each step and reports how it went. A failure changes
//! nothing: the next step is due all the same, and nothing is ever reported
//! back as an error. Hardening in part is better than none.

use vstd::prelude::*;

verus! {

/// What the calling thread stops sharing with the process it came from.
#[derive(Clone, Copy, Debug, PartialEq, Eq, Structural)]
pub struct Detach {
    /// The table of open file descriptors.
    pub files: bool,
    /// The root directory, the current directory and the file mode mask.
    pub filesystem: bool,
    /// The list of semaphore adjustments to undo at exit.
    pub semaphores: bool,
}

/// One step of the restriction.
#[derive(Clone, Copy, Debug, PartialEq, Eq, Structural)]
pub enum Restriction {
    /// Detach the calling thread from what it shares.
    Unshare(Detach),
    /// Clear the ambient capability set, so that programs executed later do
    /// not inherit capabilities.
    ClearAmbientCapabilities,
    /// Set the no-new-privileges flag, for good.
    SetNoNewPrivileges,
    /// Nothing is left to do.
    Done,
}

/// The step that is due after `attempted` steps have been attempted.
pub open spec fn restriction_at(attempted: nat) -> Restriction {
    if attempted == 0 {
        Restriction::Unshare(Detach { files: true, filesystem: true, semaphores: true })
    } else if attempted == 1 {
        Restriction::ClearAmbientCapabilities
    } else if attempted == 2 {
        Restriction::SetNoNewPrivileges
    } else {
        Restriction::Done
    }
}

/// How far the restriction of privileges has come.
#[derive(Clone, Copy, Debug)]
pub struct RestrictPrivileges {
    attempted: u8,
}

impl View for RestrictPrivileges {
    type V = nat;

    /// The number of steps that have been attempted, three at most.
    closed spec fn view(&self) -> nat {
        self.attempted as nat
    }
}

impl RestrictPrivileges {
    #[verifier::type_invariant]
    spec fn inv(self) -> bool {
        self.attempted <= 3
    }

    /// Nothing attempted yet.
    pub fn new() -> (fresh: RestrictPrivileges)
        ensures
            fresh@ == 0,
    {
        RestrictPrivileges { attempted: 0 }
    }

    /// The step that is due.
    pub fn due(&self) -> (step: Restriction)
        ensures
            step == restriction_at(self@),
            self@ <= 3,
    {
        proof {
            use_type_invariant(self);
        }
        if self.attempted == 0 {
            Restriction::Unshare(Detach { files: true, filesystem: true, semaphores: true })
        } else if self.attempted == 1 {
            Restriction::ClearAmbientCapabilities
        } else if self.attempted == 2 {
            Restriction::SetNoNewPrivileges
        } else {
            Restriction::Done
        }
    }

    /// Takes note that the step that was due has been attempted, and says which
    /// step is due now. Whether the attempt succeeded makes no difference.
    pub fn report(&mut self, succeeded: bool) -> (step: Restriction)
        ensures
            final(self)@ == if old(self)@ < 3 {
                old(self)@ + 1
            } else {
                old(self)@
            },
            step == restriction_at(final(self)@),
    {
        proof {
            use_type_invariant(&*self);
        }
        if self.attempted < 3 {
            self.attempted = self.attempted + 1;
        }
        self.due()
    }
}

} // verus!
