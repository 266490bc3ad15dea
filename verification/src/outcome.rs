//! The two sides of a binary market.

use std::ops::Neg;
use vstd::prelude::*;
use vstd::std_specs::ops::NegSpecImpl;

verus! {

/// One of the two outcomes a binary market can resolve to.
#[derive(Debug, Clone, Copy, PartialEq, Eq, Hash, Structural)]
pub enum Outcome {
    Yes,
    No,
}

impl Outcome {
    /// The other outcome.
    pub open spec fn spec_complement(self) -> Outcome {
        match self {
            Outcome::Yes => Outcome::No,
            Outcome::No => Outcome::Yes,
        }
    }

    /// Returns the other outcome.
    #[verifier::when_used_as_spec(spec_complement)]
    pub fn complement(self) -> (other: Outcome)
        ensures
            other == self.spec_complement(),
    {
        match self {
            Outcome::Yes => Outcome::No,
            Outcome::No => Outcome::Yes,
        }
    }

    /// Taking the complement twice gives back the outcome one started from,
    /// and no outcome is its own complement.
    pub proof fn lemma_complement_involution(self)
        ensures
            self.complement().complement() == self,
            self.complement() != self,
    {
    }
}

impl Neg for Outcome {
    type Output = Outcome;

    /// `-outcome` is the complement of `outcome`.
    fn neg(self) -> (other: Outcome) {
        self.complement()
    }
}

impl NegSpecImpl for Outcome {
    open spec fn obeys_neg_spec() -> bool {
        true
    }

    open spec fn neg_req(self) -> bool {
        true
    }

    open spec fn neg_spec(self) -> Outcome {
        self.spec_complement()
    }
}

} // verus!
