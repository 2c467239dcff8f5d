//! The identity-verification collaborator and what it hands back.
use vstd::prelude::*;

use crate::ids::{Oid, PeerId, Urn};

verus! {

/// Why an identity history did not verify.
#[derive(Debug)]
pub struct VerificationError {
    pub message: String,
}

/// An identity whose history verified, with the peers it delegates to.
#[derive(Debug)]
pub struct VerifiedIdentity {
    pub urn: Urn,
    pub delegate_ids: Vec<PeerId>,
}

impl VerifiedIdentity {
    /// The delegation set, as peer ids.
    pub open spec fn delegates(&self) -> Seq<Seq<u8>> {
        self.delegate_ids@.map_values(|p: PeerId| p@)
    }

    pub fn new(urn: Urn, delegate_ids: Vec<PeerId>) -> (r: VerifiedIdentity)
        ensures
            r.urn == urn,
            r.delegate_ids == delegate_ids,
    {
        VerifiedIdentity { urn, delegate_ids }
    }

    /// Whether `peer` is in the delegation set.
    pub fn is_delegate(&self, peer: &PeerId) -> (r: bool)
        ensures
            r == self.delegates().contains(peer@),
    {
        let mut i: usize = 0;
        while i < self.delegate_ids.len()
            invariant
                i <= self.delegate_ids@.len(),
                forall|j: int| 0 <= j < i ==> self.delegate_ids@[j]@ != peer@,
            decreases self.delegate_ids@.len() - i,
        {
            if self.delegate_ids[i].same(peer) {
                assert(self.delegates()[i as int] == peer@);
                return true;
            }
            i = i + 1;
        }
        proof {
            if self.delegates().contains(peer@) {
                let j = choose|j: int| 0 <= j < self.delegates().len() && self.delegates()[j] == peer@;
                assert(self.delegate_ids@[j]@ == peer@);
            }
        }
        false
    }
}

/// Verifies identity histories against the delegations known locally.
///
/// What it decides is its own: the negotiation only acts on the outcome.
pub trait Identities {
    /// Verifies the identity history whose tip is `tip`, with `delegations`
    /// the tips of the delegates' identity histories.
    fn verify(&self, tip: Oid, delegations: &Vec<Oid>) -> Result<VerifiedIdentity, VerificationError>;
}

} // verus!
