//! The values a negotiation works on: accepted refs, want/have sets, what a
//! fetch brought, and the ref updates it leads to.
use vstd::prelude::*;

use crate::ids::{Oid, PeerId};
use crate::refdb::assoc;
use crate::refs::{
    identity_name, to_identity_name, to_tracking_name, tracking_name, Identity, Parsed, ParsedView, Scoped,
};

verus! {

/// An advertised ref, accepted for negotiation: the object it points at, the
/// peer that advertised it and the classification of its name.
#[derive(Debug)]
pub struct FilteredRef {
    pub tip: Oid,
    pub remote_id: PeerId,
    pub parsed: Parsed,
}

pub struct FilteredRefView {
    pub tip: Oid,
    pub remote: Seq<u8>,
    pub parsed: ParsedView,
}

impl View for FilteredRef {
    type V = FilteredRefView;

    open spec fn view(&self) -> FilteredRefView {
        FilteredRefView { tip: self.tip, remote: self.remote_id@, parsed: self.parsed@ }
    }
}

impl FilteredRefView {
    /// The peer whose view the ref describes: its remote scope, or else the
    /// peer that advertised it.
    pub open spec fn scope(self) -> Seq<u8> {
        match self.parsed.remote {
            Some(p) => p,
            None => self.remote,
        }
    }

    /// The local name under which this ref of that peer is tracked.
    pub open spec fn tracking(self) -> Seq<u8> {
        tracking_name(self.scope(), self.parsed.inner)
    }

    /// The ref as a (peer, unscoped name) pair.
    pub open spec fn scoped(self) -> (Seq<u8>, Seq<u8>) {
        (self.scope(), identity_name(self.parsed.inner))
    }
}

impl FilteredRef {
    pub fn new(tip: Oid, remote_id: &PeerId, parsed: Parsed) -> (r: FilteredRef)
        ensures
            r@ == (FilteredRefView { tip, remote: remote_id@, parsed: parsed@ }),
    {
        FilteredRef { tip, remote_id: remote_id.duplicate(), parsed }
    }

    pub fn remote_id(&self) -> (r: &PeerId)
        ensures
            r@ == self@.remote,
    {
        &self.remote_id
    }

    pub fn duplicate(&self) -> (r: FilteredRef)
        ensures
            r@ == self@,
    {
        FilteredRef {
            tip: self.tip,
            remote_id: self.remote_id.duplicate(),
            parsed: self.parsed.duplicate(),
        }
    }

    /// Whether two refs agree in tip, advertising peer and classification.
    pub fn same(&self, other: &FilteredRef) -> (r: bool)
        ensures
            r == (self@ == other@),
    {
        if self.tip != other.tip || !self.remote_id.same(&other.remote_id) {
            return false;
        }
        let remote_same = match (&self.parsed.remote, &other.parsed.remote) {
            (None, None) => true,
            (Some(a), Some(b)) => a.same(b),
            _ => false,
        };
        let inner_same = match (&self.parsed.inner, &other.parsed.inner) {
            (Identity::Id, Identity::Id) => true,
            (Identity::Delegate(a), Identity::Delegate(b)) => crate::ids::bytes_eq(a, b),
            _ => false,
        };
        remote_same && inner_same
    }

    /// The peer whose view the ref describes.
    pub fn scope(&self) -> (r: &PeerId)
        ensures
            r@ == self@.scope(),
    {
        match &self.parsed.remote {
            Some(p) => p,
            None => &self.remote_id,
        }
    }

    /// The local name under which the ref is tracked.
    pub fn to_remote_tracking(&self) -> (r: Vec<u8>)
        ensures
            r@ == self@.tracking(),
    {
        to_tracking_name(self.scope(), &self.parsed.inner)
    }

    /// The ref as a (peer, unscoped name) pair.
    pub fn to_scoped(&self) -> (r: Scoped)
        ensures
            r@ == self@.scoped(),
    {
        Scoped { scope: self.scope().duplicate(), name: to_identity_name(&self.parsed.inner) }
    }
}

/// The outcome of want/have computation.
#[derive(Debug)]
pub struct WantsHaves {
    /// The refs taken into the negotiation.
    pub wanted: Vec<FilteredRef>,
    /// The objects to request.
    pub wants: Vec<Oid>,
    /// The objects already present locally.
    pub haves: Vec<Oid>,
}

/// An update of one local ref: point `name` at `target`.
#[derive(Debug)]
pub struct RefUpdate {
    pub name: Vec<u8>,
    pub target: Oid,
}

impl View for RefUpdate {
    type V = (Seq<u8>, Oid);

    open spec fn view(&self) -> (Seq<u8>, Oid) {
        (self.name@, self.target)
    }
}

/// The local update that an accepted ref leads to.
pub open spec fn ref_update_of(r: FilteredRefView) -> (Seq<u8>, Oid) {
    (r.tracking(), r.tip)
}

/// Builds the local update for an accepted ref: its tracking name, pointed at
/// the advertised tip.
pub fn mk_ref_update(r: &FilteredRef) -> (u: RefUpdate)
    ensures
        u@ == ref_update_of(r@),
{
    RefUpdate { name: r.to_remote_tracking(), target: r.tip }
}

/// The local mutations a negotiation asks for: ref updates, and peers to
/// start tracking.
#[derive(Debug)]
pub struct Updates {
    pub tips: Vec<RefUpdate>,
    pub track: Vec<PeerId>,
}

/// What a ref listing request expects back.
#[derive(Debug, PartialEq, Eq, Structural, Clone, Copy)]
pub enum ExpectLs {
    /// An empty response is a failure.
    NonEmpty,
    /// An empty response is fine.
    MayBeEmpty,
}

/// A ref listing request.
#[derive(Debug)]
pub enum LsRefs {
    /// List the refs under these name prefixes.
    Prefix { prefixes: Vec<Vec<u8>>, response: ExpectLs },
}

/// The values of all entries keyed `p`, in order.
pub open spec fn tips_of(s: Seq<(Seq<u8>, Oid)>, p: Seq<u8>) -> Seq<Oid>
    decreases s.len(),
{
    if s.len() == 0 {
        Seq::empty()
    } else if s.last().0 == p {
        tips_of(s.drop_last(), p).push(s.last().1)
    } else {
        tips_of(s.drop_last(), p)
    }
}

/// What a fetch brought: per peer, the tip of its identity ref, and the tips
/// of the delegate identities it advertised.
#[derive(Debug)]
pub struct FetchState {
    pub id_tips: Vec<(PeerId, Oid)>,
    pub delegation_tips: Vec<(PeerId, Oid)>,
}

impl FetchState {
    pub open spec fn id_tips_view(&self) -> Seq<(Seq<u8>, Oid)> {
        self.id_tips@.map_values(|e: (PeerId, Oid)| (e.0@, e.1))
    }

    pub open spec fn delegation_tips_view(&self) -> Seq<(Seq<u8>, Oid)> {
        self.delegation_tips@.map_values(|e: (PeerId, Oid)| (e.0@, e.1))
    }

    /// The fetched identity-ref tip of `peer`, if any.
    pub open spec fn id_tip(&self, peer: Seq<u8>) -> Option<Oid> {
        assoc(self.id_tips_view(), peer)
    }

    /// The fetched delegate identity tips advertised by `peer`.
    pub open spec fn delegations(&self, peer: Seq<u8>) -> Seq<Oid> {
        tips_of(self.delegation_tips_view(), peer)
    }

    /// Looks up the fetched identity-ref tip of `peer`.
    pub fn get_id_tip(&self, peer: &PeerId) -> (r: Option<Oid>)
        ensures
            r == self.id_tip(peer@),
    {
        let ghost s = self.id_tips_view();
        let mut i: usize = 0;
        assert(s.skip(0) =~= s);
        while i < self.id_tips.len()
            invariant
                i <= s.len(),
                s == self.id_tips_view(),
                assoc(s, peer@) == assoc(s.skip(i as int), peer@),
            decreases s.len() - i,
        {
            assert(s.skip(i as int)[0] == s[i as int]);
            if self.id_tips[i].0.same(peer) {
                return Some(self.id_tips[i].1);
            }
            assert(s.skip(i as int).drop_first() =~= s.skip(i + 1));
            i = i + 1;
        }
        None
    }

    /// The fetched delegate identity tips advertised by `peer`, in order.
    pub fn lookup_delegations(&self, peer: &PeerId) -> (r: Vec<Oid>)
        ensures
            r@ == self.delegations(peer@),
    {
        let ghost s = self.delegation_tips_view();
        let mut r: Vec<Oid> = Vec::new();
        let mut i: usize = 0;
        assert(s.take(0) =~= Seq::<(Seq<u8>, Oid)>::empty());
        while i < self.delegation_tips.len()
            invariant
                i <= s.len(),
                s == self.delegation_tips_view(),
                r@ == tips_of(s.take(i as int), peer@),
            decreases s.len() - i,
        {
            assert(s.take(i + 1).drop_last() =~= s.take(i as int));
            if self.delegation_tips[i].0.same(peer) {
                r.push(self.delegation_tips[i].1);
            }
            i = i + 1;
        }
        assert(s.take(s.len() as int) =~= s);
        r
    }
}

} // verus!
