//! Cloning a project from a single peer for the first time: which of the
//! peer's refs are requested and accepted, what is wanted and had, whether
//! the advertisement is complete, and which tips may be updated once the
//! peer's identity has been verified.
use vstd::prelude::*;

use crate::error::{Layout, Negotiate, Prepare, WantsHaves as WantsHavesError};
use crate::fetch::{
    mk_ref_update, ref_update_of, ExpectLs, FetchState, FilteredRef, FilteredRefView, LsRefs,
    RefUpdate, Updates, WantsHaves,
};
use crate::identities::{Identities, VerificationError, VerifiedIdentity};
use crate::ids::{copy_bytes, Oid, PeerId};
use crate::refdb::Refdb;
use crate::refs::{
    delegates_prefix, identity_name, identity_prefixes, lemma_parse_own_identity, parse, parse_name,
    to_identity_name, Identity, IdentityView, ParsedView, Ref, Scoped,
};

verus! {

/// The negotiation for cloning from `remote_id`, with a bound on what the
/// transport may transfer.
#[derive(Debug)]
pub struct ForClone {
    pub remote_id: PeerId,
    pub limit: u64,
}

/// The identity ref of `peer`, as a (peer, name) pair.
pub open spec fn identity_of(peer: Seq<u8>) -> (Seq<u8>, Seq<u8>) {
    (peer, identity_name(IdentityView::Id))
}

/// The classification of `refs/rad/id`: the advertising peer's own view of
/// the identity, with no remote scope.
pub open spec fn own_identity() -> ParsedView {
    ParsedView { remote: None, inner: IdentityView::Id }
}

/// The ref accepted from an advertisement of `name` at `tip` by `remote`, if
/// any: a name that classifies as an identity ref with no remote scope.
pub open spec fn filter_spec(remote: Seq<u8>, name: Seq<u8>, tip: Oid) -> Option<FilteredRefView> {
    match parse_name(name) {
        Some(p) => if p.remote is None {
            Some(FilteredRefView { tip, remote, parsed: p })
        } else {
            None
        },
        None => None,
    }
}

/// The refs of `refs` advertised by `remote`, in order, each one once.
pub open spec fn accepted(remote: Seq<u8>, refs: Seq<FilteredRefView>) -> Seq<FilteredRefView>
    decreases refs.len(),
{
    if refs.len() == 0 {
        Seq::empty()
    } else if refs.last().remote == remote && !accepted(remote, refs.drop_last()).contains(
        refs.last(),
    ) {
        accepted(remote, refs.drop_last()).push(refs.last())
    } else {
        accepted(remote, refs.drop_last())
    }
}

/// Whether the `i`-th ref is taken into the negotiation and its tip must be
/// requested: it is not what the local tracking ref already points at.
pub open spec fn wants_at<R: Refdb>(db: &R, remote: Seq<u8>, refs: Seq<FilteredRefView>, i: int) -> bool {
    refs[i].remote == remote && db.lookup(refs[i].tracking()) != Some(refs[i].tip)
}

/// Whether `o` is requested on account of one of the first `n` refs.
pub open spec fn wanted_upto<R: Refdb>(
    db: &R,
    remote: Seq<u8>,
    refs: Seq<FilteredRefView>,
    n: int,
    o: Oid,
) -> bool {
    exists|i: int| 0 <= i < n && #[trigger] wants_at(db, remote, refs, i) && refs[i].tip == o
}

/// Whether `o` is the local tracking tip of one of the first `n` refs taken
/// into the negotiation.
pub open spec fn had_upto<R: Refdb>(
    db: &R,
    remote: Seq<u8>,
    refs: Seq<FilteredRefView>,
    n: int,
    o: Oid,
) -> bool {
    exists|i: int|
        0 <= i < n && refs[i].remote == remote && #[trigger] db.lookup(refs[i].tracking()) == Some(
            o,
        )
}

/// The objects to request for `refs`.
pub open spec fn wants_spec<R: Refdb>(db: &R, remote: Seq<u8>, refs: Seq<FilteredRefView>, o: Oid) -> bool {
    wanted_upto(db, remote, refs, refs.len() as int, o)
}

/// The objects already present for `refs`.
pub open spec fn haves_spec<R: Refdb>(db: &R, remote: Seq<u8>, refs: Seq<FilteredRefView>, o: Oid) -> bool {
    had_upto(db, remote, refs, refs.len() as int, o)
}

/// The views of a vector of filtered refs.
pub open spec fn refs_view(refs: Seq<FilteredRef>) -> Seq<FilteredRefView> {
    refs.map_values(|f: FilteredRef| f@)
}

/// The views of a vector of ref updates.
pub open spec fn updates_view(tips: Seq<RefUpdate>) -> Seq<(Seq<u8>, Oid)> {
    tips.map_values(|u: RefUpdate| u@)
}

/// The required refs of `required` that `present` lacks, in order.
pub open spec fn missing(required: Seq<(Seq<u8>, Seq<u8>)>, present: Seq<(Seq<u8>, Seq<u8>)>) -> Seq<
    (Seq<u8>, Seq<u8>),
>
    decreases required.len(),
{
    if required.len() == 0 {
        Seq::empty()
    } else if present.contains(required.last()) {
        missing(required.drop_last(), present)
    } else {
        missing(required.drop_last(), present).push(required.last())
    }
}

pub open spec fn scoped_view(s: Seq<Scoped>) -> Seq<(Seq<u8>, Seq<u8>)> {
    s.map_values(|x: Scoped| x@)
}

/// Whether some ref of `refs` is the identity ref of `remote`.
pub open spec fn has_identity(remote: Seq<u8>, refs: Seq<FilteredRefView>) -> bool {
    exists|i: int| 0 <= i < refs.len() && #[trigger] refs[i].scoped() == identity_of(remote)
}

/// The tip updates for verified refs, one per ref, in order.
pub open spec fn materialize(refs: Seq<FilteredRefView>) -> Seq<(Seq<u8>, Oid)> {
    refs.map_values(|r: FilteredRefView| ref_update_of(r))
}

/// The tip updates that verified delegations license for refs advertised by
/// `remote`: all of them if `remote` is a delegate, none otherwise.
pub open spec fn licensed_tips(remote: Seq<u8>, delegates: Seq<Seq<u8>>, refs: Seq<FilteredRefView>) -> Seq<
    (Seq<u8>, Oid),
> {
    if delegates.contains(remote) {
        materialize(refs)
    } else {
        Seq::empty()
    }
}

/// The refs accepted, in order, from an advertisement by `remote`.
pub open spec fn filter_all(remote: Seq<u8>, ads: Seq<(Seq<u8>, Oid)>) -> Seq<FilteredRefView>
    decreases ads.len(),
{
    if ads.len() == 0 {
        Seq::empty()
    } else {
        match filter_spec(remote, ads.last().0, ads.last().1) {
            Some(f) => filter_all(remote, ads.drop_last()).push(f),
            None => filter_all(remote, ads.drop_last()),
        }
    }
}

pub open spec fn ads_view(ads: Seq<Ref>) -> Seq<(Seq<u8>, Oid)> {
    ads.map_values(|r: Ref| r@)
}

/// Whether `v` holds a pair equal to `x`.
fn contains_scoped(v: &Vec<Scoped>, x: &Scoped) -> (r: bool)
    ensures
        r == scoped_view(v@).contains(x@),
{
    let mut i: usize = 0;
    while i < v.len()
        invariant
            i <= v@.len(),
            forall|j: int| 0 <= j < i ==> v@[j]@ != x@,
        decreases v@.len() - i,
    {
        if v[i].same(x) {
            assert(scoped_view(v@)[i as int] == x@);
            return true;
        }
        i = i + 1;
    }
    proof {
        if scoped_view(v@).contains(x@) {
            let j = choose|j: int| 0 <= j < scoped_view(v@).len() && scoped_view(v@)[j] == x@;
            assert(v@[j]@ == x@);
        }
    }
    false
}

/// Checks that every required ref is present; fails naming those that are not.
pub fn guard_required(required: Vec<Scoped>, present: Vec<Scoped>) -> (r: Result<(), Layout>)
    ensures
        r is Ok <==> missing(scoped_view(required@), scoped_view(present@)).len() == 0,
        r matches Err(Layout::MissingRequiredRefs(m)) ==> scoped_view(m@) == missing(
            scoped_view(required@),
            scoped_view(present@),
        ),
{
    let ghost req = scoped_view(required@);
    let ghost pre = scoped_view(present@);
    let mut absent: Vec<Scoped> = Vec::new();
    let mut i: usize = 0;
    assert(req.take(0) =~= Seq::<(Seq<u8>, Seq<u8>)>::empty());
    while i < required.len()
        invariant
            i <= required@.len(),
            req == scoped_view(required@),
            pre == scoped_view(present@),
            scoped_view(absent@) == missing(req.take(i as int), pre),
        decreases required@.len() - i,
    {
        assert(req.take(i + 1).drop_last() =~= req.take(i as int));
        assert(req.take(i + 1).last() == required@[i as int]@);
        if !contains_scoped(&present, &required[i]) {
            let x = required[i].duplicate();
            absent.push(x);
            assert(scoped_view(absent@) =~= missing(req.take(i as int), pre).push(x@));
        }
        i = i + 1;
    }
    assert(req.take(required@.len() as int) =~= req);
    if absent.len() == 0 {
        Ok(())
    } else {
        Err(Layout::MissingRequiredRefs(absent))
    }
}

/// Whether `v` holds a ref equal to `x`.
fn contains_ref(v: &Vec<FilteredRef>, x: &FilteredRef) -> (r: bool)
    ensures
        r == refs_view(v@).contains(x@),
{
    let mut i: usize = 0;
    while i < v.len()
        invariant
            i <= v@.len(),
            forall|j: int| 0 <= j < i ==> v@[j]@ != x@,
        decreases v@.len() - i,
    {
        if v[i].same(x) {
            assert(refs_view(v@)[i as int] == x@);
            return true;
        }
        i = i + 1;
    }
    proof {
        if refs_view(v@).contains(x@) {
            let j = choose|j: int| 0 <= j < refs_view(v@).len() && refs_view(v@)[j] == x@;
            assert(v@[j]@ == x@);
        }
    }
    false
}

/// Adds `o` to `v` unless it is there already.
fn insert_unique(v: &mut Vec<Oid>, o: Oid)
    ensures
        forall|x: Oid| #[trigger] final(v)@.contains(x) <==> (old(v)@.contains(x) || x == o),
        old(v)@.no_duplicates() ==> final(v)@.no_duplicates(),
{
    let mut i: usize = 0;
    while i < v.len()
        invariant
            i <= v@.len(),
            forall|j: int| 0 <= j < i ==> v@[j] != o,
        decreases v@.len() - i,
    {
        if v[i] == o {
            assert(v@[i as int] == o);
            return;
        }
        i = i + 1;
    }
    let ghost before = v@;
    v.push(o);
    assert forall|x: Oid| #[trigger] v@.contains(x) implies (before.contains(x) || x == o) by {
        let j = choose|j: int| 0 <= j < v@.len() && v@[j] == x;
        if j < before.len() {
            assert(before[j] == x);
        }
    }
    assert(v@[before.len() as int] == o);
    assert forall|x: Oid| before.contains(x) implies #[trigger] v@.contains(x) by {
        let j = choose|j: int| 0 <= j < before.len() && before[j] == x;
        assert(v@[j] == x);
    }
}

proof fn lemma_upto_step<R: Refdb>(db: &R, remote: Seq<u8>, refs: Seq<FilteredRefView>, n: int)
    requires
        0 <= n < refs.len(),
    ensures
        forall|o: Oid|
            #[trigger] wanted_upto(db, remote, refs, n + 1, o) <==> (wanted_upto(
                db,
                remote,
                refs,
                n,
                o,
            ) || (wants_at(db, remote, refs, n) && refs[n].tip == o)),
        forall|o: Oid|
            #[trigger] had_upto(db, remote, refs, n + 1, o) <==> (had_upto(db, remote, refs, n, o)
                || (refs[n].remote == remote && db.lookup(refs[n].tracking()) == Some(o))),
{
    assert forall|o: Oid| #[trigger]
        wanted_upto(db, remote, refs, n + 1, o) implies (wanted_upto(db, remote, refs, n, o) || (
        wants_at(db, remote, refs, n) && refs[n].tip == o)) by {
        let i = choose|i: int|
            0 <= i < n + 1 && #[trigger] wants_at(db, remote, refs, i) && refs[i].tip == o;
        if i < n {
            assert(wanted_upto(db, remote, refs, n, o));
        }
    }
    assert forall|o: Oid| #[trigger]
        had_upto(db, remote, refs, n + 1, o) implies (had_upto(db, remote, refs, n, o) || (
        refs[n].remote == remote && db.lookup(refs[n].tracking()) == Some(o))) by {
        let i = choose|i: int|
            0 <= i < n + 1 && refs[i].remote == remote && #[trigger] db.lookup(refs[i].tracking())
                == Some(o);
        if i < n {
            assert(had_upto(db, remote, refs, n, o));
        }
    }
    assert forall|o: Oid|
        wants_at(db, remote, refs, n) && refs[n].tip == o implies #[trigger] wanted_upto(
        db,
        remote,
        refs,
        n + 1,
        o,
    ) by {
        assert(wants_at(db, remote, refs, n));
    }
    assert forall|o: Oid|
        refs[n].remote == remote && db.lookup(refs[n].tracking()) == Some(o) implies #[trigger] had_upto(
        db,
        remote,
        refs,
        n + 1,
        o,
    ) by {
        assert(db.lookup(refs[n].tracking()) == Some(o));
    }
}

impl ForClone {
    /// The refs the peer must advertise for a clone: its own identity ref.
    pub fn required_refs(&self) -> (r: Vec<Scoped>)
        ensures
            scoped_view(r@) == seq![identity_of(self.remote_id@)],
    {
        let mut r: Vec<Scoped> = Vec::new();
        r.push(Scoped { scope: self.remote_id.duplicate(), name: to_identity_name(&Identity::Id) });
        assert(scoped_view(r@) =~= seq![identity_of(self.remote_id@)]);
        r
    }

    /// The ref listing request: the peer's own identity refs, expecting a
    /// non-empty answer.
    pub fn ls_refs(&self) -> (r: Option<LsRefs>)
        ensures
            r matches Some(LsRefs::Prefix { prefixes, response }) && response == ExpectLs::NonEmpty
                && prefixes@.len() == 2 && prefixes@[0]@ == identity_name(IdentityView::Id)
                && prefixes@[1]@ == delegates_prefix(),
    {
        let prefixes = identity_prefixes();
        if prefixes.len() == 0 {
            None
        } else {
            Some(LsRefs::Prefix { prefixes, response: ExpectLs::NonEmpty })
        }
    }

    /// Accepts an advertised ref exactly when its name is an identity ref
    /// (`refs/rad/id` or `refs/rad/ids/<urn>`) with no remote scope: a peer
    /// speaks only for itself. The ref is bound to this clone's remote.
    pub fn ref_filter(&self, r: Ref) -> (f: Option<FilteredRef>)
        ensures
            match f {
                Some(f) => filter_spec(self.remote_id@, r.name@, r.tip) == Some(f@),
                None => filter_spec(self.remote_id@, r.name@, r.tip) is None,
            },
    {
        let Ref { name, tip } = r;
        match parse(&name) {
            Some(parsed) => {
                match &parsed.remote {
                    None => Some(FilteredRef::new(tip, &self.remote_id, parsed)),
                    Some(_) => None,
                }
            },
            None => None,
        }
    }

    /// Splits the refs advertised by the remote into objects to request and
    /// objects already present, by the local tracking refs in `db`.
    ///
    /// Refs of other peers are passed over. A failed lookup aborts the whole
    /// computation.
    pub fn wants_haves<R: Refdb>(&self, db: &R, refs: Vec<FilteredRef>) -> (r: Result<
        WantsHaves,
        WantsHavesError<R::FindError>,
    >)
        ensures
            (forall|i: int| 0 <= i < refs@.len() ==> refs@[i]@.remote != self.remote_id@) ==> r is Ok,
            r matches Ok(wh) ==> {
                &&& refs_view(wh.wanted@) == accepted(self.remote_id@, refs_view(refs@))
                &&& refs_view(wh.wanted@).no_duplicates()
                &&& forall|o: Oid|
                    #[trigger] wh.wants@.contains(o) <==> wants_spec(
                        db,
                        self.remote_id@,
                        refs_view(refs@),
                        o,
                    )
                &&& forall|o: Oid|
                    #[trigger] wh.haves@.contains(o) <==> haves_spec(
                        db,
                        self.remote_id@,
                        refs_view(refs@),
                        o,
                    )
                &&& wh.wants@.no_duplicates()
                &&& wh.haves@.no_duplicates()
            },
    {
        let ghost rv = refs_view(refs@);
        let ghost remote = self.remote_id@;
        let mut wanted: Vec<FilteredRef> = Vec::new();
        let mut wants: Vec<Oid> = Vec::new();
        let mut haves: Vec<Oid> = Vec::new();
        let mut i: usize = 0;
        assert(rv.take(0) =~= Seq::<FilteredRefView>::empty());
        while i < refs.len()
            invariant
                i <= refs@.len(),
                rv == refs_view(refs@),
                remote == self.remote_id@,
                refs_view(wanted@) == accepted(remote, rv.take(i as int)),
                refs_view(wanted@).no_duplicates(),
                forall|o: Oid| #[trigger] wants@.contains(o) <==> wanted_upto(db, remote, rv, i as int, o),
                forall|o: Oid| #[trigger] haves@.contains(o) <==> had_upto(db, remote, rv, i as int, o),
                wants@.no_duplicates(),
                haves@.no_duplicates(),
            decreases refs@.len() - i,
        {
            proof {
                lemma_upto_step(db, remote, rv, i as int);
            }
            assert(rv.take(i + 1).drop_last() =~= rv.take(i as int));
            assert(rv.take(i + 1).last() == refs@[i as int]@);
            let r = &refs[i];
            if !r.remote_id().same(&self.remote_id) {
                i = i + 1;
                continue;
            }
            let refname = r.to_remote_tracking();
            match db.refname_to_id(&refname) {
                Ok(Some(oid)) => {
                    if oid != r.tip {
                        insert_unique(&mut wants, r.tip);
                    }
                    insert_unique(&mut haves, oid);
                },
                Ok(None) => {
                    insert_unique(&mut wants, r.tip);
                },
                Err(e) => {
                    return Err(WantsHavesError::Find(e));
                },
            }
            if !contains_ref(&wanted, r) {
                let w = r.duplicate();
                let ghost before = refs_view(wanted@);
                wanted.push(w);
                assert(refs_view(wanted@) =~= before.push(w@));
                assert forall|a: int, b: int|
                    0 <= a < refs_view(wanted@).len() && 0 <= b < refs_view(wanted@).len() && a
                        != b implies refs_view(wanted@)[a] != refs_view(wanted@)[b] by {
                    if a == before.len() {
                        assert(before[b] == refs_view(wanted@)[b]);
                    } else if b == before.len() {
                        assert(before[a] == refs_view(wanted@)[a]);
                    }
                }
            }
            i = i + 1;
        }
        assert(rv.take(refs@.len() as int) =~= rv);
        Ok(WantsHaves { wanted, wants, haves })
    }

    /// The caller's bound on what the transport may transfer.
    pub fn fetch_limit(&self) -> (r: u64)
        ensures
            r == self.limit,
    {
        self.limit
    }

    /// Turns the outcome of verifying the remote's identity into tip updates.
    ///
    /// A failed verification is an error and yields no updates at all. A
    /// verified identity that does not delegate to the remote yields an empty
    /// set of updates; one that does yields one update per ref, in order.
    /// A clone tracks no peers.
    pub fn prepare_verified(
        &self,
        verified: Result<VerifiedIdentity, VerificationError>,
        refs: &Vec<FilteredRef>,
    ) -> (r: Result<Updates, Prepare>)
        ensures
            match verified {
                Err(e) => r == Err::<Updates, Prepare>(Prepare::Verification(e)),
                Ok(v) => r matches Ok(u) && u.track@.len() == 0 && updates_view(u.tips@)
                    == licensed_tips(self.remote_id@, v.delegates(), refs_view(refs@)),
            },
    {
        let verified = match verified {
            Ok(v) => v,
            Err(e) => {
                return Err(Prepare::Verification(e));
            },
        };
        let mut tips: Vec<RefUpdate> = Vec::new();
        if verified.is_delegate(&self.remote_id) {
            let mut i: usize = 0;
            while i < refs.len()
                invariant
                    i <= refs@.len(),
                    updates_view(tips@) == materialize(refs_view(refs@)).take(i as int),
                decreases refs@.len() - i,
            {
                let u = mk_ref_update(&refs[i]);
                assert(materialize(refs_view(refs@))[i as int] == u@);
                let ghost before = tips@;
                tips.push(u);
                assert(updates_view(tips@) =~= updates_view(before).push(u@));
                assert(materialize(refs_view(refs@)).take(i + 1) =~= materialize(
                    refs_view(refs@),
                ).take(i as int).push(u@));
                assert(updates_view(tips@) =~= materialize(refs_view(refs@)).take(i + 1));
                i = i + 1;
            }
            assert(materialize(refs_view(refs@)).take(refs@.len() as int) =~= materialize(
                refs_view(refs@),
            ));
        } else {
            assert(updates_view(tips@) =~= Seq::<(Seq<u8>, Oid)>::empty());
        }
        Ok(Updates { tips, track: Vec::new() })
    }

    /// Verifies the remote's fetched identity history and computes the tip
    /// updates it licenses.
    ///
    /// The remote's identity ref must be among the fetched tips, which
    /// `pre_validate` ensures. Whatever the verifier decides, the outcome is
    /// an error, an empty set of updates, or one update per ref in order;
    /// never are peers tracked.
    pub fn prepare<C: Identities>(&self, s: &FetchState, cx: &C, refs: &Vec<FilteredRef>) -> (r:
        Result<Updates, Prepare>)
        requires
            s.id_tip(self.remote_id@) is Some,
        ensures
            match r {
                Ok(u) => u.track@.len() == 0 && (updates_view(u.tips@) == materialize(
                    refs_view(refs@),
                ) || u.tips@.len() == 0),
                Err(e) => e is Verification,
            },
    {
        let tip = s.get_id_tip(&self.remote_id).unwrap();
        let delegations = s.lookup_delegations(&self.remote_id);
        let verified = cx.verify(tip, &delegations);
        self.prepare_verified(verified, refs)
    }

    /// Checks, before any negotiation, that the remote advertised its own
    /// identity ref; fails naming it otherwise.
    pub fn pre_validate(&self, refs: &Vec<FilteredRef>) -> (r: Result<(), Layout>)
        ensures
            r is Ok <==> has_identity(self.remote_id@, refs_view(refs@)),
            r matches Err(Layout::MissingRequiredRefs(m)) ==> scoped_view(m@) == seq![
                identity_of(self.remote_id@),
            ],
    {
        let mut present: Vec<Scoped> = Vec::new();
        let mut i: usize = 0;
        while i < refs.len()
            invariant
                i <= refs@.len(),
                present@.len() == i,
                forall|j: int| 0 <= j < i ==> present@[j]@ == (#[trigger] refs@[j])@.scoped(),
            decreases refs@.len() - i,
        {
            present.push(refs[i].to_scoped());
            i = i + 1;
        }
        let required = self.required_refs();
        let ghost req = scoped_view(required@);
        let ghost pre = scoped_view(present@);
        proof {
            let id = identity_of(self.remote_id@);
            assert(req.drop_last() =~= Seq::<(Seq<u8>, Seq<u8>)>::empty());
            assert(req.last() == id);
            assert(missing(req.drop_last(), pre) == Seq::<(Seq<u8>, Seq<u8>)>::empty());
            assert(missing(Seq::<(Seq<u8>, Seq<u8>)>::empty().push(id), pre) =~= if pre.contains(id) {
                Seq::<(Seq<u8>, Seq<u8>)>::empty()
            } else {
                seq![id]
            });
            assert(req =~= Seq::<(Seq<u8>, Seq<u8>)>::empty().push(id));
            assert(pre.contains(id) <==> has_identity(self.remote_id@, refs_view(refs@))) by {
                if pre.contains(id) {
                    let j = choose|j: int| 0 <= j < pre.len() && pre[j] == id;
                    assert(refs_view(refs@)[j].scoped() == id);
                }
                if has_identity(self.remote_id@, refs_view(refs@)) {
                    let j = choose|j: int|
                        0 <= j < refs_view(refs@).len() && #[trigger] refs_view(refs@)[j].scoped()
                            == id;
                    assert(pre[j] == id);
                }
            }
        }
        guard_required(required, present)
    }

    /// Negotiates a clone up to the transfer: keeps the advertised refs that
    /// `ref_filter` accepts, checks the layout, and only if it holds computes
    /// wants and haves from them.
    pub fn negotiate<R: Refdb>(&self, db: &R, advertised: &Vec<Ref>) -> (r: Result<
        WantsHaves,
        Negotiate<R::FindError>,
    >)
        ensures
            r matches Err(Negotiate::Layout(_)) <==> !has_identity(
                self.remote_id@,
                filter_all(self.remote_id@, ads_view(advertised@)),
            ),
            r matches Ok(wh) ==> {
                let filtered = filter_all(self.remote_id@, ads_view(advertised@));
                &&& refs_view(wh.wanted@) == accepted(self.remote_id@, filtered)
                &&& refs_view(wh.wanted@).no_duplicates()
                &&& forall|o: Oid|
                    #[trigger] wh.wants@.contains(o) <==> wants_spec(db, self.remote_id@, filtered, o)
                &&& forall|o: Oid|
                    #[trigger] wh.haves@.contains(o) <==> haves_spec(db, self.remote_id@, filtered, o)
                &&& wh.wants@.no_duplicates()
                &&& wh.haves@.no_duplicates()
            },
    {
        let ghost av = ads_view(advertised@);
        let ghost remote = self.remote_id@;
        let mut filtered: Vec<FilteredRef> = Vec::new();
        let mut i: usize = 0;
        assert(av.take(0) =~= Seq::<(Seq<u8>, Oid)>::empty());
        while i < advertised.len()
            invariant
                i <= advertised@.len(),
                av == ads_view(advertised@),
                remote == self.remote_id@,
                refs_view(filtered@) == filter_all(remote, av.take(i as int)),
            decreases advertised@.len() - i,
        {
            assert(av.take(i + 1).drop_last() =~= av.take(i as int));
            assert(av.take(i + 1).last() == advertised@[i as int]@);
            let a = Ref { name: copy_bytes(&advertised[i].name), tip: advertised[i].tip };
            match self.ref_filter(a) {
                Some(f) => {
                    let ghost before = filtered@;
                    filtered.push(f);
                    assert(refs_view(filtered@) =~= refs_view(before).push(f@));
                },
                None => {},
            }
            i = i + 1;
        }
        assert(av.take(advertised@.len() as int) =~= av);
        match self.pre_validate(&filtered) {
            Ok(()) => {},
            Err(e) => {
                return Err(Negotiate::Layout(e));
            },
        }
        match self.wants_haves(db, filtered) {
            Ok(wh) => Ok(wh),
            Err(e) => Err(Negotiate::WantsHaves(e)),
        }
    }
}

/// An advertisement that lacks the remote's own identity ref (`refs/rad/id`)
/// fails layout validation, so a clone negotiation stops there without
/// computing wants or haves.
pub proof fn lemma_missing_identity_fails_layout(remote: Seq<u8>, ads: Seq<(Seq<u8>, Oid)>)
    requires
        forall|i: int| 0 <= i < ads.len() ==> #[trigger] ads[i].0 != identity_name(IdentityView::Id),
    ensures
        !has_identity(remote, filter_all(remote, ads)),
    decreases ads.len(),
{
    if ads.len() > 0 {
        let rest = ads.drop_last();
        assert forall|i: int| 0 <= i < rest.len() implies #[trigger] rest[i].0 != identity_name(
            IdentityView::Id,
        ) by {
            assert(rest[i] == ads[i]);
        }
        lemma_missing_identity_fails_layout(remote, rest);
        let prev = filter_all(remote, rest);
        let last = ads.last();
        assert(last == ads[ads.len() - 1]);
        lemma_parse_own_identity(last.0);
        match filter_spec(remote, last.0, last.1) {
            Some(f) => {
                if f.scoped() == identity_of(remote) {
                    match f.parsed.inner {
                        IdentityView::Id => {
                            assert(f.parsed == own_identity());
                        },
                        IdentityView::Delegate(u) => {
                            assert(identity_name(f.parsed.inner).len() == 13 + u.len());
                        },
                    }
                }
                let cur = prev.push(f);
                assert forall|i: int| 0 <= i < cur.len() implies #[trigger] cur[i].scoped()
                    != identity_of(remote) by {
                    if i < prev.len() {
                        assert(cur[i] == prev[i]);
                    }
                }
            },
            None => {},
        }
    }
}

/// Every ref taken into the negotiation is accounted for: its tip is wanted
/// unless the local tracking ref already points at it, in which case that
/// tip is had; and whatever the tracking ref points at is had.
pub proof fn lemma_wants_haves_complete<R: Refdb>(
    db: &R,
    remote: Seq<u8>,
    refs: Seq<FilteredRefView>,
    i: int,
)
    requires
        0 <= i < refs.len(),
        refs[i].remote == remote,
    ensures
        wants_spec(db, remote, refs, refs[i].tip) || haves_spec(db, remote, refs, refs[i].tip),
        db.lookup(refs[i].tracking()) == Some(refs[i].tip) ==> haves_spec(
            db,
            remote,
            refs,
            refs[i].tip,
        ),
        db.lookup(refs[i].tracking()) != Some(refs[i].tip) ==> wants_spec(
            db,
            remote,
            refs,
            refs[i].tip,
        ),
        db.lookup(refs[i].tracking()) matches Some(o) ==> haves_spec(db, remote, refs, o),
{
    if db.lookup(refs[i].tracking()) != Some(refs[i].tip) {
        assert(wants_at(db, remote, refs, i));
    }
}

/// A ref advertised under some peer's remote scope is never accepted, whatever
/// the rest of its name.
pub proof fn lemma_scoped_refs_rejected(remote: Seq<u8>, name: Seq<u8>, tip: Oid)
    requires
        parse_name(name) matches Some(p) && p.remote is Some,
    ensures
        filter_spec(remote, name, tip) is None,
{
}

/// Where the verified delegation set does not hold the advertising peer, no
/// tip update is licensed.
pub proof fn lemma_untrusted_peer_updates_nothing(
    remote: Seq<u8>,
    delegates: Seq<Seq<u8>>,
    refs: Seq<FilteredRefView>,
)
    requires
        !delegates.contains(remote),
    ensures
        licensed_tips(remote, delegates, refs).len() == 0,
{
}

} // verus!

