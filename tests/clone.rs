use link_replication::clone::ForClone;
use link_replication::error::{Error, Layout, Negotiate, Prepare};
use link_replication::fetch::{mk_ref_update, ExpectLs, FetchState, FilteredRef, LsRefs};
use link_replication::identities::{Identities, VerificationError, VerifiedIdentity};
use link_replication::ids::{bytes_eq, Oid, PeerId, Urn};
use link_replication::refdb::{MemRefdb, Refdb};
use link_replication::refs::{parse, to_tracking_name, Identity, Parsed, Ref, Scoped};

fn peer(s: &str) -> PeerId {
    PeerId::new(s.as_bytes().to_vec())
}

fn oid(n: u32) -> Oid {
    Oid { hi: 0x1111, mid: 0x2222, lo: n }
}

fn ad(name: &str, tip: Oid) -> Ref {
    Ref { name: name.as_bytes().to_vec(), tip }
}

fn clone_from(p: &str) -> ForClone {
    ForClone { remote_id: peer(p), limit: 1024 }
}

/// Verifies every history, delegating to the peers it was built with.
struct Delegating(Vec<&'static str>);

impl Identities for Delegating {
    fn verify(&self, tip: Oid, _delegations: &Vec<Oid>) -> Result<VerifiedIdentity, VerificationError> {
        Ok(VerifiedIdentity::new(
            Urn { id: tip, path: None },
            self.0.iter().map(|p| peer(p)).collect(),
        ))
    }
}

/// Rejects every history.
struct Rejecting;

impl Identities for Rejecting {
    fn verify(&self, _tip: Oid, _delegations: &Vec<Oid>) -> Result<VerifiedIdentity, VerificationError> {
        Err(VerificationError { message: "bad signature".to_string() })
    }
}

fn accepted_identity(c: &ForClone, tip: Oid) -> FilteredRef {
    c.ref_filter(ad("refs/rad/id", tip)).expect("refs/rad/id is accepted")
}

#[test]
fn round_trip_clone() {
    let c = clone_from("hybpeer");
    let o = oid(7);
    let db = MemRefdb::new();
    let wh = c.negotiate(&db, &vec![ad("refs/rad/id", o)]).unwrap();
    assert_eq!(wh.wants, vec![o]);
    assert!(wh.haves.is_empty());
    assert_eq!(wh.wanted.len(), 1);
    assert!(c.pre_validate(&wh.wanted).is_ok());

    let s = FetchState { id_tips: vec![(peer("hybpeer"), o)], delegation_tips: vec![] };
    let u = c.prepare(&s, &Delegating(vec!["hybpeer"]), &wh.wanted).unwrap();
    assert!(u.track.is_empty());
    assert_eq!(u.tips.len(), 1);
    assert_eq!(u.tips[0].name, b"refs/remotes/hybpeer/rad/id".to_vec());
    assert_eq!(u.tips[0].target, o);
}

#[test]
fn empty_remote_requests_nothing() {
    let c = clone_from("hybpeer");
    let db = MemRefdb::new();
    match c.negotiate(&db, &vec![]) {
        Err(Negotiate::Layout(Layout::MissingRequiredRefs(m))) => {
            assert_eq!(m.len(), 1);
            assert!(m[0].scope.same(&peer("hybpeer")));
            assert_eq!(m[0].name, b"refs/rad/id".to_vec());
        },
        other => panic!("expected a layout failure, got {:?}", other),
    }
    assert!(c.pre_validate(&vec![]).is_err());
}

#[test]
fn stale_local_is_had_not_wanted() {
    let c = clone_from("hybpeer");
    let o = oid(7);
    let mut db = MemRefdb::new();
    db.set(&b"refs/remotes/hybpeer/rad/id".to_vec(), o);
    let wh = c.negotiate(&db, &vec![ad("refs/rad/id", o)]).unwrap();
    assert!(wh.wants.is_empty());
    assert_eq!(wh.haves, vec![o]);
    assert_eq!(wh.wanted.len(), 1);
    assert_eq!(wh.wanted[0].tip, o);
}

#[test]
fn diverged_local_is_had_and_remote_tip_wanted() {
    let c = clone_from("hybpeer");
    let mut db = MemRefdb::new();
    db.set(&b"refs/remotes/hybpeer/rad/id".to_vec(), oid(1));
    let wh = c.wants_haves(&db, vec![accepted_identity(&c, oid(2))]).unwrap();
    assert_eq!(wh.wants, vec![oid(2)]);
    assert_eq!(wh.haves, vec![oid(1)]);
}

#[test]
fn missing_identity_among_other_refs_fails_layout() {
    let c = clone_from("hybpeer");
    let db = MemRefdb::new();
    let ads = vec![
        ad("refs/rad/ids/xyz", oid(1)),
        ad("refs/remotes/hybpeer/rad/id", oid(2)),
        ad("refs/heads/main", oid(3)),
    ];
    assert!(matches!(c.negotiate(&db, &ads), Err(Negotiate::Layout(_))));
}

#[test]
fn scoped_identity_ref_is_rejected() {
    let c = clone_from("hybpeer");
    assert!(c.ref_filter(ad("refs/remotes/other/rad/id", oid(1))).is_none());
    assert!(c.ref_filter(ad("refs/remotes/hybpeer/rad/id", oid(1))).is_none());
    assert!(c.ref_filter(ad("refs/heads/main", oid(1))).is_none());
    let f = c.ref_filter(ad("refs/rad/id", oid(1))).unwrap();
    assert!(f.remote_id().same(&peer("hybpeer")));
    assert!(f.parsed.remote.is_none());
    assert!(matches!(f.parsed.inner, Identity::Id));
}

#[test]
fn refs_of_other_peers_are_passed_over() {
    let c = clone_from("hybpeer");
    let other = clone_from("other");
    let db = MemRefdb::new();
    let wh = c
        .wants_haves(&db, vec![accepted_identity(&other, oid(5)), accepted_identity(&c, oid(6))])
        .unwrap();
    assert_eq!(wh.wanted.len(), 1);
    assert_eq!(wh.wanted[0].tip, oid(6));
    assert_eq!(wh.wants, vec![oid(6)]);
    assert!(wh.haves.is_empty());
}

#[test]
fn duplicate_tips_are_wanted_once() {
    let c = clone_from("hybpeer");
    let db = MemRefdb::new();
    let wh = c
        .wants_haves(&db, vec![accepted_identity(&c, oid(5)), accepted_identity(&c, oid(5))])
        .unwrap();
    assert_eq!(wh.wants, vec![oid(5)]);
    assert_eq!(wh.wanted.len(), 1);
}

#[test]
fn unscoped_delegate_identity_refs_are_accepted() {
    let c = clone_from("hybpeer");
    let f = c.ref_filter(ad("refs/rad/ids/xyz", oid(1))).unwrap();
    assert!(f.parsed.remote.is_none());
    match &f.parsed.inner {
        Identity::Delegate(u) => assert_eq!(u, &b"xyz".to_vec()),
        Identity::Id => panic!("expected a delegate identity"),
    }
    assert!(c.ref_filter(ad("refs/remotes/other/rad/ids/xyz", oid(1))).is_none());

    let db = MemRefdb::new();
    let ads = vec![ad("refs/rad/id", oid(1)), ad("refs/rad/ids/xyz", oid(2))];
    let wh = c.negotiate(&db, &ads).unwrap();
    assert_eq!(wh.wanted.len(), 2);
    assert_eq!(wh.wants, vec![oid(1), oid(2)]);
    assert!(wh.haves.is_empty());

    let s = FetchState { id_tips: vec![(peer("hybpeer"), oid(1))], delegation_tips: vec![] };
    let u = c.prepare(&s, &Delegating(vec!["hybpeer"]), &wh.wanted).unwrap();
    assert_eq!(u.tips.len(), 2);
    assert_eq!(u.tips[1].name, b"refs/remotes/hybpeer/rad/ids/xyz".to_vec());
    assert_eq!(u.tips[1].target, oid(2));
}

#[test]
fn delegate_refs_alone_fail_layout() {
    let c = clone_from("hybpeer");
    let db = MemRefdb::new();
    let ads = vec![ad("refs/rad/ids/xyz", oid(2))];
    assert!(matches!(c.negotiate(&db, &ads), Err(Negotiate::Layout(_))));
}

#[test]
fn untrusted_peer_gets_no_updates() {
    let c = clone_from("hybpeer");
    let o = oid(7);
    let refs = vec![accepted_identity(&c, o)];
    let s = FetchState { id_tips: vec![(peer("hybpeer"), o)], delegation_tips: vec![] };
    let u = c.prepare(&s, &Delegating(vec!["someone", "else"]), &refs).unwrap();
    assert!(u.tips.is_empty());
    assert!(u.track.is_empty());
}

#[test]
fn verification_failure_is_an_error() {
    let c = clone_from("hybpeer");
    let o = oid(7);
    let refs = vec![accepted_identity(&c, o)];
    let s = FetchState { id_tips: vec![(peer("hybpeer"), o)], delegation_tips: vec![] };
    match c.prepare(&s, &Rejecting, &refs) {
        Err(Prepare::Verification(e)) => assert_eq!(e.message, "bad signature"),
        Ok(u) => panic!("expected an error, got {} updates", u.tips.len()),
    }
}

#[test]
fn prepare_verified_outcomes() {
    let c = clone_from("hybpeer");
    let refs = vec![accepted_identity(&c, oid(1)), accepted_identity(&c, oid(2))];
    let v = VerifiedIdentity::new(Urn { id: oid(9), path: None }, vec![peer("x"), peer("hybpeer")]);
    let u = c.prepare_verified(Ok(v), &refs).unwrap();
    assert_eq!(u.tips.len(), 2);
    assert_eq!(u.tips[1].target, oid(2));
    let err = c.prepare_verified(Err(VerificationError { message: "no".to_string() }), &refs);
    assert!(matches!(err, Err(Prepare::Verification(_))));
}

#[test]
fn ls_refs_asks_for_own_identity_refs() {
    let c = clone_from("hybpeer");
    match c.ls_refs() {
        Some(LsRefs::Prefix { prefixes, response }) => {
            assert_eq!(response, ExpectLs::NonEmpty);
            assert_eq!(prefixes, vec![b"refs/rad/id".to_vec(), b"refs/rad/ids/".to_vec()]);
        },
        None => panic!("a clone always lists refs"),
    }
}

#[test]
fn required_refs_and_limit() {
    let c = clone_from("hybpeer");
    let r = c.required_refs();
    assert_eq!(r.len(), 1);
    assert!(r[0].same(&Scoped { scope: peer("hybpeer"), name: b"refs/rad/id".to_vec() }));
    assert_eq!(c.fetch_limit(), 1024);
}

#[test]
fn parse_classifies_identity_refs() {
    let p = parse(&b"refs/rad/id".to_vec()).unwrap();
    assert!(p.remote.is_none() && matches!(p.inner, Identity::Id));
    let p = parse(&b"refs/rad/ids/rad:git:abc".to_vec()).unwrap();
    assert!(p.remote.is_none());
    match p.inner {
        Identity::Delegate(u) => assert_eq!(u, b"rad:git:abc".to_vec()),
        Identity::Id => panic!("expected a delegate"),
    }
    let p = parse(&b"refs/remotes/hyb/rad/ids/u".to_vec()).unwrap();
    assert_eq!(p.remote.unwrap().key, b"hyb".to_vec());
    assert!(parse(&b"refs/rad/ids/".to_vec()).is_none());
    assert!(parse(&b"refs/rad/ids/a/b".to_vec()).is_none());
    assert!(parse(&b"refs/remotes//rad/id".to_vec()).is_none());
    assert!(parse(&b"refs/rad/idx".to_vec()).is_none());
    assert!(parse(&b"rad/id".to_vec()).is_none());
    assert!(parse(&b"".to_vec()).is_none());
}

#[test]
fn tracking_names() {
    let name = to_tracking_name(&peer("hyb"), &Identity::Delegate(b"u1".to_vec()));
    assert_eq!(name, b"refs/remotes/hyb/rad/ids/u1".to_vec());
    let f = FilteredRef::new(
        oid(3),
        &peer("hyb"),
        Parsed { remote: Some(peer("other")), inner: Identity::Id },
    );
    let u = mk_ref_update(&f);
    assert_eq!(u.name, b"refs/remotes/other/rad/id".to_vec());
    assert_eq!(u.target, oid(3));
    assert_eq!(f.to_scoped().name, b"refs/rad/id".to_vec());
}

#[test]
fn fetch_state_lookups() {
    let s = FetchState {
        id_tips: vec![(peer("a"), oid(1)), (peer("b"), oid(2)), (peer("a"), oid(3))],
        delegation_tips: vec![(peer("a"), oid(4)), (peer("b"), oid(5)), (peer("a"), oid(6))],
    };
    assert_eq!(s.get_id_tip(&peer("a")), Some(oid(1)));
    assert_eq!(s.get_id_tip(&peer("c")), None);
    assert_eq!(s.lookup_delegations(&peer("a")), vec![oid(4), oid(6)]);
    assert!(s.lookup_delegations(&peer("c")).is_empty());
}

#[test]
fn mem_refdb_newest_wins() {
    let mut db = MemRefdb::new();
    let n = b"refs/remotes/a/rad/id".to_vec();
    assert_eq!(db.refname_to_id(&n), Ok(None));
    db.set(&n, oid(1));
    db.set(&n, oid(2));
    assert_eq!(db.refname_to_id(&n), Ok(Some(oid(2))));
    assert_eq!(db.refname_to_id(&b"refs/remotes/b/rad/id".to_vec()), Ok(None));
}

#[test]
fn delegate_membership_and_bytes() {
    let v = VerifiedIdentity::new(Urn { id: oid(1), path: None }, vec![peer("a"), peer("b")]);
    assert!(v.is_delegate(&peer("b")));
    assert!(!v.is_delegate(&peer("c")));
    assert!(bytes_eq(&b"ab".to_vec(), &b"ab".to_vec()));
    assert!(!bytes_eq(&b"ab".to_vec(), &b"abc".to_vec()));
}

#[test]
fn errors_keep_their_cause() {
    let e: Error = git2::Error::from_str("object missing").into();
    match e {
        Error::Git(g) => assert_eq!(g.message(), "object missing"),
        _ => panic!("expected a git error"),
    }
    let e: Error = VerificationError { message: "quorum".to_string() }.into();
    assert!(matches!(e, Error::Verification(v) if v.message == "quorum"));
}
