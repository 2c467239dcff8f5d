//! Ref names: the identity refs a peer advertises, how such a name is
//! classified, and the local remote-tracking names they are stored under.
//!
//! Names are byte strings. The forms understood here are
//! `refs/rad/id`, `refs/rad/ids/<urn>`, and the same two scoped under a
//! remote peer: `refs/remotes/<peer>/rad/id`, `refs/remotes/<peer>/rad/ids/<urn>`.
use vstd::prelude::*;

use crate::ids::{copy_bytes, Oid, PeerId};

verus! {

/// The byte of the path separator `/`.
pub const SLASH: u8 = 47;

/// `refs/`
pub open spec fn refs_prefix() -> Seq<u8> {
    seq![114u8, 101u8, 102u8, 115u8, 47u8]
}

/// `remotes/`
pub open spec fn remotes_prefix() -> Seq<u8> {
    seq![114u8, 101u8, 109u8, 111u8, 116u8, 101u8, 115u8, 47u8]
}

/// `rad/id`
pub open spec fn rad_id() -> Seq<u8> {
    seq![114u8, 97u8, 100u8, 47u8, 105u8, 100u8]
}

/// `rad/ids/`
pub open spec fn rad_ids_prefix() -> Seq<u8> {
    seq![114u8, 97u8, 100u8, 47u8, 105u8, 100u8, 115u8, 47u8]
}

fn refs_prefix_bytes() -> (r: Vec<u8>)
    ensures
        r@ == refs_prefix(),
{
    let r = vec![114u8, 101u8, 102u8, 115u8, 47u8];
    assert(r@ =~= refs_prefix());
    r
}

fn remotes_prefix_bytes() -> (r: Vec<u8>)
    ensures
        r@ == remotes_prefix(),
{
    let r = vec![114u8, 101u8, 109u8, 111u8, 116u8, 101u8, 115u8, 47u8];
    assert(r@ =~= remotes_prefix());
    r
}

fn rad_id_bytes() -> (r: Vec<u8>)
    ensures
        r@ == rad_id(),
{
    let r = vec![114u8, 97u8, 100u8, 47u8, 105u8, 100u8];
    assert(r@ =~= rad_id());
    r
}

fn rad_ids_prefix_bytes() -> (r: Vec<u8>)
    ensures
        r@ == rad_ids_prefix(),
{
    let r = vec![114u8, 97u8, 100u8, 47u8, 105u8, 100u8, 115u8, 47u8];
    assert(r@ =~= rad_ids_prefix());
    r
}

/// A path segment: not empty, and free of separators.
pub open spec fn is_segment(s: Seq<u8>) -> bool {
    s.len() > 0 && forall|i: int| 0 <= i < s.len() ==> s[i] != SLASH
}

/// The index of the first separator at or after `i`, or the length of `s`
/// if there is none.
pub open spec fn slash_from(s: Seq<u8>, i: int) -> int
    decreases s.len() - i,
{
    if i >= s.len() {
        s.len() as int
    } else if s[i] == SLASH {
        i
    } else {
        slash_from(s, i + 1)
    }
}

proof fn lemma_slash_from(s: Seq<u8>, i: int)
    requires
        0 <= i <= s.len(),
    ensures
        i <= slash_from(s, i) <= s.len(),
        forall|j: int| i <= j < slash_from(s, i) ==> s[j] != SLASH,
        slash_from(s, i) < s.len() ==> s[slash_from(s, i)] == SLASH,
    decreases s.len() - i,
{
    if i < s.len() && s[i] != SLASH {
        lemma_slash_from(s, i + 1);
    }
}

/// The classification of an identity ref, with the scope stripped.
#[derive(Debug)]
pub enum Identity {
    /// `rad/id`: the peer's own view of the identity.
    Id,
    /// `rad/ids/<urn>`: the identity of one of its delegates.
    Delegate(Vec<u8>),
}

pub enum IdentityView {
    Id,
    Delegate(Seq<u8>),
}

impl View for Identity {
    type V = IdentityView;

    open spec fn view(&self) -> IdentityView {
        match self {
            Identity::Id => IdentityView::Id,
            Identity::Delegate(u) => IdentityView::Delegate(u@),
        }
    }
}

impl Identity {
    pub fn duplicate(&self) -> (r: Identity)
        ensures
            r@ == self@,
    {
        match self {
            Identity::Id => Identity::Id,
            Identity::Delegate(u) => Identity::Delegate(copy_bytes(u)),
        }
    }
}

/// A classified identity ref name: its remote scope, if any, and its kind.
#[derive(Debug)]
pub struct Parsed {
    pub remote: Option<PeerId>,
    pub inner: Identity,
}

pub struct ParsedView {
    pub remote: Option<Seq<u8>>,
    pub inner: IdentityView,
}

impl View for Parsed {
    type V = ParsedView;

    open spec fn view(&self) -> ParsedView {
        ParsedView {
            remote: match self.remote {
                Some(p) => Some(p@),
                None => None,
            },
            inner: self.inner@,
        }
    }
}

impl Parsed {
    pub fn duplicate(&self) -> (r: Parsed)
        ensures
            r@ == self@,
    {
        let remote = match &self.remote {
            Some(p) => Some(p.duplicate()),
            None => None,
        };
        Parsed { remote, inner: self.inner.duplicate() }
    }
}

/// The part of a name after `refs/` or after `refs/remotes/<peer>/`.
pub open spec fn identity_tail(i: IdentityView) -> Seq<u8> {
    match i {
        IdentityView::Id => rad_id(),
        IdentityView::Delegate(u) => rad_ids_prefix() + u,
    }
}

/// The unscoped name of an identity ref: `refs/rad/id` or `refs/rad/ids/<urn>`.
pub open spec fn identity_name(i: IdentityView) -> Seq<u8> {
    refs_prefix() + identity_tail(i)
}

/// The name of an identity ref scoped under a remote peer:
/// `refs/remotes/<peer>/rad/id` or `refs/remotes/<peer>/rad/ids/<urn>`.
pub open spec fn tracking_name(peer: Seq<u8>, i: IdentityView) -> Seq<u8> {
    refs_prefix() + remotes_prefix() + peer + seq![SLASH] + identity_tail(i)
}

/// How the tail of a name (after the scope) classifies.
pub open spec fn parse_tail(t: Seq<u8>) -> Option<IdentityView> {
    if t == rad_id() {
        Some(IdentityView::Id)
    } else if t.len() > 8 && t.take(8) == rad_ids_prefix() && is_segment(t.skip(8)) {
        Some(IdentityView::Delegate(t.skip(8)))
    } else {
        None
    }
}

/// The classification of a ref name, or `None` where it is not an identity ref.
pub open spec fn parse_name(n: Seq<u8>) -> Option<ParsedView> {
    if n.len() >= 5 && n.take(5) == refs_prefix() {
        if n.len() >= 13 && n.subrange(5, 13) == remotes_prefix() {
            let k = slash_from(n, 13);
            if 13 < k < n.len() {
                match parse_tail(n.skip(k + 1)) {
                    Some(i) => Some(ParsedView { remote: Some(n.subrange(13, k)), inner: i }),
                    None => None,
                }
            } else {
                None
            }
        } else {
            match parse_tail(n.skip(5)) {
                Some(i) => Some(ParsedView { remote: None, inner: i }),
                None => None,
            }
        }
    } else {
        None
    }
}

/// Whether `p` occurs in `s` at offset `off`.
fn has_at(s: &Vec<u8>, off: usize, p: &Vec<u8>) -> (r: bool)
    requires
        off <= s@.len(),
    ensures
        r == (off + p@.len() <= s@.len() && s@.subrange(off as int, off + p@.len()) == p@),
{
    if p.len() > s.len() - off {
        return false;
    }
    let slen = s.len();
    let mut i: usize = 0;
    while i < p.len()
        invariant
            slen == s@.len(),
            off + p@.len() <= s@.len(),
            i <= p@.len(),
            s@.subrange(off as int, off + i) == p@.subrange(0, i as int),
        decreases p@.len() - i,
    {
        if s[off + i] != p[i] {
            assert(s@.subrange(off as int, off + p@.len())[i as int] != p@[i as int]);
            return false;
        }
        assert(s@.subrange(off as int, off + i + 1) == s@.subrange(off as int, off + i).push(
            s@[off + i],
        ));
        assert(p@.subrange(0, i + 1) == p@.subrange(0, i as int).push(p@[i as int]));
        i = i + 1;
    }
    assert(p@ == p@.subrange(0, p@.len() as int));
    true
}

/// The bytes of `s` from `from` up to `to`.
fn slice_bytes(s: &Vec<u8>, from: usize, to: usize) -> (r: Vec<u8>)
    requires
        from <= to <= s@.len(),
    ensures
        r@ == s@.subrange(from as int, to as int),
{
    let mut r: Vec<u8> = Vec::with_capacity(to - from);
    let mut i: usize = from;
    while i < to
        invariant
            from <= i <= to <= s@.len(),
            r@ == s@.subrange(from as int, i as int),
        decreases to - i,
    {
        r.push(s[i]);
        assert(s@.subrange(from as int, i + 1) == s@.subrange(from as int, i as int).push(
            s@[i as int],
        ));
        i = i + 1;
    }
    r
}

/// The index of the first separator at or after `from`, or the length.
fn find_slash(s: &Vec<u8>, from: usize) -> (r: usize)
    requires
        from <= s@.len(),
    ensures
        r == slash_from(s@, from as int),
{
    let mut i: usize = from;
    while i < s.len() && s[i] != SLASH
        invariant
            from <= i <= s@.len(),
            slash_from(s@, i as int) == slash_from(s@, from as int),
        decreases s@.len() - i,
    {
        i = i + 1;
    }
    i
}

/// Appends the bytes of `src` to `dst`.
pub fn push_bytes(dst: &mut Vec<u8>, src: &Vec<u8>)
    ensures
        final(dst)@ == old(dst)@ + src@,
{
    let mut i: usize = 0;
    while i < src.len()
        invariant
            i <= src@.len(),
            dst@ == old(dst)@ + src@.subrange(0, i as int),
        decreases src@.len() - i,
    {
        dst.push(src[i]);
        assert(src@.subrange(0, i + 1) == src@.subrange(0, i as int).push(src@[i as int]));
        assert(old(dst)@ + src@.subrange(0, i + 1) == (old(dst)@ + src@.subrange(
            0,
            i as int,
        )).push(src@[i as int]));
        i = i + 1;
    }
    assert(src@ == src@.subrange(0, src@.len() as int));
}

/// Classifies the tail of `n` that starts at `off`.
fn parse_tail_at(n: &Vec<u8>, off: usize) -> (r: Option<Identity>)
    requires
        off <= n@.len(),
    ensures
        match r {
            Some(i) => parse_tail(n@.skip(off as int)) == Some(i@),
            None => parse_tail(n@.skip(off as int)) is None,
        },
{
    let ghost t = n@.skip(off as int);
    let id = rad_id_bytes();
    if n.len() - off == 6 && has_at(n, off, &id) {
        assert(t =~= n@.subrange(off as int, off + 6));
        return Some(Identity::Id);
    }
    assert(t != rad_id()) by {
        if t == rad_id() {
            assert(t.len() == 6);
            assert(t =~= n@.subrange(off as int, off + 6));
        }
    }
    let ids = rad_ids_prefix_bytes();
    if n.len() - off > 8 && has_at(n, off, &ids) {
        let k = find_slash(n, off + 8);
        proof {
            lemma_slash_from(n@, off + 8);
            assert(t.take(8) =~= n@.subrange(off as int, off + 8));
        }
        if k == n.len() {
            let u = slice_bytes(n, off + 8, k);
            assert(u@ =~= t.skip(8));
            return Some(Identity::Delegate(u));
        }
        assert(t.skip(8)[k - off - 8] == SLASH);
        return None;
    }
    proof {
        if t.len() > 8 && t.take(8) == rad_ids_prefix() {
            assert(t.take(8) =~= n@.subrange(off as int, off + 8));
        }
    }
    None
}

/// Classifies a ref name as an identity ref, with its remote scope if any.
pub fn parse(n: &Vec<u8>) -> (r: Option<Parsed>)
    ensures
        match r {
            Some(p) => parse_name(n@) == Some(p@),
            None => parse_name(n@) is None,
        },
{
    let refs = refs_prefix_bytes();
    if !has_at(n, 0, &refs) {
        proof {
            if n@.len() >= 5 {
                assert(n@.take(5) =~= n@.subrange(0, 5));
            }
        }
        return None;
    }
    assert(n@.take(5) =~= n@.subrange(0, 5));
    let remotes = remotes_prefix_bytes();
    if has_at(n, 5, &remotes) {
        let k = find_slash(n, 13);
        proof {
            lemma_slash_from(n@, 13);
        }
        if 13 < k && k < n.len() {
            let remote = slice_bytes(n, 13, k);
            match parse_tail_at(n, k + 1) {
                Some(inner) => Some(Parsed { remote: Some(PeerId::new(remote)), inner }),
                None => None,
            }
        } else {
            None
        }
    } else {
        match parse_tail_at(n, 5) {
            Some(inner) => Some(Parsed { remote: None, inner }),
            None => None,
        }
    }
}

/// Appends the tail of an identity ref name (`rad/id` or `rad/ids/<urn>`).
fn push_identity_tail(dst: &mut Vec<u8>, i: &Identity)
    ensures
        final(dst)@ == old(dst)@ + identity_tail(i@),
{
    match i {
        Identity::Id => {
            push_bytes(dst, &rad_id_bytes());
        },
        Identity::Delegate(u) => {
            push_bytes(dst, &rad_ids_prefix_bytes());
            push_bytes(dst, u);
            assert(old(dst)@ + rad_ids_prefix() + u@ =~= old(dst)@ + identity_tail(i@));
        },
    }
}

/// The unscoped name of an identity ref.
pub fn to_identity_name(i: &Identity) -> (r: Vec<u8>)
    ensures
        r@ == identity_name(i@),
{
    let mut r = refs_prefix_bytes();
    push_identity_tail(&mut r, i);
    r
}

/// The name of an identity ref scoped under `peer`.
pub fn to_tracking_name(peer: &PeerId, i: &Identity) -> (r: Vec<u8>)
    ensures
        r@ == tracking_name(peer@, i@),
{
    let mut r = refs_prefix_bytes();
    push_bytes(&mut r, &remotes_prefix_bytes());
    push_bytes(&mut r, peer.as_bytes());
    r.push(SLASH);
    push_identity_tail(&mut r, i);
    assert(r@ =~= tracking_name(peer@, i@));
    r
}

/// A ref as a peer advertises it: a name and the object it points at.
#[derive(Debug)]
pub struct Ref {
    pub name: Vec<u8>,
    pub tip: Oid,
}

impl View for Ref {
    type V = (Seq<u8>, Oid);

    open spec fn view(&self) -> (Seq<u8>, Oid) {
        (self.name@, self.tip)
    }
}

/// A ref name together with the peer whose view it describes.
#[derive(Debug)]
pub struct Scoped {
    pub scope: PeerId,
    pub name: Vec<u8>,
}

impl View for Scoped {
    type V = (Seq<u8>, Seq<u8>);

    open spec fn view(&self) -> (Seq<u8>, Seq<u8>) {
        (self.scope@, self.name@)
    }
}

impl Scoped {
    pub fn duplicate(&self) -> (r: Scoped)
        ensures
            r@ == self@,
    {
        Scoped { scope: self.scope.duplicate(), name: copy_bytes(&self.name) }
    }

    /// Whether two scoped names denote the same ref of the same peer.
    pub fn same(&self, other: &Scoped) -> (r: bool)
        ensures
            r == (self@ == other@),
    {
        self.scope.same(&other.scope) && crate::ids::bytes_eq(&self.name, &other.name)
    }
}

} // verus!

verus! {

/// `refs/rad/ids/`: the prefix of delegate identity ref names.
pub open spec fn delegates_prefix() -> Seq<u8> {
    refs_prefix() + rad_ids_prefix()
}

/// The name prefixes under which a peer advertises its own identity refs:
/// `refs/rad/id` and `refs/rad/ids/`.
pub fn identity_prefixes() -> (r: Vec<Vec<u8>>)
    ensures
        r@.len() == 2,
        r@[0]@ == identity_name(IdentityView::Id),
        r@[1]@ == delegates_prefix(),
{
    let id = to_identity_name(&Identity::Id);
    let mut ids = refs_prefix_bytes();
    push_bytes(&mut ids, &rad_ids_prefix_bytes());
    let mut r: Vec<Vec<u8>> = Vec::new();
    r.push(id);
    r.push(ids);
    r
}

/// A name classifies as an unscoped `rad/id` exactly when it is `refs/rad/id`.
pub proof fn lemma_parse_own_identity(n: Seq<u8>)
    ensures
        parse_name(n) == Some(ParsedView { remote: None, inner: IdentityView::Id }) <==> n
            == identity_name(IdentityView::Id),
{
    let own = ParsedView { remote: None, inner: IdentityView::Id };
    if n == identity_name(IdentityView::Id) {
        assert(n.take(5) =~= refs_prefix());
        assert(n.skip(5) =~= rad_id());
        assert(n.len() == 11);
    }
    if parse_name(n) == Some(own) {
        assert(n.len() >= 5 && n.take(5) == refs_prefix());
        if n.len() >= 13 && n.subrange(5, 13) == remotes_prefix() {
            assert(parse_name(n).unwrap().remote is Some);
        } else {
            assert(parse_tail(n.skip(5)) == Some(IdentityView::Id));
            assert(n.skip(5) == rad_id());
            assert(n =~= n.take(5) + n.skip(5));
        }
    }
}

} // verus!
