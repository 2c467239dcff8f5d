//! The local ref database, as the negotiation sees it: lookups by name.
use vstd::prelude::*;

use crate::ids::{copy_bytes, Oid};

verus! {

/// The value of the first entry keyed `k`, if any.
pub open spec fn assoc(s: Seq<(Seq<u8>, Oid)>, k: Seq<u8>) -> Option<Oid>
    decreases s.len(),
{
    if s.len() == 0 {
        None
    } else if s[0].0 == k {
        Some(s[0].1)
    } else {
        assoc(s.drop_first(), k)
    }
}

/// Read access to a ref database.
pub trait Refdb {
    type FindError;

    /// The object the ref named `name` points at, or `None` if it is absent.
    spec fn lookup(&self, name: Seq<u8>) -> Option<Oid>;

    /// Looks up the ref named `name`; where the lookup succeeds, its answer is
    /// the one `lookup` gives.
    fn refname_to_id(&self, name: &Vec<u8>) -> (r: Result<Option<Oid>, Self::FindError>)
        ensures
            r matches Ok(o) ==> o == self.lookup(name@),
    ;
}

/// A ref database held in memory, the newest entry for a name first.
#[derive(Debug)]
pub struct MemRefdb {
    pub entries: Vec<(Vec<u8>, Oid)>,
}

impl MemRefdb {
    pub open spec fn entries_view(&self) -> Seq<(Seq<u8>, Oid)> {
        self.entries@.map_values(|e: (Vec<u8>, Oid)| (e.0@, e.1))
    }

    pub fn new() -> (r: MemRefdb)
        ensures
            forall|n: Seq<u8>| r.lookup(n) is None,
    {
        MemRefdb { entries: Vec::new() }
    }

    /// Points the ref named `name` at `oid`.
    pub fn set(&mut self, name: &Vec<u8>, oid: Oid)
        ensures
            forall|n: Seq<u8>|
                final(self).lookup(n) == if n == name@ {
                    Some(oid)
                } else {
                    old(self).lookup(n)
                },
    {
        self.entries.insert(0, (copy_bytes(name), oid));
        assert(final(self).entries_view().drop_first() =~= old(self).entries_view());
    }
}

impl Refdb for MemRefdb {
    type FindError = ();

    open spec fn lookup(&self, name: Seq<u8>) -> Option<Oid> {
        assoc(self.entries_view(), name)
    }

    fn refname_to_id(&self, name: &Vec<u8>) -> (r: Result<Option<Oid>, ()>)
        ensures
            r == Ok::<Option<Oid>, ()>(self.lookup(name@)),
    {
        let ghost s = self.entries_view();
        let mut i: usize = 0;
        assert(s.skip(0) =~= s);
        while i < self.entries.len()
            invariant
                i <= s.len(),
                s == self.entries_view(),
                assoc(s, name@) == assoc(s.skip(i as int), name@),
            decreases s.len() - i,
        {
            assert(s.skip(i as int)[0] == s[i as int]);
            if crate::ids::bytes_eq(&self.entries[i].0, name) {
                return Ok(Some(self.entries[i].1));
            }
            assert(s.skip(i as int).drop_first() =~= s.skip(i + 1));
            i = i + 1;
        }
        Ok(None)
    }
}

} // verus!
