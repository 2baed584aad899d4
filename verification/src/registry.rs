use crate::info::{NodeInfo, NodeInfoView};
use crate::span::NodeId;
use vstd::prelude::*;

verus! {

/// The finished regions of a registry in the order it hands them out.
pub type Entries = Seq<(NodeId, NodeInfoView)>;

/// Whether the identities of `s` grow strictly from each entry to the next.
pub open spec fn ascending(s: Entries) -> bool {
    forall|i: int, j: int| 0 <= i < j < s.len() ==> s[i].0 < s[j].0
}

/// Whether `s` holds a region under `id`.
pub open spec fn has_id(s: Entries, id: NodeId) -> bool {
    exists|i: int| 0 <= i < s.len() && s[i].0 == id
}

/// How many entries of `s` have an identity below `id`.
pub open spec fn rank(s: Entries, id: NodeId) -> nat
    decreases s.len(),
{
    if s.len() == 0 {
        0
    } else {
        rank(s.drop_last(), id) + if s.last().0 < id {
            1nat
        } else {
            0nat
        }
    }
}

/// `s` with the region `info` under `id`, placed behind the entries with a
/// smaller identity.
pub open spec fn with_region(s: Entries, id: NodeId, info: NodeInfoView) -> Entries {
    s.insert(rank(s, id) as int, (id, info))
}

/// In a prefix whose identities are all below `id`, every entry counts.
pub proof fn lemma_rank_split(s: Entries, id: NodeId, p: int)
    requires
        0 <= p <= s.len(),
        forall|k: int| 0 <= k < p ==> s[k].0 < id,
        forall|k: int| p <= k < s.len() ==> s[k].0 >= id,
    ensures
        rank(s, id) == p,
    decreases s.len(),
{
    if s.len() > 0 {
        let t = s.drop_last();
        if p == s.len() {
            lemma_rank_split(t, id, p - 1);
        } else {
            lemma_rank_split(t, id, p);
        }
    }
}

/// The rank of an identity is a position of the sequence or its end.
pub proof fn lemma_rank_bound(s: Entries, id: NodeId)
    ensures
        rank(s, id) <= s.len(),
    decreases s.len(),
{
    if s.len() > 0 {
        lemma_rank_bound(s.drop_last(), id);
    }
}

/// In an ascending sequence the rank of `id` parts the smaller identities
/// from the others.
pub proof fn lemma_rank_parts(s: Entries, id: NodeId)
    requires
        ascending(s),
    ensures
        rank(s, id) <= s.len(),
        forall|k: int| 0 <= k < rank(s, id) ==> s[k].0 < id,
        forall|k: int| rank(s, id) <= k < s.len() ==> s[k].0 >= id,
    decreases s.len(),
{
    if s.len() > 0 {
        let t = s.drop_last();
        assert(ascending(t));
        lemma_rank_parts(t, id);
        lemma_rank_bound(t, id);
        if s.last().0 < id {
            assert forall|k: int| 0 <= k < s.len() implies s[k].0 < id by {
                if k < s.len() - 1 {
                    assert(s[k].0 < s[s.len() - 1].0);
                }
            }
            lemma_rank_split(t, id, t.len() as int);
        } else {
            assert forall|k: int| rank(s, id) <= k < s.len() implies s[k].0 >= id by {
                if k < s.len() - 1 {
                    assert(t[k] == s[k]);
                }
            }
            assert forall|k: int| 0 <= k < rank(s, id) implies s[k].0 < id by {
                assert(t[k] == s[k]);
            }
        }
    }
}

/// A new region under an identity that is not there yet keeps the order, is
/// found under its identity, and leaves every other entry where it was
/// relative to the others.
pub proof fn lemma_with_region(s: Entries, id: NodeId, info: NodeInfoView)
    requires
        ascending(s),
        !has_id(s, id),
    ensures
        ascending(with_region(s, id, info)),
        with_region(s, id, info).len() == s.len() + 1,
        has_id(with_region(s, id, info), id),
        forall|other: NodeId| has_id(s, other) ==> has_id(with_region(s, id, info), other),
        forall|other: NodeId|
            other != id && has_id(with_region(s, id, info), other) ==> has_id(s, other),
{
    lemma_rank_parts(s, id);
    let p = rank(s, id) as int;
    let t = with_region(s, id, info);
    assert forall|k: int| p <= k < s.len() implies s[k].0 > id by {
        if s[k].0 == id {
            assert(has_id(s, id));
        }
    }
    assert(t[p].0 == id);
    assert forall|other: NodeId| has_id(s, other) implies has_id(t, other) by {
        let k = choose|k: int| 0 <= k < s.len() && s[k].0 == other;
        if k < p {
            assert(t[k] == s[k]);
        } else {
            assert(t[k + 1] == s[k]);
        }
    }
    assert forall|other: NodeId| other != id && has_id(t, other) implies has_id(s, other) by {
        let k = choose|k: int| 0 <= k < t.len() && t[k].0 == other;
        if k < p {
            assert(t[k] == s[k]);
        } else {
            assert(t[k] == s[k - 1]);
        }
    }
}

/// The report of a second region under an identity that has one already.
#[derive(Clone, Copy, Debug, PartialEq, Eq, Structural)]
pub struct DuplicateRegion {
    pub id: NodeId,
}

/// The finished regions of one run, each under its identity, kept in
/// ascending order of identity.
#[derive(Debug)]
pub struct Registry {
    entries: Vec<(NodeId, NodeInfo)>,
}

impl View for Registry {
    type V = Entries;

    closed spec fn view(&self) -> Entries {
        self.entries@.map_values(|e: (NodeId, NodeInfo)| (e.0, e.1@))
    }
}

impl Registry {
    /// The invariant of a registry: its regions stand in ascending order of
    /// identity, so no two of them share one.
    pub open spec fn wf(&self) -> bool {
        ascending(self@)
    }

    /// A registry without regions.
    pub fn new() -> (r: Registry)
        ensures
            r@ == Entries::empty(),
            r.wf(),
    {
        let r = Registry { entries: Vec::new() };
        assert(r@ =~= Entries::empty());
        r
    }

    /// The number of regions.
    pub fn len(&self) -> (n: usize)
        ensures
            n == self@.len(),
    {
        self.entries.len()
    }

    /// The `i`-th region in ascending order of identity, with its identity.
    pub fn entry(&self, i: usize) -> (e: (NodeId, &NodeInfo))
        requires
            i < self@.len(),
        ensures
            (e.0, e.1@) == self@[i as int],
    {
        let e = &self.entries[i];
        (e.0, &e.1)
    }

    /// Where `id` stands, or would stand.
    fn position(&self, id: NodeId) -> (p: usize)
        requires
            self.wf(),
        ensures
            p == rank(self@, id),
            p <= self@.len(),
    {
        let mut i: usize = 0;
        while i < self.entries.len() && self.entries[i].0 < id
            invariant
                i <= self.entries.len(),
                forall|k: int| 0 <= k < i ==> self@[k].0 < id,
            decreases self.entries.len() - i,
        {
            i += 1;
        }
        proof {
            assert forall|k: int| i <= k < self@.len() implies self@[k].0 >= id by {
                if i < k {
                    assert(self@[i as int].0 < self@[k].0);
                }
            }
            lemma_rank_split(self@, id, i as int);
        }
        i
    }

    /// Whether a region stands under `id`.
    pub fn contains(&self, id: NodeId) -> (r: bool)
        requires
            self.wf(),
        ensures
            r == has_id(self@, id),
    {
        let p = self.position(id);
        proof {
            lemma_rank_parts(self@, id);
            if has_id(self@, id) {
                let k = choose|k: int| 0 <= k < self@.len() && self@[k].0 == id;
                if k > p {
                    assert(self@[p as int].0 < self@[k].0);
                }
            }
        }
        p < self.entries.len() && self.entries[p].0 == id
    }

    /// The region under `id`, if there is one.
    pub fn get(&self, id: NodeId) -> (r: Option<&NodeInfo>)
        requires
            self.wf(),
        ensures
            match r {
                Some(info) => exists|i: int|
                    0 <= i < self@.len() && self@[i] == (id, info@),
                None => !has_id(self@, id),
            },
    {
        if self.contains(id) {
            let p = self.position(id);
            proof {
                    lemma_rank_parts(self@, id);
                let k = choose|k: int| 0 <= k < self@.len() && self@[k].0 == id;
                if k > p {
                    assert(self@[p as int].0 < self@[k].0);
                }
            }
            Some(&self.entries[p].1)
        } else {
            None
        }
    }

    /// Commits the region `info` under `id`. A second region under an
    /// identity that has one is refused, and the registry stays as it was.
    pub fn insert(&mut self, id: NodeId, info: NodeInfo) -> (r: Result<(), DuplicateRegion>)
        requires
            old(self).wf(),
        ensures
            match r {
                Ok(_) => !has_id(old(self)@, id) && final(self)@ == with_region(
                    old(self)@,
                    id,
                    info@,
                ),
                Err(e) => has_id(old(self)@, id) && e.id == id && final(self)@ == old(self)@,
            },
            final(self).wf(),
    {
        if self.contains(id) {
            return Err(DuplicateRegion { id });
        }
        let p = self.position(id);
        proof {
            lemma_with_region(self@, id, info@);
        }
        let ghost before = self.entries@;
        self.entries.insert(p, (id, info));
        proof {
            let f = |e: (NodeId, NodeInfo)| (e.0, e.1@);
            assert(before.insert(p as int, (id, info)).map_values(f) =~= before.map_values(
                f,
            ).insert(p as int, (id, info@)));
        }
        Ok(())
    }
}

} // verus!
