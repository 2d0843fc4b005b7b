//! A finite set of node identifiers with a `Set` view.

use vstd::prelude::*;
use crate::types::NodeId;

verus! {

broadcast use vstd::set::group_set_axioms, vstd::seq_lib::seq_to_set_is_finite;

/// A set of node identifiers, stored as a vector without duplicates.
pub struct NodeSet {
    nodes: Vec<NodeId>,
}

impl View for NodeSet {
    type V = Set<NodeId>;

    closed spec fn view(&self) -> Set<NodeId> {
        self.nodes@.to_set()
    }
}

impl NodeSet {
    /// The elements in insertion order.
    pub closed spec fn to_seq(self) -> Seq<NodeId> {
        self.nodes@
    }

    /// The representation holds each element exactly once.
    pub closed spec fn wf(self) -> bool {
        self.nodes@.no_duplicates()
    }

    /// The view of a well-formed node set is finite and as large as its
    /// element sequence.
    pub proof fn lemma_view_props(self)
        requires
            self.wf(),
        ensures
            self@.finite(),
            self@.len() == self.to_seq().len(),
            self.to_seq().no_duplicates(),
            self.to_seq().to_set() == self@,
    {
        self.nodes@.unique_seq_to_set();
    }

    /// Creates an empty node set.
    pub fn new() -> (s: NodeSet)
        ensures
            s.wf(),
            s@ == Set::<NodeId>::empty(),
            s.to_seq() == Seq::<NodeId>::empty(),
    {
        let s = NodeSet { nodes: Vec::new() };
        proof {
            assert(s@ =~= Set::<NodeId>::empty());
        }
        s
    }

    /// Collects the given identifiers into a set, dropping duplicates.
    pub fn from_vec(nodes: Vec<NodeId>) -> (s: NodeSet)
        ensures
            s.wf(),
            s@ == nodes@.to_set(),
    {
        let mut s = NodeSet::new();
        let mut i: usize = 0;
        while i < nodes.len()
            invariant
                i <= nodes@.len(),
                s.wf(),
                s@ == nodes@.subrange(0, i as int).to_set(),
            decreases nodes@.len() - i,
        {
            proof {
                assert(nodes@.subrange(0, i + 1) =~= nodes@.subrange(0, i as int).push(
                    nodes@[i as int],
                ));
                nodes@.subrange(0, i as int).lemma_push_to_set_commute(nodes@[i as int]);
            }
            s.insert(nodes[i]);
            i += 1;
        }
        proof {
            assert(nodes@.subrange(0, nodes@.len() as int) =~= nodes@);
        }
        s
    }

    /// Number of elements in the set.
    pub fn len(&self) -> (n: usize)
        requires
            self.wf(),
        ensures
            n == self@.len(),
            n == self.to_seq().len(),
    {
        proof {
            self.lemma_view_props();
        }
        self.nodes.len()
    }

    /// Whether the set contains `node`.
    pub fn contains(&self, node: NodeId) -> (b: bool)
        ensures
            b == self@.contains(node),
    {
        let mut i: usize = 0;
        while i < self.nodes.len()
            invariant
                i <= self.nodes@.len(),
                forall|j: int| 0 <= j < i ==> self.nodes@[j] != node,
            decreases self.nodes@.len() - i,
        {
            if self.nodes[i] == node {
                proof {
                    assert(self.nodes@.contains(node));
                }
                return true;
            }
            i += 1;
        }
        proof {
            assert(!self.nodes@.contains(node));
        }
        false
    }

    /// The element at position `i` of the element sequence.
    pub fn node_at(&self, i: usize) -> (node: NodeId)
        requires
            i < self.to_seq().len(),
        ensures
            node == self.to_seq()[i as int],
            self@.contains(node),
    {
        proof {
            assert(self.nodes@.contains(self.nodes@[i as int]));
        }
        self.nodes[i]
    }

    /// Adds `node` to the set; a no-op if it is already present.
    pub fn insert(&mut self, node: NodeId)
        requires
            old(self).wf(),
        ensures
            final(self).wf(),
            final(self)@ == old(self)@.insert(node),
    {
        if !self.contains(node) {
            proof {
                assert(!self.nodes@.contains(node));
            }
            self.nodes.push(node);
            proof {
                old(self).nodes@.lemma_push_to_set_commute(node);
                assert(self.nodes@.drop_last() =~= old(self).nodes@);
                assert(self.nodes@.no_duplicates());
                assert(self@ =~= old(self)@.insert(node));
            }
        } else {
            proof {
                assert(self@ =~= old(self)@.insert(node));
            }
        }
    }

    /// Removes `node` from the set; reports whether it was present.
    pub fn remove(&mut self, node: NodeId) -> (was_present: bool)
        requires
            old(self).wf(),
        ensures
            final(self).wf(),
            final(self)@ == old(self)@.remove(node),
            was_present == old(self)@.contains(node),
    {
        let mut i: usize = 0;
        while i < self.nodes.len()
            invariant
                i <= self.nodes@.len(),
                *self == *old(self),
                self.nodes@.no_duplicates(),
                forall|j: int| 0 <= j < i ==> self.nodes@[j] != node,
            decreases self.nodes@.len() - i,
        {
            if self.nodes[i] == node {
                proof {
                    assert(self.nodes@.contains(node));
                    lemma_remove_at(self.nodes@, i as int);
                }
                self.nodes.remove(i);
                proof {
                    assert(self@ =~= old(self)@.remove(node));
                }
                return true;
            }
            i += 1;
        }
        proof {
            assert(!self.nodes@.contains(node));
            assert(self@ =~= old(self)@.remove(node));
        }
        false
    }
}

/// Removing position `i` from a duplicate-free sequence removes exactly that
/// element from the sequence's set.
proof fn lemma_remove_at(s: Seq<NodeId>, i: int)
    requires
        s.no_duplicates(),
        0 <= i < s.len(),
    ensures
        s.remove(i).no_duplicates(),
        s.remove(i).to_set() == s.to_set().remove(s[i]),
    decreases s.len(),
{
    s.remove_ensures(i);
    let r = s.remove(i);
    assert forall|a: NodeId| r.to_set().contains(a) implies s.to_set().remove(s[i]).contains(
        a,
    ) by {
        let j = choose|j: int| 0 <= j < r.len() && r[j] == a;
        if j < i {
            assert(s[j] == a);
        } else {
            assert(s[j + 1] == a);
        }
        assert(s.to_set().contains(a));
        assert(a != s[i]);
    }
    assert forall|a: NodeId| s.to_set().remove(s[i]).contains(a) implies r.to_set().contains(
        a,
    ) by {
        let j = choose|j: int| 0 <= j < s.len() && s[j] == a;
        assert(j != i);
        if j < i {
            assert(r[j] == a);
            assert(r.contains(a));
        } else {
            assert(r[j - 1] == a);
            assert(r.contains(a));
        }
    }
    assert(r.to_set() =~= s.to_set().remove(s[i]));
    assert forall|j: int, k: int| 0 <= j < r.len() && 0 <= k < r.len() && j != k implies r[j]
        != r[k] by {
        let j0 = if j < i { j } else { j + 1 };
        let k0 = if k < i { k } else { k + 1 };
        assert(r[j] == s[j0]);
        assert(r[k] == s[k0]);
    }
}

} // verus!
