//! A map from node identifiers to accepted partial responses, with a `Map`
//! view.

use vstd::prelude::*;
use crate::types::NodeId;

verus! {

broadcast use
    vstd::set::group_set_axioms,
    vstd::map::group_map_axioms,
    vstd::seq_lib::seq_to_set_is_finite,
;

/// The keys of an entry sequence, in order.
pub open spec fn keys_of<R>(s: Seq<(NodeId, R)>) -> Seq<NodeId> {
    s.map_values(|e: (NodeId, R)| e.0)
}

/// The map described by an entry sequence; later entries shadow earlier ones.
pub open spec fn map_of<R>(s: Seq<(NodeId, R)>) -> Map<NodeId, R>
    decreases s.len(),
{
    if s.len() == 0 {
        Map::empty()
    } else {
        map_of(s.drop_last()).insert(s.last().0, s.last().1)
    }
}

/// A map from node identifiers to responses, stored as a vector of entries
/// with pairwise-distinct keys.
pub struct ResponseMap<R> {
    entries: Vec<(NodeId, R)>,
}

impl<R> View for ResponseMap<R> {
    type V = Map<NodeId, R>;

    closed spec fn view(&self) -> Map<NodeId, R> {
        map_of(self.entries@)
    }
}

impl<R> ResponseMap<R> {
    /// The entries in insertion order.
    pub closed spec fn to_seq(self) -> Seq<(NodeId, R)> {
        self.entries@
    }

    /// The representation holds each key exactly once.
    pub closed spec fn wf(self) -> bool {
        keys_of(self.entries@).no_duplicates()
    }

    /// The view of a well-formed response map has a finite domain, one key
    /// per stored entry.
    pub proof fn lemma_view_props(self)
        requires
            self.wf(),
        ensures
            self@.dom().finite(),
            self@.dom() == keys_of(self.to_seq()).to_set(),
            self@.len() == self.to_seq().len(),
            forall|i: int|
                0 <= i < self.to_seq().len() ==> #[trigger] self@[self.to_seq()[i].0]
                    == self.to_seq()[i].1,
    {
        lemma_map_of_dom(self.entries@);
        keys_of(self.entries@).unique_seq_to_set();
        assert forall|i: int| 0 <= i < self.to_seq().len() implies #[trigger] self@[
            self.to_seq()[i].0
        ] == self.to_seq()[i].1 by {
            lemma_map_of_index(self.entries@, i);
        }
    }

    /// Creates an empty response map.
    pub fn new() -> (m: ResponseMap<R>)
        ensures
            m.wf(),
            m@ == Map::<NodeId, R>::empty(),
            m.to_seq() == Seq::<(NodeId, R)>::empty(),
    {
        ResponseMap { entries: Vec::new() }
    }

    /// Number of responses held.
    pub fn len(&self) -> (n: usize)
        requires
            self.wf(),
        ensures
            n == self@.len(),
            n == self.to_seq().len(),
    {
        proof {
            self.lemma_view_props();
        }
        self.entries.len()
    }

    /// Whether a response from `node` is held.
    pub fn contains_node(&self, node: NodeId) -> (b: bool)
        ensures
            b == self@.dom().contains(node),
    {
        proof {
            lemma_map_of_dom(self.entries@);
        }
        let mut i: usize = 0;
        while i < self.entries.len()
            invariant
                i <= self.entries@.len(),
                forall|j: int| 0 <= j < i ==> self.entries@[j].0 != node,
                self@.dom() == keys_of(self.entries@).to_set(),
            decreases self.entries@.len() - i,
        {
            if self.entries[i].0 == node {
                proof {
                    assert(keys_of(self.entries@)[i as int] == node);
                    assert(keys_of(self.entries@).contains(node));
                }
                return true;
            }
            i += 1;
        }
        proof {
            assert forall|j: int|
                0 <= j < keys_of(self.entries@).len() implies keys_of(self.entries@)[j]
                != node by {}
            assert(!keys_of(self.entries@).contains(node));
        }
        false
    }

    /// The node of the entry at position `i`.
    pub fn node_at(&self, i: usize) -> (node: NodeId)
        requires
            i < self.to_seq().len(),
        ensures
            node == self.to_seq()[i as int].0,
    {
        self.entries[i].0
    }

    /// The response of the entry at position `i`.
    pub fn response_at(&self, i: usize) -> (response: &R)
        requires
            i < self.to_seq().len(),
        ensures
            *response == self.to_seq()[i as int].1,
    {
        &self.entries[i].1
    }

    /// Records the response of a node heard from for the first time.
    pub fn insert(&mut self, node: NodeId, response: R)
        requires
            old(self).wf(),
            !old(self)@.dom().contains(node),
        ensures
            final(self).wf(),
            final(self)@ == old(self)@.insert(node, response),
    {
        proof {
            lemma_map_of_dom(old(self).entries@);
            assert(!keys_of(old(self).entries@).contains(node));
        }
        self.entries.push((node, response));
        proof {
            assert(self.entries@.drop_last() =~= old(self).entries@);
            assert(keys_of(self.entries@) =~= keys_of(old(self).entries@).push(node));
            assert(keys_of(self.entries@).drop_last() =~= keys_of(old(self).entries@));
            assert(keys_of(self.entries@).no_duplicates());
        }
    }

    /// Discards the response of `node`, if one is held; reports whether it
    /// was.
    pub fn remove(&mut self, node: NodeId) -> (was_present: bool)
        requires
            old(self).wf(),
        ensures
            final(self).wf(),
            final(self)@ == old(self)@.remove(node),
            was_present == old(self)@.dom().contains(node),
    {
        proof {
            lemma_map_of_dom(self.entries@);
        }
        let mut i: usize = 0;
        while i < self.entries.len()
            invariant
                i <= self.entries@.len(),
                *self == *old(self),
                keys_of(self.entries@).no_duplicates(),
                self@.dom() == keys_of(self.entries@).to_set(),
                forall|j: int| 0 <= j < i ==> self.entries@[j].0 != node,
            decreases self.entries@.len() - i,
        {
            if self.entries[i].0 == node {
                proof {
                    assert(keys_of(self.entries@)[i as int] == node);
                    assert(keys_of(self.entries@).contains(node));
                    lemma_map_of_remove(self.entries@, i as int);
                }
                self.entries.remove(i);
                return true;
            }
            i += 1;
        }
        proof {
            assert forall|j: int|
                0 <= j < keys_of(self.entries@).len() implies keys_of(self.entries@)[j]
                != node by {}
            assert(!keys_of(self.entries@).contains(node));
            assert(self@.remove(node) =~= self@);
        }
        false
    }
}

/// The domain of the described map is the set of stored keys.
proof fn lemma_map_of_dom<R>(s: Seq<(NodeId, R)>)
    ensures
        map_of(s).dom() == keys_of(s).to_set(),
    decreases s.len(),
{
    if s.len() == 0 {
        assert(map_of(s).dom() =~= keys_of(s).to_set());
    } else {
        lemma_map_of_dom(s.drop_last());
        assert(keys_of(s).drop_last() =~= keys_of(s.drop_last()));
        assert(keys_of(s) =~= keys_of(s.drop_last()).push(s.last().0));
        keys_of(s.drop_last()).lemma_push_to_set_commute(s.last().0);
        assert(map_of(s).dom() =~= keys_of(s).to_set());
    }
}

/// With pairwise-distinct keys, each entry is reflected in the described map.
proof fn lemma_map_of_index<R>(s: Seq<(NodeId, R)>, i: int)
    requires
        keys_of(s).no_duplicates(),
        0 <= i < s.len(),
    ensures
        map_of(s).dom().contains(s[i].0),
        map_of(s)[s[i].0] == s[i].1,
    decreases s.len(),
{
    lemma_map_of_dom(s);
    assert(keys_of(s)[i] == s[i].0);
    assert(keys_of(s).contains(s[i].0));
    if i == s.len() - 1 {
    } else {
        assert(keys_of(s).drop_last() =~= keys_of(s.drop_last()));
        lemma_map_of_index(s.drop_last(), i);
        assert(s.drop_last()[i] == s[i]);
        assert(keys_of(s)[i] != keys_of(s)[s.len() - 1]);
        assert(s[i].0 != s.last().0);
    }
}

/// Removing the entry at position `i` removes exactly its key from the
/// described map.
proof fn lemma_map_of_remove<R>(s: Seq<(NodeId, R)>, i: int)
    requires
        keys_of(s).no_duplicates(),
        0 <= i < s.len(),
    ensures
        keys_of(s.remove(i)).no_duplicates(),
        map_of(s.remove(i)) == map_of(s).remove(s[i].0),
{
    s.remove_ensures(i);
    let r = s.remove(i);
    lemma_map_of_dom(s);
    lemma_map_of_dom(r);
    assert(keys_of(r).len() == s.len() - 1);
    assert forall|j: int, k: int|
        0 <= j < keys_of(r).len() && 0 <= k < keys_of(r).len() && j != k implies keys_of(r)[j]
        != keys_of(r)[k] by {
        let j0 = if j < i { j } else { j + 1 };
        let k0 = if k < i { k } else { k + 1 };
        assert(r[j] == s[j0] && r[k] == s[k0]);
        assert(keys_of(r)[j] == s[j0].0 && keys_of(r)[k] == s[k0].0);
        assert(keys_of(s)[j0] == s[j0].0 && keys_of(s)[k0] == s[k0].0);
    }
    assert forall|a: NodeId| keys_of(r).to_set().contains(a) implies keys_of(s).to_set().remove(
        s[i].0,
    ).contains(a) by {
        let j = choose|j: int| 0 <= j < keys_of(r).len() && keys_of(r)[j] == a;
        let j0 = if j < i { j } else { j + 1 };
        assert(r[j] == s[j0]);
        assert(keys_of(s)[j0] == a);
        assert(keys_of(s).contains(a));
        assert(keys_of(s)[j0] != keys_of(s)[i]);
    }
    assert forall|a: NodeId|
        keys_of(s).to_set().remove(s[i].0).contains(a) implies keys_of(r).to_set().contains(
        a,
    ) by {
        let j = choose|j: int| 0 <= j < keys_of(s).len() && keys_of(s)[j] == a;
        assert(j != i);
        let j1 = if j < i { j } else { j - 1 };
        assert(r[j1] == s[j]);
        assert(keys_of(r)[j1] == a);
        assert(keys_of(r).contains(a));
    }
    assert(map_of(r).dom() =~= map_of(s).remove(s[i].0).dom());
    assert forall|a: NodeId| map_of(r).dom().contains(a) implies map_of(r)[a] == map_of(s).remove(
        s[i].0,
    )[a] by {
        let j = choose|j: int| 0 <= j < keys_of(r).len() && keys_of(r)[j] == a;
        let j0 = if j < i { j } else { j + 1 };
        assert(r[j] == s[j0]);
        assert(r[j].0 == a);
        lemma_map_of_index(r, j);
        lemma_map_of_index(s, j0);
    }
    assert(map_of(r) =~= map_of(s).remove(s[i].0));
}

} // verus!
