//! Abstract model of the master-side quorum bookkeeping, and the laws the
//! protocol obeys.
//!
//! A [`JobModel`] abstracts a session to the sets of nodes still pending,
//! rejected, and responded, together with the threshold. The executable
//! session promises in its contracts that each operation takes its model
//! through one of the transition functions below, so every law proved here
//! holds of the running session.

use vstd::prelude::*;
use crate::job_session::JobSessionState;
use crate::types::NodeId;

verus! {

broadcast use vstd::set::group_set_axioms;

/// The master-side bookkeeping of a session, reduced to its mathematical
/// content.
pub struct JobModel {
    /// Current session state.
    pub state: JobSessionState,
    /// Nodes whose partial response is still outstanding.
    pub pending: Set<NodeId>,
    /// Nodes whose partial response failed validation or which timed out.
    pub rejected: Set<NodeId>,
    /// Nodes whose partial response was accepted.
    pub responded: Set<NodeId>,
    /// Threshold `t`: `t + 1` accepted responses complete the job.
    pub threshold: nat,
}

impl JobModel {
    /// Well-formedness: the three sets are finite and pairwise disjoint; an
    /// active session has not yet reached its quorum; an active or finished
    /// session still counts enough pending or accepted nodes to cover the
    /// quorum.
    pub open spec fn wf(self) -> bool {
        &&& self.pending.finite()
        &&& self.rejected.finite()
        &&& self.responded.finite()
        &&& self.pending.disjoint(self.rejected)
        &&& self.pending.disjoint(self.responded)
        &&& self.rejected.disjoint(self.responded)
        &&& (self.state is Active ==> self.responded.len() <= self.threshold)
        &&& ((self.state is Active || self.state is Finished) ==> self.quorum_reachable())
    }

    /// Whether enough nodes are still pending or accepted for the quorum of
    /// `threshold + 1` accepted responses to be reached.
    pub open spec fn quorum_reachable(self) -> bool {
        self.pending.len() + self.responded.len() >= self.threshold + 1
    }

    /// Every node this session has ever requested.
    pub open spec fn members(self) -> Set<NodeId> {
        self.pending.union(self.rejected).union(self.responded)
    }
}

/// The model right after a master initialized the session over `nodes`.
pub open spec fn initialized_model(threshold: nat, nodes: Set<NodeId>) -> JobModel {
    JobModel {
        state: JobSessionState::Active,
        pending: nodes,
        rejected: Set::empty(),
        responded: Set::empty(),
        threshold,
    }
}

/// A pending node's partial response passed validation: the node moves from
/// `pending` to `responded`, and the session finishes once the quorum of
/// `threshold + 1` accepted responses is reached.
pub open spec fn accept_step(m: JobModel, node: NodeId) -> JobModel {
    let responded = m.responded.insert(node);
    JobModel {
        state: if responded.len() >= m.threshold + 1 {
            JobSessionState::Finished
        } else {
            m.state
        },
        pending: m.pending.remove(node),
        rejected: m.rejected,
        responded,
        threshold: m.threshold,
    }
}

/// A node is written off, because its response failed validation or because
/// it timed out: the node moves into `rejected`, and the session fails if
/// the quorum can no longer be reached. A node written off after the
/// session finished leaves the state `Finished` as long as the quorum count
/// holds: an already accepted response is never revoked retroactively.
pub open spec fn reject_step(m: JobModel, node: NodeId) -> JobModel {
    let pending = m.pending.remove(node);
    let responded = m.responded.remove(node);
    let quorum_reachable = pending.len() + responded.len() >= m.threshold + 1;
    JobModel {
        state: if quorum_reachable {
            m.state
        } else {
            JobSessionState::Failed
        },
        pending,
        rejected: m.rejected.insert(node),
        responded,
        threshold: m.threshold,
    }
}

/// The session is abandoned: the state becomes `Failed` and the bookkeeping
/// is left as it stands.
pub open spec fn fail_step(m: JobModel) -> JobModel {
    JobModel { state: JobSessionState::Failed, ..m }
}

/// Accepting responses from `order`, in that order.
pub open spec fn accept_all(m: JobModel, order: Seq<NodeId>) -> JobModel
    decreases order.len(),
{
    if order.len() == 0 {
        m
    } else {
        accept_all(accept_step(m, order.first()), order.drop_first())
    }
}

/// Accepting a pending node's response preserves well-formedness, keeps the
/// membership of the session unchanged, and moves exactly that node from
/// `pending` to `responded`; the session never fails on an accepted
/// response.
pub proof fn lemma_accept_step_preserves_wf(m: JobModel, node: NodeId)
    requires
        m.wf(),
        m.state is Active || m.state is Finished,
        m.pending.contains(node),
    ensures
        accept_step(m, node).wf(),
        accept_step(m, node).state is Active || accept_step(m, node).state is Finished,
        accept_step(m, node).members() == m.members(),
        accept_step(m, node).pending.len() == m.pending.len() - 1,
        accept_step(m, node).responded.len() == m.responded.len() + 1,
{
    let n = accept_step(m, node);
    assert(!m.responded.contains(node));
    assert(n.members() =~= m.members());
}

/// Writing off a node that is pending or has responded preserves
/// well-formedness and the membership of the session, and the session fails
/// exactly when the written-off node leaves too few nodes to reach the
/// quorum.
pub proof fn lemma_reject_step_preserves_wf(m: JobModel, node: NodeId)
    requires
        m.wf(),
        m.state is Active || m.state is Finished,
        m.pending.contains(node) || m.responded.contains(node),
    ensures
        reject_step(m, node).wf(),
        reject_step(m, node).members() == m.members(),
        reject_step(m, node).rejected == m.rejected.insert(node),
        reject_step(m, node).state == m.state <==> reject_step(m, node).quorum_reachable(),
        reject_step(m, node).state is Failed <==> !reject_step(m, node).quorum_reachable(),
{
    let n = reject_step(m, node);
    assert(n.members() =~= m.members());
    assert(n.pending.len() + n.responded.len() == m.pending.len() + m.responded.len() - 1);
}

/// The session only ever declares success with enough validated responses:
/// the step that moves it to `Finished` is an acceptance that brings the
/// count of accepted responses to exactly `threshold + 1`.
pub proof fn lemma_finish_requires_quorum(m: JobModel, node: NodeId)
    requires
        m.wf(),
        m.state is Active,
        m.pending.contains(node),
        accept_step(m, node).state is Finished,
    ensures
        accept_step(m, node).responded.len() == m.threshold + 1,
{
    assert(!m.responded.contains(node));
}

/// A rejection alone never declares success: if writing a node off leaves
/// the session `Finished`, it already was.
pub proof fn lemma_reject_step_never_finishes(m: JobModel, node: NodeId)
    requires
        reject_step(m, node).state is Finished,
    ensures
        m.state is Finished,
{
}

/// Abandoning a session is idempotent: a second timeout changes nothing.
pub proof fn lemma_fail_step_idempotent(m: JobModel)
    ensures
        fail_step(fail_step(m)) == fail_step(m),
{
}

/// If every node that is still pending validates successfully, the session
/// reaches `Finished`, with every one of those nodes accepted and nothing
/// else disturbed. In particular, a freshly initialized session over
/// `threshold + 1` nodes finishes once all of them have answered validly.
pub proof fn lemma_all_accepted_reaches_finished(m: JobModel, order: Seq<NodeId>)
    requires
        m.wf(),
        m.state is Active || m.state is Finished,
        order.no_duplicates(),
        order.to_set() == m.pending,
    ensures
        accept_all(m, order).state is Finished,
        accept_all(m, order).pending == Set::<NodeId>::empty(),
        accept_all(m, order).responded == m.responded.union(m.pending),
        accept_all(m, order).responded.len() == m.responded.len() + m.pending.len(),
        accept_all(m, order).rejected == m.rejected,
        accept_all(m, order).threshold == m.threshold,
    decreases order.len(),
{
    order.unique_seq_to_set();
    if order.len() == 0 {
        assert(m.pending =~= Set::<NodeId>::empty());
        assert(m.responded.union(m.pending) =~= m.responded);
        if m.state is Active {
            assert(m.responded.len() >= m.threshold + 1);
            assert(false);
        }
    } else {
        let node = order.first();
        assert(order.contains(node));
        assert(m.pending.contains(node));
        lemma_accept_step_preserves_wf(m, node);
        let n = accept_step(m, node);
        let rest = order.drop_first();
        assert(rest.no_duplicates());
        assert forall|a: NodeId| rest.to_set().contains(a) implies n.pending.contains(a) by {
            let j = choose|j: int| 0 <= j < rest.len() && rest[j] == a;
            assert(order[j + 1] == a);
            assert(order.contains(a));
            assert(order[0] != order[j + 1]);
        }
        assert forall|a: NodeId| n.pending.contains(a) implies rest.to_set().contains(a) by {
            assert(m.pending.contains(a));
            assert(order.contains(a));
            let j = choose|j: int| 0 <= j < order.len() && order[j] == a;
            assert(j != 0);
            assert(rest[j - 1] == a);
            assert(rest.contains(a));
        }
        assert(rest.to_set() =~= n.pending);
        lemma_all_accepted_reaches_finished(n, rest);
        assert(n.responded.union(n.pending) =~= m.responded.union(m.pending));
    }
}

/// Unanimity: for every threshold `t` and node set of size `t + 1`, a
/// freshly initialized session whose every node answers with a validated
/// response, in any order, reaches `Finished` with exactly those `t + 1`
/// responses accepted and none rejected.
pub proof fn lemma_unanimous_nodes_reach_finished(
    threshold: nat,
    nodes: Set<NodeId>,
    order: Seq<NodeId>,
)
    requires
        nodes.finite(),
        nodes.len() == threshold + 1,
        order.no_duplicates(),
        order.to_set() == nodes,
    ensures
        accept_all(initialized_model(threshold, nodes), order).state is Finished,
        accept_all(initialized_model(threshold, nodes), order).responded == nodes,
        accept_all(initialized_model(threshold, nodes), order).responded.len() == threshold + 1,
        accept_all(initialized_model(threshold, nodes), order).rejected == Set::<NodeId>::empty(),
{
    let m = initialized_model(threshold, nodes);
    lemma_all_accepted_reaches_finished(m, order);
    assert(m.responded.union(m.pending) =~= nodes);
}

} // verus!
