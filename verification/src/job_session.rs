//! The role-aware job-session state machine.
//!
//! A [`JobSession`] is bound to one [`SessionMeta`](crate::types::SessionMeta),
//! one [`JobExecutor`] and one [`JobTransport`]. On the master node,
//! [`initialize`](JobSession::initialize) fans partial requests out to the
//! chosen nodes and every peer answer funnels through
//! [`on_partial_response`](JobSession::on_partial_response); slave nodes
//! answer a single request through
//! [`on_partial_request`](JobSession::on_partial_request). The contracts tie
//! every operation to the transition functions of [`crate::model`], so the
//! laws proved there hold of a running session.

use vstd::prelude::*;
use crate::model::{accept_step, initialized_model, reject_step, JobModel};
use crate::node_set::NodeSet;
use crate::response_map::ResponseMap;
use crate::types::{Error, NodeId, SessionMeta};

verus! {

broadcast use vstd::set::group_set_axioms, vstd::map::group_map_axioms;

/// Current state of a job session.
#[derive(Debug, Clone, Copy, PartialEq, Eq, Structural)]
pub enum JobSessionState {
    /// Session is inactive.
    Inactive,
    /// Session is active.
    Active,
    /// Session is finished.
    Finished,
    /// Session has failed.
    Failed,
}

/// Job executor capability: the cryptographic sub-protocol driven by the
/// session. Implementations are supplied by the embedding system; the
/// session assumes nothing about their results.
pub trait JobExecutor {
    /// Payload of a partial request.
    type PartialJobRequest;

    /// Payload of a partial response.
    type PartialJobResponse;

    /// The final, aggregated job result.
    type JobResponse;

    /// Prepare a job request for a node.
    fn prepare_partial_request(&self) -> Result<Self::PartialJobRequest, Error>;

    /// Process a partial request into a partial response.
    fn process_partial_request(&self, partial_request: Self::PartialJobRequest) -> Result<
        Self::PartialJobResponse,
        Error,
    >;

    /// Check the partial response of a node.
    fn check_partial_response(&self, partial_response: &Self::PartialJobResponse) -> Result<
        bool,
        Error,
    >;

    /// Compute the final job response from the accepted partial responses.
    fn compute_response(&self, partial_responses: &ResponseMap<Self::PartialJobResponse>) -> Result<
        Self::JobResponse,
        Error,
    >;
}

/// Job transport capability: fire-and-forget delivery of partial requests
/// and responses to peers.
pub trait JobTransport {
    /// Payload of a partial request.
    type PartialJobRequest;

    /// Payload of a partial response.
    type PartialJobResponse;

    /// Send a partial request to the given node.
    fn send_partial_request(&self, node: &NodeId, request: Self::PartialJobRequest) -> Result<
        (),
        Error,
    >;

    /// Send a partial response to the given node.
    fn send_partial_response(&self, node: &NodeId, response: Self::PartialJobResponse) -> Result<
        (),
        Error,
    >;
}

/// Basic request-response session on a set of nodes.
pub struct JobSession<Executor, Transport> where
    Executor: JobExecutor,
    Transport: JobTransport<
        PartialJobRequest = Executor::PartialJobRequest,
        PartialJobResponse = Executor::PartialJobResponse,
    >,
{
    /// Session meta.
    meta: SessionMeta,
    /// Job executor.
    executor: Executor,
    /// Jobs transport.
    transport: Transport,
    /// Session data.
    data: JobSessionData<Executor::PartialJobResponse>,
}

/// Data of a job session.
struct JobSessionData<PartialJobResponse> {
    /// Session state.
    state: JobSessionState,
    /// Mutable session data, created once, by `initialize`, on the master.
    active_data: Option<ActiveJobSessionData<PartialJobResponse>>,
}

/// Active job session data: the master-side bookkeeping.
struct ActiveJobSessionData<PartialJobResponse> {
    /// Active partial requests.
    requests: NodeSet,
    /// Rejects to partial requests.
    rejects: NodeSet,
    /// Received partial responses.
    responses: ResponseMap<PartialJobResponse>,
}

impl<R> ActiveJobSessionData<R> {
    /// The three containers are well-formed.
    spec fn wf(self) -> bool {
        &&& self.requests.wf()
        &&& self.rejects.wf()
        &&& self.responses.wf()
    }

    /// A pending node's response passed validation: move it from `requests`
    /// to `responses`; report whether the quorum is now reached.
    fn accept(&mut self, node: NodeId, response: R, threshold: usize) -> (quorum_reached: bool)
        requires
            old(self).wf(),
            !old(self).responses@.dom().contains(node),
        ensures
            final(self).wf(),
            final(self).requests@ == old(self).requests@.remove(node),
            final(self).rejects@ == old(self).rejects@,
            final(self).responses@ == old(self).responses@.insert(node, response),
            quorum_reached == (final(self).responses@.len() >= threshold + 1),
    {
        self.requests.remove(node);
        self.responses.insert(node, response);
        proof {
            self.responses.lemma_view_props();
        }
        self.responses.len() > threshold
    }

    /// Write a node off: move it from wherever it is into `rejects`; report
    /// whether the quorum is still reachable.
    fn write_off(&mut self, node: NodeId, threshold: usize) -> (reachable: bool)
        requires
            old(self).wf(),
        ensures
            final(self).wf(),
            final(self).requests@ == old(self).requests@.remove(node),
            final(self).rejects@ == old(self).rejects@.insert(node),
            final(self).responses@ == old(self).responses@.remove(node),
            reachable == (final(self).requests@.len() + final(self).responses@.len()
                >= threshold + 1),
    {
        self.requests.remove(node);
        self.responses.remove(node);
        self.rejects.insert(node);
        let reqs = self.requests.len();
        let resps = self.responses.len();
        if resps > threshold {
            true
        } else {
            reqs > threshold - resps
        }
    }
}

impl<Executor, Transport> JobSession<Executor, Transport> where
    Executor: JobExecutor,
    Transport: JobTransport<
        PartialJobRequest = Executor::PartialJobRequest,
        PartialJobResponse = Executor::PartialJobResponse,
    >,
{
    /// The metadata this session was constructed with.
    pub closed spec fn meta_spec(self) -> SessionMeta {
        self.meta
    }

    /// The master node's identifier.
    pub open spec fn master_id(self) -> NodeId {
        self.meta_spec().master_node_id
    }

    /// This node's identifier.
    pub open spec fn self_id(self) -> NodeId {
        self.meta_spec().self_node_id
    }

    /// The session's threshold, as a mathematical integer.
    pub open spec fn threshold_spec(self) -> nat {
        self.meta_spec().threshold as nat
    }

    /// Whether this session instance runs on the master node.
    pub open spec fn is_master(self) -> bool {
        self.self_id() == self.master_id()
    }

    /// The session's current state.
    pub closed spec fn session_state(self) -> JobSessionState {
        self.data.state
    }

    /// Whether the master-side bookkeeping exists; it is created exactly
    /// once, by `initialize`.
    pub closed spec fn initialized(self) -> bool {
        self.data.active_data is Some
    }

    /// Nodes whose partial response is still outstanding.
    pub closed spec fn pending(self) -> Set<NodeId> {
        match self.data.active_data {
            Some(d) => d.requests@,
            None => Set::empty(),
        }
    }

    /// Nodes whose partial response failed validation or which timed out.
    pub closed spec fn rejected(self) -> Set<NodeId> {
        match self.data.active_data {
            Some(d) => d.rejects@,
            None => Set::empty(),
        }
    }

    /// The accepted partial responses, by node.
    pub closed spec fn responses_map(self) -> Map<NodeId, Executor::PartialJobResponse> {
        match self.data.active_data {
            Some(d) => d.responses@,
            None => Map::empty(),
        }
    }

    /// The executor this session was constructed with.
    pub closed spec fn executor_view(self) -> Executor {
        self.executor
    }

    /// The transport this session was constructed with.
    pub closed spec fn transport_view(self) -> Transport {
        self.transport
    }

    /// The session reduced to its abstract model.
    pub open spec fn model(self) -> JobModel {
        JobModel {
            state: self.session_state(),
            pending: self.pending(),
            rejected: self.rejected(),
            responded: self.responses_map().dom(),
            threshold: self.threshold_spec(),
        }
    }

    /// The containers are well-formed.
    pub closed spec fn containers_wf(self) -> bool {
        match self.data.active_data {
            Some(d) => d.wf(),
            None => true,
        }
    }

    /// Session well-formedness: the bookkeeping is well-formed and exists
    /// exactly on an initialized master; only a master becomes `Active`; the
    /// master's model satisfies the protocol invariants.
    pub open spec fn wf(self) -> bool {
        &&& self.containers_wf()
        &&& (self.is_master() ==> self.model().wf())
        &&& (!self.is_master() ==> !self.initialized() && !(self.session_state() is Active))
        &&& (self.session_state() is Inactive ==> !self.initialized())
        &&& (self.session_state() is Active ==> self.initialized())
        &&& (self.is_master() && self.session_state() is Finished ==> self.initialized())
    }

    /// What `on_partial_response` did to a session that accepted the
    /// message: depending on the executor's validation, the node was either
    /// accepted or written off.
    pub open spec fn partial_response_applied(
        pre: Self,
        post: Self,
        node: NodeId,
        response: Executor::PartialJobResponse,
        r: Result<(), Error>,
    ) -> bool {
        ||| {
            &&& post.model() == accept_step(pre.model(), node)
            &&& post.responses_map() == pre.responses_map().insert(node, response)
            &&& r == Ok::<(), Error>(())
        }
        ||| {
            &&& post.model() == reject_step(pre.model(), node)
            &&& post.responses_map() == pre.responses_map()
            &&& (reject_step(pre.model(), node).quorum_reachable() ==> r == Ok::<(), Error>(()))
            &&& (!reject_step(pre.model(), node).quorum_reachable() ==> r == Err::<(), Error>(
                Error::ConsensusUnreachable,
            ))
        }
    }

    /// What `initialize` did to an inactive master session: either a
    /// capability call failed before the session was activated, or the
    /// session was activated over `nodes`; if the master is itself a member,
    /// its own response was produced and fed through the acceptance path.
    pub open spec fn initialize_outcome(
        pre: Self,
        post: Self,
        nodes: Set<NodeId>,
        r: Result<(), Error>,
    ) -> bool {
        let m_init = initialized_model(pre.threshold_spec(), nodes);
        let self_id = pre.self_id();
        ||| (post == pre && r is Err)
        ||| {
            &&& post.model() == m_init
            &&& (nodes.contains(self_id) ==> r is Err)
            &&& (!nodes.contains(self_id) ==> r == Ok::<(), Error>(()))
        }
        ||| {
            &&& nodes.contains(self_id)
            &&& post.model() == accept_step(m_init, self_id)
            &&& r == Ok::<(), Error>(())
        }
        ||| {
            &&& nodes.contains(self_id)
            &&& post.model() == reject_step(m_init, self_id)
            &&& (reject_step(m_init, self_id).quorum_reachable() ==> r == Ok::<(), Error>(()))
            &&& (!reject_step(m_init, self_id).quorum_reachable() ==> r == Err::<(), Error>(
                Error::ConsensusUnreachable,
            ))
        }
    }

    /// Create a new session.
    pub fn new(meta: SessionMeta, executor: Executor, transport: Transport) -> (s: Self)
        ensures
            s.wf(),
            s.meta_spec() == meta,
            s.session_state() is Inactive,
            !s.initialized(),
            s.executor_view() == executor,
            s.transport_view() == transport,
    {
        JobSession {
            meta,
            executor,
            transport,
            data: JobSessionData { state: JobSessionState::Inactive, active_data: None },
        }
    }

    /// Get transport reference.
    pub fn transport(&self) -> (t: &Transport)
        ensures
            *t == self.transport_view(),
    {
        &self.transport
    }

    /// Get job state.
    pub fn state(&self) -> (s: JobSessionState)
        ensures
            s == self.session_state(),
    {
        self.data.state
    }

    /// Get active requests. Master-only, after initialization.
    pub fn requests(&self) -> (r: &NodeSet)
        requires
            self.wf(),
            self.is_master(),
            self.initialized(),
        ensures
            r@ == self.pending(),
            r.wf(),
    {
        match &self.data.active_data {
            Some(d) => &d.requests,
            None => vstd::pervasive::unreached(),
        }
    }

    /// Get the job result: the executor's aggregate over the accepted
    /// responses. Master-only; fails unless the session is `Finished`.
    pub fn result(&self) -> (r: Result<Executor::JobResponse, Error>)
        requires
            self.wf(),
            self.is_master(),
        ensures
            !(self.session_state() is Finished) ==> r == Err::<Executor::JobResponse, Error>(
                Error::InvalidStateForRequest,
            ),
    {
        if self.state() != JobSessionState::Finished {
            return Err(Error::InvalidStateForRequest);
        }
        match &self.data.active_data {
            Some(d) => self.executor.compute_response(&d.responses),
            None => vstd::pervasive::unreached(),
        }
    }

    /// Initialize the session over `nodes`: send a partial request to every
    /// other member, record the full set as outstanding, move to `Active`,
    /// and, if the master is itself a member, produce and accept (or reject)
    /// its own response within the same call.
    pub fn initialize(&mut self, nodes: NodeSet) -> (r: Result<(), Error>)
        requires
            old(self).wf(),
            old(self).is_master(),
            nodes.wf(),
            nodes@.len() >= old(self).threshold_spec() + 1,
        ensures
            final(self).wf(),
            final(self).meta_spec() == old(self).meta_spec(),
            final(self).executor_view() == old(self).executor_view(),
            final(self).transport_view() == old(self).transport_view(),
            !(old(self).session_state() is Inactive) ==> r == Err::<(), Error>(
                Error::InvalidStateForRequest,
            ) && *final(self) == *old(self),
            old(self).session_state() is Inactive ==> Self::initialize_outcome(
                *old(self),
                *final(self),
                nodes@,
                r,
            ),
    {
        if self.state() != JobSessionState::Inactive {
            return Err(Error::InvalidStateForRequest);
        }
        let self_id = self.meta.self_node_id;
        let waits_for_self = nodes.contains(self_id);

        // send requests to slave nodes
        let node_count = nodes.len();
        let mut i: usize = 0;
        while i < node_count
            invariant
                *self == *old(self),
                old(self).wf(),
                old(self).session_state() is Inactive,
                node_count == nodes.to_seq().len(),
            decreases node_count - i,
        {
            let node = nodes.node_at(i);
            if node != self_id {
                let request = match self.executor.prepare_partial_request() {
                    Ok(request) => request,
                    Err(error) => {
                        return Err(error);
                    },
                };
                match self.transport.send_partial_request(&node, request) {
                    Ok(_) => {},
                    Err(error) => {
                        return Err(error);
                    },
                }
            }
            i += 1;
        }

        // update state
        proof {
            nodes.lemma_view_props();
        }
        self.data.active_data = Some(
            ActiveJobSessionData {
                requests: nodes,
                rejects: NodeSet::new(),
                responses: ResponseMap::new(),
            },
        );
        self.data.state = JobSessionState::Active;
        proof {
            assert(self.model().pending =~= nodes@);
            assert(self.model().responded =~= Set::<NodeId>::empty());
            assert(self.model() == initialized_model(self.threshold_spec(), nodes@));
        }

        // if we are waiting for a response from self, produce and accept it
        if waits_for_self {
            let request = match self.executor.prepare_partial_request() {
                Ok(request) => request,
                Err(error) => {
                    return Err(error);
                },
            };
            let partial_response = match self.executor.process_partial_request(request) {
                Ok(partial_response) => partial_response,
                Err(error) => {
                    return Err(error);
                },
            };
            let fed = self.on_partial_response(self_id, partial_response);
            match fed {
                Ok(_) => {},
                Err(error) => {
                    return Err(error);
                },
            }
        }

        Ok(())
    }

    /// Answer a partial request received on a slave node: move to `Finished`
    /// and send the processed response back to the master.
    pub fn on_partial_request(
        &mut self,
        node: NodeId,
        request: Executor::PartialJobRequest,
    ) -> (r: Result<(), Error>)
        requires
            old(self).wf(),
        ensures
            final(self).wf(),
            final(self).meta_spec() == old(self).meta_spec(),
            final(self).executor_view() == old(self).executor_view(),
            final(self).transport_view() == old(self).transport_view(),
            node != old(self).master_id() || old(self).is_master() ==> r == Err::<
                (),
                Error,
            >(Error::InvalidMessage) && *final(self) == *old(self),
            node == old(self).master_id() && !old(self).is_master() && !(old(
                self,
            ).session_state() is Inactive || old(self).session_state() is Finished) ==> r
                == Err::<(), Error>(Error::InvalidStateForRequest) && *final(self) == *old(self),
            node == old(self).master_id() && !old(self).is_master() && (old(
                self,
            ).session_state() is Inactive || old(self).session_state() is Finished) ==> {
                &&& final(self).session_state() is Finished
                &&& final(self).initialized() == old(self).initialized()
                &&& final(self).pending() == old(self).pending()
                &&& final(self).rejected() == old(self).rejected()
                &&& final(self).responses_map() == old(self).responses_map()
            },
    {
        if node != self.meta.master_node_id {
            return Err(Error::InvalidMessage);
        }
        if self.meta.self_node_id == self.meta.master_node_id {
            return Err(Error::InvalidMessage);
        }
        let state = self.state();
        if state != JobSessionState::Inactive && state != JobSessionState::Finished {
            return Err(Error::InvalidStateForRequest);
        }

        self.data.state = JobSessionState::Finished;
        let partial_response = match self.executor.process_partial_request(request) {
            Ok(partial_response) => partial_response,
            Err(error) => {
                return Err(error);
            },
        };
        self.transport.send_partial_response(&node, partial_response)
    }

    /// Account for a partial response received on the master node: validate
    /// it through the executor and either accept the node or write it off.
    /// An executor error during validation counts as "invalid", exactly as a
    /// negative validation does.
    pub fn on_partial_response(
        &mut self,
        node: NodeId,
        response: Executor::PartialJobResponse,
    ) -> (r: Result<(), Error>)
        requires
            old(self).wf(),
        ensures
            final(self).wf(),
            final(self).meta_spec() == old(self).meta_spec(),
            final(self).executor_view() == old(self).executor_view(),
            final(self).transport_view() == old(self).transport_view(),
            !old(self).is_master() ==> r == Err::<(), Error>(Error::InvalidMessage) && *final(self)
                == *old(self),
            old(self).is_master() && !(old(self).session_state() is Active || old(
                self,
            ).session_state() is Finished) ==> r == Err::<(), Error>(Error::InvalidStateForRequest)
                && *final(self) == *old(self),
            old(self).is_master() && (old(self).session_state() is Active || old(
                self,
            ).session_state() is Finished) && !old(self).pending().contains(node) ==> r == Err::<
                (),
                Error,
            >(Error::InvalidNodeForRequest) && *final(self) == *old(self),
            old(self).is_master() && (old(self).session_state() is Active || old(
                self,
            ).session_state() is Finished) && old(self).pending().contains(node)
                ==> Self::partial_response_applied(*old(self), *final(self), node, response, r),
    {
        if self.meta.self_node_id != self.meta.master_node_id {
            return Err(Error::InvalidMessage);
        }
        let state = self.state();
        if state != JobSessionState::Active && state != JobSessionState::Finished {
            return Err(Error::InvalidStateForRequest);
        }

        let present = match &self.data.active_data {
            Some(d) => d.requests.contains(node),
            None => vstd::pervasive::unreached(),
        };
        if !present {
            return Err(Error::InvalidNodeForRequest);
        }

        let valid = match self.executor.check_partial_response(&response) {
            Ok(valid) => valid,
            Err(_) => false,
        };
        self.apply_partial_response(node, response, valid)
    }

    /// The decision core of `on_partial_response`, deterministic in the
    /// validation outcome `valid`: accept the node's response, or write the
    /// node off and fail the session when the quorum became unreachable.
    pub fn apply_partial_response(
        &mut self,
        node: NodeId,
        response: Executor::PartialJobResponse,
        valid: bool,
    ) -> (r: Result<(), Error>)
        requires
            old(self).wf(),
        ensures
            final(self).wf(),
            final(self).meta_spec() == old(self).meta_spec(),
            final(self).executor_view() == old(self).executor_view(),
            final(self).transport_view() == old(self).transport_view(),
            !old(self).is_master() ==> r == Err::<(), Error>(Error::InvalidMessage) && *final(self)
                == *old(self),
            old(self).is_master() && !(old(self).session_state() is Active || old(
                self,
            ).session_state() is Finished) ==> r == Err::<(), Error>(Error::InvalidStateForRequest)
                && *final(self) == *old(self),
            old(self).is_master() && (old(self).session_state() is Active || old(
                self,
            ).session_state() is Finished) && !old(self).pending().contains(node) ==> r == Err::<
                (),
                Error,
            >(Error::InvalidNodeForRequest) && *final(self) == *old(self),
            old(self).is_master() && (old(self).session_state() is Active || old(
                self,
            ).session_state() is Finished) && old(self).pending().contains(node) && valid ==> {
                &&& final(self).model() == accept_step(old(self).model(), node)
                &&& final(self).responses_map() == old(self).responses_map().insert(node, response)
                &&& r == Ok::<(), Error>(())
            },
            old(self).is_master() && (old(self).session_state() is Active || old(
                self,
            ).session_state() is Finished) && old(self).pending().contains(node) && !valid ==> {
                &&& final(self).model() == reject_step(old(self).model(), node)
                &&& final(self).responses_map() == old(self).responses_map()
                &&& (reject_step(old(self).model(), node).quorum_reachable() ==> r == Ok::<
                    (),
                    Error,
                >(()))
                &&& (!reject_step(old(self).model(), node).quorum_reachable() ==> r == Err::<
                    (),
                    Error,
                >(Error::ConsensusUnreachable))
            },
    {
        if self.meta.self_node_id != self.meta.master_node_id {
            return Err(Error::InvalidMessage);
        }
        let state = self.state();
        if state != JobSessionState::Active && state != JobSessionState::Finished {
            return Err(Error::InvalidStateForRequest);
        }

        let present = match &self.data.active_data {
            Some(d) => d.requests.contains(node),
            None => vstd::pervasive::unreached(),
        };
        if !present {
            return Err(Error::InvalidNodeForRequest);
        }

        let threshold = self.meta.threshold;

        if valid {
            let quorum_reached = match &mut self.data.active_data {
                Some(d) => d.accept(node, response, threshold),
                None => vstd::pervasive::unreached(),
            };
            proof {
                assert(self.model().pending =~= accept_step(old(self).model(), node).pending);
                assert(self.model().responded =~= accept_step(old(self).model(), node).responded);
            }
            if quorum_reached {
                self.data.state = JobSessionState::Finished;
            }
            proof {
                assert(self.model() == accept_step(old(self).model(), node));
                crate::model::lemma_accept_step_preserves_wf(old(self).model(), node);
            }
            Ok(())
        } else {
            let reachable = match &mut self.data.active_data {
                Some(d) => d.write_off(node, threshold),
                None => vstd::pervasive::unreached(),
            };
            proof {
                assert(self.model().pending =~= reject_step(old(self).model(), node).pending);
                assert(self.model().rejected =~= reject_step(old(self).model(), node).rejected);
                assert(self.model().responded =~= reject_step(old(self).model(), node).responded);
                assert(old(self).responses_map().remove(node) =~= old(self).responses_map());
            }
            if reachable {
                proof {
                    assert(self.model() == reject_step(old(self).model(), node));
                    crate::model::lemma_reject_step_preserves_wf(old(self).model(), node);
                }
                Ok(())
            } else {
                self.data.state = JobSessionState::Failed;
                proof {
                    assert(self.model() == reject_step(old(self).model(), node));
                    crate::model::lemma_reject_step_preserves_wf(old(self).model(), node);
                }
                Err(Error::ConsensusUnreachable)
            }
        }
    }

    /// Account for a node timeout. A slave fails when its master is gone; a
    /// master writes the node off, failing if the quorum became unreachable.
    pub fn on_node_timeout(&mut self, node: NodeId) -> (r: Result<(), Error>)
        requires
            old(self).wf(),
            old(self).is_master() ==> old(self).initialized(),
        ensures
            final(self).wf(),
            final(self).meta_spec() == old(self).meta_spec(),
            final(self).executor_view() == old(self).executor_view(),
            final(self).transport_view() == old(self).transport_view(),
            !old(self).is_master() && node != old(self).master_id() ==> r == Ok::<
                (),
                Error,
            >(()) && *final(self) == *old(self),
            !old(self).is_master() && node == old(self).master_id() ==> {
                &&& r == Err::<(), Error>(Error::NodeDisconnected)
                &&& final(self).model() == crate::model::fail_step(old(self).model())
                &&& final(self).responses_map() == old(self).responses_map()
            },
            old(self).is_master() && !(old(self).pending().contains(node) || old(
                self,
            ).responses_map().dom().contains(node)) ==> r == Ok::<(), Error>(()) && *final(self)
                == *old(self),
            old(self).is_master() && (old(self).pending().contains(node) || old(
                self,
            ).responses_map().dom().contains(node)) ==> {
                &&& final(self).model() == reject_step(old(self).model(), node)
                &&& final(self).responses_map() == old(self).responses_map().remove(node)
                &&& (reject_step(old(self).model(), node).quorum_reachable() ==> r == Ok::<
                    (),
                    Error,
                >(()))
                &&& (!reject_step(old(self).model(), node).quorum_reachable() ==> r == Err::<
                    (),
                    Error,
                >(Error::NodeDisconnected))
            },
    {
        if self.meta.self_node_id != self.meta.master_node_id {
            if node != self.meta.master_node_id {
                return Ok(());
            }
            self.data.state = JobSessionState::Failed;
            return Err(Error::NodeDisconnected);
        }

        let tracked_node = match &self.data.active_data {
            Some(d) => d.requests.contains(node) || d.responses.contains_node(node),
            None => vstd::pervasive::unreached(),
        };
        if !tracked_node {
            return Ok(());
        }

        let threshold = self.meta.threshold;
        let reachable = match &mut self.data.active_data {
            Some(d) => d.write_off(node, threshold),
            None => vstd::pervasive::unreached(),
        };
        proof {
            assert(self.model().pending =~= reject_step(old(self).model(), node).pending);
            assert(self.model().rejected =~= reject_step(old(self).model(), node).rejected);
            assert(self.model().responded =~= reject_step(old(self).model(), node).responded);
        }
        if reachable {
            proof {
                assert(self.model() == reject_step(old(self).model(), node));
                lemma_reject_wf_any_state(old(self).model(), node);
            }
            return Ok(());
        }

        self.data.state = JobSessionState::Failed;
        proof {
            assert(self.model() == reject_step(old(self).model(), node));
            lemma_reject_wf_any_state(old(self).model(), node);
        }
        Err(Error::NodeDisconnected)
    }

    /// Abandon the session: unconditionally set the state to `Failed`,
    /// leaving the bookkeeping as it stands. Safe to call in any state, any
    /// number of times.
    pub fn on_session_timeout(&mut self)
        requires
            old(self).wf(),
        ensures
            final(self).wf(),
            final(self).meta_spec() == old(self).meta_spec(),
            final(self).executor_view() == old(self).executor_view(),
            final(self).transport_view() == old(self).transport_view(),
            final(self).model() == crate::model::fail_step(old(self).model()),
            final(self).responses_map() == old(self).responses_map(),
            final(self).initialized() == old(self).initialized(),
    {
        self.data.state = JobSessionState::Failed;
    }
}

/// Writing a node off preserves the model invariants from any state: the
/// state either stays or becomes `Failed`, and the count constraints only
/// ever concern states the step preserves correctly.
proof fn lemma_reject_wf_any_state(m: JobModel, node: NodeId)
    requires
        m.wf(),
    ensures
        reject_step(m, node).wf(),
{
}

} // verus!
