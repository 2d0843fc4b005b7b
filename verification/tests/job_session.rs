use std::cell::RefCell;
use std::collections::VecDeque;

use job_session::{
    Error, JobExecutor, JobSession, JobSessionState, JobTransport, NodeId, NodeSet, ResponseMap,
    SessionMeta,
};

struct SquaredSumJobExecutor;

impl JobExecutor for SquaredSumJobExecutor {
    type PartialJobRequest = u32;
    type PartialJobResponse = u32;
    type JobResponse = u32;

    fn prepare_partial_request(&self) -> Result<u32, Error> {
        Ok(2)
    }

    fn process_partial_request(&self, r: u32) -> Result<u32, Error> {
        Ok(r * r)
    }

    fn check_partial_response(&self, r: &u32) -> Result<bool, Error> {
        Ok(r % 2 == 0)
    }

    fn compute_response(&self, r: &ResponseMap<u32>) -> Result<u32, Error> {
        let mut sum: u32 = 0;
        let mut i: usize = 0;
        while i < r.len() {
            sum += *r.response_at(i);
            i += 1;
        }
        Ok(sum)
    }
}

#[derive(Default)]
struct DummyJobTransport {
    requests: RefCell<VecDeque<(NodeId, u32)>>,
    responses: RefCell<VecDeque<(NodeId, u32)>>,
}

impl DummyJobTransport {
    fn request(&self) -> (NodeId, u32) {
        self.requests.borrow_mut().pop_front().unwrap()
    }

    fn response(&self) -> (NodeId, u32) {
        self.responses.borrow_mut().pop_front().unwrap()
    }
}

impl JobTransport for DummyJobTransport {
    type PartialJobRequest = u32;

    type PartialJobResponse = u32;

    fn send_partial_request(&self, node: &NodeId, request: u32) -> Result<(), Error> {
        self.requests.borrow_mut().push_back((*node, request));
        Ok(())
    }

    fn send_partial_response(&self, node: &NodeId, response: u32) -> Result<(), Error> {
        self.responses.borrow_mut().push_back((*node, response));
        Ok(())
    }
}

fn make_master_session_meta(threshold: usize) -> SessionMeta {
    SessionMeta { id: 0, master_node_id: 1, self_node_id: 1, threshold }
}

fn make_slave_session_meta(threshold: usize) -> SessionMeta {
    SessionMeta { id: 0, master_node_id: 1, self_node_id: 2, threshold }
}

fn node_set(ids: &[NodeId]) -> NodeSet {
    NodeSet::from_vec(ids.to_vec())
}

#[test]
fn job_initialize_fails_if_not_inactive() {
    let meta = make_master_session_meta(0);
    let mut job = JobSession::new(meta, SquaredSumJobExecutor, DummyJobTransport::default());
    job.initialize(node_set(&[1])).unwrap();
    assert_eq!(job.initialize(node_set(&[1])).unwrap_err(), Error::InvalidStateForRequest);
}

#[test]
fn job_initialization_leads_to_finish_if_single_node_is_required() {
    let meta = make_master_session_meta(0);
    let mut job = JobSession::new(meta, SquaredSumJobExecutor, DummyJobTransport::default());
    job.initialize(node_set(&[1])).unwrap();
    assert_eq!(job.state(), JobSessionState::Finished);
    assert_eq!(job.result(), Ok(4));
}

#[test]
fn job_initialization_does_not_leads_to_finish_if_single_other_node_is_required() {
    let meta = make_master_session_meta(0);
    let mut job = JobSession::new(meta, SquaredSumJobExecutor, DummyJobTransport::default());
    job.initialize(node_set(&[2])).unwrap();
    assert_eq!(job.state(), JobSessionState::Active);
}

#[test]
fn job_request_fails_if_comes_from_non_master_node() {
    let meta = make_slave_session_meta(0);
    let mut job = JobSession::new(meta, SquaredSumJobExecutor, DummyJobTransport::default());
    assert_eq!(job.on_partial_request(3, 2).unwrap_err(), Error::InvalidMessage);
}

#[test]
fn job_request_fails_if_comes_to_master_node() {
    let meta = make_master_session_meta(0);
    let mut job = JobSession::new(meta, SquaredSumJobExecutor, DummyJobTransport::default());
    assert_eq!(job.on_partial_request(1, 2).unwrap_err(), Error::InvalidMessage);
}

#[test]
fn job_request_fails_if_comes_to_failed_state() {
    let meta = make_slave_session_meta(0);
    let mut job = JobSession::new(meta, SquaredSumJobExecutor, DummyJobTransport::default());
    job.on_session_timeout();
    assert_eq!(job.on_partial_request(1, 2).unwrap_err(), Error::InvalidStateForRequest);
}

#[test]
fn job_request_succeeds_if_comes_to_finished_state() {
    let meta = make_slave_session_meta(0);
    let mut job = JobSession::new(meta, SquaredSumJobExecutor, DummyJobTransport::default());
    job.on_partial_request(1, 2).unwrap();
    assert_eq!(job.transport().response(), (1, 4));
    assert_eq!(job.state(), JobSessionState::Finished);
    job.on_partial_request(1, 3).unwrap();
    assert_eq!(job.transport().response(), (1, 9));
    assert_eq!(job.state(), JobSessionState::Finished);
}

#[test]
fn job_response_fails_if_comes_to_slave_node() {
    let meta = make_slave_session_meta(0);
    let mut job = JobSession::new(meta, SquaredSumJobExecutor, DummyJobTransport::default());
    assert_eq!(job.on_partial_response(1, 2).unwrap_err(), Error::InvalidMessage);
}

#[test]
fn job_response_fails_if_comes_to_failed_state() {
    let meta = make_master_session_meta(0);
    let mut job = JobSession::new(meta, SquaredSumJobExecutor, DummyJobTransport::default());
    job.initialize(node_set(&[2])).unwrap();
    job.on_session_timeout();
    assert_eq!(job.on_partial_response(2, 2).unwrap_err(), Error::InvalidStateForRequest);
}

#[test]
fn job_response_fails_if_comes_from_unknown_node() {
    let meta = make_master_session_meta(0);
    let mut job = JobSession::new(meta, SquaredSumJobExecutor, DummyJobTransport::default());
    job.initialize(node_set(&[2])).unwrap();
    assert_eq!(job.on_partial_response(3, 2).unwrap_err(), Error::InvalidNodeForRequest);
}

#[test]
fn job_response_leads_to_failure_if_too_few_nodes_left() {
    let meta = make_master_session_meta(1);
    let mut job = JobSession::new(meta, SquaredSumJobExecutor, DummyJobTransport::default());
    job.initialize(node_set(&[1, 2])).unwrap();
    assert_eq!(job.state(), JobSessionState::Active);
    assert_eq!(job.on_partial_response(2, 3).unwrap_err(), Error::ConsensusUnreachable);
    assert_eq!(job.state(), JobSessionState::Failed);
}

#[test]
fn job_response_succeeds() {
    let meta = make_master_session_meta(2);
    let mut job = JobSession::new(meta, SquaredSumJobExecutor, DummyJobTransport::default());
    job.initialize(node_set(&[1, 2, 3])).unwrap();
    assert_eq!(job.state(), JobSessionState::Active);
    job.on_partial_response(2, 2).unwrap();
    assert_eq!(job.state(), JobSessionState::Active);
}

#[test]
fn job_response_leads_to_finish() {
    let meta = make_master_session_meta(1);
    let mut job = JobSession::new(meta, SquaredSumJobExecutor, DummyJobTransport::default());
    job.initialize(node_set(&[1, 2])).unwrap();
    assert_eq!(job.state(), JobSessionState::Active);
    job.on_partial_response(2, 2).unwrap();
    assert_eq!(job.state(), JobSessionState::Finished);
}

#[test]
fn job_node_timeout_ignored_when_slave_disconnects_from_slave() {
    let meta = make_slave_session_meta(1);
    let mut job = JobSession::new(meta, SquaredSumJobExecutor, DummyJobTransport::default());
    assert_eq!(job.state(), JobSessionState::Inactive);
    job.on_node_timeout(3).unwrap();
    assert_eq!(job.state(), JobSessionState::Inactive);
}

#[test]
fn job_node_timeout_leads_to_fail_when_slave_disconnects_from_master() {
    let meta = make_slave_session_meta(1);
    let mut job = JobSession::new(meta, SquaredSumJobExecutor, DummyJobTransport::default());
    assert_eq!(job.state(), JobSessionState::Inactive);
    assert_eq!(job.on_node_timeout(1).unwrap_err(), Error::NodeDisconnected);
    assert_eq!(job.state(), JobSessionState::Failed);
}

#[test]
fn job_node_timeout_ignored_when_disconnects_from_rejected() {
    let meta = make_master_session_meta(1);
    let mut job = JobSession::new(meta, SquaredSumJobExecutor, DummyJobTransport::default());
    job.initialize(node_set(&[1, 2, 3])).unwrap();
    assert_eq!(job.state(), JobSessionState::Active);
    job.on_partial_response(2, 3).unwrap();
    job.on_node_timeout(2).unwrap();
    assert_eq!(job.state(), JobSessionState::Active);
}

#[test]
fn job_node_timeout_ignored_when_disconnects_from_unknown() {
    let meta = make_master_session_meta(1);
    let mut job = JobSession::new(meta, SquaredSumJobExecutor, DummyJobTransport::default());
    job.initialize(node_set(&[1, 2])).unwrap();
    assert_eq!(job.state(), JobSessionState::Active);
    job.on_node_timeout(3).unwrap();
    assert_eq!(job.state(), JobSessionState::Active);
}

#[test]
fn job_node_timeout_ignored_when_disconnects_from_requested_and_enough_nodes_left() {
    let meta = make_master_session_meta(1);
    let mut job = JobSession::new(meta, SquaredSumJobExecutor, DummyJobTransport::default());
    job.initialize(node_set(&[1, 2, 3])).unwrap();
    assert_eq!(job.state(), JobSessionState::Active);
    job.on_node_timeout(3).unwrap();
    assert_eq!(job.state(), JobSessionState::Active);
}

#[test]
fn job_node_timeout_leads_to_fail_when_disconnects_from_requested_and_not_enough_nodes_left() {
    let meta = make_master_session_meta(1);
    let mut job = JobSession::new(meta, SquaredSumJobExecutor, DummyJobTransport::default());
    job.initialize(node_set(&[1, 2])).unwrap();
    assert_eq!(job.state(), JobSessionState::Active);
    assert_eq!(job.on_node_timeout(2).unwrap_err(), Error::NodeDisconnected);
    assert_eq!(job.state(), JobSessionState::Failed);
}

#[test]
fn quorum_of_three_valid_responses_reaches_finish() {
    let meta = make_master_session_meta(2);
    let mut job = JobSession::new(meta, SquaredSumJobExecutor, DummyJobTransport::default());
    job.initialize(node_set(&[1, 2, 3])).unwrap();
    assert_eq!(job.state(), JobSessionState::Active);
    job.on_partial_response(2, 2).unwrap();
    assert_eq!(job.state(), JobSessionState::Active);
    job.on_partial_response(3, 6).unwrap();
    assert_eq!(job.state(), JobSessionState::Finished);
    assert_eq!(job.result(), Ok(12));
}

#[test]
fn initialize_sends_one_request_per_other_node() {
    let meta = make_master_session_meta(1);
    let mut job = JobSession::new(meta, SquaredSumJobExecutor, DummyJobTransport::default());
    job.initialize(node_set(&[1, 2, 3])).unwrap();
    let mut sent = vec![job.transport().request(), job.transport().request()];
    sent.sort();
    assert_eq!(sent, vec![(2, 2), (3, 2)]);
    assert!(job.transport().requests.borrow().is_empty());
}

#[test]
fn result_fails_before_finish() {
    let meta = make_master_session_meta(0);
    let mut job = JobSession::new(meta, SquaredSumJobExecutor, DummyJobTransport::default());
    assert_eq!(job.result(), Err(Error::InvalidStateForRequest));
    job.initialize(node_set(&[2])).unwrap();
    assert_eq!(job.result(), Err(Error::InvalidStateForRequest));
}

#[test]
fn session_timeout_always_fails_and_is_repeatable() {
    let meta = make_master_session_meta(0);
    let mut job = JobSession::new(meta, SquaredSumJobExecutor, DummyJobTransport::default());
    job.on_session_timeout();
    assert_eq!(job.state(), JobSessionState::Failed);
    job.on_session_timeout();
    assert_eq!(job.state(), JobSessionState::Failed);

    let slave_meta = make_slave_session_meta(0);
    let mut slave_job =
        JobSession::new(slave_meta, SquaredSumJobExecutor, DummyJobTransport::default());
    slave_job.on_partial_request(1, 2).unwrap();
    assert_eq!(slave_job.state(), JobSessionState::Finished);
    slave_job.on_session_timeout();
    assert_eq!(slave_job.state(), JobSessionState::Failed);
    slave_job.on_session_timeout();
    assert_eq!(slave_job.state(), JobSessionState::Failed);
}

#[test]
fn late_valid_response_after_finish_is_accepted() {
    let meta = make_master_session_meta(0);
    let mut job = JobSession::new(meta, SquaredSumJobExecutor, DummyJobTransport::default());
    job.initialize(node_set(&[2, 3])).unwrap();
    assert_eq!(job.state(), JobSessionState::Active);
    job.on_partial_response(2, 2).unwrap();
    assert_eq!(job.state(), JobSessionState::Finished);
    job.on_partial_response(3, 6).unwrap();
    assert_eq!(job.state(), JobSessionState::Finished);
    assert_eq!(job.result(), Ok(8));
}

#[test]
fn timeout_of_responded_node_after_finish_keeps_finished() {
    let meta = make_master_session_meta(0);
    let mut job = JobSession::new(meta, SquaredSumJobExecutor, DummyJobTransport::default());
    job.initialize(node_set(&[2, 3])).unwrap();
    job.on_partial_response(2, 2).unwrap();
    assert_eq!(job.state(), JobSessionState::Finished);
    job.on_node_timeout(2).unwrap();
    assert_eq!(job.state(), JobSessionState::Finished);
    assert_eq!(job.result(), Ok(0));
}

#[test]
fn duplicate_response_is_rejected_as_unknown_node() {
    let meta = make_master_session_meta(0);
    let mut job = JobSession::new(meta, SquaredSumJobExecutor, DummyJobTransport::default());
    job.initialize(node_set(&[2, 3])).unwrap();
    job.on_partial_response(2, 2).unwrap();
    assert_eq!(job.on_partial_response(2, 4).unwrap_err(), Error::InvalidNodeForRequest);
}

#[test]
fn apply_partial_response_is_deterministic_in_the_validation_outcome() {
    let meta = make_master_session_meta(1);
    let mut job = JobSession::new(meta, SquaredSumJobExecutor, DummyJobTransport::default());
    job.initialize(node_set(&[2, 3])).unwrap();
    // the caller's verdict decides: an odd value is accepted when declared valid
    job.apply_partial_response(2, 3, true).unwrap();
    assert_eq!(job.state(), JobSessionState::Active);
    job.apply_partial_response(3, 2, true).unwrap();
    assert_eq!(job.state(), JobSessionState::Finished);
    assert_eq!(job.result(), Ok(5));
}

#[test]
fn apply_partial_response_rejection_fails_when_quorum_unreachable() {
    let meta = make_master_session_meta(0);
    let mut job = JobSession::new(meta, SquaredSumJobExecutor, DummyJobTransport::default());
    job.initialize(node_set(&[2])).unwrap();
    assert_eq!(job.apply_partial_response(2, 2, false).unwrap_err(), Error::ConsensusUnreachable);
    assert_eq!(job.state(), JobSessionState::Failed);
}

#[test]
fn node_set_deduplicates_and_removes() {
    let mut s = node_set(&[5, 7, 5, 9, 7]);
    assert_eq!(s.len(), 3);
    assert!(s.contains(5));
    assert!(s.contains(7));
    assert!(s.contains(9));
    assert!(!s.contains(8));
    assert!(s.remove(7));
    assert!(!s.remove(7));
    assert_eq!(s.len(), 2);
    assert!(!s.contains(7));
}

#[test]
fn response_map_tracks_entries() {
    let mut m: ResponseMap<u32> = ResponseMap::new();
    assert_eq!(m.len(), 0);
    m.insert(4, 16);
    m.insert(5, 25);
    assert_eq!(m.len(), 2);
    assert!(m.contains_node(4));
    assert!(!m.contains_node(6));
    assert!(m.remove(4));
    assert!(!m.remove(4));
    assert_eq!(m.len(), 1);
    assert_eq!(m.node_at(0), 5);
    assert_eq!(*m.response_at(0), 25);
}
