//! Quorum coordination for a distributed key-server cluster.
//!
//! A master node drives a cryptographic sub-protocol across a set of peers,
//! collecting enough validated partial responses to pass a configured
//! threshold, while tolerating rejections and timeouts up to that threshold.

pub mod job_session;
pub mod model;
pub mod node_set;
pub mod response_map;
pub mod types;

pub use job_session::{JobExecutor, JobSession, JobSessionState, JobTransport};
pub use node_set::NodeSet;
pub use response_map::ResponseMap;
pub use types::{Error, NodeId, SessionId, SessionMeta};
