//! The orchestration data model: resource limits and their encodings,
//! service ports, peer assignments and the addresses they resolve to, and the
//! per-namespace registry that decides how a desired service state is
//! reconciled.

pub mod config;
pub mod limits;
pub mod namespace;
pub mod orchestrator;
pub mod service;

pub use config::ServiceConfig;
pub use limits::{CpuLimit, LimitError, MemoryLimit};
pub use namespace::{Reconcile, ServiceRegistry};
pub use orchestrator::NamespaceTable;
pub use service::{
    lookup_port, peer_addresses, AssignmentError, PeerList, PeerService, PortMap, Service,
    ServiceAssignments, ServiceEvent, ServicePort, ServiceStatus,
};
