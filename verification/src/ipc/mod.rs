//! Communication with the userspace embedding services: the request and
//! response bookkeeping, queues, service discovery and health, load
//! balancing filters and the transports.

use vstd::prelude::*;

pub mod protocol;
pub mod transport;
pub mod queue_manager;
pub mod request_handler;
pub mod response_manager;
pub mod service_manager;
pub mod service_registry;
pub mod load_balancer;

verus! {

/// Errors of the service communication layer.
#[derive(Debug, Clone, PartialEq, Eq)]
pub enum IpcError {
    InvalidMessage(String),
    QueueFull,
    ServiceNotFound(String),
    ServiceUnavailable(String),
    ServiceOverloaded(String),
    RegistrationFailed(String),
    CorrelationFailed(u64),
    AuthenticationFailed(String),
    TransportError(String),
}

/// An error with its texts as character sequences.
pub enum IpcErrorView {
    InvalidMessage(Seq<char>),
    QueueFull,
    ServiceNotFound(Seq<char>),
    ServiceUnavailable(Seq<char>),
    ServiceOverloaded(Seq<char>),
    RegistrationFailed(Seq<char>),
    CorrelationFailed(u64),
    AuthenticationFailed(Seq<char>),
    TransportError(Seq<char>),
}

impl View for IpcError {
    type V = IpcErrorView;

    open spec fn view(&self) -> IpcErrorView {
        match self {
            IpcError::InvalidMessage(m) => IpcErrorView::InvalidMessage(m@),
            IpcError::QueueFull => IpcErrorView::QueueFull,
            IpcError::ServiceNotFound(m) => IpcErrorView::ServiceNotFound(m@),
            IpcError::ServiceUnavailable(m) => IpcErrorView::ServiceUnavailable(m@),
            IpcError::ServiceOverloaded(m) => IpcErrorView::ServiceOverloaded(m@),
            IpcError::RegistrationFailed(m) => IpcErrorView::RegistrationFailed(m@),
            IpcError::CorrelationFailed(id) => IpcErrorView::CorrelationFailed(*id),
            IpcError::AuthenticationFailed(m) => IpcErrorView::AuthenticationFailed(m@),
            IpcError::TransportError(m) => IpcErrorView::TransportError(m@),
        }
    }
}

/// Result of a communication operation.
pub type IpcResult<T> = Result<T, IpcError>;

/// Whether a result without a value is `expected`, its error taken by its view.
pub open spec fn ipc_unit_is(r: IpcResult<()>, expected: Result<(), IpcErrorView>) -> bool {
    match r {
        Ok(_) => expected is Ok,
        Err(e) => expected == Err::<(), IpcErrorView>(e@),
    }
}

/// Settings of the communication layer.
#[derive(Debug, Clone, Copy)]
pub struct IpcConfig {
    /// Most requests a queue or batch may hold.
    pub max_queue_size: usize,
    /// Time a request may take, in milliseconds.
    pub request_timeout_ms: u64,
    /// Most requests in flight at once.
    pub max_concurrent_requests: usize,
    /// How often a failed request is retried.
    pub max_retry_attempts: u32,
    /// Seconds between health checks of a service.
    pub health_check_interval_sec: u64,
}

} // verus!
