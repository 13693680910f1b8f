//! Common error types for OpenShell.
use crate::text::contains_text;
use crate::text::occurs_at;
use vstd::prelude::*;
use vstd::std_specs::convert::FromSpecImpl;

verus! {

/// An input or output operation that failed, with the system's own account of it.
#[derive(Debug, Clone)]
pub struct IoFailure {
    /// The system's error message.
    pub message: String,
    /// The system's error code, if the failure has one.
    pub os_code: Option<i32>,
}

/// `OpenShell` error type.
#[derive(Debug)]
pub enum Error {
    /// Configuration error.
    Config {
        /// Error message.
        message: String,
    },
    /// I/O error.
    Io {
        /// Underlying I/O error.
        source: IoFailure,
    },
    /// TLS error.
    Tls {
        /// Error message.
        message: String,
    },
    /// gRPC transport error.
    Transport {
        /// Error message.
        message: String,
    },
    /// Execution error.
    Execution {
        /// Error message.
        message: String,
    },
    /// Process error.
    Process {
        /// Error message.
        message: String,
    },
    /// Timeout error.
    Timeout,
}

impl Error {
    /// Create a configuration error.
    pub fn config(message: &str) -> (res: Self)
        ensures
            res matches Error::Config { message: m } && m@ == message@,
    {
        Error::Config { message: message.to_string() }
    }

    /// Create a TLS error.
    pub fn tls(message: &str) -> (res: Self)
        ensures
            res matches Error::Tls { message: m } && m@ == message@,
    {
        Error::Tls { message: message.to_string() }
    }

    /// Create a transport error.
    pub fn transport(message: &str) -> (res: Self)
        ensures
            res matches Error::Transport { message: m } && m@ == message@,
    {
        Error::Transport { message: message.to_string() }
    }

    /// Create an execution error.
    pub fn execution(message: &str) -> (res: Self)
        ensures
            res matches Error::Execution { message: m } && m@ == message@,
    {
        Error::Execution { message: message.to_string() }
    }

    /// Create a process error.
    pub fn process(message: &str) -> (res: Self)
        ensures
            res matches Error::Process { message: m } && m@ == message@,
    {
        Error::Process { message: message.to_string() }
    }

    /// The error as its reader sees it.
    pub open spec fn text(&self) -> Seq<char> {
        match self {
            Error::Config { message } => "configuration error: "@ + message@,
            Error::Io { source } => "I/O error: "@ + source.message@,
            Error::Tls { message } => "TLS error: "@ + message@,
            Error::Transport { message } => "transport error: "@ + message@,
            Error::Execution { message } => "execution error: "@ + message@,
            Error::Process { message } => "process error: "@ + message@,
            Error::Timeout => "operation timed out"@,
        }
    }

    /// The error as its reader sees it.
    pub fn to_text(&self) -> (res: String)
        ensures
            res@ == self.text(),
    {
        match self {
            Error::Config { message } => "configuration error: ".to_string().concat(message),
            Error::Io { source } => "I/O error: ".to_string().concat(&source.message),
            Error::Tls { message } => "TLS error: ".to_string().concat(message),
            Error::Transport { message } => "transport error: ".to_string().concat(message),
            Error::Execution { message } => "execution error: ".to_string().concat(message),
            Error::Process { message } => "process error: ".to_string().concat(message),
            Error::Timeout => "operation timed out".to_string(),
        }
    }

    /// The stable code under which diagnostics report the error.
    pub open spec fn code(&self) -> Seq<char> {
        match self {
            Error::Config { .. } => "openshell::config"@,
            Error::Io { .. } => "openshell::io"@,
            Error::Tls { .. } => "openshell::tls"@,
            Error::Transport { .. } => "openshell::transport"@,
            Error::Execution { .. } => "openshell::execution"@,
            Error::Process { .. } => "openshell::process"@,
            Error::Timeout => "openshell::timeout"@,
        }
    }

    /// The stable code under which diagnostics report the error.
    pub fn diagnostic_code(&self) -> (res: &'static str)
        ensures
            res@ == self.code(),
    {
        match self {
            Error::Config { .. } => "openshell::config",
            Error::Io { .. } => "openshell::io",
            Error::Tls { .. } => "openshell::tls",
            Error::Transport { .. } => "openshell::transport",
            Error::Execution { .. } => "openshell::execution",
            Error::Process { .. } => "openshell::process",
            Error::Timeout => "openshell::timeout",
        }
    }
}

impl From<IoFailure> for Error {
    fn from(source: IoFailure) -> (res: Self) {
        Error::Io { source }
    }
}

impl FromSpecImpl<IoFailure> for Error {
    open spec fn obeys_from_spec() -> bool {
        true
    }

    open spec fn from_spec(source: IoFailure) -> Self {
        Error::Io { source }
    }
}

/// Error type shared by all compute driver implementations.
///
/// Drivers map their backend-specific errors into these variants before they
/// cross crate boundaries.
#[derive(Debug)]
pub enum ComputeDriverError {
    /// The requested sandbox already exists.
    AlreadyExists,
    /// The requested sandbox does not exist.
    NotFound,
    /// The request contains an invalid argument.
    InvalidArgument(String),
    /// A precondition for the operation was not met.
    Precondition(String),
    /// Generic error message.
    Message(String),
}

/// A [`ComputeDriverError`] in contracts.
pub enum ComputeDriverErrorView {
    /// The requested sandbox already exists.
    AlreadyExists,
    /// The requested sandbox does not exist.
    NotFound,
    /// The request contains an invalid argument.
    InvalidArgument(Seq<char>),
    /// A precondition for the operation was not met.
    Precondition(Seq<char>),
    /// Generic error message.
    Message(Seq<char>),
}

impl View for ComputeDriverError {
    type V = ComputeDriverErrorView;

    open spec fn view(&self) -> ComputeDriverErrorView {
        match self {
            ComputeDriverError::AlreadyExists => ComputeDriverErrorView::AlreadyExists,
            ComputeDriverError::NotFound => ComputeDriverErrorView::NotFound,
            ComputeDriverError::InvalidArgument(m) => ComputeDriverErrorView::InvalidArgument(m@),
            ComputeDriverError::Precondition(m) => ComputeDriverErrorView::Precondition(m@),
            ComputeDriverError::Message(m) => ComputeDriverErrorView::Message(m@),
        }
    }
}

impl ComputeDriverErrorView {
    /// The error as its reader sees it.
    pub open spec fn text(self) -> Seq<char> {
        match self {
            ComputeDriverErrorView::AlreadyExists => "sandbox already exists"@,
            ComputeDriverErrorView::NotFound => "sandbox not found"@,
            ComputeDriverErrorView::InvalidArgument(m) => m,
            ComputeDriverErrorView::Precondition(m) => m,
            ComputeDriverErrorView::Message(m) => m,
        }
    }

    /// The gRPC status code that answers a request which failed this way.
    pub open spec fn status_code(self) -> int {
        match self {
            ComputeDriverErrorView::AlreadyExists => 6,
            ComputeDriverErrorView::NotFound => 5,
            ComputeDriverErrorView::InvalidArgument(_) => 3,
            ComputeDriverErrorView::Precondition(_) => 9,
            ComputeDriverErrorView::Message(_) => 13,
        }
    }
}

/// What answers a failed gRPC request: the status code, by its number on the
/// wire, and the message.
#[derive(Debug)]
pub struct RpcStatus {
    /// The gRPC status code.
    pub code: i32,
    /// The message.
    pub message: String,
}

/// `tonic::Status::already_exists` makes a status with the code `ALREADY_EXISTS`
/// and the given message.
#[verifier::external_body]
fn status_already_exists(message: &str) -> (res: RpcStatus)
    ensures
        res.code == 6,
        res.message@ == message@,
{
    let status = tonic::Status::already_exists(message);
    RpcStatus { code: status.code() as i32, message: status.message().to_string() }
}

/// `tonic::Status::not_found` makes a status with the code `NOT_FOUND` and the
/// given message.
#[verifier::external_body]
fn status_not_found(message: &str) -> (res: RpcStatus)
    ensures
        res.code == 5,
        res.message@ == message@,
{
    let status = tonic::Status::not_found(message);
    RpcStatus { code: status.code() as i32, message: status.message().to_string() }
}

/// `tonic::Status::invalid_argument` makes a status with the code
/// `INVALID_ARGUMENT` and the given message.
#[verifier::external_body]
fn status_invalid_argument(message: &str) -> (res: RpcStatus)
    ensures
        res.code == 3,
        res.message@ == message@,
{
    let status = tonic::Status::invalid_argument(message);
    RpcStatus { code: status.code() as i32, message: status.message().to_string() }
}

/// `tonic::Status::failed_precondition` makes a status with the code
/// `FAILED_PRECONDITION` and the given message.
#[verifier::external_body]
fn status_failed_precondition(message: &str) -> (res: RpcStatus)
    ensures
        res.code == 9,
        res.message@ == message@,
{
    let status = tonic::Status::failed_precondition(message);
    RpcStatus { code: status.code() as i32, message: status.message().to_string() }
}

/// `tonic::Status::internal` makes a status with the code `INTERNAL` and the
/// given message.
#[verifier::external_body]
fn status_internal(message: &str) -> (res: RpcStatus)
    ensures
        res.code == 13,
        res.message@ == message@,
{
    let status = tonic::Status::internal(message);
    RpcStatus { code: status.code() as i32, message: status.message().to_string() }
}

impl ComputeDriverError {
    /// The error as its reader sees it.
    pub fn to_text(&self) -> (res: String)
        ensures
            res@ == self@.text(),
    {
        match self {
            ComputeDriverError::AlreadyExists => "sandbox already exists".to_string(),
            ComputeDriverError::NotFound => "sandbox not found".to_string(),
            ComputeDriverError::InvalidArgument(m) => m.clone(),
            ComputeDriverError::Precondition(m) => m.clone(),
            ComputeDriverError::Message(m) => m.clone(),
        }
    }

    /// The gRPC status that answers a request which failed this way.
    pub fn into_status(self) -> (res: RpcStatus)
        ensures
            res.code == self@.status_code(),
            res.message@ == self@.text(),
    {
        match self {
            ComputeDriverError::AlreadyExists => status_already_exists("sandbox already exists"),
            ComputeDriverError::NotFound => status_not_found("sandbox not found"),
            ComputeDriverError::InvalidArgument(m) => status_invalid_argument(&m),
            ComputeDriverError::Precondition(m) => status_failed_precondition(&m),
            ComputeDriverError::Message(m) => status_internal(&m),
        }
    }
}

/// The status code tells the kind of a driver error: two errors have the same
/// code only if they are of the same variant.
pub proof fn law_status_code_tells_the_kind(a: ComputeDriverErrorView, b: ComputeDriverErrorView)
    requires
        a.status_code() == b.status_code(),
    ensures
        a is AlreadyExists == b is AlreadyExists,
        a is NotFound == b is NotFound,
        a is InvalidArgument == b is InvalidArgument,
        a is Precondition == b is Precondition,
        a is Message == b is Message,
{
}

/// Stable marker embedded in the gateway's rejection of relay-backed RPCs for
/// sandboxes whose topology has no in-sandbox process supervisor.
///
/// SSH, `exec`, port forwarding, and file transfer all travel over the
/// supervisor session, which such a topology never opens. The CLI matches on
/// this marker to explain the situation rather than surfacing a raw gRPC
/// error. It is deliberately a distinct token rather than prose so rewording
/// the message cannot break detection.
pub const NO_SUPERVISOR_SESSION_MARKER: &'static str = "openshell:no-supervisor-session";

/// What precedes the marker in the message.
pub open spec fn no_supervisor_session_prose() -> Seq<char> {
    "this sandbox's topology runs no supervisor inside the sandbox, so SSH, exec, port \
     forwarding, and file transfer are unavailable. Policy-enforced network egress is \
     unaffected. Use the `combined`, `sidecar`, or `cni-sidecar` topology when interactive \
     sessions are required. ["@
}

/// Full message returned for relay-backed RPCs against such a sandbox.
#[must_use]
pub fn no_supervisor_session_message() -> (res: String)
    ensures
        res@ == no_supervisor_session_prose() + NO_SUPERVISOR_SESSION_MARKER@ + "]"@,
        contains_text(res@, NO_SUPERVISOR_SESSION_MARKER@),
{
    let res = "this sandbox's topology runs no supervisor inside the sandbox, so SSH, exec, port \
     forwarding, and file transfer are unavailable. Policy-enforced network egress is \
     unaffected. Use the `combined`, `sidecar`, or `cni-sidecar` topology when interactive \
     sessions are required. [".to_string().concat(NO_SUPERVISOR_SESSION_MARKER).concat("]");
    proof {
        let n = no_supervisor_session_prose().len() as int;
        let marker = NO_SUPERVISOR_SESSION_MARKER@;
        assert(res@.subrange(n, n + marker.len()) =~= marker);
        assert(occurs_at(res@, marker, n));
    }
    res
}

} // verus!
