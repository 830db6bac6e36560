//! The daemon's decisions: whether its socket may be bound, what its
//! endpoints answer, and its errors.
use crate::external::io_error_text;
use crate::text::{concat2, owned};
use vstd::prelude::*;

verus! {

/// Why the daemon could not run.
#[derive(Debug)]
pub enum DaemonError {
    /// Filesystem or socket failure.
    Io(std::io::Error),
    /// Another daemon answers on the socket.
    AlreadyRunning { socket: String },
}

impl DaemonError {
    /// Human-readable description.
    pub fn message(&self) -> (r: String)
        ensures
            self matches DaemonError::AlreadyRunning { socket } ==> r@
                == "another careerbot daemon is already listening on "@ + socket@,
    {
        match self {
            DaemonError::Io(e) => io_error_text(e),
            DaemonError::AlreadyRunning { socket } => concat2(
                "another careerbot daemon is already listening on ",
                socket.as_str(),
            ),
        }
    }
}

/// The `GET /status` payload.
#[derive(Clone, Debug)]
pub struct StatusResponse {
    pub version: String,
    pub started_at: String,
    pub socket_path: String,
}

/// What to do with the socket path before binding.
#[derive(Clone, Copy, Debug, PartialEq, Eq, Structural)]
pub enum SocketAction {
    /// Nothing is there: bind.
    Bind,
    /// A daemon answers there: refuse to start.
    Refuse,
    /// A file nobody answers on, left by an unclean shutdown: remove it,
    /// then bind.
    RemoveStale,
}

/// Decides from whether the socket file exists and, if it does, whether
/// a connection to it succeeded.
pub fn socket_action(exists: bool, connected: bool) -> (r: SocketAction)
    ensures
        !exists ==> r == SocketAction::Bind,
        exists && connected ==> r == SocketAction::Refuse,
        exists && !connected ==> r == SocketAction::RemoveStale,
{
    if !exists {
        SocketAction::Bind
    } else if connected {
        SocketAction::Refuse
    } else {
        SocketAction::RemoveStale
    }
}

/// The error for a socket another daemon answers on.
pub fn already_running(socket: &str) -> (e: DaemonError)
    ensures
        e matches DaemonError::AlreadyRunning { socket: s } && s@ == socket@,
{
    DaemonError::AlreadyRunning { socket: owned(socket) }
}

/// The status `POST /shutdown` answers with: accepted.
pub fn shutdown_status() -> (r: u16)
    ensures
        r == 202,
{
    202
}

/// The status payload of a daemon of `version` started at `started_at`
/// and listening on `socket_path`.
pub fn status_response(version: &str, started_at: &str, socket_path: &str) -> (r: StatusResponse)
    ensures
        r.version@ == version@,
        r.started_at@ == started_at@,
        r.socket_path@ == socket_path@,
{
    StatusResponse {
        version: owned(version),
        started_at: owned(started_at),
        socket_path: owned(socket_path),
    }
}

} // verus!
