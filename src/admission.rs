//! Decisions of the server's accept loop and of each connection's task.
use vstd::prelude::*;

verus! {

/// What happens to an incoming connection attempt.
#[derive(Clone, Copy, Debug, PartialEq, Eq, Structural)]
pub enum Admission {
    /// Too many connections are open: refused at once.
    Refuse,
    /// The peer must first prove its address with a stateless retry.
    Retry,
    Accept,
}

/// How a request for the next stream of a connection ended.
#[derive(Clone, Copy, Debug, PartialEq, Eq, Structural)]
pub enum AcceptStream {
    /// The peer closed the connection.
    ApplicationClosed,
    /// Any other transport error.
    Failed,
    /// A new stream is ready to read.
    Opened,
}

/// What a connection's task does next.
#[derive(Clone, Copy, Debug, PartialEq, Eq, Structural)]
pub enum ConnectionStep {
    /// Return without error: shutdown or a graceful close.
    Stop,
    /// Count a connection error and return it.
    Errored,
    /// Read the stream that was opened.
    ReadStream,
}

/// The connection limit is set and reached.
pub open spec fn limit_reached(open_connections: nat, connection_limit: Option<usize>) -> bool {
    match connection_limit {
        Some(n) => open_connections >= n,
        None => false,
    }
}

/// The admission policy: refuse at the limit, else challenge an unvalidated
/// peer when stateless retry is on, else accept.
pub open spec fn admission_spec(
    open_connections: nat,
    connection_limit: Option<usize>,
    stateless_retry: bool,
    remote_address_validated: bool,
) -> Admission {
    if limit_reached(open_connections, connection_limit) {
        Admission::Refuse
    } else if stateless_retry && !remote_address_validated {
        Admission::Retry
    } else {
        Admission::Accept
    }
}

/// Whether the number of open connections meets the configured limit.
pub fn check_connection_limit(open_connections: usize, connection_limit: Option<usize>) -> (r: bool)
    ensures
        r == limit_reached(open_connections as nat, connection_limit),
{
    match connection_limit {
        Some(n) => open_connections >= n,
        None => false,
    }
}

/// Decides the fate of an incoming connection attempt.
pub fn admit_connection(
    open_connections: usize,
    connection_limit: Option<usize>,
    stateless_retry: bool,
    remote_address_validated: bool,
) -> (r: Admission)
    ensures
        r == admission_spec(
            open_connections as nat,
            connection_limit,
            stateless_retry,
            remote_address_validated,
        ),
{
    if check_connection_limit(open_connections, connection_limit) {
        Admission::Refuse
    } else if stateless_retry && !remote_address_validated {
        Admission::Retry
    } else {
        Admission::Accept
    }
}

/// What a connection's task does after asking for its next stream. Once
/// shutdown is signalled it stops without looking at the result.
pub fn connection_step(cancelled: bool, accepted: AcceptStream) -> (r: ConnectionStep)
    ensures
        cancelled ==> r == ConnectionStep::Stop,
        !cancelled ==> r == match accepted {
            AcceptStream::ApplicationClosed => ConnectionStep::Stop,
            AcceptStream::Failed => ConnectionStep::Errored,
            AcceptStream::Opened => ConnectionStep::ReadStream,
        },
{
    if cancelled {
        return ConnectionStep::Stop;
    }
    match accepted {
        AcceptStream::ApplicationClosed => ConnectionStep::Stop,
        AcceptStream::Failed => ConnectionStep::Errored,
        AcceptStream::Opened => ConnectionStep::ReadStream,
    }
}

} // verus!
