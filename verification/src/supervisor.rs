//! How the adapter process is started and reached.
//!
//! The supervisor of the hosting application does the work; what it is to
//! do is laid down here, as a value, for each kind of transport.
use vstd::prelude::*;

verus! {

/// How the client reaches the debug adapter.
#[derive(Clone, Copy, Debug, PartialEq, Eq, Structural)]
pub enum TransportType {
    TCP,
    STDIO,
}

/// What becomes of one of the child's standard streams.
#[derive(Clone, Copy, Debug, PartialEq, Eq, Structural)]
pub enum Disposition {
    /// The stream is closed to the child.
    Null,
    /// The stream is a pipe that the client holds the other end of.
    Piped,
}

/// An IPv4 address, by its four octets.
#[derive(Clone, Copy, Debug, PartialEq, Eq, Structural)]
pub struct Ipv4(pub u8, pub u8, pub u8, pub u8);

/// Where the protocol stream is found once the child runs.
#[derive(Clone, Copy, Debug, PartialEq, Eq, Structural)]
pub enum Endpoint {
    /// A TCP connection to `host` at `port`.
    Tcp { host: Ipv4, port: u16 },
    /// The child's standard input and output.
    Stdio,
}

/// The steps that bring up a transport: how the child is spawned, how long
/// to wait after that, and where to find the protocol stream.
#[derive(Clone, Copy, Debug, PartialEq, Eq, Structural)]
pub struct Bootstrap {
    pub stdin: Disposition,
    pub stdout: Disposition,
    pub stderr: Disposition,
    /// The child is killed when the session that owns it goes away.
    pub kill_on_drop: bool,
    /// Time given to the adapter to open its port, in milliseconds.
    pub warm_up_millis: u64,
    pub endpoint: Endpoint,
}

/// Time given to an adapter to start listening on its TCP port.
pub const TCP_WARM_UP_MILLIS: u64 = 1000;

/// The bootstrap of each kind of transport.
///
/// Over TCP the child gets no input, its output and error output are
/// piped, and the client connects to the loopback address at `port` after
/// the warm-up.  Over standard streams the child's input and output carry
/// the protocol and its error output carries diagnostics; there is no
/// waiting and no network step.  Either way the child dies with the session.
pub open spec fn bootstrap_of(transport_type: TransportType, port: u16) -> Bootstrap {
    match transport_type {
        TransportType::TCP => Bootstrap {
            stdin: Disposition::Null,
            stdout: Disposition::Piped,
            stderr: Disposition::Piped,
            kill_on_drop: true,
            warm_up_millis: TCP_WARM_UP_MILLIS,
            endpoint: Endpoint::Tcp { host: Ipv4(127, 0, 0, 1), port },
        },
        TransportType::STDIO => Bootstrap {
            stdin: Disposition::Piped,
            stdout: Disposition::Piped,
            stderr: Disposition::Piped,
            kill_on_drop: true,
            warm_up_millis: 0,
            endpoint: Endpoint::Stdio,
        },
    }
}

/// Lays down how a transport of the given kind is brought up.
pub fn bootstrap(transport_type: TransportType, port: u16) -> (plan: Bootstrap)
    ensures
        plan == bootstrap_of(transport_type, port),
{
    match transport_type {
        TransportType::TCP => Bootstrap {
            stdin: Disposition::Null,
            stdout: Disposition::Piped,
            stderr: Disposition::Piped,
            kill_on_drop: true,
            warm_up_millis: TCP_WARM_UP_MILLIS,
            endpoint: Endpoint::Tcp { host: Ipv4(127, 0, 0, 1), port },
        },
        TransportType::STDIO => Bootstrap {
            stdin: Disposition::Piped,
            stdout: Disposition::Piped,
            stderr: Disposition::Piped,
            kill_on_drop: true,
            warm_up_millis: 0,
            endpoint: Endpoint::Stdio,
        },
    }
}

} // verus!
