use vstd::prelude::*;
use crate::time::Duration;

verus! {

/// The timeouts of a connection.
#[derive(Copy, Clone)]
pub struct Timeouts {
    pub connect: Duration,
    pub read: Duration,
    pub write: Duration,
}

/// Opens TCP connections with the given timeouts.
#[derive(Copy, Clone)]
pub struct SocketConnector(pub Timeouts);

/// The state of an attempt to open a connection.
pub enum SocketConnect {
    /// The host's addresses are being looked up.
    Start { host: String, port: u16, timeouts: Timeouts },
    /// A connection to one address is being opened; `remaining` addresses are left to try.
    Connecting { remaining: usize, timeouts: Timeouts },
    /// The connection is open.
    Ready,
    /// The attempt failed.
    Failed,
}

/// What happened since the last step.
pub enum ConnectEvent {
    /// The host resolved to `count` addresses.
    Resolved { count: usize },
    /// Looking the host up failed.
    ResolveFailed,
    /// The connection to the current address opened.
    Connected,
    /// The connection to the current address failed; `timed_out` when the connect timeout ran
    /// out.
    ConnectFailed { timed_out: bool },
}

/// Why an attempt failed.
pub enum ConnectFailure {
    /// Looking the host up failed; the lookup's error is the attempt's error.
    Resolve,
    /// The host resolved to no address: "resolved 0 addresses from hostname".
    NoAddresses,
    /// The last address did not answer within the connect timeout: "connection timed out".
    TimedOut,
    /// Connecting to the last address failed; that error is the attempt's error.
    Refused,
}

/// What the caller does next.
pub enum ConnectAction {
    /// Look up the addresses of `host`.
    Resolve { host: String, port: u16 },
    /// Connect to the next address, giving up after `timeout`.
    Connect { timeout: Duration },
    /// Set up the open connection: no delay, keep-alive probes after `keep_alive`, and the read
    /// and write timeouts.
    Configure { keep_alive: Duration, read_timeout: Duration, write_timeout: Duration },
    /// Give up.
    Fail(ConnectFailure),
    /// Nothing: the attempt is over.
    Done,
}

impl SocketConnector {
    /// Starts opening a connection to `host` at `port`; the first action is to look the host up.
    pub fn connect(&self, host: &str, port: u16) -> (res: (SocketConnect, ConnectAction))
        ensures
            res.0 matches SocketConnect::Start { host: h, port: p, timeouts } && h@ == host@ && p
                == port && timeouts == self.0,
            res.1 matches ConnectAction::Resolve { host: h, port: p } && h@ == host@ && p == port,
    {
        (
            SocketConnect::Start { host: host.to_string(), port, timeouts: self.0 },
            ConnectAction::Resolve { host: host.to_string(), port },
        )
    }
}

/// The keep-alive interval of a connection: the shorter of its read and write timeouts.
pub open spec fn keep_alive_of(t: Timeouts) -> nat {
    if t.read@ <= t.write@ {
        t.read@
    } else {
        t.write@
    }
}

impl SocketConnect {
    /// Decides the next state and action after `event`.
    ///
    /// Once the host is resolved, its addresses are tried in order, each with the connect
    /// timeout, until one opens; the attempt fails with the error of the last address when none
    /// does, and at once when the host resolves to none. An open connection gets keep-alive
    /// probes after the shorter of the read and write timeouts. An event that does not fit the
    /// state ends the attempt as it is.
    pub fn step(self, event: ConnectEvent) -> (res: (SocketConnect, ConnectAction))
        ensures
            match (self, event) {
                (SocketConnect::Start { timeouts, .. }, ConnectEvent::Resolved { count }) => if count
                    == 0 {
                    res.0 is Failed && res.1 matches ConnectAction::Fail(ConnectFailure::NoAddresses)
                } else {
                    &&& res.0 matches SocketConnect::Connecting { remaining, timeouts: t } && remaining
                        == count - 1 && t == timeouts
                    &&& res.1 matches ConnectAction::Connect { timeout } && timeout == timeouts.connect
                },
                (SocketConnect::Start { .. }, ConnectEvent::ResolveFailed) => res.0 is Failed
                    && res.1 matches ConnectAction::Fail(ConnectFailure::Resolve),
                (SocketConnect::Connecting { timeouts, .. }, ConnectEvent::Connected) => {
                    &&& res.0 is Ready
                    &&& res.1 matches ConnectAction::Configure { keep_alive, read_timeout, write_timeout }
                        && keep_alive@ == keep_alive_of(timeouts) && read_timeout == timeouts.read
                        && write_timeout == timeouts.write
                },
                (SocketConnect::Connecting { remaining, timeouts }, ConnectEvent::ConnectFailed {
                    timed_out,
                }) => if remaining > 0 {
                    &&& res.0 matches SocketConnect::Connecting { remaining: r, timeouts: t } && r
                        == remaining - 1 && t == timeouts
                    &&& res.1 matches ConnectAction::Connect { timeout } && timeout == timeouts.connect
                } else if timed_out {
                    res.0 is Failed && res.1 matches ConnectAction::Fail(ConnectFailure::TimedOut)
                } else {
                    res.0 is Failed && res.1 matches ConnectAction::Fail(ConnectFailure::Refused)
                },
                (s, _) => res.0 == s && res.1 is Done,
            },
    {
        match self {
            SocketConnect::Start { host, port, timeouts } => match event {
                ConnectEvent::Resolved { count } => {
                    if count == 0 {
                        (SocketConnect::Failed, ConnectAction::Fail(ConnectFailure::NoAddresses))
                    } else {
                        (
                            SocketConnect::Connecting { remaining: count - 1, timeouts },
                            ConnectAction::Connect { timeout: timeouts.connect },
                        )
                    }
                },
                ConnectEvent::ResolveFailed => (
                    SocketConnect::Failed,
                    ConnectAction::Fail(ConnectFailure::Resolve),
                ),
                _ => (SocketConnect::Start { host, port, timeouts }, ConnectAction::Done),
            },
            SocketConnect::Connecting { remaining, timeouts } => match event {
                ConnectEvent::Connected => (
                    SocketConnect::Ready,
                    ConnectAction::Configure {
                        keep_alive: timeouts.read.min(timeouts.write),
                        read_timeout: timeouts.read,
                        write_timeout: timeouts.write,
                    },
                ),
                ConnectEvent::ConnectFailed { timed_out } => {
                    if remaining > 0 {
                        (
                            SocketConnect::Connecting { remaining: remaining - 1, timeouts },
                            ConnectAction::Connect { timeout: timeouts.connect },
                        )
                    } else if timed_out {
                        (SocketConnect::Failed, ConnectAction::Fail(ConnectFailure::TimedOut))
                    } else {
                        (SocketConnect::Failed, ConnectAction::Fail(ConnectFailure::Refused))
                    }
                },
                _ => (SocketConnect::Connecting { remaining, timeouts }, ConnectAction::Done),
            },
            SocketConnect::Ready => (SocketConnect::Ready, ConnectAction::Done),
            SocketConnect::Failed => (SocketConnect::Failed, ConnectAction::Done),
        }
    }
}

} // verus!
