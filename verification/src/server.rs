//! The server's lifecycle and the bookkeeping of its connections.

use vstd::prelude::*;

verus! {

/// Where the server is in its lifecycle.
#[derive(Debug, Clone, Copy, PartialEq, Eq, Structural)]
pub enum ServerStatus {
    Stopped,
    Starting,
    Running,
    Stopping,
}

/// How important a log line is.
#[derive(Debug, Clone, Copy, PartialEq, Eq, Structural)]
pub enum LogLevel {
    Info,
    Warn,
    Error,
    Http,
}

/// The status of the server together with its `running` flag, which is
/// raised when it reports `Running` and lowered when it reports
/// `Stopped`.
pub struct Lifecycle {
    status: ServerStatus,
    running: bool,
}

impl Lifecycle {
    pub closed spec fn spec_status(&self) -> ServerStatus {
        self.status
    }

    pub closed spec fn spec_running(&self) -> bool {
        self.running
    }

    /// A stopped server.
    pub fn new() -> (r: Lifecycle)
        ensures
            r.spec_status() == ServerStatus::Stopped,
            !r.spec_running(),
    {
        Lifecycle { status: ServerStatus::Stopped, running: false }
    }

    pub fn status(&self) -> (r: ServerStatus)
        ensures
            r == self.spec_status(),
    {
        self.status
    }

    pub fn is_running(&self) -> (r: bool)
        ensures
            r == self.spec_running(),
    {
        self.running
    }

    /// Records a new status: `Running` raises the flag, `Stopped` lowers
    /// it, the other two leave it as it was.
    pub fn set_status(&mut self, status: ServerStatus)
        ensures
            final(self).spec_status() == status,
            final(self).spec_running() == match status {
                ServerStatus::Running => true,
                ServerStatus::Stopped => false,
                _ => old(self).spec_running(),
            },
    {
        self.status = status;
        match status {
            ServerStatus::Running => {
                self.running = true;
            },
            ServerStatus::Stopped => {
                self.running = false;
            },
            _ => {},
        }
    }

    /// Whether a start request is taken: not while the flag is raised or
    /// the server is starting or running.
    pub fn can_start(&self) -> (r: bool)
        ensures
            r == !(self.spec_running() || self.spec_status() == ServerStatus::Starting
                || self.spec_status() == ServerStatus::Running),
    {
        !(self.running || self.status == ServerStatus::Starting || self.status
            == ServerStatus::Running)
    }
}

/// Whether one more connection is accepted under the cap `max` while
/// `current` are tracked.
pub fn accepts_connection(max: Option<usize>, current: usize) -> (r: bool)
    ensures
        r == match max {
            Some(m) => current < m,
            None => true,
        },
{
    match max {
        Some(m) => current < m,
        None => true,
    }
}

/// Whether an update of a connection is shown now, and the time it is
/// then recorded as last shown. A new connection is always shown; a known
/// one (last shown at `prev.0`, with status `prev.1`) when 200 ms have
/// passed, its progress jumped, it has sent everything or its status
/// changed.
pub fn ui_emit(
    prev: Option<(u64, &str)>,
    now_ms: u64,
    progress_jumped: bool,
    bytes_sent: u64,
    bytes_total: u64,
    status: &str,
) -> (r: (bool, u64))
    ensures
        r.0 == match prev {
            None => true,
            Some(p) => (if now_ms >= p.0 {
                now_ms - p.0
            } else {
                0
            }) >= 200 || progress_jumped || bytes_sent >= bytes_total || status@ != p.1@,
        },
        r.1 == (if r.0 {
            now_ms
        } else {
            match prev {
                Some(p) => p.0,
                None => now_ms,
            }
        }),
{
    let emit = match prev {
        None => true,
        Some(p) => {
            let a = crate::text::chars_of(status);
            let b = crate::text::chars_of(p.1);
            now_ms.saturating_sub(p.0) >= 200 || progress_jumped || bytes_sent >= bytes_total
                || !crate::text::chars_eq(&a, &b)
        },
    };
    let last = if emit {
        now_ms
    } else {
        match prev {
            Some(p) => p.0,
            None => now_ms,
        }
    };
    (emit, last)
}

} // verus!
