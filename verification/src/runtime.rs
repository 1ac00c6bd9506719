//! Run-time state of the proxy rules, kept in memory only.
use vstd::prelude::*;


verus! {

/// Run-time status of a proxy rule.
#[derive(Debug, Clone, Copy, PartialEq, Eq, Structural)]
pub enum ProxyStatus {
    Starting,
    Running,
    Stopping,
    Stopped,
    Error,
}

/// The lowercase name of a status.
pub open spec fn status_name(s: ProxyStatus) -> Seq<char> {
    match s {
        ProxyStatus::Starting => "starting"@,
        ProxyStatus::Running => "running"@,
        ProxyStatus::Stopping => "stopping"@,
        ProxyStatus::Stopped => "stopped"@,
        ProxyStatus::Error => "error"@,
    }
}

impl ProxyStatus {
    /// The lowercase name of the status, as the panel shows it.
    pub fn as_str(&self) -> (s: &'static str)
        ensures
            s@ == status_name(*self),
    {
        match self {
            ProxyStatus::Starting => "starting",
            ProxyStatus::Running => "running",
            ProxyStatus::Stopping => "stopping",
            ProxyStatus::Stopped => "stopped",
            ProxyStatus::Error => "error",
        }
    }
}

/// Run-time counters of one proxy rule.
#[derive(Debug, Clone, Copy, PartialEq, Eq, Structural)]
pub struct RuntimeState {
    pub status: ProxyStatus,
    /// Open user connections.
    pub connections: u64,
    /// Bytes received from users so far.
    pub bytes_in: u64,
    /// Bytes sent to users so far.
    pub bytes_out: u64,
    /// Whether a bandwidth sample was taken yet.
    pub sampled: bool,
    /// When the last sample was taken (nanoseconds, monotonic clock).
    pub last_sample_at: u64,
    /// `bytes_in` at the last sample.
    pub last_sample_bytes_in: u64,
    /// `bytes_out` at the last sample.
    pub last_sample_bytes_out: u64,
    /// Bytes received in the last measured window (bandwidth in is this
    /// over `window_nanos`).
    pub window_bytes_in: u64,
    /// Bytes sent in the last measured window.
    pub window_bytes_out: u64,
    /// Length of the last measured window in nanoseconds; 0 while no window
    /// was measured (the bandwidth then reads 0).
    pub window_nanos: u64,
}

/// The state of a rule that was just added: stopped, no traffic, no sample.
pub open spec fn fresh_state() -> RuntimeState {
    RuntimeState {
        status: ProxyStatus::Stopped,
        connections: 0,
        bytes_in: 0,
        bytes_out: 0,
        sampled: false,
        last_sample_at: 0,
        last_sample_bytes_in: 0,
        last_sample_bytes_out: 0,
        window_bytes_in: 0,
        window_bytes_out: 0,
        window_nanos: 0,
    }
}

impl RuntimeState {
    /// The state of a rule that was just added.
    pub fn new() -> (s: Self)
        ensures
            s == fresh_state(),
    {
        RuntimeState {
            status: ProxyStatus::Stopped,
            connections: 0,
            bytes_in: 0,
            bytes_out: 0,
            sampled: false,
            last_sample_at: 0,
            last_sample_bytes_in: 0,
            last_sample_bytes_out: 0,
            window_bytes_in: 0,
            window_bytes_out: 0,
            window_nanos: 0,
        }
    }
}

/// `a - b`, or 0 when `b` exceeds `a`.
pub open spec fn sat_sub(a: u64, b: u64) -> u64 {
    if a >= b {
        (a - b) as u64
    } else {
        0
    }
}

/// The state after a bandwidth sample at `now` (nanoseconds): when an
/// earlier sample was taken and time has passed since, the window from it
/// to `now` is measured; the sample point moves to `now` either way.
pub open spec fn sampled_state(s: RuntimeState, now: u64) -> RuntimeState {
    let measured = s.sampled && now > s.last_sample_at;
    RuntimeState {
        sampled: true,
        last_sample_at: now,
        last_sample_bytes_in: s.bytes_in,
        last_sample_bytes_out: s.bytes_out,
        window_bytes_in: if measured {
            sat_sub(s.bytes_in, s.last_sample_bytes_in)
        } else {
            s.window_bytes_in
        },
        window_bytes_out: if measured {
            sat_sub(s.bytes_out, s.last_sample_bytes_out)
        } else {
            s.window_bytes_out
        },
        window_nanos: if measured {
            (now - s.last_sample_at) as u64
        } else {
            s.window_nanos
        },
        ..s
    }
}

impl RuntimeState {
    /// This state after a bandwidth sample at `now`.
    pub fn sample(&self, now: u64) -> (r: Self)
        ensures
            r == sampled_state(*self, now),
    {
        let measured = self.sampled && now > self.last_sample_at;
        RuntimeState {
            sampled: true,
            last_sample_at: now,
            last_sample_bytes_in: self.bytes_in,
            last_sample_bytes_out: self.bytes_out,
            window_bytes_in: if measured {
                self.bytes_in.saturating_sub(self.last_sample_bytes_in)
            } else {
                self.window_bytes_in
            },
            window_bytes_out: if measured {
                self.bytes_out.saturating_sub(self.last_sample_bytes_out)
            } else {
                self.window_bytes_out
            },
            window_nanos: if measured {
                now - self.last_sample_at
            } else {
                self.window_nanos
            },
            ..*self
        }
    }
}

} // verus!
