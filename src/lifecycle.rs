//! Connection lifecycle of one endpoint: handshake, reconnect back-off, and
//! the periodic flush/report schedule of the supervisor.
use vstd::prelude::*;
use vstd::string::StringExecFns;
use crate::acquisition::SessionEnd;
use crate::reader::IoErrorKind;
use crate::render::{digits_text, push_digits};
use crate::stats::Counters;

verus! {

/// The client's authentication token, sent right after connecting.
pub const AUTH_TOKEN: [u8; 6] = [0x69, 0x73, 0x75, 0x5f, 0x70, 0x74];

/// Delay before the first reconnect after a failure.
pub const MIN_RECONNECT_DELAY_MS: u64 = 20;

/// Ceiling of the reconnect delay.
pub const MAX_RECONNECT_DELAY_MS: u64 = 1000;

/// Longest uninterrupted piece of any wait: cancellation is seen within it.
pub const SLEEP_SLICE_MS: u64 = 100;

/// How long the server may take to greet.
pub const GREETING_GRACE_MS: u64 = 3000;

/// Flush period of the sink.
pub const FLUSH_INTERVAL_MS: u64 = 5000;

/// Period of the statistics report.
pub const STATS_INTERVAL_MS: u64 = 10000;

/// Wake-up period of the flush/report task.
pub const SUPERVISOR_TICK_MS: u64 = 500;

/// The delay before the next reconnect.
pub struct Backoff {
    delay_ms: u64,
}

impl Backoff {
    pub closed spec fn delay(&self) -> u64 {
        self.delay_ms
    }

    pub open spec fn wf(&self) -> bool {
        MIN_RECONNECT_DELAY_MS <= self.delay() <= MAX_RECONNECT_DELAY_MS
    }

    pub fn new() -> (r: Self)
        ensures
            r.wf(),
            r.delay() == MIN_RECONNECT_DELAY_MS,
    {
        Backoff { delay_ms: MIN_RECONNECT_DELAY_MS }
    }

    /// Milliseconds to wait before the next attempt.
    pub fn current(&self) -> (r: u64)
        ensures
            r == self.delay(),
    {
        self.delay_ms
    }

    /// After a failure: the delay doubles, up to the ceiling.
    pub fn on_failure(&mut self)
        requires
            old(self).wf(),
        ensures
            final(self).wf(),
            final(self).delay() == if 2 * old(self).delay() <= MAX_RECONNECT_DELAY_MS {
                2 * old(self).delay()
            } else {
                MAX_RECONNECT_DELAY_MS as int
            },
            final(self).delay() >= old(self).delay(),
    {
        if self.delay_ms <= MAX_RECONNECT_DELAY_MS / 2 {
            self.delay_ms = 2 * self.delay_ms;
        } else {
            self.delay_ms = MAX_RECONNECT_DELAY_MS;
        }
    }

    /// After a successful handshake: back to the minimum.
    pub fn reset(&mut self)
        ensures
            final(self).wf(),
            final(self).delay() == MIN_RECONNECT_DELAY_MS,
    {
        self.delay_ms = MIN_RECONNECT_DELAY_MS;
    }
}

/// The next piece of a wait with `remaining_ms` left: never longer than a slice.
pub fn sleep_slice(remaining_ms: u64) -> (r: u64)
    ensures
        r == if remaining_ms < SLEEP_SLICE_MS {
            remaining_ms
        } else {
            SLEEP_SLICE_MS
        },
        r <= SLEEP_SLICE_MS,
{
    if remaining_ms < SLEEP_SLICE_MS {
        remaining_ms
    } else {
        SLEEP_SLICE_MS
    }
}

/// What a read of the server greeting returned.
#[derive(Debug, Clone, Copy, PartialEq, Eq, Structural)]
pub enum GreetingRead {
    Bytes(usize),
    Error(IoErrorKind),
}

/// What the handshake does next.
#[derive(Debug, Clone, Copy, PartialEq, Eq, Structural)]
pub enum GreetingStep {
    /// A non-empty greeting arrived: the session is authenticated.
    Authenticated,
    /// Nothing yet: pause briefly and read again.
    Wait,
    /// The handshake failed.
    Failed(ConnectError),
}

/// Why no session was established.
#[derive(Debug, Clone, Copy, PartialEq, Eq, Structural)]
pub enum ConnectError {
    /// Socket set-up or connect failed.
    Unreachable,
    /// Sending the token or reading the greeting failed.
    HandshakeFailed,
    /// The grace period passed without a greeting.
    NoGreeting,
}

/// Checked before each greeting read: once the grace period is over the
/// handshake fails.
pub fn greeting_deadline(grace_elapsed: bool) -> (r: Option<ConnectError>)
    ensures
        r == if grace_elapsed {
            Some(ConnectError::NoGreeting)
        } else {
            None
        },
{
    if grace_elapsed {
        Some(ConnectError::NoGreeting)
    } else {
        None
    }
}

/// Any non-empty greeting authenticates; an empty read or a transient error
/// means waiting; any other error fails the handshake.
pub fn greeting_step(read: GreetingRead) -> (r: GreetingStep)
    ensures
        read matches GreetingRead::Bytes(n) ==> r == if n > 0 {
            GreetingStep::Authenticated
        } else {
            GreetingStep::Wait
        },
        read == GreetingRead::Error(IoErrorKind::Other) ==> r == GreetingStep::Failed(
            ConnectError::HandshakeFailed,
        ),
        read matches GreetingRead::Error(k) ==> (k != IoErrorKind::Other ==> r == GreetingStep::Wait),
{
    match read {
        GreetingRead::Bytes(n) => if n > 0 {
            GreetingStep::Authenticated
        } else {
            GreetingStep::Wait
        },
        GreetingRead::Error(IoErrorKind::Other) => GreetingStep::Failed(ConnectError::HandshakeFailed),
        GreetingRead::Error(_) => GreetingStep::Wait,
    }
}

/// The reconnect decision of a worker, with the counter increments it makes.
#[derive(Debug, Clone, Copy, PartialEq, Eq, Structural)]
pub struct Reconnect {
    pub wait_ms: u64,
    pub delta: Counters,
}

/// The worker state between sessions.
pub struct Worker {
    backoff: Backoff,
}

impl Worker {
    pub closed spec fn delay(&self) -> u64 {
        self.backoff.delay()
    }

    pub open spec fn wf(&self) -> bool {
        MIN_RECONNECT_DELAY_MS <= self.delay() <= MAX_RECONNECT_DELAY_MS
    }

    pub fn new() -> (r: Self)
        ensures
            r.wf(),
            r.delay() == MIN_RECONNECT_DELAY_MS,
    {
        Worker { backoff: Backoff::new() }
    }

    /// A connection or handshake failed: one connection error and one
    /// reconnection are counted, the present delay is waited out, and the
    /// next delay grows.
    pub fn on_connect_failed(&mut self) -> (r: Reconnect)
        requires
            old(self).wf(),
        ensures
            final(self).wf(),
            r.wait_ms == old(self).delay(),
            final(self).delay() >= old(self).delay(),
            final(self).delay() == if 2 * old(self).delay() <= MAX_RECONNECT_DELAY_MS {
                2 * old(self).delay()
            } else {
                MAX_RECONNECT_DELAY_MS as int
            },
            r.delta == (Counters { connection_errors: 1, reconnections: 1, ..Counters::zero_spec() }),
    {
        let wait_ms = self.backoff.current();
        self.backoff.on_failure();
        let zero = Counters::zero();
        Reconnect { wait_ms, delta: Counters { connection_errors: 1, reconnections: 1, ..zero } }
    }

    /// A handshake succeeded: the back-off starts over.
    pub fn on_connected(&mut self)
        ensures
            final(self).wf(),
            final(self).delay() == MIN_RECONNECT_DELAY_MS,
    {
        self.backoff.reset();
    }

    /// A session was abandoned for `end`: one reconnection is counted and the
    /// present delay is waited out before connecting again.
    pub fn on_session_end(&mut self, end: SessionEnd) -> (r: Reconnect)
        requires
            old(self).wf(),
        ensures
            final(self).wf(),
            r.wait_ms == old(self).delay(),
            final(self).delay() >= old(self).delay(),
            final(self).delay() == if 2 * old(self).delay() <= MAX_RECONNECT_DELAY_MS {
                2 * old(self).delay()
            } else {
                MAX_RECONNECT_DELAY_MS as int
            },
            r.delta == (Counters { reconnections: 1, ..Counters::zero_spec() }),
    {
        let wait_ms = self.backoff.current();
        self.backoff.on_failure();
        let zero = Counters::zero();
        Reconnect { wait_ms, delta: Counters { reconnections: 1, ..zero } }
    }
}

/// What the flush/report task does on a tick.
#[derive(Debug, Clone, Copy, PartialEq, Eq, Structural)]
pub struct TickActions {
    pub flush: bool,
    pub report: bool,
}

/// When the flush/report task last flushed and last reported, in
/// milliseconds on a monotonic clock.
pub struct Schedule {
    last_flush_ms: u64,
    last_report_ms: u64,
}

impl Schedule {
    pub closed spec fn last_flush(&self) -> u64 {
        self.last_flush_ms
    }

    pub closed spec fn last_report(&self) -> u64 {
        self.last_report_ms
    }

    pub fn new(now_ms: u64) -> (r: Self)
        ensures
            r.last_flush() == now_ms,
            r.last_report() == now_ms,
    {
        Schedule { last_flush_ms: now_ms, last_report_ms: now_ms }
    }

    /// A flush is due once `FLUSH_INTERVAL_MS` have passed since the last
    /// one, a report once `STATS_INTERVAL_MS` have passed; each due action
    /// restarts its own interval at `now_ms`.
    pub fn tick(&mut self, now_ms: u64) -> (r: TickActions)
        requires
            old(self).last_flush() <= now_ms,
            old(self).last_report() <= now_ms,
        ensures
            r.flush == (now_ms - old(self).last_flush() >= FLUSH_INTERVAL_MS),
            r.report == (now_ms - old(self).last_report() >= STATS_INTERVAL_MS),
            final(self).last_flush() == if r.flush {
                now_ms
            } else {
                old(self).last_flush()
            },
            final(self).last_report() == if r.report {
                now_ms
            } else {
                old(self).last_report()
            },
    {
        let flush = now_ms - self.last_flush_ms >= FLUSH_INTERVAL_MS;
        let report = now_ms - self.last_report_ms >= STATS_INTERVAL_MS;
        if flush {
            self.last_flush_ms = now_ms;
        }
        if report {
            self.last_report_ms = now_ms;
        }
        TickActions { flush, report }
    }
}

/// The periodic report of both endpoints.
pub open spec fn report_text(s1: Counters, s2: Counters) -> Seq<char> {
    "[STATS] S1: "@ + digits_text(s1.packets_received as nat) + " ok, "@ + digits_text(
        s1.checksum_errors as nat,
    ) + " csum_err, "@ + digits_text(s1.reconnections as nat) + " reconn, "@ + digits_text(
        s1.sync_resets as nat,
    ) + " sync | S2: "@ + digits_text(s2.packets_received as nat) + " ok, "@ + digits_text(
        s2.checksum_errors as nat,
    ) + " csum_err, "@ + digits_text(s2.reconnections as nat) + " reconn, "@ + digits_text(
        s2.sync_resets as nat,
    ) + " sync"@
}

/// Renders the periodic report line.
pub fn report_line(s1: &Counters, s2: &Counters) -> (r: String)
    ensures
        r@ == report_text(*s1, *s2),
{
    let mut out = String::new();
    out.append("[STATS] S1: ");
    push_digits(&mut out, s1.packets_received as u128);
    out.append(" ok, ");
    push_digits(&mut out, s1.checksum_errors as u128);
    out.append(" csum_err, ");
    push_digits(&mut out, s1.reconnections as u128);
    out.append(" reconn, ");
    push_digits(&mut out, s1.sync_resets as u128);
    out.append(" sync | S2: ");
    push_digits(&mut out, s2.packets_received as u128);
    out.append(" ok, ");
    push_digits(&mut out, s2.checksum_errors as u128);
    out.append(" csum_err, ");
    push_digits(&mut out, s2.reconnections as u128);
    out.append(" reconn, ");
    push_digits(&mut out, s2.sync_resets as u128);
    out.append(" sync");
    proof {
        assert(out@ =~= report_text(*s1, *s2));
    }
    out
}

/// Total packets over both endpoints, as the final report states it.
pub fn total_packets(s1: &Counters, s2: &Counters) -> (r: u128)
    ensures
        r == s1.packets_received + s2.packets_received,
{
    s1.packets_received as u128 + s2.packets_received as u128
}

} // verus!
