//! Readiness checking: the decision whether one probe attempt counts as
//! ready, the logging checkpoint that throttles "still not ready" lines
//! during polling, and the shared readiness flag with its monotonicity law.
//!
//! The probe attempts themselves (an HTTP GET or a raw TCP connect) happen
//! outside this crate; what they observed is handed in as a value.

use vstd::prelude::*;

use crate::config::Protocol;

verus! {

/// The polling cadence of the readiness retry loop, in milliseconds.
pub const RETRY_INTERVAL_MS: u64 = 10;

/// The wall-clock budget of the bounded startup probe, in milliseconds;
/// chosen to stay inside a roughly ten-second platform startup budget.
pub const STARTUP_PROBE_BUDGET_MS: u64 = 9800;

/// What one probe attempt observed: the status of an HTTP probe response,
/// a completed or failed TCP connection, or a transport failure.
pub enum ProbeObservation {
    /// The HTTP probe got a response with this status code.
    HttpStatus(u16),
    /// The TCP probe completed iff the payload is true.
    TcpConnect(bool),
    /// The probe could not reach the application at all.
    Unreachable,
}

/// Whether an observation counts as ready. An HTTP status counts iff
/// `100 <= status < min_unhealthy_status`; a TCP probe counts iff the
/// connection completed, with no HTTP semantics involved; a transport
/// failure never counts.
pub open spec fn probe_ready_spec(
    protocol: Protocol,
    min_unhealthy_status: u16,
    observation: ProbeObservation,
) -> bool {
    match (protocol, observation) {
        (Protocol::Http, ProbeObservation::HttpStatus(status)) => 100 <= status && status
            < min_unhealthy_status,
        (Protocol::Tcp, ProbeObservation::TcpConnect(connected)) => connected,
        _ => false,
    }
}

/// Decides one probe attempt, mirroring `probe_ready_spec`.
pub fn probe_ready(
    protocol: Protocol,
    min_unhealthy_status: u16,
    observation: &ProbeObservation,
) -> (r: bool)
    ensures
        r == probe_ready_spec(protocol, min_unhealthy_status, *observation),
{
    match (protocol, observation) {
        (Protocol::Http, ProbeObservation::HttpStatus(status)) => {
            100 <= *status && *status < min_unhealthy_status
        },
        (Protocol::Tcp, ProbeObservation::TcpConnect(connected)) => *connected,
        _ => false,
    }
}

/// A TCP probe succeeds exactly when the connection completed, with no
/// dependence on the unhealthy-status threshold or any other HTTP
/// semantics.
pub proof fn lemma_tcp_probe_only_connection(t1: u16, t2: u16, connected: bool)
    ensures
        probe_ready_spec(Protocol::Tcp, t1, ProbeObservation::TcpConnect(connected)) == connected,
        probe_ready_spec(Protocol::Tcp, t1, ProbeObservation::TcpConnect(connected))
            == probe_ready_spec(Protocol::Tcp, t2, ProbeObservation::TcpConnect(connected)),
{
}

/// The readiness reported by the startup health check: the probe's own
/// result where the probe ran to completion, and not-ready where the
/// bounded budget expired first.
pub fn startup_readiness(probe_completed: bool, probe_result: bool) -> (r: bool)
    ensures
        r == (probe_completed && probe_result),
{
    probe_completed && probe_result
}

/// A logging checkpoint: while the readiness loop polls at a fixed cadence,
/// a "still not ready" line is only emitted when the elapsed time crosses a
/// threshold that doubles at each emission, so log volume shrinks
/// geometrically while probing continues.
pub struct Checkpoint {
    threshold_ms: u64,
}

impl Checkpoint {
    /// The elapsed time the next log line waits for.
    pub closed spec fn threshold(&self) -> u64 {
        self.threshold_ms
    }

    /// The threshold is strictly positive, so a doubling step always grows it.
    pub open spec fn wf(&self) -> bool {
        self.threshold() > 0
    }

    /// A fresh checkpoint, ready to emit its first line one polling
    /// interval in.
    pub fn new() -> (r: Self)
        ensures
            r.threshold() == RETRY_INTERVAL_MS,
            r.wf(),
    {
        Checkpoint { threshold_ms: RETRY_INTERVAL_MS }
    }

    /// Whether the elapsed time has crossed the current threshold.
    pub fn lapsed(&self, elapsed_ms: u64) -> (r: bool)
        ensures
            r == (elapsed_ms >= self.threshold()),
    {
        elapsed_ms >= self.threshold_ms
    }

    /// The current threshold, as logged alongside a "not ready" line.
    pub fn next_ms(&self) -> (r: u64)
        ensures
            r == self.threshold(),
    {
        self.threshold_ms
    }

    /// Doubles the threshold (saturating); it never decreases.
    pub fn increment(&mut self)
        ensures
            final(self).threshold() == if 2 * old(self).threshold() <= u64::MAX {
                2 * old(self).threshold()
            } else {
                u64::MAX as int
            },
            final(self).threshold() >= old(self).threshold(),
            old(self).wf() ==> final(self).wf(),
            old(self).wf() && old(self).threshold() < u64::MAX ==> final(self).threshold() > old(
                self,
            ).threshold(),
    {
        if self.threshold_ms <= u64::MAX / 2 {
            self.threshold_ms = 2 * self.threshold_ms;
        } else {
            self.threshold_ms = u64::MAX;
        }
    }

    /// One retry tick: reports whether a "not ready" line is due, and if so
    /// advances the threshold; the threshold never decreases, so between
    /// one emission and the next the elapsed time must at least double.
    pub fn tick(&mut self, elapsed_ms: u64) -> (r: bool)
        ensures
            r == (elapsed_ms >= old(self).threshold()),
            r ==> final(self).threshold() == if 2 * old(self).threshold() <= u64::MAX {
                2 * old(self).threshold()
            } else {
                u64::MAX as int
            },
            !r ==> *final(self) == *old(self),
            final(self).threshold() >= old(self).threshold(),
            old(self).wf() ==> final(self).wf(),
    {
        if self.lapsed(elapsed_ms) {
            self.increment();
            true
        } else {
            false
        }
    }
}

/// The process-lifetime readiness flag: false at boot, set to true at most
/// meaningfully once, never reset. Request contexts share one flag behind
/// an atomic cell; every write stores true, which is what makes the benign
/// write race harmless.
pub struct ReadinessFlag {
    ready: bool,
}

impl ReadinessFlag {
    /// Whether the application has been seen ready.
    pub closed spec fn is_ready(&self) -> bool {
        self.ready
    }

    /// A fresh flag: not ready.
    pub fn new() -> (r: Self)
        ensures
            !r.is_ready(),
    {
        ReadinessFlag { ready: false }
    }

    /// Reads the flag.
    pub fn observe(&self) -> (r: bool)
        ensures
            r == self.is_ready(),
    {
        self.ready
    }

    /// Sets the flag; the only mutation there is, and it only ever stores
    /// true, so the flag is monotonic.
    pub fn set_ready(&mut self)
        ensures
            final(self).is_ready(),
    {
        self.ready = true;
    }
}

/// One operation on the shared flag: an unconditional store of true, or a load.
pub enum FlagOp {
    Store,
    Load,
}

/// The flag's value after a sequence of operations, starting from `init`:
/// every store writes true, a load changes nothing.
pub open spec fn flag_after(init: bool, ops: Seq<FlagOp>) -> bool
    decreases ops.len(),
{
    if ops.len() == 0 {
        init
    } else {
        match ops.last() {
            FlagOp::Store => true,
            FlagOp::Load => flag_after(init, ops.drop_last()),
        }
    }
}

/// What a read at position `i` observes: the flag's value after the first
/// `i` operations.
pub open spec fn read_result(init: bool, ops: Seq<FlagOp>, i: int) -> bool {
    flag_after(init, ops.take(i))
}

/// The flag is monotonic: once it holds true after some prefix of the
/// operations, it holds true after every longer prefix, whatever the
/// remaining operations are.
pub proof fn lemma_flag_monotonic(init: bool, ops: Seq<FlagOp>, i: int, j: int)
    requires
        0 <= i <= j <= ops.len(),
        flag_after(init, ops.take(i)),
    ensures
        flag_after(init, ops.take(j)),
    decreases j - i,
{
    if i < j {
        lemma_flag_monotonic(init, ops, i, j - 1);
        assert(ops.take(j).drop_last() =~= ops.take(j - 1));
        assert(ops.take(j).last() == ops[j - 1]);
    }
}

/// Once any reader observes true, no later reader observes false: in every
/// interleaving of reads and unconditional sets-to-true, the sequence of
/// observed values is monotone.
pub proof fn lemma_reader_monotonic(init: bool, ops: Seq<FlagOp>, i: int, j: int)
    requires
        0 <= i <= j < ops.len(),
        ops[i] is Load,
        ops[j] is Load,
        read_result(init, ops, i),
    ensures
        read_result(init, ops, j),
{
    lemma_flag_monotonic(init, ops, i, j);
}

} // verus!
