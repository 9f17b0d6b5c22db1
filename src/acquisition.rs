//! The request/response cycle of one endpoint: what each fetch outcome does
//! to the session and to the counters.
use vstd::prelude::*;
use crate::frame::{
    decode_accelerometer, decode_temp_pressure, accelerometer_of, temp_pressure_of, DecodeError,
    SensorData, ACCELEROMETER_FRAME_LEN, TEMP_PRESSURE_FRAME_LEN,
};
use crate::reader::ReadError;
use crate::stats::Counters;

verus! {

/// Consecutive failed fetches after which a session is abandoned.
pub const MAX_CONSECUTIVE_ERRORS: u32 = 3;

/// Milliseconds without a decoded frame after which a session counts as stalled.
pub const STALL_TIMEOUT_MS: u64 = 5000;

/// The request opcode sent before every frame.
pub const REQUEST_OPCODE: [u8; 3] = [0x67, 0x65, 0x74];

/// Which frame layout an endpoint produces.
#[derive(Debug, Clone, Copy, PartialEq, Eq, Structural)]
pub enum EndpointKind {
    TempPressure,
    Accelerometer,
}

impl EndpointKind {
    pub open spec fn frame_len_spec(self) -> nat {
        match self {
            EndpointKind::TempPressure => TEMP_PRESSURE_FRAME_LEN as nat,
            EndpointKind::Accelerometer => ACCELEROMETER_FRAME_LEN as nat,
        }
    }

    /// Bytes in one frame of this kind.
    pub fn frame_len(&self) -> (r: usize)
        ensures
            r == self.frame_len_spec(),
    {
        match self {
            EndpointKind::TempPressure => TEMP_PRESSURE_FRAME_LEN,
            EndpointKind::Accelerometer => ACCELEROMETER_FRAME_LEN,
        }
    }

    pub open spec fn decode_spec(self, f: Seq<u8>) -> Result<SensorData, DecodeError> {
        match self {
            EndpointKind::TempPressure => temp_pressure_of(f),
            EndpointKind::Accelerometer => accelerometer_of(f),
        }
    }

    /// Decodes one frame with the decoder of this kind.
    pub fn decode(&self, frame: &[u8]) -> (r: Result<SensorData, DecodeError>)
        requires
            frame@.len() == self.frame_len_spec(),
        ensures
            r == self.decode_spec(frame@),
            r matches Ok(rec) ==> rec.well_formed(),
    {
        match self {
            EndpointKind::TempPressure => decode_temp_pressure(frame),
            EndpointKind::Accelerometer => decode_accelerometer(frame),
        }
    }
}

/// What one fetch produced.
#[derive(Debug, Clone, Copy, PartialEq, Eq, Structural)]
pub enum FetchOutcome {
    Decoded(SensorData),
    Rejected(DecodeError),
    ReadFailed(ReadError),
}

/// Why a session was abandoned.
#[derive(Debug, Clone, Copy, PartialEq, Eq, Structural)]
pub enum SessionEnd {
    /// A checksum mismatch: the byte stream is out of step.
    Desync,
    /// `MAX_CONSECUTIVE_ERRORS` fetches in a row failed.
    TooManyErrors,
    /// No frame was decoded for longer than `STALL_TIMEOUT_MS`.
    Stalled,
}

/// What the loop does after a fetch.
#[derive(Debug, Clone, Copy, PartialEq, Eq, Structural)]
pub enum LoopStep {
    /// Render this record, append it to the sink, and go on.
    Write(SensorData),
    /// Go on with the next request.
    Continue,
    /// Close the session.
    End(SessionEnd),
}

/// A step together with the increments it makes to the counters.
#[derive(Debug, Clone, Copy, PartialEq, Eq, Structural)]
pub struct Verdict {
    pub step: LoopStep,
    pub delta: Counters,
}

pub open spec fn delta_of(packets: u64, checksums: u64, timeouts: u64, syncs: u64) -> Counters {
    Counters {
        packets_received: packets,
        checksum_errors: checksums,
        timeout_errors: timeouts,
        connection_errors: 0,
        reconnections: 0,
        sync_resets: syncs,
    }
}

/// Decision after a failed fetch that leaves the session in use so far.
pub open spec fn after_failure(errors: u32, stalled: bool) -> LoopStep {
    if errors >= MAX_CONSECUTIVE_ERRORS {
        LoopStep::End(SessionEnd::TooManyErrors)
    } else if stalled {
        LoopStep::End(SessionEnd::Stalled)
    } else {
        LoopStep::Continue
    }
}

/// From the count of consecutive failures before a fetch, its outcome, and
/// whether the stall deadline has passed: the new count and the verdict.
pub open spec fn judge(errors: u32, outcome: FetchOutcome, stalled: bool) -> (u32, Verdict) {
    match outcome {
        FetchOutcome::Decoded(rec) => (
            0,
            Verdict { step: LoopStep::Write(rec), delta: delta_of(1, 0, 0, 0) },
        ),
        FetchOutcome::Rejected(DecodeError::ChecksumMismatch { .. }) => (
            (errors + 1) as u32,
            Verdict { step: LoopStep::End(SessionEnd::Desync), delta: delta_of(0, 1, 0, 1) },
        ),
        FetchOutcome::Rejected(DecodeError::InvalidTimestamp) => (
            (errors + 1) as u32,
            Verdict {
                step: after_failure((errors + 1) as u32, stalled),
                delta: delta_of(0, 0, 0, 0),
            },
        ),
        FetchOutcome::ReadFailed(ReadError::Timeout { .. }) => (
            (errors + 1) as u32,
            Verdict {
                step: after_failure((errors + 1) as u32, stalled),
                delta: delta_of(0, 0, 1, 0),
            },
        ),
        FetchOutcome::ReadFailed(_) => (
            (errors + 1) as u32,
            Verdict {
                step: after_failure((errors + 1) as u32, stalled),
                delta: delta_of(0, 0, 0, 0),
            },
        ),
    }
}

/// The state of one live session: failed fetches since the last decoded frame.
pub struct Acquisition {
    consecutive_errors: u32,
}

impl Acquisition {
    pub closed spec fn errors(&self) -> u32 {
        self.consecutive_errors
    }

    /// A session still in use has seen fewer than the allowed failures in a row.
    pub open spec fn live(&self) -> bool {
        self.errors() < MAX_CONSECUTIVE_ERRORS
    }

    pub fn new() -> (r: Self)
        ensures
            r.errors() == 0,
            r.live(),
    {
        Acquisition { consecutive_errors: 0 }
    }

    /// Failed fetches since the last decoded frame.
    pub fn consecutive_errors(&self) -> (r: u32)
        ensures
            r == self.errors(),
    {
        self.consecutive_errors
    }

    /// Classifies one fetch outcome. `stalled` tells whether more than
    /// `STALL_TIMEOUT_MS` have passed since the last decoded frame.
    pub fn on_outcome(&mut self, outcome: &FetchOutcome, stalled: bool) -> (r: Verdict)
        requires
            old(self).live(),
        ensures
            (final(self).errors(), r) == judge(old(self).errors(), *outcome, stalled),
            !(r.step is End) ==> final(self).live(),
    {
        let zero = Counters::zero();
        match outcome {
            FetchOutcome::Decoded(rec) => {
                self.consecutive_errors = 0;
                Verdict { step: LoopStep::Write(*rec), delta: Counters { packets_received: 1, ..zero } }
            },
            FetchOutcome::Rejected(DecodeError::ChecksumMismatch { .. }) => {
                self.consecutive_errors = self.consecutive_errors + 1;
                Verdict {
                    step: LoopStep::End(SessionEnd::Desync),
                    delta: Counters { checksum_errors: 1, sync_resets: 1, ..zero },
                }
            },
            _ => {
                self.consecutive_errors = self.consecutive_errors + 1;
                let step = if self.consecutive_errors >= MAX_CONSECUTIVE_ERRORS {
                    LoopStep::End(SessionEnd::TooManyErrors)
                } else if stalled {
                    LoopStep::End(SessionEnd::Stalled)
                } else {
                    LoopStep::Continue
                };
                let delta = match outcome {
                    FetchOutcome::ReadFailed(ReadError::Timeout { .. }) => Counters {
                        timeout_errors: 1,
                        ..zero
                    },
                    _ => zero,
                };
                Verdict { step, delta }
            },
        }
    }
}

/// The outcomes of a session that the loop acts on: all of them up to and
/// including the first one that ends the session (no stall assumed).
pub open spec fn processed(errors: u32, outcomes: Seq<FetchOutcome>) -> Seq<FetchOutcome>
    decreases outcomes.len(),
{
    if outcomes.len() == 0 {
        outcomes
    } else {
        let (e, v) = judge(errors, outcomes[0], false);
        if v.step is End {
            seq![outcomes[0]]
        } else {
            seq![outcomes[0]] + processed(e, outcomes.drop_first())
        }
    }
}

/// Sum of the `packets_received` and `sync_resets` increments over a session.
pub open spec fn session_totals(errors: u32, outcomes: Seq<FetchOutcome>) -> (nat, nat)
    decreases outcomes.len(),
{
    if outcomes.len() == 0 {
        (0, 0)
    } else {
        let (e, v) = judge(errors, outcomes[0], false);
        let here = (v.delta.packets_received as nat, v.delta.sync_resets as nat);
        if v.step is End {
            here
        } else {
            let rest = session_totals(e, outcomes.drop_first());
            (here.0 + rest.0, here.1 + rest.1)
        }
    }
}

pub open spec fn count_decoded(s: Seq<FetchOutcome>) -> nat
    decreases s.len(),
{
    if s.len() == 0 {
        0
    } else {
        (if s[0] is Decoded { 1nat } else { 0nat }) + count_decoded(s.drop_first())
    }
}

pub open spec fn count_corrupt(s: Seq<FetchOutcome>) -> nat
    decreases s.len(),
{
    if s.len() == 0 {
        0
    } else {
        (if s[0] matches FetchOutcome::Rejected(DecodeError::ChecksumMismatch { .. }) {
            1nat
        } else {
            0nat
        }) + count_corrupt(s.drop_first())
    }
}

/// Over a session, the packets counted equal the frames decoded, and the
/// sync resets equal the corrupt frames met before the session was abandoned.
pub proof fn lemma_session_counts(errors: u32, outcomes: Seq<FetchOutcome>)
    requires
        errors < MAX_CONSECUTIVE_ERRORS,
    ensures
        session_totals(errors, outcomes).0 == count_decoded(processed(errors, outcomes)),
        session_totals(errors, outcomes).1 == count_corrupt(processed(errors, outcomes)),
        count_corrupt(processed(errors, outcomes)) <= 1,
    decreases outcomes.len(),
{
    if outcomes.len() > 0 {
        let (e, v) = judge(errors, outcomes[0], false);
        let p = processed(errors, outcomes);
        assert(p.len() > 0 && p[0] == outcomes[0]);
        if v.step is End {
            assert(p.drop_first() =~= Seq::<FetchOutcome>::empty());
            assert(count_decoded(p.drop_first()) == 0);
            assert(count_corrupt(p.drop_first()) == 0);
        } else {
            lemma_session_counts(e, outcomes.drop_first());
            assert(p.drop_first() =~= processed(e, outcomes.drop_first()));
        }
    }
}

} // verus!
