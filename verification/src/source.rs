//! The push-model data source with backpressure.
//!
//! Production is throttled by the downstream queue's occupancy signals:
//! `need_data` schedules the production task (a no-op when one is already
//! scheduled) and `enough_data` cancels it. Each produced buffer carries a
//! presentation timestamp and a duration computed by exact integer
//! arithmetic from the cumulative sample counter and the fixed sample
//! rate, so timestamps never drift.

use vstd::prelude::*;
use vstd::arithmetic::div_mod::lemma_div_is_ordered;
use vstd::arithmetic::mul::lemma_mul_inequality;
use crate::caps::Capability;
use crate::types::{Buffer, EngineError};

verus! {

/// Nanoseconds in one second.
pub const NANOS_PER_SECOND: u64 = 1_000_000_000;

/// Cap on the cumulative sample counter, so that
/// `samples * NANOS_PER_SECOND` stays within `u64`.
pub const MAX_TIMED_SAMPLES: u64 = 0x400000000;

/// Cap on the chunk size, a machine limit of this engine.
pub const MAX_CHUNK_BYTES: usize = 1048576;

/// The presentation timestamp, in nanoseconds, of the sample at position
/// `samples` of a stream with the given rate: exact integer arithmetic.
pub open spec fn timestamp_of(samples: nat, rate: nat) -> nat {
    (samples * NANOS_PER_SECOND as nat) / rate
}

/// One step of the waveform phase accumulator.
pub open spec fn next_phase(phase: u16, step: u16) -> u16 {
    ((phase + step) % 0x10000) as u16
}

/// The phase after `k` steps.
pub open spec fn phase_at(phase: u16, step: u16, k: nat) -> u16
    decreases k,
{
    if k == 0 {
        phase
    } else {
        next_phase(phase_at(phase, step, (k - 1) as nat), step)
    }
}

/// Whether positions `2k` and `2k + 1` of `data` hold the little-endian
/// bytes of the waveform sample after `k + 1` phase steps.
pub open spec fn sample_bytes_ok(data: Seq<u8>, phase: u16, step: u16, k: int) -> bool {
    &&& data[2 * k] == (phase_at(phase, step, (k + 1) as nat) % 256) as u8
    &&& data[2 * k + 1] == (phase_at(phase, step, (k + 1) as nat) / 256) as u8
}

/// The push source. Shared generator state (the phase accumulator, the
/// scheduled-task flag) lives here; a driver must guard each instance
/// with one lock and keep the critical section to the buffer fill.
pub struct PushSource {
    /// Samples per second; fixed and positive.
    pub rate: u32,
    /// Bytes per produced buffer; even, two bytes per sample.
    pub chunk_bytes: usize,
    /// The output capability; must be set before the first buffer.
    pub caps: Option<Capability>,
    /// Whether a production task is scheduled.
    pub scheduled: bool,
    /// Samples emitted so far; drives the timestamps.
    pub samples_emitted: u64,
    /// Waveform phase accumulator.
    pub phase: u16,
    /// Waveform phase increment per sample.
    pub step: u16,
}

impl PushSource {
    /// Basic well-formedness, established by the constructor and kept by
    /// every operation.
    pub open spec fn wf(self) -> bool {
        &&& self.rate > 0
        &&& self.chunk_bytes >= 2
        &&& self.chunk_bytes % 2 == 0
        &&& self.chunk_bytes <= MAX_CHUNK_BYTES
        &&& self.samples_emitted <= MAX_TIMED_SAMPLES
    }

    /// A new source: nothing scheduled, no samples emitted yet. Fails
    /// when the rate is zero or the chunk size is odd, zero, or over the
    /// engine's cap.
    pub fn new(rate: u32, chunk_bytes: usize, step: u16) -> (r: Option<PushSource>)
        ensures
            match r {
                Some(s) => s.wf() && s.rate == rate && s.chunk_bytes == chunk_bytes
                    && s.caps is None && !s.scheduled && s.samples_emitted == 0
                    && s.phase == 0 && s.step == step,
                None => rate == 0 || chunk_bytes < 2 || chunk_bytes % 2 != 0
                    || chunk_bytes > MAX_CHUNK_BYTES,
            },
    {
        if rate == 0 || chunk_bytes < 2 || chunk_bytes % 2 != 0 || chunk_bytes > MAX_CHUNK_BYTES {
            None
        } else {
            Some(PushSource {
                rate,
                chunk_bytes,
                caps: None,
                scheduled: false,
                samples_emitted: 0,
                phase: 0,
                step,
            })
        }
    }

    /// Sets the output capability; allowed only before the first buffer.
    pub fn set_caps(&mut self, cap: Capability) -> (r: Result<(), EngineError>)
        requires
            old(self).wf(),
        ensures
            final(self).wf(),
            match r {
                Ok(()) => old(self).samples_emitted == 0
                    && final(self).caps == Some(cap)
                    && final(self).rate == old(self).rate
                    && final(self).chunk_bytes == old(self).chunk_bytes
                    && final(self).scheduled == old(self).scheduled
                    && final(self).samples_emitted == old(self).samples_emitted
                    && final(self).phase == old(self).phase
                    && final(self).step == old(self).step,
                Err(e) => e == EngineError::NegotiationFailed
                    && old(self).samples_emitted > 0
                    && *final(self) == *old(self),
            },
    {
        if self.samples_emitted > 0 {
            Err(EngineError::NegotiationFailed)
        } else {
            self.caps = Some(cap);
            Ok(())
        }
    }

    /// Downstream queue below the low-water mark: schedule production.
    /// A no-op while a task is already scheduled.
    pub fn need_data(&mut self, hint_bytes: usize)
        ensures
            final(self).scheduled,
            old(self).scheduled ==> *final(self) == *old(self),
            !old(self).scheduled ==> *final(self) == (PushSource {
                scheduled: true,
                ..*old(self)
            }),
    {
        let _ = hint_bytes;
        if !self.scheduled {
            self.scheduled = true;
        }
    }

    /// Downstream queue above the high-water mark: cancel any pending
    /// production. Buffers already produced are still delivered; no new
    /// buffer is produced until the next `need_data`.
    pub fn enough_data(&mut self)
        ensures
            *final(self) == (PushSource { scheduled: false, ..*old(self) }),
    {
        self.scheduled = false;
    }

    /// One invocation of the production task: produces the next buffer
    /// when one is owed. Returns `None` — and changes nothing — when no
    /// task is scheduled, when no output capability was set, or when the
    /// sample counter has reached the engine's timing cap.
    ///
    /// The buffer's timestamp is `samples_emitted * 1e9 / rate`
    /// nanoseconds and its duration `samples_in_buffer * 1e9 / rate`
    /// nanoseconds, computed by exact integer arithmetic.
    pub fn produce_chunk(&mut self) -> (r: Option<Buffer>)
        requires
            old(self).wf(),
        ensures
            final(self).wf(),
            !old(self).scheduled ==> r is None && *final(self) == *old(self),
            old(self).caps is None ==> r is None && *final(self) == *old(self),
            old(self).samples_emitted + old(self).chunk_bytes / 2 > MAX_TIMED_SAMPLES
                ==> r is None && *final(self) == *old(self),
            (old(self).scheduled && old(self).caps is Some
                && old(self).samples_emitted + old(self).chunk_bytes / 2
                    <= MAX_TIMED_SAMPLES) ==> match r {
                Some(buf) => {
                    &&& buf.pts == timestamp_of(
                        old(self).samples_emitted as nat, old(self).rate as nat)
                    &&& buf.duration == timestamp_of(
                        (old(self).chunk_bytes / 2) as nat, old(self).rate as nat)
                    &&& buf.data@.len() == old(self).chunk_bytes
                    &&& forall|k: int| 0 <= k < old(self).chunk_bytes / 2
                        ==> #[trigger] sample_bytes_ok(buf.data@, old(self).phase,
                            old(self).step, k)
                    &&& *final(self) == (PushSource {
                        samples_emitted: (old(self).samples_emitted
                            + old(self).chunk_bytes / 2) as u64,
                        phase: phase_at(old(self).phase, old(self).step,
                            (old(self).chunk_bytes / 2) as nat),
                        ..*old(self)
                    })
                },
                None => false,
            },
    {
        if !self.scheduled {
            return None;
        }
        if self.caps.is_none() {
            return None;
        }
        let samples: usize = self.chunk_bytes / 2;
        if self.samples_emitted > MAX_TIMED_SAMPLES - samples as u64 {
            return None;
        }
        let pts = self.timestamp_at(self.samples_emitted);
        let duration = self.timestamp_at(samples as u64);
        let mut data: Vec<u8> = Vec::new();
        let mut cur: u16 = self.phase;
        let mut k: usize = 0;
        while k < samples
            invariant
                k <= samples,
                cur == phase_at(self.phase, self.step, k as nat),
                data@.len() == 2 * k,
                forall|p: int| 0 <= p < k
                    ==> #[trigger] sample_bytes_ok(data@, self.phase, self.step, p),
            decreases samples - k,
        {
            cur = cur.wrapping_add(self.step);
            proof {
                assert(cur == phase_at(self.phase, self.step, (k + 1) as nat));
            }
            let ghost d0 = data@;
            let lo = (cur % 256) as u8;
            let hi = (cur / 256) as u8;
            data.push(lo);
            data.push(hi);
            proof {
                assert forall|p: int| 0 <= p < k + 1 implies
                    #[trigger] sample_bytes_ok(data@, self.phase, self.step, p) by {
                    if p < k {
                        assert(sample_bytes_ok(d0, self.phase, self.step, p));
                        assert(data@[2 * p] == d0[2 * p]);
                        assert(data@[2 * p + 1] == d0[2 * p + 1]);
                    } else {
                        assert(data@[2 * p] == lo);
                        assert(data@[2 * p + 1] == hi);
                    }
                }
            }
            k = k + 1;
        }
        let buf = Buffer { pts, duration, data };
        self.samples_emitted = self.samples_emitted + samples as u64;
        self.phase = cur;
        Some(buf)
    }

    /// The timestamp, in nanoseconds, of the given sample position at
    /// this source's rate: exact integer arithmetic in `u64`.
    fn timestamp_at(&self, samples: u64) -> (r: u64)
        requires
            self.wf(),
            samples <= MAX_TIMED_SAMPLES,
        ensures
            r == timestamp_of(samples as nat, self.rate as nat),
    {
        proof {
            lemma_mul_inequality(samples as int, MAX_TIMED_SAMPLES as int,
                NANOS_PER_SECOND as int);
            assert(MAX_TIMED_SAMPLES * NANOS_PER_SECOND <= u64::MAX) by (nonlinear_arith);
        }
        (samples * NANOS_PER_SECOND) / (self.rate as u64)
    }
}

/// Law: timestamps never decrease. A later sample position never gets an
/// earlier timestamp, so successive buffers' timestamps are
/// non-decreasing.
pub proof fn lemma_timestamps_monotonic(s1: nat, s2: nat, rate: nat)
    requires
        rate > 0,
        s1 <= s2,
    ensures
        timestamp_of(s1, rate) <= timestamp_of(s2, rate),
{
    lemma_mul_inequality(s1 as int, s2 as int, NANOS_PER_SECOND as int);
    lemma_div_is_ordered((s1 * NANOS_PER_SECOND) as int, (s2 * NANOS_PER_SECOND) as int,
        rate as int);
}

/// Law: timestamps carry no cumulative drift. The timestamp of the buffer
/// that starts after `n` whole chunks of `c` samples is computed from the
/// exact product `n * c`, not from a sum of rounded durations.
pub proof fn lemma_timestamp_exact(n: nat, c: nat, rate: nat)
    requires
        rate > 0,
    ensures
        timestamp_of(n * c, rate) == (n * c * NANOS_PER_SECOND as nat) / rate,
{
}

} // verus!
