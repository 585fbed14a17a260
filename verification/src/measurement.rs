//! The shape of a Measurement Run: its settings, its Phases, the rate a Phase's transfer
//! comes to, and the order in which the parts of a run are measured.
//!
//! A Measurement Run measures Idle Latency first, with no Streams in flight, then runs
//! exactly one Download Phase and then exactly one Upload Phase, and produces one Result.
//! The waiting and the transfers are done by the caller; the run says what comes next
//! and collects what each part came to.
use vstd::prelude::*;
use crate::median::Median;

verus! {

/// Number of Streams run concurrently within a Phase, unless the run says otherwise.
pub const STREAM_COUNT: usize = 4;

/// Wall-clock duration of a single Phase, in seconds, unless the run says otherwise.
pub const PHASE_DURATION_SECS: u64 = 10;

/// Number of round-trip Samples taken to compute Idle Latency.
pub const LATENCY_SAMPLES: usize = 5;

/// One direction exercised during a Measurement Run.
#[derive(Debug, Clone, Copy, PartialEq, Eq, Structural)]
pub enum Phase {
    Download,
    Upload,
}

/// How long each Phase lasts and how many Streams it runs.
#[derive(Debug, Clone, Copy, PartialEq, Eq, Structural)]
pub struct RunSettings {
    pub phase_duration_secs: u64,
    pub stream_count: usize,
}

impl RunSettings {
    /// The settings of a run: the given overrides where there are any, the defaults
    /// (`PHASE_DURATION_SECS`, `STREAM_COUNT`) elsewhere.
    pub fn from_overrides(duration_secs: Option<u64>, connections: Option<usize>) -> (settings:
        Self)
        ensures
            settings.phase_duration_secs == match duration_secs {
                Some(secs) => secs,
                None => PHASE_DURATION_SECS,
            },
            settings.stream_count == match connections {
                Some(n) => n,
                None => STREAM_COUNT,
            },
    {
        let phase_duration_secs: u64 = match duration_secs {
            Some(secs) => secs,
            None => PHASE_DURATION_SECS,
        };
        let stream_count: usize = match connections {
            Some(n) => n,
            None => STREAM_COUNT,
        };
        RunSettings { phase_duration_secs, stream_count }
    }
}

/// What one Phase moved, and over how long.
#[derive(Debug, Clone, Copy, PartialEq, Eq, Structural)]
pub struct PhaseTransfer {
    pub bytes: u64,
    pub elapsed_nanos: u64,
}

/// A transfer rate as an exact fraction: `bits` moved over `nanos` nanoseconds. One Mbps
/// is one bit per microsecond, so the rate in Mbps is `bits * 1000 / nanos`.
#[derive(Debug, Clone, Copy, PartialEq, Eq, Structural)]
pub struct BitRate {
    pub bits: u128,
    pub nanos: u64,
}

/// The rate of `bytes` moved over `elapsed_nanos` nanoseconds; a rate of zero when no
/// time elapsed.
pub open spec fn rate_of(bytes: u64, elapsed_nanos: u64) -> BitRate {
    if elapsed_nanos == 0 {
        BitRate { bits: 0, nanos: 1 }
    } else {
        BitRate { bits: (bytes * 8) as u128, nanos: elapsed_nanos }
    }
}

/// `first` is no faster than `second`: compared as fractions, by cross-multiplying.
pub open spec fn no_faster(first: BitRate, second: BitRate) -> bool {
    first.bits * second.nanos <= second.bits * first.nanos
}

/// The rate of a byte count moved over an elapsed time, kept exact.
pub fn bit_rate(bytes: u64, elapsed_nanos: u64) -> (rate: BitRate)
    ensures
        rate == rate_of(bytes, elapsed_nanos),
        rate.nanos > 0,
        elapsed_nanos > 0 ==> rate.bits * elapsed_nanos == bytes * 8 * rate.nanos,
        elapsed_nanos > 0 ==> rate.bits == bytes * 8 && rate.nanos == elapsed_nanos,
        elapsed_nanos == 0 ==> rate.bits == 0,
{
    if elapsed_nanos == 0 {
        BitRate { bits: 0, nanos: 1 }
    } else {
        BitRate { bits: (bytes as u128) * 8, nanos: elapsed_nanos }
    }
}

/// A rate is the bits moved over the time taken: for any elapsed time, the fraction
/// equals `bytes * 8` bits per `elapsed_nanos` nanoseconds, and it is zero when no time
/// elapsed.
pub proof fn lemma_rate_is_bits_over_time(bytes: u64, elapsed_nanos: u64)
    ensures
        rate_of(bytes, elapsed_nanos).nanos > 0,
        elapsed_nanos > 0 ==> rate_of(bytes, elapsed_nanos).bits * elapsed_nanos == bytes * 8
            * rate_of(bytes, elapsed_nanos).nanos,
        elapsed_nanos > 0 ==> rate_of(bytes, elapsed_nanos).bits == bytes * 8,
        elapsed_nanos == 0 ==> rate_of(bytes, elapsed_nanos).bits == 0,
{
    if elapsed_nanos > 0 {
        assert(bytes * 8 <= u128::MAX);
    }
}

/// More bytes over the same time never make a slower rate, and the same bytes over a
/// longer time never make a faster one.
pub proof fn lemma_rate_is_monotone(bytes: u64, more_bytes: u64, elapsed: u64, longer: u64)
    requires
        bytes <= more_bytes,
        0 < elapsed <= longer,
    ensures
        no_faster(rate_of(bytes, elapsed), rate_of(more_bytes, elapsed)),
        no_faster(rate_of(bytes, longer), rate_of(bytes, elapsed)),
{
    let bits: int = bytes * 8;
    let more_bits: int = more_bytes * 8;
    assert(bits * elapsed <= more_bits * elapsed) by (nonlinear_arith)
        requires
            bits <= more_bits,
            0 < elapsed,
    ;
    assert(bits * elapsed <= bits * longer) by (nonlinear_arith)
        requires
            0 <= bits,
            elapsed <= longer,
    ;
}

/// Everything a Measurement Run measured.
#[derive(Debug, Clone, Copy, PartialEq, Eq, Structural)]
pub struct RunReport {
    pub idle_latency: Median,
    pub download: PhaseTransfer,
    pub upload: PhaseTransfer,
}

/// What a Measurement Run needs done next.
#[derive(Debug, Clone, Copy, PartialEq, Eq, Structural)]
pub enum RunStep {
    /// Take the Idle Latency Samples.
    MeasureIdleLatency,
    /// Run this Phase.
    RunPhase(Phase),
    /// Everything is measured: produce the Result.
    Report,
}

/// The step that comes after `done` parts of a run have been measured.
pub open spec fn step_after(done: nat) -> RunStep {
    if done == 0 {
        RunStep::MeasureIdleLatency
    } else if done == 1 {
        RunStep::RunPhase(Phase::Download)
    } else if done == 2 {
        RunStep::RunPhase(Phase::Upload)
    } else {
        RunStep::Report
    }
}

/// A Measurement Run in progress.
pub struct MeasurementRun {
    idle_latency: Option<Median>,
    download: Option<PhaseTransfer>,
    upload: Option<PhaseTransfer>,
}

impl MeasurementRun {
    #[verifier::type_invariant]
    spec fn measured_in_order(self) -> bool {
        &&& self.download is Some ==> self.idle_latency is Some
        &&& self.upload is Some ==> self.download is Some
    }

    /// How many of the three parts (Idle Latency, Download, Upload) are measured.
    pub closed spec fn done(&self) -> nat {
        if self.upload is Some {
            3
        } else if self.download is Some {
            2
        } else if self.idle_latency is Some {
            1
        } else {
            0
        }
    }

    /// The Idle Latency recorded, once it is.
    pub closed spec fn recorded_idle_latency(&self) -> Median {
        self.idle_latency.unwrap()
    }

    /// What the Phase recorded, once it is.
    pub closed spec fn recorded_phase(&self, phase: Phase) -> PhaseTransfer {
        match phase {
            Phase::Download => self.download.unwrap(),
            Phase::Upload => self.upload.unwrap(),
        }
    }

    /// A run in which nothing has been measured yet.
    pub fn new() -> (run: Self)
        ensures
            run.done() == 0,
    {
        MeasurementRun { idle_latency: None, download: None, upload: None }
    }

    /// What to do next.
    pub fn next_step(&self) -> (step: RunStep)
        ensures
            step == step_after(self.done()),
    {
        proof {
            use_type_invariant(self);
        }
        if self.idle_latency.is_none() {
            RunStep::MeasureIdleLatency
        } else if self.download.is_none() {
            RunStep::RunPhase(Phase::Download)
        } else if self.upload.is_none() {
            RunStep::RunPhase(Phase::Upload)
        } else {
            RunStep::Report
        }
    }

    /// Records the Idle Latency, which is measured before any Phase.
    pub fn record_idle_latency(&mut self, latency: Median)
        requires
            step_after(old(self).done()) == RunStep::MeasureIdleLatency,
        ensures
            final(self).done() == old(self).done() + 1,
            final(self).recorded_idle_latency() == latency,
    {
        proof {
            use_type_invariant(&*self);
        }
        *self = MeasurementRun { idle_latency: Some(latency), download: None, upload: None };
    }

    /// Records what a Phase moved; the Download Phase comes before the Upload Phase.
    pub fn record_phase(&mut self, phase: Phase, transfer: PhaseTransfer)
        requires
            step_after(old(self).done()) == RunStep::RunPhase(phase),
        ensures
            final(self).done() == old(self).done() + 1,
            final(self).recorded_idle_latency() == old(self).recorded_idle_latency(),
            final(self).recorded_phase(phase) == transfer,
            phase == Phase::Upload ==> final(self).recorded_phase(Phase::Download) == old(
                self,
            ).recorded_phase(Phase::Download),
    {
        proof {
            use_type_invariant(&*self);
        }
        match phase {
            Phase::Download => {
                *self = MeasurementRun {
                    idle_latency: self.idle_latency,
                    download: Some(transfer),
                    upload: None,
                };
            },
            Phase::Upload => {
                *self = MeasurementRun {
                    idle_latency: self.idle_latency,
                    download: self.download,
                    upload: Some(transfer),
                };
            },
        }
    }

    /// The Result of a run whose parts are all measured.
    pub fn report(&self) -> (report: RunReport)
        requires
            step_after(self.done()) == RunStep::Report,
        ensures
            report.idle_latency == self.recorded_idle_latency(),
            report.download == self.recorded_phase(Phase::Download),
            report.upload == self.recorded_phase(Phase::Upload),
    {
        proof {
            use_type_invariant(self);
        }
        RunReport {
            idle_latency: self.idle_latency.unwrap(),
            download: self.download.unwrap(),
            upload: self.upload.unwrap(),
        }
    }
}

/// A run asks for Idle Latency first, then for the Download Phase, then for the Upload
/// Phase, then for its Result; and it asks for each of these exactly once, since every
/// record moves it on by one step.
pub proof fn lemma_run_order(first: nat, second: nat)
    ensures
        step_after(0) == RunStep::MeasureIdleLatency,
        step_after(1) == RunStep::RunPhase(Phase::Download),
        step_after(2) == RunStep::RunPhase(Phase::Upload),
        step_after(3) == RunStep::Report,
        first != second && step_after(first) == step_after(second) ==> step_after(first)
            == RunStep::Report,
{
}

} // verus!
