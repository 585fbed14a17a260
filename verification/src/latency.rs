//! Idle Latency: several round-trip Samples taken before any Phase begins, reduced to
//! one value via the median.
//!
//! The round trips themselves are network I/O and are made by the caller; the probe
//! decides how many are still owed and what they come to.
use vstd::prelude::*;
use crate::median::{Median, median, median_of};

verus! {

/// The Samples of one Idle Latency measurement, as they come in.
pub struct LatencyProbe {
    samples: usize,
    readings: Vec<u64>,
}

impl LatencyProbe {
    #[verifier::type_invariant]
    spec fn within_plan(self) -> bool {
        0 < self.samples && self.readings.len() <= self.samples
    }

    /// How many Samples the measurement takes.
    pub closed spec fn planned(&self) -> nat {
        self.samples as nat
    }

    /// The round-trip times recorded so far, in nanoseconds, in the order they were taken.
    pub closed spec fn taken(&self) -> Seq<u64> {
        self.readings@
    }

    /// A probe that will take `samples` Samples. At least one is needed: the median of
    /// no readings is undefined.
    pub fn new(samples: usize) -> (probe: Self)
        requires
            samples > 0,
        ensures
            probe.planned() == samples,
            probe.taken() == Seq::<u64>::empty(),
    {
        LatencyProbe { samples, readings: Vec::with_capacity(samples) }
    }

    /// Whether another round trip is owed.
    pub fn needs_sample(&self) -> (more: bool)
        ensures
            more == (self.taken().len() < self.planned()),
    {
        self.readings.len() < self.samples
    }

    /// Records the round-trip time of one Sample, in nanoseconds.
    pub fn record(&mut self, rtt_nanos: u64)
        requires
            old(self).taken().len() < old(self).planned(),
        ensures
            final(self).planned() == old(self).planned(),
            final(self).taken() == old(self).taken().push(rtt_nanos),
    {
        proof {
            use_type_invariant(&*self);
        }
        let mut readings = Vec::new();
        std::mem::swap(&mut readings, &mut self.readings);
        readings.push(rtt_nanos);
        *self = LatencyProbe { samples: self.samples, readings };
    }

    /// The Idle Latency once every Sample is in: the middle pair of the readings.
    pub fn idle_latency(self) -> (latency: Median)
        requires
            self.taken().len() == self.planned(),
        ensures
            latency == median_of(self.taken()),
    {
        proof {
            use_type_invariant(&self);
        }
        let LatencyProbe { samples: _, readings } = self;
        let mut readings = readings;
        median(&mut readings)
    }
}

} // verus!
