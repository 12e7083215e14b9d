//! Sampler: collects one latency measurement per sequential request and
//! aborts the whole run on the first transport failure.
//!
//! The measurement itself (issuing a GET request and timing it) is I/O and
//! lives outside this library. The caller drives the loop: it performs one
//! request at a time and reports either the measured response or a transport
//! failure. The `Sampler` records the outcomes and releases a complete
//! `SampleSet` only when every requested measurement succeeded; after a
//! failure, or while measurements are missing, `finish` refuses, so no
//! statistics can ever be derived from a partial run.
//!
//! A latency is the time from initiating a request to the availability of
//! the response's status line and headers, in whole milliseconds. This
//! approximates time to first byte; it is not a byte-exact probe.

use vstd::prelude::*;
use crate::stats::max_of;
use crate::stats::median_of;
use crate::stats::min_of;
use crate::stats::p95_of;
use crate::stats::p99_of;
use crate::stats::StatisticsSummary;
use crate::stats::summarize;
use crate::stats::sum_of;

verus! {

/// One timed request: its 1-based position in the run, its latency in whole
/// milliseconds, and the HTTP status code of the response.
#[derive(Clone, Copy, Debug, PartialEq, Eq, Structural)]
pub struct Sample {
    /// 1-based issuance position of the request.
    pub index: usize,
    /// Time from initiating the request to receiving its status line and
    /// headers, in whole milliseconds.
    pub latency_ms: u64,
    /// HTTP status code of the response.
    pub status_code: u16,
}

/// The reason a run yields no sample set.
#[derive(Clone, Copy, Debug, PartialEq, Eq, Structural)]
pub enum SampleError {
    /// A transport failure occurred; the run is aborted with no partial
    /// results.
    TransportAborted,
    /// Fewer measurements were recorded than the run asked for.
    Incomplete,
}

/// The latencies of a sequence of samples, in issuance order.
pub open spec fn latencies_of(s: Seq<Sample>) -> Seq<u64> {
    Seq::new(s.len(), |i: int| s[i].latency_ms)
}

/// An ordered, complete collection of samples from one fully successful run.
/// Only `Sampler::finish` produces one, so it is never empty and its indices
/// are consecutive from 1.
pub struct SampleSet {
    samples: Vec<Sample>,
}

impl SampleSet {
    /// The recorded samples, in issuance order.
    pub closed spec fn spec_samples(self) -> Seq<Sample> {
        self.samples@
    }

    /// A sample set holds at least one sample and numbers them 1, 2, ...
    /// in issuance order.
    pub open spec fn wf(self) -> bool {
        &&& 1 <= self.spec_samples().len()
        &&& forall|i: int|
            0 <= i < self.spec_samples().len() ==> #[trigger] self.spec_samples()[i].index == i + 1
    }

    /// How many samples the run produced.
    pub fn len(&self) -> (n: usize)
        ensures
            n == self.spec_samples().len(),
    {
        self.samples.len()
    }

    /// The sample at position `i` (0-based access, 1-based `index` field).
    pub fn sample_at(&self, i: usize) -> (s: Sample)
        requires
            i < self.spec_samples().len(),
        ensures
            s == self.spec_samples()[i as int],
    {
        self.samples[i]
    }

    /// The latencies of all samples, in issuance order.
    pub fn latencies(&self) -> (r: Vec<u64>)
        ensures
            r@ == latencies_of(self.spec_samples()),
    {
        let mut out: Vec<u64> = Vec::new();
        let n: usize = self.samples.len();
        let mut i: usize = 0;
        while i < n
            invariant
                n == self.samples@.len(),
                i <= n,
                out@.len() == i,
                forall|k: int| 0 <= k < i ==> #[trigger] out@[k] == self.samples@[k].latency_ms,
            decreases n - i,
        {
            let s: Sample = self.samples[i];
            out.push(s.latency_ms);
            i = i + 1;
        }
        proof {
            assert(out@ =~= latencies_of(self.spec_samples()));
        }
        out
    }
}

/// Collects the outcomes of a run of `target` sequential measurements.
pub struct Sampler {
    target: usize,
    samples: Vec<Sample>,
    aborted: bool,
}

impl Sampler {
    /// How many measurements the run asks for.
    pub closed spec fn spec_target(self) -> int {
        self.target as int
    }

    /// The samples recorded so far, in issuance order.
    pub closed spec fn spec_samples(self) -> Seq<Sample> {
        self.samples@
    }

    /// True once a transport failure was reported; terminal.
    pub closed spec fn spec_aborted(self) -> bool {
        self.aborted
    }

    /// The run asks for at least one measurement, never holds more samples
    /// than that, and numbers them 1, 2, ... in issuance order.
    pub open spec fn wf(self) -> bool {
        &&& 1 <= self.spec_target()
        &&& self.spec_samples().len() <= self.spec_target()
        &&& forall|i: int|
            0 <= i < self.spec_samples().len() ==> #[trigger] self.spec_samples()[i].index == i + 1
    }

    /// Starts a run of `target` sequential measurements.
    pub fn new(target: usize) -> (s: Sampler)
        requires
            1 <= target,
        ensures
            s.wf(),
            s.spec_target() == target,
            s.spec_samples() == Seq::<Sample>::empty(),
            !s.spec_aborted(),
    {
        let s = Sampler { target, samples: Vec::new(), aborted: false };
        proof {
            assert(s.spec_samples() =~= Seq::<Sample>::empty());
        }
        s
    }

    /// How many measurements the run asks for.
    pub fn target(&self) -> (n: usize)
        ensures
            n == self.spec_target(),
    {
        self.target
    }

    /// How many measurements have been recorded.
    pub fn recorded(&self) -> (n: usize)
        ensures
            n == self.spec_samples().len(),
    {
        self.samples.len()
    }

    /// True once a transport failure was reported.
    pub fn has_failed(&self) -> (b: bool)
        ensures
            b == self.spec_aborted(),
    {
        self.aborted
    }

    /// True when every requested measurement succeeded and none failed.
    pub fn is_complete(&self) -> (b: bool)
        ensures
            b == (!self.spec_aborted() && self.spec_samples().len() == self.spec_target()),
    {
        !self.aborted && self.samples.len() == self.target
    }

    /// Records one successful measurement; it receives the next 1-based
    /// index.
    pub fn record_response(&mut self, latency_ms: u64, status_code: u16)
        requires
            old(self).wf(),
            !old(self).spec_aborted(),
            old(self).spec_samples().len() < old(self).spec_target(),
        ensures
            final(self).wf(),
            final(self).spec_target() == old(self).spec_target(),
            !final(self).spec_aborted(),
            final(self).spec_samples() == old(self).spec_samples().push(
                (Sample {
                    index: (old(self).spec_samples().len() + 1) as usize,
                    latency_ms,
                    status_code,
                }),
            ),
    {
        let index: usize = self.samples.len() + 1;
        self.samples.push(Sample { index, latency_ms, status_code });
    }

    /// Records a transport failure: the run is aborted and keeps no partial
    /// results for statistics.
    pub fn record_failure(&mut self)
        requires
            old(self).wf(),
        ensures
            final(self).wf(),
            final(self).spec_target() == old(self).spec_target(),
            final(self).spec_samples() == old(self).spec_samples(),
            final(self).spec_aborted(),
    {
        self.aborted = true;
    }

    /// Ends the run. A `SampleSet` comes out exactly when all requested
    /// measurements succeeded; a transport failure anywhere in the run, or
    /// missing measurements, yield an error and no partial sample set.
    pub fn finish(self) -> (r: Result<SampleSet, SampleError>)
        requires
            self.wf(),
        ensures
            (r is Ok) <==> (!self.spec_aborted() && self.spec_samples().len()
                == self.spec_target()),
            r is Ok ==> (r->Ok_0).wf() && (r->Ok_0).spec_samples() == self.spec_samples(),
            self.spec_aborted() ==> r == Err::<SampleSet, SampleError>(
                SampleError::TransportAborted,
            ),
            !self.spec_aborted() && self.spec_samples().len() != self.spec_target() ==> r
                == Err::<SampleSet, SampleError>(SampleError::Incomplete),
    {
        if self.aborted {
            Err(SampleError::TransportAborted)
        } else if self.samples.len() != self.target {
            Err(SampleError::Incomplete)
        } else {
            Ok(SampleSet { samples: self.samples })
        }
    }
}

/// Computes the summary statistics of a complete run. A well-formed sample
/// set is never empty, so the statistics always exist.
pub fn summarize_samples(set: &SampleSet) -> (s: StatisticsSummary)
    requires
        set.wf(),
    ensures
        s.min_ms == min_of(latencies_of(set.spec_samples())),
        s.max_ms == max_of(latencies_of(set.spec_samples())),
        s.mean_num_ms == sum_of(latencies_of(set.spec_samples())),
        s.sample_count == set.spec_samples().len(),
        s.median_ms == median_of(latencies_of(set.spec_samples())),
        s.p95_ms == p95_of(latencies_of(set.spec_samples())),
        s.p99_ms == p99_of(latencies_of(set.spec_samples())),
        s.valid(),
{
    let lats: Vec<u64> = set.latencies();
    match summarize(&lats) {
        Ok(s) => s,
        Err(_) => vstd::pervasive::unreached(),
    }
}

} // verus!
