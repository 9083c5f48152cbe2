//! Accounting for one probe run: a fixed number of timed requests, a
//! success counter and a summed latency, driven request by request by the
//! embedding application. The application performs the network I/O and
//! hands back, for each request, either the elapsed time or a failure.

use vstd::prelude::*;

verus! {

/// The fixed User-Agent installed on every probe request.
pub const USER_AGENT: &'static str =
    "Mozilla/5.0 (Macintosh; Intel Mac OS X 10_12_6) AppleWebKit/537.36 (KHTML, like Gecko) Chrome/98.0.4758.80 Safari/537.36";

/// The sum of a sequence of sample durations, as an unbounded integer.
pub open spec fn sum_ns(s: Seq<u64>) -> int
    decreases s.len(),
{
    if s.len() == 0 {
        0
    } else {
        sum_ns(s.drop_last()) + s.last()
    }
}

/// `x` clamped to the range of a 64-bit total.
pub open spec fn clamped(x: int) -> int {
    if x <= u64::MAX {
        x
    } else {
        u64::MAX as int
    }
}

/// The running state of one probe: how many of the `ping_times` requests
/// have been issued, how many succeeded, and the accumulated latency in
/// nanoseconds. The recorded samples themselves are kept as ghost history.
pub struct ProbeRun {
    pub ping_times: u32,
    pub done: u32,
    pub success: u32,
    pub total_latency_ns: u64,
    pub samples: Ghost<Seq<u64>>,
}

impl ProbeRun {
    /// Validity: no more successes than issued requests, no more issued
    /// requests than planned, one sample per success, and the total is the
    /// clamped sum of the samples.
    pub open spec fn wf(self) -> bool {
        &&& self.success <= self.done <= self.ping_times
        &&& self.samples@.len() == self.success
        &&& self.total_latency_ns == clamped(sum_ns(self.samples@))
    }

    /// A fresh run that will issue `ping_times` requests.
    pub fn new(ping_times: u32) -> (r: Self)
        ensures
            r.wf(),
            r.ping_times == ping_times,
            r.done == 0,
            r.success == 0,
            r.total_latency_ns == 0,
            r.samples@ == Seq::<u64>::empty(),
    {
        ProbeRun {
            ping_times,
            done: 0,
            success: 0,
            total_latency_ns: 0,
            samples: Ghost(Seq::empty()),
        }
    }

    /// Plans the next request: nothing when the run is complete, otherwise
    /// whether this request is the last one and must carry
    /// `Connection: close`.
    pub fn next_request(&self) -> (r: Option<bool>)
        ensures
            r is Some <==> self.done < self.ping_times,
            r matches Some(close) ==> close == (self.done + 1 == self.ping_times),
    {
        if self.done < self.ping_times {
            Some(self.done + 1 == self.ping_times)
        } else {
            None
        }
    }

    /// Records the outcome of one request: a successful sample adds its
    /// elapsed nanoseconds to the total (saturating) and counts a success;
    /// a failure only consumes the iteration.
    pub fn record(&mut self, sample: Option<u64>)
        requires
            old(self).wf(),
            old(self).done < old(self).ping_times,
        ensures
            final(self).wf(),
            final(self).ping_times == old(self).ping_times,
            final(self).done == old(self).done + 1,
            match sample {
                Some(ns) => {
                    &&& final(self).success == old(self).success + 1
                    &&& final(self).samples@ == old(self).samples@ + seq![ns]
                    &&& final(self).total_latency_ns == clamped(
                        old(self).total_latency_ns + ns,
                    )
                },
                None => {
                    &&& final(self).success == old(self).success
                    &&& final(self).samples@ == old(self).samples@
                    &&& final(self).total_latency_ns == old(self).total_latency_ns
                },
            },
    {
        self.done = self.done + 1;
        match sample {
            Some(ns) => {
                self.success = self.success + 1;
                self.total_latency_ns = if self.total_latency_ns <= u64::MAX - ns {
                    self.total_latency_ns + ns
                } else {
                    u64::MAX
                };
                proof {
                    let s = old(self).samples@;
                    assert((s + seq![ns]).drop_last() =~= s);
                    assert((s + seq![ns]).last() == ns);
                }
                self.samples = Ghost(self.samples@ + seq![ns]);
            },
            None => {},
        }
    }

    /// The probe's outcome: the success count and summed latency when at
    /// least one request succeeded, nothing otherwise. A result always has
    /// a success count between one and `ping_times`.
    pub fn finish(&self) -> (r: Option<(u32, u64)>)
        requires
            self.wf(),
        ensures
            r is Some <==> self.success >= 1,
            match r {
                Some(p) => {
                    &&& p.0 == self.success
                    &&& 1 <= p.0 <= self.ping_times
                    &&& p.1 == self.total_latency_ns
                    &&& p.1 == clamped(sum_ns(self.samples@))
                },
                None => self.success == 0,
            },
    {
        if self.success > 0 {
            Some((self.success, self.total_latency_ns))
        } else {
            None
        }
    }
}

} // verus!
