//! Performance metrics for the request-response cycle, in the shape of
//! the `Server-Timing` response header.

use vstd::prelude::*;
use vstd::string::StringExecFns;

use crate::datetime::Duration;
use crate::strings::push_decimal;
use crate::strings::spec_decimal;

verus! {

/// One timing metric: a name and the duration it measured.
#[derive(Debug)]
pub struct TimingMetric {
    name: String,
    duration: Duration,
}

/// How one metric renders: `name;dur=<milliseconds>`.
pub open spec fn spec_metric_text(m: TimingMetric) -> Seq<char> {
    m.spec_name() + ";dur="@ + spec_decimal(m.spec_duration().millis as nat)
}

/// How a list of metrics renders: the metrics' texts joined by `", "`.
pub open spec fn spec_timing_text(metrics: Seq<TimingMetric>) -> Seq<char>
    decreases metrics.len(),
{
    if metrics.len() == 0 {
        Seq::empty()
    } else if metrics.len() == 1 {
        spec_metric_text(metrics[0])
    } else {
        spec_timing_text(metrics.drop_last()) + seq![',', ' '] + spec_metric_text(metrics.last())
    }
}

impl TimingMetric {
    /// The metric's name, for contracts.
    pub closed spec fn spec_name(&self) -> Seq<char> {
        self.name@
    }

    /// The metric's duration, for contracts.
    pub closed spec fn spec_duration(&self) -> Duration {
        self.duration
    }

    /// Creates a metric.
    pub fn new(name: String, duration: Duration) -> (r: TimingMetric)
        ensures
            r.spec_name() == name@,
            r.spec_duration() == duration,
    {
        TimingMetric { name, duration }
    }

    /// Renders the metric as `name;dur=<milliseconds>`.
    pub fn format(&self) -> (r: String)
        ensures
            r@ == spec_metric_text(*self),
    {
        let mut out = String::new();
        out.append(self.name.as_str());
        out.append(";dur=");
        push_decimal(&mut out, self.duration.millis);
        out
    }
}

/// Performance metrics for the request-response cycle.
#[derive(Debug)]
pub struct ServerTiming {
    metrics: Vec<TimingMetric>,
}

impl ServerTiming {
    /// The metrics, in insertion order, for contracts.
    pub closed spec fn spec_metrics(&self) -> Seq<TimingMetric> {
        self.metrics@
    }

    /// Creates a new instance with no metrics.
    pub fn new() -> (r: ServerTiming)
        ensures
            r.spec_metrics() == Seq::<TimingMetric>::empty(),
    {
        ServerTiming { metrics: Vec::new() }
    }

    /// Pushes an entry onto the list of metrics.
    pub fn push(&mut self, metric: TimingMetric)
        ensures
            final(self).spec_metrics() == old(self).spec_metrics().push(metric),
    {
        self.metrics.push(metric);
    }

    /// Renders the metrics joined by `", "`, the header's value form.
    pub fn format(&self) -> (r: String)
        ensures
            r@ == spec_timing_text(self.spec_metrics()),
    {
        let ghost all = self.metrics@;
        let mut out = String::new();
        let n = self.metrics.len();
        let mut i: usize = 0;
        while i < n
            invariant
                n == all.len(),
                self.metrics@ == all,
                i <= n,
                out@ == spec_timing_text(all.take(i as int)),
            decreases n - i,
        {
            proof {
                assert(all.take(i + 1).drop_last() =~= all.take(i as int));
                assert(all.take(i + 1).last() == all[i as int]);
            }
            if i > 0 {
                out.append(", ");
                proof {
                    reveal_strlit(", ");
                    assert(", "@ =~= seq![',', ' ']);
                }
            }
            let piece = self.metrics[i].format();
            out.append(piece.as_str());
            proof {
                if i == 0 {
                    assert(out@ =~= spec_timing_text(all.take(1)));
                }
            }
            i += 1;
        }
        proof {
            assert(all.take(n as int) =~= all);
        }
        out
    }
}

impl Default for ServerTiming {
    /// The same instance as [`ServerTiming::new`].
    fn default() -> (r: ServerTiming)
        ensures
            r.spec_metrics() == Seq::<TimingMetric>::empty(),
    {
        ServerTiming::new()
    }
}

} // verus!
