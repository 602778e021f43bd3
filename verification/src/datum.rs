//! The Datum Builder: one submission-ready data point per sample, plus the
//! non-fatal warnings the transformation raises.
use vstd::prelude::*;

verus! {

use crate::DIMENSION_MAX;
use crate::dimensions::{Label, Dimension, kept_dims, dropped_dims, labels_to_dimensions};
use crate::time::{Timestamp, rfc3339_of, render_rfc3339};
use crate::values::{TaggedValue, MetricValue, is_supported, scalar_of, select_value};

/// One observed metric instance, as handed over by the exposition parser.
pub struct Sample {
    pub metric: String,
    pub labels: Vec<Label>,
    pub value: TaggedValue,
    pub timestamp: Timestamp,
}

impl Sample {
    /// A sample is well formed when its timestamp can be rendered.
    pub open spec fn wf(self) -> bool {
        self.timestamp.wf()
    }
}

/// The unit of data submitted to the ingestion API.
pub struct MetricDataPoint {
    pub metric_name: String,
    pub dimensions: Vec<Dimension>,
    pub value: MetricValue,
    pub timestamp: String,
}

impl MetricDataPoint {
    /// The cardinality cap always holds of a built point.
    pub open spec fn wf(self) -> bool {
        self.dimensions@.len() <= DIMENSION_MAX
    }
}

/// A non-fatal event raised while building a data point. Warnings are
/// reported to the caller and never alter the data flow.
#[derive(Debug, PartialEq, Eq)]
pub enum Warning {
    /// The sample's value type has no single-scalar representation; zero
    /// was substituted.
    UnsupportedValue { metric: String },
    /// More labels qualified than a data point may carry; the listed
    /// dimensions were dropped, in this order.
    DimensionOverflow { dropped: Vec<Dimension> },
}

/// What the Datum Builder promises of the point built from a sample: every
/// field is a fixed function of the sample.
pub open spec fn datum_matches(s: Sample, d: MetricDataPoint) -> bool {
    &&& d.metric_name == s.metric
    &&& d.dimensions@ == kept_dims(s.labels@)
    &&& d.value == scalar_of(s.value)
    &&& d.timestamp@ == rfc3339_of(s.timestamp.secs, s.timestamp.nanos)
}

/// How many warnings building a sample raises.
pub open spec fn warning_count(s: Sample) -> int {
    (if !is_supported(s.value) {
        1int
    } else {
        0int
    }) + (if dropped_dims(s.labels@).len() > 0 {
        1int
    } else {
        0int
    })
}

/// The warnings raised for one sample: the unsupported-value warning first,
/// then the dimension overflow with the dropped remainder.
pub open spec fn warnings_match(s: Sample, w: Seq<Warning>) -> bool {
    let dd = dropped_dims(s.labels@);
    &&& w.len() == warning_count(s)
    &&& !is_supported(s.value) ==> w[0] == (Warning::UnsupportedValue { metric: s.metric })
    &&& dd.len() > 0 ==> (w[w.len() - 1] matches Warning::DimensionOverflow { dropped }
        && dropped@ == dd)
}

/// The Datum Builder: composes exactly one data point from one sample, and
/// returns the warnings raised on the way. No sample is ever filtered out.
pub fn build_datum(s: &Sample) -> (r: (MetricDataPoint, Vec<Warning>))
    requires
        s.wf(),
    ensures
        datum_matches(*s, r.0),
        warnings_match(*s, r.1@),
        r.0.wf(),
{
    let mut warnings: Vec<Warning> = Vec::new();
    let (value, unsupported) = select_value(&s.value);
    if unsupported {
        warnings.push(Warning::UnsupportedValue { metric: s.metric.clone() });
    }
    let (dims, dropped) = labels_to_dimensions(&s.labels);
    if dropped.len() > 0 {
        warnings.push(Warning::DimensionOverflow { dropped });
    }
    let timestamp: String = match render_rfc3339(s.timestamp.secs, s.timestamp.nanos) {
        Some(t) => t,
        None => {
            proof {
                // unreachable: a well-formed timestamp always renders
                assert(false);
            }
            String::new()
        },
    };
    let point = MetricDataPoint {
        metric_name: s.metric.clone(),
        dimensions: dims,
        value,
        timestamp,
    };
    (point, warnings)
}

/// Law: the Datum Builder is a pure function of the sample. Any two points
/// that meet its contract for the same sample are structurally identical:
/// same name, same dimension sequence, same value, same timestamp text.
pub proof fn lemma_datum_builder_deterministic(s: Sample, d1: MetricDataPoint, d2: MetricDataPoint)
    requires
        datum_matches(s, d1),
        datum_matches(s, d2),
    ensures
        d1.metric_name == d2.metric_name,
        d1.dimensions@ == d2.dimensions@,
        d1.value == d2.value,
        d1.timestamp@ == d2.timestamp@,
{
}

/// The warnings of a whole run: for each sample in order, its warnings,
/// concatenated.
pub open spec fn scrape_warnings_match(samples: Seq<Sample>, w: Seq<Warning>) -> bool
    decreases samples.len(),
{
    if samples.len() == 0 {
        w.len() == 0
    } else {
        let c = warning_count(samples.last());
        &&& c <= w.len()
        &&& scrape_warnings_match(samples.drop_last(), w.take(w.len() - c))
        &&& warnings_match(samples.last(), w.skip(w.len() - c))
    }
}

/// Maps every sample of a scrape to its data point, in order, collecting
/// all warnings. One sample in, one point out, always.
pub fn scrape_to_metric_data(samples: &Vec<Sample>) -> (r: (Vec<MetricDataPoint>, Vec<Warning>))
    requires
        forall|k: int| 0 <= k < samples@.len() ==> (#[trigger] samples@[k]).wf(),
    ensures
        r.0@.len() == samples@.len(),
        forall|k: int| 0 <= k < samples@.len() ==> datum_matches(samples@[k], #[trigger] r.0@[k]),
        forall|k: int| 0 <= k < r.0@.len() ==> (#[trigger] r.0@[k]).wf(),
        scrape_warnings_match(samples@, r.1@),
{
    let mut points: Vec<MetricDataPoint> = Vec::new();
    let mut warnings: Vec<Warning> = Vec::new();
    let mut i: usize = 0;
    proof {
        assert(samples@.take(0) =~= Seq::<Sample>::empty());
    }
    while i < samples.len()
        invariant
            i <= samples@.len(),
            forall|k: int| 0 <= k < samples@.len() ==> (#[trigger] samples@[k]).wf(),
            points@.len() == i,
            forall|k: int| 0 <= k < i ==> datum_matches(samples@[k], #[trigger] points@[k]),
            forall|k: int| 0 <= k < points@.len() ==> (#[trigger] points@[k]).wf(),
            scrape_warnings_match(samples@.take(i as int), warnings@),
        decreases samples@.len() - i,
    {
        let (point, mut ws) = build_datum(&samples[i]);
        points.push(point);
        let ghost w0 = warnings@;
        let ghost ws0 = ws@;
        while ws.len() > 0
            invariant
                warnings@ + ws@ == w0 + ws0,
            decreases ws@.len(),
        {
            let x = ws.remove(0);
            warnings.push(x);
            proof {
                assert(warnings@ + ws@ =~= w0 + ws0);
            }
        }
        proof {
            assert(warnings@ =~= w0 + ws0);
            let t1 = samples@.take(i as int + 1);
            assert(t1.drop_last() =~= samples@.take(i as int));
            assert(t1.last() == samples@[i as int]);
            let c = warning_count(samples@[i as int]);
            assert(ws0.len() == c);
            assert(warnings@.take(warnings@.len() - c) =~= w0);
            assert(warnings@.skip(warnings@.len() - c) =~= ws0);
        }
        i = i + 1;
    }
    proof {
        assert(samples@.take(samples@.len() as int) =~= samples@);
    }
    (points, warnings)
}

} // verus!
