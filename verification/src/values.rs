//! The tagged sample value and the selection of the single scalar that is
//! submitted for it.
use vstd::prelude::*;

verus! {

/// A numeric observation, held as the bit pattern of an IEEE 754 double.
///
/// The pipeline never computes with the number: it either passes it through
/// unchanged or substitutes zero, so the bits are all it needs to carry.
#[derive(Clone, Copy, PartialEq, Eq, Structural)]
pub struct MetricValue {
    pub bits: u64,
}

impl MetricValue {
    /// The bit pattern of positive zero, the sentinel substituted for
    /// values that have no scalar representation.
    pub fn zero() -> (r: MetricValue)
        ensures
            r == (MetricValue { bits: 0 }),
    {
        MetricValue { bits: 0 }
    }
}

/// A sample's typed value as the exposition parser reports it. `Other`
/// stands for every variant that is not a single scalar (histograms,
/// summaries).
#[derive(Clone, Copy)]
pub enum TaggedValue {
    Counter(MetricValue),
    Gauge(MetricValue),
    Untyped(MetricValue),
    Other,
}

/// Whether the tagged value carries a single scalar.
pub open spec fn is_supported(v: TaggedValue) -> bool {
    match v {
        TaggedValue::Counter(_) => true,
        TaggedValue::Gauge(_) => true,
        TaggedValue::Untyped(_) => true,
        TaggedValue::Other => false,
    }
}

/// The scalar submitted for a tagged value: the carried number for the
/// scalar variants, zero for everything else.
pub open spec fn scalar_of(v: TaggedValue) -> MetricValue {
    match v {
        TaggedValue::Counter(x) => x,
        TaggedValue::Gauge(x) => x,
        TaggedValue::Untyped(x) => x,
        TaggedValue::Other => MetricValue { bits: 0 },
    }
}

/// Selects the scalar observation for a tagged value. The second component
/// reports whether the value had no scalar representation and zero was
/// substituted, so the caller can record the warning.
pub fn select_value(v: &TaggedValue) -> (r: (MetricValue, bool))
    ensures
        r.0 == scalar_of(*v),
        r.1 == !is_supported(*v),
{
    match v {
        TaggedValue::Counter(x) => (*x, false),
        TaggedValue::Gauge(x) => (*x, false),
        TaggedValue::Untyped(x) => (*x, false),
        TaggedValue::Other => (MetricValue { bits: 0 }, true),
    }
}

} // verus!
