//! Core of a bridge that forwards a scraped Prometheus metrics snapshot to
//! CloudWatch: it turns parsed samples into metric data points, caps and
//! orders their dimensions, groups the points into submission-size batches,
//! and tracks the strictly sequential submission of those batches.
use vstd::prelude::*;

pub mod batch;
pub mod datum;
pub mod driver;
pub mod dimensions;
pub mod text;
pub mod time;
pub mod values;

verus! {

/// A CloudWatch metric may carry at most this many dimensions.
pub const DIMENSION_MAX: usize = 10;

/// A single PutMetricData request may carry at most this many data points.
pub const METRIC_DATA_CHUNK_SIZE: usize = 20;

} // verus!
