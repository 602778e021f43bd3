//! The Batcher: partitions the ordered data points into submission-size
//! groups, losslessly and in order.
use vstd::prelude::*;

verus! {

use crate::METRIC_DATA_CHUNK_SIZE;
use crate::datum::MetricDataPoint;

/// A bounded group of data points submitted together, under one namespace.
pub struct Batch {
    pub namespace: String,
    pub metric_data: Vec<MetricDataPoint>,
}

/// The batches' contents, concatenated in order.
pub open spec fn concat_batches(bs: Seq<Batch>) -> Seq<MetricDataPoint>
    decreases bs.len(),
{
    if bs.len() == 0 {
        Seq::empty()
    } else {
        concat_batches(bs.drop_last()) + bs.last().metric_data@
    }
}

/// Partitions the points into ceil(N / capacity) batches: every batch but
/// the last holds exactly [`crate::METRIC_DATA_CHUNK_SIZE`] points, the last
/// holds the remainder, and concatenating the batches in order reproduces
/// the input exactly. Every batch carries the given namespace.
pub fn make_batches(points: Vec<MetricDataPoint>, namespace: &String) -> (r: Vec<Batch>)
    ensures
        r@.len() == (points@.len() + METRIC_DATA_CHUNK_SIZE - 1) as int / (
        METRIC_DATA_CHUNK_SIZE as int),
        concat_batches(r@) == points@,
        forall|k: int|
            0 <= k < r@.len() ==> (#[trigger] r@[k]).namespace == *namespace
                && 1 <= r@[k].metric_data@.len() <= METRIC_DATA_CHUNK_SIZE,
        forall|k: int|
            0 <= k < r@.len() - 1 ==> (#[trigger] r@[k]).metric_data@.len()
                == METRIC_DATA_CHUNK_SIZE,
        r@.len() > 0 ==> r@[r@.len() - 1].metric_data@.len() == points@.len()
            - METRIC_DATA_CHUNK_SIZE * (r@.len() - 1),
{
    let ghost all0 = points@;
    let mut rest = points;
    let mut batches: Vec<Batch> = Vec::new();
    let mut chunk: Vec<MetricDataPoint> = Vec::new();
    while rest.len() > 0
        invariant
            chunk@.len() < METRIC_DATA_CHUNK_SIZE,
            METRIC_DATA_CHUNK_SIZE * batches@.len() + chunk@.len() + rest@.len() == all0.len(),
            concat_batches(batches@) + chunk@ + rest@ == all0,
            forall|k: int|
                0 <= k < batches@.len() ==> (#[trigger] batches@[k]).namespace == *namespace
                    && batches@[k].metric_data@.len() == METRIC_DATA_CHUNK_SIZE,
        decreases rest@.len(),
    {
        let p = rest.remove(0);
        chunk.push(p);
        proof {
            assert(concat_batches(batches@) + chunk@ + rest@ =~= all0);
        }
        if chunk.len() == METRIC_DATA_CHUNK_SIZE {
            let ghost bs0 = batches@;
            let full = Batch { namespace: namespace.clone(), metric_data: chunk };
            batches.push(full);
            chunk = Vec::new();
            proof {
                assert(batches@.drop_last() =~= bs0);
                assert(concat_batches(batches@) + chunk@ + rest@ =~= all0);
            }
        }
    }
    proof {
        assert(rest@.len() == 0);
        assert(concat_batches(batches@) + chunk@ =~= all0);
    }
    if chunk.len() > 0 {
        let ghost bs0 = batches@;
        let last = Batch { namespace: namespace.clone(), metric_data: chunk };
        batches.push(last);
        proof {
            assert(batches@.drop_last() =~= bs0);
            assert(concat_batches(batches@) =~= all0);
        }
    } else {
        proof {
            assert(concat_batches(batches@) =~= all0);
        }
    }
    batches
}

} // verus!
