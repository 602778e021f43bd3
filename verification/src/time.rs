//! The sample timestamp and its rendering in the RFC 3339 interchange
//! format.
use vstd::prelude::*;

verus! {

/// A point in time as the exposition parser reports it: seconds since the
/// Unix epoch, UTC, plus the nanoseconds within that second.
#[derive(Clone, Copy, PartialEq, Eq, Structural, Debug)]
pub struct Timestamp {
    pub secs: i64,
    pub nanos: u32,
}

/// The timestamps the renderer accepts: an ordinary nanosecond part and
/// roughly a quarter of a million years to either side of the epoch, well
/// inside the range the calendar library can represent.
pub open spec fn renderable(secs: i64, nanos: u32) -> bool {
    -8_000_000_000_000 <= secs <= 8_000_000_000_000 && nanos < 1_000_000_000
}

impl Timestamp {
    /// Whether this timestamp can be rendered.
    pub open spec fn wf(self) -> bool {
        renderable(self.secs, self.nanos)
    }
}

/// The RFC 3339 text for the given moment, UTC. The exact text is a fixed
/// function of the two numbers; it is named here rather than spelled out.
pub uninterp spec fn rfc3339_of(secs: i64, nanos: u32) -> Seq<char>;

/// Relies on `chrono::DateTime::<Utc>::from_timestamp` and `to_rfc3339`:
/// the rendered text depends on the two numbers alone, and construction
/// succeeds whenever the nanosecond part is below one second and the
/// seconds fall inside the library's calendar range, which contains all
/// `renderable` values.
#[verifier::external_body]
pub(crate) fn render_rfc3339(secs: i64, nanos: u32) -> (r: Option<String>)
    ensures
        renderable(secs, nanos) ==> r is Some,
        r matches Some(t) ==> t@ == rfc3339_of(secs, nanos),
{
    chrono::DateTime::<chrono::Utc>::from_timestamp(secs, nanos).map(|dt| dt.to_rfc3339())
}

} // verus!
