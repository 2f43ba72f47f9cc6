//! The hand-over to statistics: how long ago the latest of a cluster's
//! significant events occurred.

use crate::utils::{seconds_of, utc_representable, whole_seconds};
use vstd::prelude::*;

verus! {

/// Whether the time at `i` is the latest of the times.
pub open spec fn is_latest(times: Seq<i64>, i: int) -> bool {
    &&& 0 <= i < times.len()
    &&& forall|k: int| 0 <= k < times.len() ==> (#[trigger] times[k]) <= times[i]
}

/// The seconds from the latest of the times to `now`. The times are those
/// at which the significant events of a cluster occurred, in milliseconds;
/// `now` is in seconds. There is no answer where there is no such event.
pub fn time_since_last_significant_earthquake(times: &Vec<i64>, now: i64) -> (elapsed: Option<i64>)
    requires
        utc_representable(now as int),
    ensures
        elapsed is None <==> times.len() == 0,
        elapsed matches Some(seconds) ==> exists|i: int|
            #[trigger] is_latest(times@, i) && seconds == now - whole_seconds(times[i]),
{
    if times.len() == 0 {
        return None;
    }
    let mut latest: i64 = times[0];
    let ghost mut at: int = 0;
    let mut i: usize = 1;
    while i < times.len()
        invariant
            1 <= i <= times.len(),
            0 <= at < i,
            latest == times[at],
            forall|k: int| 0 <= k < i ==> (#[trigger] times[k]) <= latest,
        decreases times.len() - i,
    {
        if times[i] > latest {
            latest = times[i];
            proof {
                at = i as int;
            }
        }
        i += 1;
    }
    assert(is_latest(times@, at));
    Some(now - seconds_of(latest))
}

} // verus!
