//! The fetch of one time range.

use crate::earthquake_event::{EarthquakeDataSource, EarthquakeEvent};
use crate::text::{decimal_text, integer_text};
use vstd::prelude::*;

verus! {

/// The one format that is asked of a source.
pub open spec fn geojson() -> Seq<char> {
    "geojson"@
}

/// Fetches the events of one time range from `source`: asks for the format
/// `geojson` and for the minimum magnitude written in decimal, and hands on
/// what the source answers, events or error, as it is.
pub fn run_fetch<S: EarthquakeDataSource>(
    source: &S,
    start_time: &str,
    end_time: &str,
    min_magnitude: i32,
) -> (outcome: Result<Vec<EarthquakeEvent<S::Number>>, S::Error>)
    ensures
        source.may_answer(
            geojson(),
            start_time@,
            end_time@,
            decimal_text(min_magnitude as int),
            outcome,
        ),
{
    let format = "geojson";
    let magnitude = integer_text(min_magnitude as i64);
    source.fetch_earthquake_data(format, start_time, end_time, magnitude.as_str())
}

} // verus!
