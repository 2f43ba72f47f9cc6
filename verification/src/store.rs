//! The hand-over to a relational store: each event as a row, its times as
//! wall-clock timestamps.

use crate::earthquake_event::EarthquakeEvent;
use crate::utils::{is_utc_time, seconds_of, utc_representable, whole_seconds};
use vstd::prelude::*;

verus! {

/// The row of an event. `lon` and `lat` are longitude and latitude; the two
/// timestamps are whole seconds since 1970-01-01T00:00:00 UTC.
#[derive(Debug, Clone)]
pub struct EarthquakeEventModel<T> {
    pub mag: T,
    pub place: Option<String>,
    pub time: Option<i64>,
    pub updated: Option<i64>,
    pub tsunami: i32,
    pub lon: T,
    pub lat: T,
    pub mag_type: String,
    pub event_type: String,
}

impl<T> EarthquakeEventModel<T> {
    /// A row's timestamps are times of the calendar.
    pub open spec fn wf(self) -> bool {
        &&& self.time matches Some(seconds) ==> utc_representable(seconds as int)
        &&& self.updated matches Some(seconds) ==> utc_representable(seconds as int)
    }
}

/// A time of an event that is no time of the calendar.
#[derive(Debug, Clone, Copy, PartialEq, Eq, Structural)]
pub struct InvalidTimestamp {
    pub millis: i64,
}

/// Whether both times of an event can be written as timestamps.
pub open spec fn has_timestamps<T>(event: EarthquakeEvent<T>) -> bool {
    utc_representable(whole_seconds(event.time) as int) && utc_representable(
        whole_seconds(event.updated) as int,
    )
}

/// The time of an event that cannot be written as a timestamp: the time of
/// its occurrence, or else that of its update.
pub open spec fn invalid_time<T>(event: EarthquakeEvent<T>) -> i64 {
    if utc_representable(whole_seconds(event.time) as int) {
        event.updated
    } else {
        event.time
    }
}

/// The row of an event. Its longitude is the first number of the event's
/// coordinates and its latitude the second, as the catalogue sends them; its
/// timestamps are the event's times in whole seconds.
pub open spec fn row<T>(event: EarthquakeEvent<T>) -> EarthquakeEventModel<T> {
    EarthquakeEventModel {
        mag: event.mag,
        place: event.place,
        time: Some(whole_seconds(event.time)),
        updated: Some(whole_seconds(event.updated)),
        tsunami: event.tsunami,
        lon: event.coordinates.triple()[0],
        lat: event.coordinates.triple()[1],
        mag_type: event.mag_type,
        event_type: event.event_type,
    }
}

/// The rows of the events, in the events' order.
pub open spec fn rows<T>(events: Seq<EarthquakeEvent<T>>) -> Seq<EarthquakeEventModel<T>> {
    Seq::new(events.len(), |i: int| row(events[i]))
}

/// Whether the event at `i` is the first whose times cannot both be written
/// as timestamps.
pub open spec fn is_first_invalid<T>(events: Seq<EarthquakeEvent<T>>, i: int) -> bool {
    &&& 0 <= i < events.len()
    &&& !has_timestamps(events[i])
    &&& forall|k: int| 0 <= k < i ==> has_timestamps(#[trigger] events[k])
}

/// Turns an event into its row. Fails with the time that is no time of the
/// calendar.
pub fn to_model<T>(event: EarthquakeEvent<T>) -> (model: Result<
    EarthquakeEventModel<T>,
    InvalidTimestamp,
>)
    ensures
        model.is_ok() == has_timestamps(event),
        model matches Ok(m) ==> m == row(event) && m.wf(),
        model matches Err(e) ==> e.millis == invalid_time(event),
{
    let time: i64 = seconds_of(event.time);
    if !is_utc_time(time) {
        return Err(InvalidTimestamp { millis: event.time });
    }
    let updated: i64 = seconds_of(event.updated);
    if !is_utc_time(updated) {
        return Err(InvalidTimestamp { millis: event.updated });
    }
    Ok(
        EarthquakeEventModel {
            mag: event.mag,
            place: event.place,
            time: Some(time),
            updated: Some(updated),
            tsunami: event.tsunami,
            lon: event.coordinates.lat,
            lat: event.coordinates.lon,
            mag_type: event.mag_type,
            event_type: event.event_type,
        },
    )
}

/// Turns the events into their rows, in the events' order. Fails at the
/// first event with a time that is no time of the calendar, with that time;
/// no row is made then.
pub fn convert_to_model<T>(events: Vec<EarthquakeEvent<T>>) -> (models: Result<
    Vec<EarthquakeEventModel<T>>,
    InvalidTimestamp,
>)
    ensures
        models.is_ok() == (forall|i: int| 0 <= i < events.len() ==> has_timestamps(#[trigger] events[i])),
        models matches Ok(m) ==> m@ == rows(events@) && forall|i: int|
            0 <= i < m.len() ==> (#[trigger] m[i]).wf(),
        models matches Err(e) ==> exists|i: int|
            is_first_invalid(events@, i) && e.millis == invalid_time(#[trigger] events[i]),
{
    let mut models: Vec<EarthquakeEventModel<T>> = Vec::new();
    for event in iter: events
        invariant
            iter.seq() == events@,
            models.len() == iter.index(),
            forall|k: int| 0 <= k < iter.index() ==> has_timestamps(#[trigger] events[k]),
            forall|k: int| 0 <= k < iter.index() ==> (#[trigger] models[k]) == row(events[k]),
            forall|k: int| 0 <= k < iter.index() ==> (#[trigger] models[k]).wf(),
    {
        let ghost at = iter.index() as int;
        match to_model(event) {
            Ok(model) => {
                models.push(model);
            },
            Err(error) => {
                assert(is_first_invalid(events@, at) && error.millis == invalid_time(events[at]));
                return Err(error);
            },
        }
    }
    assert(models@ =~= rows(events@));
    Ok(models)
}

} // verus!
