//! Periodic polling: at each reading of the clock, one fetch of the interval
//! that has just passed. A failed fetch is reported and the polling goes on.

use crate::earthquake_event::{EarthquakeDataSource, EarthquakeEvent};
use crate::fetch::geojson;
use crate::time_range::Window;
use crate::utils::{format_time, utc_representable, utc_text};
use vstd::pervasive::unreached;
use vstd::prelude::*;

verus! {

/// Whether the interval that ends at `now` can be written as a window.
pub open spec fn window_exists(now: i64, interval_secs: u64) -> bool {
    utc_representable(now as int) && utc_representable(now - interval_secs)
}

/// Whether `window` is the interval of `interval_secs` seconds that ends at
/// `now`.
pub open spec fn is_window_at(window: Window, now: i64, interval_secs: u64) -> bool {
    &&& window.start_time@ == utc_text((now - interval_secs) as i64)
    &&& window.end_time@ == utc_text(now)
}

/// The window of a poll at the clock reading `now`: it ends at `now` and
/// starts one interval earlier. There is none where one of the two is no
/// time of the calendar.
pub fn poll_window(now: i64, interval_secs: u64) -> (window: Option<Window>)
    ensures
        window.is_some() == window_exists(now, interval_secs),
        window matches Some(w) ==> is_window_at(w, now, interval_secs),
{
    if interval_secs > 0x7fff_ffff_ffff_ffff {
        return None;
    }
    let interval: i64 = interval_secs as i64;
    if now < i64::MIN + interval {
        return None;
    }
    let start: i64 = now - interval;
    match format_time(start) {
        None => None,
        Some(start_time) => match format_time(now) {
            None => None,
            Some(end_time) => Some(Window { start_time, end_time }),
        },
    }
}

/// Where a poller stands.
#[derive(Debug, Clone, Copy, PartialEq, Eq, Structural)]
pub enum PollState {
    /// Not started.
    Idle,
    /// A fetch is under way.
    Fetching,
    /// The outcome of the fetch is being reported.
    Reporting,
    /// Waiting for the interval to pass.
    Sleeping,
}

/// What has happened since the poller's last step.
#[derive(Debug)]
pub enum PollEvent<T, E> {
    /// The clock was read: at the start, or when the sleep has ended.
    Tick { now: i64 },
    /// The fetch has ended, with events or with an error.
    Fetched(Result<Vec<EarthquakeEvent<T>>, E>),
    /// The report was delivered.
    Reported,
}

/// What the poller asks for next.
#[derive(Debug)]
pub enum PollAction<T, E> {
    /// Fetch the events of the window.
    Fetch(Window),
    /// Hand the events to the consumer, or report the error.
    Report(Result<Vec<EarthquakeEvent<T>>, E>),
    /// Wait.
    Sleep { seconds: u64 },
}

/// The state after a step: fetching, reporting and sleeping follow one
/// another without end.
pub open spec fn successor(state: PollState) -> PollState {
    match state {
        PollState::Idle => PollState::Fetching,
        PollState::Fetching => PollState::Reporting,
        PollState::Reporting => PollState::Sleeping,
        PollState::Sleeping => PollState::Fetching,
    }
}

/// Whether `event` is what a poller in `state` waits for. A reading of the
/// clock counts only where its window exists.
pub open spec fn awaited<T, E>(state: PollState, event: PollEvent<T, E>, interval_secs: u64) -> bool {
    match event {
        PollEvent::Tick { now } => (state == PollState::Idle || state == PollState::Sleeping)
            && window_exists(now, interval_secs),
        PollEvent::Fetched(_) => state == PollState::Fetching,
        PollEvent::Reported => state == PollState::Reporting,
    }
}

/// Whether `action` is what follows `event`: after a reading of the clock
/// the fetch of its window, after a fetch the report of its outcome, be it
/// events or an error, and after the report a sleep of one interval.
pub open spec fn follows<T, E>(
    event: PollEvent<T, E>,
    interval_secs: u64,
    action: PollAction<T, E>,
) -> bool {
    match event {
        PollEvent::Tick { now } => action matches PollAction::Fetch(window) && is_window_at(
            window,
            now,
            interval_secs,
        ),
        PollEvent::Fetched(outcome) => action == PollAction::<T, E>::Report(outcome),
        PollEvent::Reported => action == (PollAction::<T, E>::Sleep { seconds: interval_secs }),
    }
}

/// One step of a poller: from its state and what has happened to its next
/// state and what to do. An event that the state does not wait for gives
/// nothing.
pub fn poll_step<T, E>(state: PollState, event: PollEvent<T, E>, interval_secs: u64) -> (step:
    Option<(PollState, PollAction<T, E>)>)
    ensures
        step.is_some() == awaited(state, event, interval_secs),
        step matches Some((next, action)) ==> next == successor(state) && follows(
            event,
            interval_secs,
            action,
        ),
{
    match event {
        PollEvent::Tick { now } => {
            match state {
                PollState::Idle | PollState::Sleeping => match poll_window(now, interval_secs) {
                    Some(window) => Some((PollState::Fetching, PollAction::Fetch(window))),
                    None => None,
                },
                _ => None,
            }
        },
        PollEvent::Fetched(outcome) => {
            match state {
                PollState::Fetching => Some((PollState::Reporting, PollAction::Report(outcome))),
                _ => None,
            }
        },
        PollEvent::Reported => {
            match state {
                PollState::Reporting => Some(
                    (PollState::Sleeping, PollAction::Sleep { seconds: interval_secs }),
                ),
                _ => None,
            }
        },
    }
}

/// A failed fetch does not end the polling: from the state of fetching, a
/// failure leads to its report, the report to a sleep, and the next reading
/// of the clock to the next fetch. No state is left without a successor.
pub proof fn lemma_polling_goes_on_after_a_failure<T, E>(error: E, now: i64, interval_secs: u64)
    requires
        window_exists(now, interval_secs),
    ensures
        awaited(PollState::Fetching, PollEvent::<T, E>::Fetched(Err(error)), interval_secs),
        follows(
            PollEvent::<T, E>::Fetched(Err(error)),
            interval_secs,
            PollAction::<T, E>::Report(Err(error)),
        ),
        awaited(successor(PollState::Fetching), PollEvent::<T, E>::Reported, interval_secs),
        awaited(
            successor(successor(PollState::Fetching)),
            PollEvent::<T, E>::Tick { now },
            interval_secs,
        ),
        successor(successor(successor(PollState::Fetching))) == PollState::Fetching,
        forall|state: PollState| successor(state) != PollState::Idle,
{
}

/// The minimum magnitude of a poll.
pub open spec fn poll_magnitude() -> Seq<char> {
    "3"@
}

/// What one round of polling comes to: the outcome of its fetch, to be
/// reported, and the time to sleep before the next round.
#[derive(Debug)]
pub struct PollRound<T, E> {
    pub outcome: Result<Vec<EarthquakeEvent<T>>, E>,
    pub sleep_seconds: u64,
}

/// One round of polling at the clock reading `now`, made of three steps of
/// the poller: fetches from `source` the events of the window that ends at
/// `now`, of magnitude 3 and more, and gives the outcome, events or error,
/// to be reported, with the sleep of one interval that follows whatever the
/// outcome was. Where the window does not exist, nothing is fetched.
pub fn poll_once<S: EarthquakeDataSource>(
    source: &S,
    format: &str,
    interval_secs: u64,
    now: i64,
) -> (round: Option<PollRound<S::Number, S::Error>>)
    ensures
        round.is_some() == window_exists(now, interval_secs),
        round matches Some(r) ==> r.sleep_seconds == interval_secs && source.may_answer(
            format@,
            utc_text((now - interval_secs) as i64),
            utc_text(now),
            poll_magnitude(),
            r.outcome,
        ),
{
    let window = match poll_step::<S::Number, S::Error>(
        PollState::Idle,
        PollEvent::Tick { now },
        interval_secs,
    ) {
        None => {
            return None;
        },
        Some((_, PollAction::Fetch(window))) => window,
        Some(_) => unreached(),
    };
    let fetched = source.fetch_earthquake_data(
        format,
        window.start_time.as_str(),
        window.end_time.as_str(),
        "3",
    );
    let outcome = match poll_step(PollState::Fetching, PollEvent::Fetched(fetched), interval_secs) {
        Some((_, PollAction::Report(outcome))) => outcome,
        _ => unreached(),
    };
    let sleep_seconds: u64 = match poll_step::<S::Number, S::Error>(
        PollState::Reporting,
        PollEvent::Reported,
        interval_secs,
    ) {
        Some((_, PollAction::Sleep { seconds })) => seconds,
        _ => unreached(),
    };
    Some(PollRound { outcome, sleep_seconds })
}

/// The interval of the polling, in seconds.
pub const POLLING_INTERVAL_SECS: u64 = 60;

/// One round of the polling of a source every minute, at the clock reading
/// `now`: fetches the events of the minute before `now`, of magnitude 3 and
/// more, in the format `geojson`. The outcome is to be reported, and the next
/// round is due a minute later, whatever the outcome was. Where the minute
/// before `now` is off the calendar, nothing is fetched.
pub fn run_fetch_sync<S: EarthquakeDataSource>(source: &S, now: i64) -> (round: Option<
    PollRound<S::Number, S::Error>,
>)
    ensures
        round.is_some() == window_exists(now, POLLING_INTERVAL_SECS),
        round matches Some(r) ==> r.sleep_seconds == POLLING_INTERVAL_SECS && source.may_answer(
            geojson(),
            utc_text((now - POLLING_INTERVAL_SECS) as i64),
            utc_text(now),
            poll_magnitude(),
            r.outcome,
        ),
{
    poll_once(source, "geojson", POLLING_INTERVAL_SECS, now)
}

} // verus!
