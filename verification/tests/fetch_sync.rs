use earthquakes::earthquake_event::{Coordinates, EarthquakeDataSource, EarthquakeEvent};
use earthquakes::fetch_sync::{
    poll_once, poll_step, poll_window, run_fetch_sync, PollAction, PollEvent, PollState,
    POLLING_INTERVAL_SECS,
};
use earthquakes::utils::{MAX_UTC_SECONDS, MIN_UTC_SECONDS};
use std::cell::RefCell;

fn quake(time: i64) -> EarthquakeEvent<f64> {
    EarthquakeEvent {
        mag: 3.2,
        place: None,
        time,
        updated: time,
        tsunami: 1,
        coordinates: Coordinates { lat: 0.0, lon: 0.0, depth: -1.5 },
        mag_type: "md".to_string(),
        event_type: "earthquake".to_string(),
    }
}

/// Fails the first `failures` fetches and answers the later ones.
struct Flaky {
    failures: usize,
    queries: RefCell<Vec<(String, String, String, String)>>,
}

impl Flaky {
    fn new(failures: usize) -> Self {
        Flaky { failures, queries: RefCell::new(Vec::new()) }
    }
}

impl EarthquakeDataSource for Flaky {
    type Error = String;
    type Number = f64;

    fn fetch_earthquake_data(
        &self,
        format: &str,
        start_time: &str,
        end_time: &str,
        min_magnitude: &str,
    ) -> Result<Vec<EarthquakeEvent<f64>>, String> {
        let mut queries = self.queries.borrow_mut();
        queries.push((
            format.to_string(),
            start_time.to_string(),
            end_time.to_string(),
            min_magnitude.to_string(),
        ));
        if queries.len() <= self.failures {
            Err(format!("fetch {} failed", queries.len()))
        } else {
            Ok(vec![quake(queries.len() as i64)])
        }
    }
}

#[test]
fn poll_window_ends_now_and_starts_one_interval_earlier() {
    let window = poll_window(1388534400, 60).unwrap();
    assert_eq!(window.start_time, "2013-12-31T23:59:00");
    assert_eq!(window.end_time, "2014-01-01T00:00:00");
    let window = poll_window(1388534400, 0).unwrap();
    assert_eq!(window.start_time, window.end_time);
}

#[test]
fn poll_window_off_the_calendar_does_not_exist() {
    assert!(poll_window(MIN_UTC_SECONDS + 59, 60).is_none());
    assert!(poll_window(MIN_UTC_SECONDS + 60, 60).is_some());
    assert!(poll_window(MAX_UTC_SECONDS, 60).is_some());
    assert!(poll_window(MAX_UTC_SECONDS + 1, 60).is_none());
    assert!(poll_window(0, u64::MAX).is_none());
    assert!(poll_window(0, i64::MAX as u64).is_none());
    assert!(poll_window(i64::MIN, 1).is_none());
    assert!(poll_window(MAX_UTC_SECONDS, (MAX_UTC_SECONDS - MIN_UTC_SECONDS) as u64).is_some());
    assert!(poll_window(MAX_UTC_SECONDS, (MAX_UTC_SECONDS - MIN_UTC_SECONDS) as u64 + 1).is_none());
}

#[test]
fn a_poller_that_starts_asks_for_a_fetch() {
    let step: Option<(PollState, PollAction<f64, String>)> =
        poll_step(PollState::Idle, PollEvent::Tick { now: 120 }, 60);
    match step {
        Some((PollState::Fetching, PollAction::Fetch(window))) => {
            assert_eq!(window.start_time, "1970-01-01T00:01:00");
            assert_eq!(window.end_time, "1970-01-01T00:02:00");
        }
        other => panic!("{other:?}"),
    }
}

#[test]
fn a_poller_reports_events_and_errors_alike() {
    let step: Option<(PollState, PollAction<f64, String>)> =
        poll_step(PollState::Fetching, PollEvent::Fetched(Ok(vec![quake(5)])), 60);
    match step {
        Some((PollState::Reporting, PollAction::Report(Ok(events)))) => {
            assert_eq!(events.len(), 1);
            assert_eq!(events[0].time, 5);
        }
        other => panic!("{other:?}"),
    }
    let step: Option<(PollState, PollAction<f64, String>)> =
        poll_step(PollState::Fetching, PollEvent::Fetched(Err("down".to_string())), 60);
    match step {
        Some((PollState::Reporting, PollAction::Report(Err(error)))) => assert_eq!(error, "down"),
        other => panic!("{other:?}"),
    }
}

#[test]
fn a_poller_sleeps_one_interval_after_the_report() {
    let step: Option<(PollState, PollAction<f64, String>)> =
        poll_step(PollState::Reporting, PollEvent::Reported, 45);
    match step {
        Some((PollState::Sleeping, PollAction::Sleep { seconds })) => assert_eq!(seconds, 45),
        other => panic!("{other:?}"),
    }
}

#[test]
fn a_poller_gives_nothing_for_an_event_it_does_not_wait_for() {
    let states = [PollState::Idle, PollState::Fetching, PollState::Reporting, PollState::Sleeping];
    for state in states {
        let tick: Option<(PollState, PollAction<f64, String>)> =
            poll_step(state, PollEvent::Tick { now: 1000 }, 60);
        assert_eq!(tick.is_some(), state == PollState::Idle || state == PollState::Sleeping);
        let fetched: Option<(PollState, PollAction<f64, String>)> =
            poll_step(state, PollEvent::Fetched(Ok(Vec::new())), 60);
        assert_eq!(fetched.is_some(), state == PollState::Fetching);
        let reported: Option<(PollState, PollAction<f64, String>)> =
            poll_step(state, PollEvent::Reported, 60);
        assert_eq!(reported.is_some(), state == PollState::Reporting);
    }
    let off: Option<(PollState, PollAction<f64, String>)> =
        poll_step(PollState::Sleeping, PollEvent::Tick { now: i64::MAX }, 60);
    assert!(off.is_none());
}

#[test]
fn polling_goes_on_after_a_failed_fetch() {
    let source = Flaky::new(1);
    let mut state = PollState::Idle;
    let mut event: PollEvent<f64, String> = PollEvent::Tick { now: 600 };
    let mut now: i64 = 600;
    let mut reports: Vec<Result<usize, String>> = Vec::new();
    let mut slept: Vec<u64> = Vec::new();
    while slept.len() < 2 {
        let (next, action) = poll_step(state, event, 60).unwrap();
        state = next;
        event = match action {
            PollAction::Fetch(window) => PollEvent::Fetched(source.fetch_earthquake_data(
                "geojson",
                &window.start_time,
                &window.end_time,
                "3",
            )),
            PollAction::Report(outcome) => {
                reports.push(outcome.map(|events| events.len()));
                PollEvent::Reported
            }
            PollAction::Sleep { seconds } => {
                slept.push(seconds);
                now += seconds as i64;
                PollEvent::Tick { now }
            }
        };
    }
    assert_eq!(reports, vec![Err("fetch 1 failed".to_string()), Ok(1)]);
    assert_eq!(slept, vec![60, 60]);
    assert_eq!(state, PollState::Sleeping);
    let queries = source.queries.borrow();
    assert_eq!(queries.len(), 2);
    assert_eq!(queries[0].1, "1970-01-01T00:09:00");
    assert_eq!(queries[0].2, "1970-01-01T00:10:00");
    assert_eq!(queries[1].1, "1970-01-01T00:10:00");
    assert_eq!(queries[1].2, "1970-01-01T00:11:00");
}

#[test]
fn poll_once_fetches_the_window_with_magnitude_three() {
    let source = Flaky::new(0);
    let round = poll_once(&source, "geojson", 3600, 1388534400).unwrap();
    assert_eq!(round.outcome.unwrap().len(), 1);
    assert_eq!(round.sleep_seconds, 3600);
    let queries = source.queries.borrow();
    assert_eq!(
        queries[0],
        (
            "geojson".to_string(),
            "2013-12-31T23:00:00".to_string(),
            "2014-01-01T00:00:00".to_string(),
            "3".to_string()
        )
    );
}

#[test]
fn poll_once_off_the_calendar_fetches_nothing() {
    let source = Flaky::new(0);
    assert!(poll_once(&source, "geojson", 60, MAX_UTC_SECONDS + 1).is_none());
    assert!(poll_once(&source, "geojson", 60, MIN_UTC_SECONDS).is_none());
    assert!(run_fetch_sync(&source, MIN_UTC_SECONDS + 59).is_none());
    assert!(source.queries.borrow().is_empty());
}

#[test]
fn a_failed_round_is_reported_and_the_next_round_is_made() {
    let source = Flaky::new(1);
    let first = poll_once(&source, "geojson", 60, 1000).unwrap();
    assert_eq!(first.outcome.unwrap_err(), "fetch 1 failed");
    assert_eq!(first.sleep_seconds, 60);
    let second = poll_once(&source, "geojson", 60, 1060).unwrap();
    assert_eq!(second.outcome.unwrap().len(), 1);
    assert_eq!(second.sleep_seconds, 60);
    assert_eq!(source.queries.borrow().len(), 2);
}

#[test]
fn run_fetch_sync_fetches_the_last_minute() {
    let source = Flaky::new(1);
    let first = run_fetch_sync(&source, 1388534400).unwrap();
    let second = run_fetch_sync(&source, 1388534460).unwrap();
    assert_eq!(first.outcome.unwrap_err(), "fetch 1 failed");
    assert_eq!(first.sleep_seconds, 60);
    assert_eq!(second.outcome.unwrap().len(), 1);
    assert_eq!(second.sleep_seconds, POLLING_INTERVAL_SECS);
    let queries = source.queries.borrow();
    assert_eq!(
        queries[0],
        (
            "geojson".to_string(),
            "2013-12-31T23:59:00".to_string(),
            "2014-01-01T00:00:00".to_string(),
            "3".to_string()
        )
    );
    assert_eq!(
        queries[1],
        (
            "geojson".to_string(),
            "2014-01-01T00:00:00".to_string(),
            "2014-01-01T00:01:00".to_string(),
            "3".to_string()
        )
    );
}
