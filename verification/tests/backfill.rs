use earthquakes::backfill::{
    arrange, backfill_fan_out, backfill_sequential, collect_in_order, fetch_every, fetch_in_turn,
    join_completions, Completion,
};
use earthquakes::earthquake_event::{Coordinates, EarthquakeDataSource, EarthquakeEvent};
use earthquakes::time_range::Window;
use earthquakes::utils::MAX_EPOCH_DAY;
use std::cell::RefCell;

fn event(place: &str, time: i64) -> EarthquakeEvent<f64> {
    EarthquakeEvent {
        mag: 3.5,
        place: Some(place.to_string()),
        time,
        updated: time,
        tsunami: 0,
        coordinates: Coordinates { lat: 1.0, lon: 2.0, depth: 3.0 },
        mag_type: "ml".to_string(),
        event_type: "earthquake".to_string(),
    }
}

/// Answers each query with two events named after its start, and fails on
/// the start times it was told to fail on.
struct Catalogue {
    failing: Vec<String>,
    queries: RefCell<Vec<(String, String, String, String)>>,
}

impl Catalogue {
    fn new(failing: &[&str]) -> Self {
        Catalogue {
            failing: failing.iter().map(|s| s.to_string()).collect(),
            queries: RefCell::new(Vec::new()),
        }
    }

    fn starts(&self) -> Vec<String> {
        self.queries.borrow().iter().map(|q| q.1.clone()).collect()
    }
}

impl EarthquakeDataSource for Catalogue {
    type Error = String;
    type Number = f64;

    fn fetch_earthquake_data(
        &self,
        format: &str,
        start_time: &str,
        end_time: &str,
        min_magnitude: &str,
    ) -> Result<Vec<EarthquakeEvent<f64>>, String> {
        self.queries.borrow_mut().push((
            format.to_string(),
            start_time.to_string(),
            end_time.to_string(),
            min_magnitude.to_string(),
        ));
        if self.failing.iter().any(|s| s == start_time) {
            Err(format!("failed at {start_time}"))
        } else {
            Ok(vec![event(&format!("{start_time} a"), 1), event(&format!("{start_time} b"), 2)])
        }
    }
}

fn windows(starts: &[&str]) -> Vec<Window> {
    starts
        .iter()
        .map(|s| Window { start_time: s.to_string(), end_time: format!("{s}+") })
        .collect()
}

fn places(events: &[EarthquakeEvent<f64>]) -> Vec<String> {
    events.iter().map(|e| e.place.clone().unwrap()).collect()
}

#[test]
fn fetch_in_turn_fetches_every_window_in_order() {
    let source = Catalogue::new(&[]);
    let outcomes = fetch_in_turn(&source, &windows(&["w0", "w1", "w2"]), 3);
    assert_eq!(outcomes.len(), 3);
    assert!(outcomes.iter().all(|o| o.is_ok()));
    assert_eq!(source.starts(), vec!["w0", "w1", "w2"]);
    let queries = source.queries.borrow();
    assert_eq!(
        queries[1],
        ("geojson".to_string(), "w1".to_string(), "w1+".to_string(), "3".to_string())
    );
}

#[test]
fn fetch_in_turn_stops_at_the_first_failure() {
    let source = Catalogue::new(&["w1"]);
    let outcomes = fetch_in_turn(&source, &windows(&["w0", "w1", "w2", "w3"]), 3);
    assert_eq!(outcomes.len(), 2);
    assert!(outcomes[0].is_ok());
    assert_eq!(outcomes[1].as_ref().unwrap_err(), "failed at w1");
    assert_eq!(source.queries.borrow().len(), 2);
}

#[test]
fn fetch_in_turn_that_fails_at_once_makes_one_fetch() {
    let source = Catalogue::new(&["w0", "w2"]);
    let outcomes = fetch_in_turn(&source, &windows(&["w0", "w1", "w2"]), 3);
    assert_eq!(outcomes.len(), 1);
    assert_eq!(source.starts(), vec!["w0"]);
}

#[test]
fn fetch_every_goes_on_after_a_failure() {
    let source = Catalogue::new(&["w1"]);
    let outcomes = fetch_every(&source, &windows(&["w0", "w1", "w2", "w3"]), 3);
    assert_eq!(outcomes.len(), 4);
    assert!(outcomes[0].is_ok() && outcomes[2].is_ok() && outcomes[3].is_ok());
    assert_eq!(outcomes[1].as_ref().unwrap_err(), "failed at w1");
    assert_eq!(source.starts(), vec!["w0", "w1", "w2", "w3"]);
}

#[test]
fn collect_in_order_concatenates_by_sub_range() {
    let outcomes: Vec<Result<Vec<u32>, String>> =
        vec![Ok(vec![1, 2]), Ok(vec![]), Ok(vec![3]), Ok(vec![4, 5, 6])];
    assert_eq!(collect_in_order(outcomes), Ok(vec![1, 2, 3, 4, 5, 6]));
}

#[test]
fn collect_in_order_of_nothing_is_empty() {
    let outcomes: Vec<Result<Vec<u32>, String>> = Vec::new();
    assert_eq!(collect_in_order(outcomes), Ok(Vec::new()));
}

#[test]
fn collect_in_order_fails_with_the_first_failure() {
    let outcomes: Vec<Result<Vec<u32>, String>> = vec![
        Ok(vec![1, 2]),
        Err("second".to_string()),
        Ok(vec![3]),
        Err("fourth".to_string()),
    ];
    assert_eq!(collect_in_order(outcomes), Err("second".to_string()));
}

#[test]
fn collect_in_order_fails_though_all_others_succeed() {
    let outcomes: Vec<Result<Vec<u32>, String>> =
        vec![Ok(vec![1]), Ok(vec![2]), Ok(vec![3]), Err("last".to_string())];
    assert_eq!(collect_in_order(outcomes), Err("last".to_string()));
}

fn completion(index: usize, items: &[u32]) -> Completion<u32, String> {
    Completion { index, outcome: Ok(items.to_vec()) }
}

#[test]
fn arrange_puts_completions_in_the_order_of_their_tags() {
    let arranged = arrange(
        vec![completion(2, &[5, 6]), completion(0, &[1, 2]), completion(1, &[3, 4])],
        3,
    );
    assert_eq!(arranged, Some(vec![Ok(vec![1, 2]), Ok(vec![3, 4]), Ok(vec![5, 6])]));
}

#[test]
fn arrange_of_no_completions() {
    let none: Vec<Completion<u32, String>> = Vec::new();
    assert_eq!(arrange(none, 0), Some(Vec::new()));
    let none: Vec<Completion<u32, String>> = Vec::new();
    assert_eq!(arrange(none, 1), None);
}

#[test]
fn arrange_refuses_completions_that_are_not_one_for_each_place() {
    assert_eq!(arrange(vec![completion(0, &[1]), completion(2, &[2])], 2), None);
    assert_eq!(arrange(vec![completion(0, &[1]), completion(0, &[2])], 2), None);
    assert_eq!(arrange(vec![completion(0, &[1])], 2), None);
    assert_eq!(
        arrange(vec![completion(0, &[1]), completion(1, &[2]), completion(1, &[3])], 2),
        None
    );
}

#[test]
fn the_order_of_completion_does_not_show_in_the_result() {
    let orders: [[usize; 4]; 6] =
        [[0, 1, 2, 3], [3, 2, 1, 0], [1, 3, 0, 2], [2, 0, 3, 1], [0, 2, 1, 3], [3, 0, 1, 2]];
    for order in orders {
        let completions: Vec<Completion<u32, String>> = order
            .iter()
            .map(|&i| completion(i, &[10 * i as u32, 10 * i as u32 + 1]))
            .collect();
        assert_eq!(
            join_completions(completions, 4),
            Some(Ok(vec![0, 1, 10, 11, 20, 21, 30, 31]))
        );
    }
}

#[test]
fn join_completions_fails_with_the_failure_of_the_earliest_sub_range() {
    let completions: Vec<Completion<u32, String>> = vec![
        Completion { index: 3, outcome: Err("fourth".to_string()) },
        completion(0, &[1]),
        Completion { index: 1, outcome: Err("second".to_string()) },
        completion(2, &[2]),
    ];
    assert_eq!(join_completions(completions, 4), Some(Err("second".to_string())));
    assert_eq!(join_completions(vec![completion(1, &[1])], 1), None);
}

#[test]
fn backfill_sequential_concatenates_in_chronological_order() {
    let source = Catalogue::new(&[]);
    let events = backfill_sequential(&source, 16071, 16076, 2, 3).unwrap().unwrap();
    assert_eq!(
        places(&events),
        vec![
            "2014-01-01 a",
            "2014-01-01 b",
            "2014-01-03 a",
            "2014-01-03 b",
            "2014-01-05 a",
            "2014-01-05 b"
        ]
    );
    let queries = source.queries.borrow();
    assert_eq!(queries.len(), 3);
    assert_eq!(
        queries[2],
        (
            "geojson".to_string(),
            "2014-01-05".to_string(),
            "2014-01-06".to_string(),
            "3".to_string()
        )
    );
}

#[test]
fn backfill_sequential_fails_fast() {
    let source = Catalogue::new(&["2014-01-03"]);
    let outcome = backfill_sequential(&source, 16071, 16081, 2, 3).unwrap();
    assert_eq!(outcome.unwrap_err(), "failed at 2014-01-03");
    assert_eq!(source.starts(), vec!["2014-01-01", "2014-01-03"]);
}

#[test]
fn backfill_fan_out_attempts_every_fetch_and_fails() {
    let source = Catalogue::new(&["2014-01-03"]);
    let outcome = backfill_fan_out(&source, 16071, 16081, 2, 3).unwrap();
    assert_eq!(outcome.unwrap_err(), "failed at 2014-01-03");
    assert_eq!(
        source.starts(),
        vec!["2014-01-01", "2014-01-03", "2014-01-05", "2014-01-07", "2014-01-09"]
    );
}

#[test]
fn backfill_fan_out_concatenates_in_chronological_order() {
    let source = Catalogue::new(&[]);
    let events = backfill_fan_out(&source, 16071, 16074, 2, 5).unwrap().unwrap();
    assert_eq!(
        places(&events),
        vec!["2014-01-01 a", "2014-01-01 b", "2014-01-03 a", "2014-01-03 b"]
    );
    assert_eq!(source.queries.borrow()[0].3, "5");
}

#[test]
fn backfill_of_an_empty_range_fetches_nothing() {
    let source = Catalogue::new(&[]);
    assert!(backfill_sequential(&source, 16071, 16071, 2, 3).unwrap().unwrap().is_empty());
    assert!(backfill_fan_out(&source, 16071, 16071, 2, 3).unwrap().unwrap().is_empty());
    assert!(backfill_sequential(&source, i64::MAX, i64::MAX, 2, 3).unwrap().unwrap().is_empty());
    assert!(source.queries.borrow().is_empty());
}

#[test]
fn backfill_off_the_calendar_fetches_nothing() {
    let source = Catalogue::new(&[]);
    let greatest = MAX_EPOCH_DAY as i64;
    assert!(backfill_sequential(&source, greatest - 3, greatest + 1, 2, 3).is_none());
    assert!(backfill_fan_out(&source, greatest - 3, greatest + 1, 2, 3).is_none());
    assert!(source.queries.borrow().is_empty());
    assert!(backfill_sequential(&source, greatest - 3, greatest, 2, 3).is_some());
    assert_eq!(source.queries.borrow().len(), 2);
}
