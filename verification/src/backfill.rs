//! The backfill of a long range: one fetch for each sub-range of its cover,
//! and the events of all of them in chronological order, or the first
//! failure.

use crate::earthquake_event::{EarthquakeDataSource, EarthquakeEvent};
use crate::fetch::{geojson, run_fetch};
use crate::text::decimal_text;
use crate::time_range::{
    all_date_texts, all_texts, cover, date_windows, has_dates, lemma_cover_is_a_chain,
    split_range, TimeRange, Window,
};
use crate::utils::date_representable;
use vstd::prelude::*;

verus! {

/// Whether `outcome` is an outcome that the source can give for the time
/// range written as `texts`, asked through `run_fetch`.
pub open spec fn answers<S: EarthquakeDataSource>(
    source: &S,
    texts: (Seq<char>, Seq<char>),
    min_magnitude: i32,
    outcome: Result<Vec<EarthquakeEvent<S::Number>>, S::Error>,
) -> bool {
    source.may_answer(geojson(), texts.0, texts.1, decimal_text(min_magnitude as int), outcome)
}

/// Whether `outcomes` is what a run gives that fetches the ranges in their
/// order and stops at the first failure: one outcome for each range up to
/// there, none for a range after it.
pub open spec fn is_fail_fast_run<S: EarthquakeDataSource>(
    source: &S,
    texts: Seq<(Seq<char>, Seq<char>)>,
    min_magnitude: i32,
    outcomes: Seq<Result<Vec<EarthquakeEvent<S::Number>>, S::Error>>,
) -> bool {
    &&& outcomes.len() <= texts.len()
    &&& forall|k: int|
        0 <= k < outcomes.len() ==> answers(source, texts[k], min_magnitude, #[trigger] outcomes[k])
    &&& forall|k: int| 0 <= k < outcomes.len() - 1 ==> (#[trigger] outcomes[k]) is Ok
    &&& outcomes.len() < texts.len() ==> outcomes.len() > 0 && outcomes.last() is Err
}

/// Whether `outcomes` is what a run gives that fetches every range, whatever
/// the outcomes of the others: one outcome for each range, in the ranges'
/// order.
pub open spec fn is_full_run<S: EarthquakeDataSource>(
    source: &S,
    texts: Seq<(Seq<char>, Seq<char>)>,
    min_magnitude: i32,
    outcomes: Seq<Result<Vec<EarthquakeEvent<S::Number>>, S::Error>>,
) -> bool {
    &&& outcomes.len() == texts.len()
    &&& forall|k: int|
        0 <= k < outcomes.len() ==> answers(source, texts[k], min_magnitude, #[trigger] outcomes[k])
}

/// Fetches the windows one after another and stops at the first failure.
/// Gives the outcomes of the fetches that were made, in the windows' order.
pub fn fetch_in_turn<S: EarthquakeDataSource>(
    source: &S,
    windows: &Vec<Window>,
    min_magnitude: i32,
) -> (outcomes: Vec<Result<Vec<EarthquakeEvent<S::Number>>, S::Error>>)
    ensures
        is_fail_fast_run(source, all_texts(windows@), min_magnitude, outcomes@),
{
    let mut outcomes: Vec<Result<Vec<EarthquakeEvent<S::Number>>, S::Error>> = Vec::new();
    let mut i: usize = 0;
    while i < windows.len()
        invariant
            i <= windows.len(),
            outcomes.len() == i,
            forall|k: int|
                0 <= k < i ==> answers(
                    source,
                    all_texts(windows@)[k],
                    min_magnitude,
                    #[trigger] outcomes[k],
                ),
            forall|k: int| 0 <= k < i ==> (#[trigger] outcomes[k]) is Ok,
        decreases windows.len() - i,
    {
        let outcome = run_fetch(
            source,
            windows[i].start_time.as_str(),
            windows[i].end_time.as_str(),
            min_magnitude,
        );
        let failed = outcome.is_err();
        outcomes.push(outcome);
        if failed {
            return outcomes;
        }
        i += 1;
    }
    outcomes
}

/// Fetches every window, whatever the outcomes of the others. Gives the
/// outcomes in the windows' order.
pub fn fetch_every<S: EarthquakeDataSource>(
    source: &S,
    windows: &Vec<Window>,
    min_magnitude: i32,
) -> (outcomes: Vec<Result<Vec<EarthquakeEvent<S::Number>>, S::Error>>)
    ensures
        is_full_run(source, all_texts(windows@), min_magnitude, outcomes@),
{
    let mut outcomes: Vec<Result<Vec<EarthquakeEvent<S::Number>>, S::Error>> = Vec::new();
    let mut i: usize = 0;
    while i < windows.len()
        invariant
            i <= windows.len(),
            outcomes.len() == i,
            forall|k: int|
                0 <= k < i ==> answers(
                    source,
                    all_texts(windows@)[k],
                    min_magnitude,
                    #[trigger] outcomes[k],
                ),
        decreases windows.len() - i,
    {
        let outcome = run_fetch(
            source,
            windows[i].start_time.as_str(),
            windows[i].end_time.as_str(),
            min_magnitude,
        );
        outcomes.push(outcome);
        i += 1;
    }
    outcomes
}

/// The items of the successful outcomes, one outcome after the other.
pub open spec fn concatenation<T, E>(outcomes: Seq<Result<Vec<T>, E>>) -> Seq<T>
    decreases outcomes.len(),
{
    if outcomes.len() == 0 {
        Seq::empty()
    } else {
        concatenation(outcomes.drop_last()) + match outcomes.last() {
            Ok(items) => items@,
            Err(_) => Seq::empty(),
        }
    }
}

/// Whether the outcome at `i` is a failure and none before it is.
pub open spec fn is_first_failure<T, E>(outcomes: Seq<Result<Vec<T>, E>>, i: int) -> bool {
    &&& 0 <= i < outcomes.len()
    &&& outcomes[i] is Err
    &&& forall|k: int| 0 <= k < i ==> (#[trigger] outcomes[k]) is Ok
}

/// Whether `collected` is what the outcomes come to: where none has failed,
/// their items in the outcomes' order; else the error of the first failure.
pub open spec fn is_collected<T, E>(
    outcomes: Seq<Result<Vec<T>, E>>,
    collected: Result<Vec<T>, E>,
) -> bool {
    match collected {
        Ok(items) => {
            &&& forall|k: int| 0 <= k < outcomes.len() ==> (#[trigger] outcomes[k]) is Ok
            &&& items@ == concatenation(outcomes)
        },
        Err(error) => exists|i: int|
            is_first_failure(outcomes, i) && #[trigger] outcomes[i] == Err::<Vec<T>, E>(error),
    }
}

/// Brings the outcomes of the sub-ranges together. The order of the items
/// is that of the outcomes, which is that of the sub-ranges; a failure
/// anywhere makes the whole a failure.
pub fn collect_in_order<T, E>(outcomes: Vec<Result<Vec<T>, E>>) -> (collected: Result<Vec<T>, E>)
    ensures
        is_collected(outcomes@, collected),
        collected.is_err() == (exists|k: int| 0 <= k < outcomes.len() && (#[trigger] outcomes[k]) is Err),
{
    let mut items: Vec<T> = Vec::new();
    for outcome in iter: outcomes
        invariant
            iter.seq() == outcomes@,
            forall|k: int| 0 <= k < iter.index() ==> (#[trigger] outcomes[k]) is Ok,
            items@ == concatenation(outcomes@.take(iter.index() as int)),
    {
        let ghost done = iter.index() as int;
        assert(outcomes@.take(done + 1).drop_last() =~= outcomes@.take(done));
        match outcome {
            Ok(mut more) => {
                items.append(&mut more);
            },
            Err(error) => {
                assert(is_first_failure(outcomes@, done));
                return Err(error);
            },
        }
    }
    assert(outcomes@.take(outcomes@.len() as int) =~= outcomes@);
    Ok(items)
}

/// The outcome of one sub-range's fetch, tagged with the place of the
/// sub-range in the cover.
#[derive(Debug)]
pub struct Completion<T, E> {
    pub index: usize,
    pub outcome: Result<Vec<T>, E>,
}

/// Whether one of the first `upto` completions has the tag `i`.
pub open spec fn has_tag<T, E>(completions: Seq<Completion<T, E>>, upto: int, i: int) -> bool {
    exists|k: int| 0 <= k < upto && k < completions.len() && (#[trigger] completions[k]).index == i
}

/// Whether the completions are those of `count` sub-ranges: each place from
/// 0 up to `count` is the tag of exactly one of them.
pub open spec fn is_complete<T, E>(completions: Seq<Completion<T, E>>, count: usize) -> bool {
    &&& forall|k: int| 0 <= k < completions.len() ==> (#[trigger] completions[k]).index < count
    &&& forall|k: int, l: int|
        0 <= k < l < completions.len() ==> (#[trigger] completions[k]).index != (
        #[trigger] completions[l]).index
    &&& forall|i: int| 0 <= i < count ==> #[trigger] has_tag(completions, completions.len() as int, i)
}

/// Whether `outcomes` holds each completion's outcome at the place of its
/// tag.
pub open spec fn is_arranged<T, E>(
    completions: Seq<Completion<T, E>>,
    count: usize,
    outcomes: Seq<Result<Vec<T>, E>>,
) -> bool {
    &&& outcomes.len() == count
    &&& forall|k: int|
        0 <= k < completions.len() ==> outcomes[(#[trigger] completions[k]).index as int]
            == completions[k].outcome
}

/// Puts the outcomes of fetches that ended in any order back into the order
/// of the sub-ranges, by their tags. Gives nothing where the completions are
/// not those of `count` sub-ranges.
pub fn arrange<T, E>(completions: Vec<Completion<T, E>>, count: usize) -> (outcomes: Option<
    Vec<Result<Vec<T>, E>>,
>)
    ensures
        outcomes.is_some() == is_complete(completions@, count),
        outcomes matches Some(o) ==> is_arranged(completions@, count, o@),
{
    let mut slots: Vec<Option<Result<Vec<T>, E>>> = Vec::new();
    let mut n: usize = 0;
    while n < count
        invariant
            n <= count,
            slots.len() == n,
            forall|i: int| 0 <= i < n ==> (#[trigger] slots[i]) is None,
        decreases count - n,
    {
        slots.push(None);
        n += 1;
    }
    for completion in iter: completions
        invariant
            iter.seq() == completions@,
            slots.len() == count,
            forall|k: int| 0 <= k < iter.index() ==> (#[trigger] completions[k]).index < count,
            forall|k: int, l: int|
                0 <= k < l < iter.index() ==> (#[trigger] completions[k]).index != (
                #[trigger] completions[l]).index,
            forall|k: int|
                0 <= k < iter.index() ==> slots[(#[trigger] completions[k]).index as int] == Some(
                    completions[k].outcome,
                ),
            forall|i: int|
                0 <= i < count && (#[trigger] slots[i]) is Some ==> has_tag(
                    completions@,
                    iter.index() as int,
                    i,
                ),
    {
        let ghost done = iter.index() as int;
        let index: usize = completion.index;
        if index >= count {
            assert(completions[done].index >= count);
            return None;
        }
        if slots[index].is_some() {
            proof {
                assert(has_tag(completions@, done, index as int));
                let k = choose|k: int|
                    0 <= k < done && k < completions.len() && (#[trigger] completions[k]).index
                        == index;
                assert(completions[k].index == completions[done].index);
            }
            return None;
        }
        let ghost before = slots@;
        slots[index] = Some(completion.outcome);
        assert forall|i: int| 0 <= i < count && (#[trigger] slots[i]) is Some implies has_tag(
            completions@,
            done + 1,
            i,
        ) by {
            if i == index {
                assert(completions[done].index == i);
            } else {
                assert(before[i] is Some);
                assert(has_tag(completions@, done, i));
                let k = choose|k: int|
                    0 <= k < done && k < completions.len() && (#[trigger] completions[k]).index
                        == i;
                assert(completions[k].index == i);
            }
        }
    }
    let ghost filled = slots@;
    let mut outcomes: Vec<Result<Vec<T>, E>> = Vec::new();
    for slot in iter: slots
        invariant
            iter.seq() == filled,
            filled.len() == count,
            outcomes.len() == iter.index(),
            forall|i: int| 0 <= i < iter.index() ==> filled[i] == Some(#[trigger] outcomes[i]),
            forall|k: int| 0 <= k < completions.len() ==> (#[trigger] completions[k]).index < count,
            forall|k: int, l: int|
                0 <= k < l < completions.len() ==> (#[trigger] completions[k]).index != (
                #[trigger] completions[l]).index,
            forall|i: int|
                0 <= i < count && (#[trigger] filled[i]) is Some ==> has_tag(
                    completions@,
                    completions@.len() as int,
                    i,
                ),
            forall|k: int|
                0 <= k < completions.len() ==> filled[(#[trigger] completions[k]).index as int]
                    == Some(completions[k].outcome),
    {
        match slot {
            Some(outcome) => {
                outcomes.push(outcome);
            },
            None => {
                let ghost empty = iter.index() as int;
                assert(!has_tag(completions@, completions@.len() as int, empty)) by {
                    if has_tag(completions@, completions@.len() as int, empty) {
                        let k = choose|k: int|
                            0 <= k < completions.len() && k < completions.len() && (
                            #[trigger] completions[k]).index == empty;
                        assert(filled[completions[k].index as int] is Some);
                    }
                }
                return None;
            },
        }
    }
    assert forall|i: int| 0 <= i < count implies #[trigger] has_tag(
        completions@,
        completions@.len() as int,
        i,
    ) by {
        assert(filled[i] == Some(outcomes[i]));
    }
    assert(forall|k: int| 0 <= k < completions.len() ==> (#[trigger] completions[k]).index < count);
    assert(forall|k: int, l: int|
        0 <= k < l < completions.len() ==> (#[trigger] completions[k]).index != (
        #[trigger] completions[l]).index);
    assert(is_complete(completions@, count));
    Some(outcomes)
}

/// Brings together the outcomes of fetches that ended in any order: puts
/// them back into the order of the sub-ranges and collects them. Gives
/// nothing where the completions are not those of `count` sub-ranges.
pub fn join_completions<T, E>(completions: Vec<Completion<T, E>>, count: usize) -> (joined: Option<
    Result<Vec<T>, E>,
>)
    ensures
        joined.is_some() == is_complete(completions@, count),
        joined matches Some(collected) ==> exists|outcomes: Seq<Result<Vec<T>, E>>|
            #[trigger] is_arranged(completions@, count, outcomes) && is_collected(
                outcomes,
                collected,
            ),
{
    match arrange(completions, count) {
        None => None,
        Some(outcomes) => {
            let ghost arranged = outcomes@;
            let collected = collect_in_order(outcomes);
            assert(is_arranged(completions@, count, arranged) && is_collected(arranged, collected));
            Some(collected)
        },
    }
}

/// The order in which the fetches ended does not show in what they are
/// arranged to: where two lists hold the completions of the same `count`
/// sub-ranges, each completion of the one also in the other, both are
/// arranged to the same outcomes, and so to the same order of events.
pub proof fn lemma_arrangement_ignores_completion_order<T, E>(
    first: Seq<Completion<T, E>>,
    second: Seq<Completion<T, E>>,
    count: usize,
    first_outcomes: Seq<Result<Vec<T>, E>>,
    second_outcomes: Seq<Result<Vec<T>, E>>,
)
    requires
        is_complete(first, count),
        is_complete(second, count),
        forall|k: int| 0 <= k < first.len() ==> second.contains(#[trigger] first[k]),
        is_arranged(first, count, first_outcomes),
        is_arranged(second, count, second_outcomes),
    ensures
        first_outcomes == second_outcomes,
        concatenation(first_outcomes) == concatenation(second_outcomes),
{
    assert forall|i: int| 0 <= i < count implies first_outcomes[i] == second_outcomes[i] by {
        assert(has_tag(first, first.len() as int, i));
        let k = choose|k: int|
            0 <= k < first.len() && k < first.len() && (#[trigger] first[k]).index == i;
        assert(second.contains(first[k]));
        let l = choose|l: int| 0 <= l < second.len() && second[l] == first[k];
        assert(second_outcomes[second[l].index as int] == second[l].outcome);
        assert(first_outcomes[first[k].index as int] == first[k].outcome);
    }
    assert(first_outcomes =~= second_outcomes);
}

/// A run that stops at the first failure has made no fetch after it: what
/// it comes to is a failure exactly if its last fetch failed, with the error
/// of that fetch, and then as many fetches were made as there are ranges up
/// to the failed one.
pub proof fn lemma_fail_fast_ends_at_the_failure<S: EarthquakeDataSource>(
    source: &S,
    texts: Seq<(Seq<char>, Seq<char>)>,
    min_magnitude: i32,
    outcomes: Seq<Result<Vec<EarthquakeEvent<S::Number>>, S::Error>>,
    collected: Result<Vec<EarthquakeEvent<S::Number>>, S::Error>,
)
    requires
        is_fail_fast_run(source, texts, min_magnitude, outcomes),
        is_collected(outcomes, collected),
    ensures
        collected matches Err(error) ==> outcomes.len() > 0 && outcomes.last() == Err::<
            Vec<EarthquakeEvent<S::Number>>,
            S::Error,
        >(error) && is_first_failure(outcomes, outcomes.len() - 1),
        collected is Ok ==> outcomes.len() == texts.len(),
{
    match collected {
        Err(error) => {
            let i = choose|i: int|
                is_first_failure(outcomes, i) && #[trigger] outcomes[i] == Err::<
                    Vec<EarthquakeEvent<S::Number>>,
                    S::Error,
                >(error);
            if i < outcomes.len() - 1 {
                assert(outcomes[i] is Ok);
            }
        },
        Ok(_) => {
            if outcomes.len() < texts.len() {
                assert(outcomes[outcomes.len() - 1] is Ok);
            }
        },
    }
}

/// A run that fetches every range comes to a failure as soon as one of its
/// fetches failed, whatever the others gave, and has made a fetch for every
/// range all the same.
pub proof fn lemma_one_failure_fails_the_fan_out<S: EarthquakeDataSource>(
    source: &S,
    texts: Seq<(Seq<char>, Seq<char>)>,
    min_magnitude: i32,
    outcomes: Seq<Result<Vec<EarthquakeEvent<S::Number>>, S::Error>>,
    collected: Result<Vec<EarthquakeEvent<S::Number>>, S::Error>,
    failed: int,
)
    requires
        is_full_run(source, texts, min_magnitude, outcomes),
        is_collected(outcomes, collected),
        0 <= failed < outcomes.len(),
        outcomes[failed] is Err,
    ensures
        collected is Err,
        outcomes.len() == texts.len(),
{
}

/// Whether the two ends of a range of days can be written, as far as they
/// are needed: a range that holds no day needs none.
pub open spec fn has_texts(oldest: i64, newest: i64) -> bool {
    oldest < newest ==> date_representable(oldest as int) && date_representable(newest as int)
}

proof fn lemma_cover_has_dates(oldest: i64, newest: i64, span: i64)
    requires
        span > 0,
    ensures
        has_texts(oldest, newest) == (forall|i: int|
            0 <= i < cover(oldest, newest, span).len() ==> has_dates(
                #[trigger] cover(oldest, newest, span)[i],
            )),
{
    let all = cover(oldest, newest, span);
    if oldest < newest {
        lemma_cover_is_a_chain(oldest, newest, span);
        if forall|i: int| 0 <= i < all.len() ==> has_dates(#[trigger] all[i]) {
            assert(has_dates(all[0]));
            assert(has_dates(all[all.len() - 1]));
        }
    }
}

/// Fetches the events of the days from `oldest` to `newest`, in sub-ranges
/// of at most `span` days, one fetch after the other in chronological order.
/// The first failure ends the backfill and is its result; no fetch is made
/// after it. Otherwise the result holds the events of all sub-ranges in
/// chronological order. Gives nothing, and fetches nothing, where the range
/// holds days and one of its ends is no date of the calendar.
pub fn backfill_sequential<S: EarthquakeDataSource>(
    source: &S,
    oldest: i64,
    newest: i64,
    span: i64,
    min_magnitude: i32,
) -> (result: Option<Result<Vec<EarthquakeEvent<S::Number>>, S::Error>>)
    requires
        span > 0,
    ensures
        result.is_some() == has_texts(oldest, newest),
        result matches Some(collected) ==> exists|
            outcomes: Seq<Result<Vec<EarthquakeEvent<S::Number>>, S::Error>>,
        |
            #[trigger] is_fail_fast_run(
                source,
                all_date_texts(cover(oldest, newest, span)),
                min_magnitude,
                outcomes,
            ) && is_collected(outcomes, collected),
{
    let ranges = split_range(oldest, newest, span);
    proof {
        lemma_cover_has_dates(oldest, newest, span);
    }
    match date_windows(&ranges) {
        None => None,
        Some(windows) => {
            let outcomes = fetch_in_turn(source, &windows, min_magnitude);
            let ghost made = outcomes@;
            let collected = collect_in_order(outcomes);
            assert(is_fail_fast_run(
                source,
                all_date_texts(cover(oldest, newest, span)),
                min_magnitude,
                made,
            ) && is_collected(made, collected));
            Some(collected)
        },
    }
}

/// Fetches the events of the days from `oldest` to `newest`, in sub-ranges
/// of at most `span` days: every fetch is made before any outcome is looked
/// at. Where one of them failed, the result is the failure of the earliest
/// sub-range that has one; otherwise it holds the events of all sub-ranges in
/// chronological order. Gives nothing, and fetches nothing, where the range
/// holds days and one of its ends is no date of the calendar.
pub fn backfill_fan_out<S: EarthquakeDataSource>(
    source: &S,
    oldest: i64,
    newest: i64,
    span: i64,
    min_magnitude: i32,
) -> (result: Option<Result<Vec<EarthquakeEvent<S::Number>>, S::Error>>)
    requires
        span > 0,
    ensures
        result.is_some() == has_texts(oldest, newest),
        result matches Some(collected) ==> exists|
            outcomes: Seq<Result<Vec<EarthquakeEvent<S::Number>>, S::Error>>,
        |
            #[trigger] is_full_run(
                source,
                all_date_texts(cover(oldest, newest, span)),
                min_magnitude,
                outcomes,
            ) && is_collected(outcomes, collected),
{
    let ranges = split_range(oldest, newest, span);
    proof {
        lemma_cover_has_dates(oldest, newest, span);
    }
    match date_windows(&ranges) {
        None => None,
        Some(windows) => {
            let outcomes = fetch_every(source, &windows, min_magnitude);
            let ghost made = outcomes@;
            let collected = collect_in_order(outcomes);
            assert(is_full_run(
                source,
                all_date_texts(cover(oldest, newest, span)),
                min_magnitude,
                made,
            ) && is_collected(made, collected));
            Some(collected)
        },
    }
}

} // verus!
