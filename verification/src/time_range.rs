//! Time ranges, and the cover of a long range by sub-ranges of a bounded
//! span.

use crate::utils::{date_representable, date_text, format_date};
use vstd::prelude::*;

verus! {

/// The instants from `start` up to, not including, `end`.
#[derive(Debug, Clone, Copy, PartialEq, Eq, Structural)]
pub struct TimeRange {
    pub start: i64,
    pub end: i64,
}

impl TimeRange {
    /// Whether the range holds the instant `t`.
    pub open spec fn contains(self, t: int) -> bool {
        self.start <= t < self.end
    }

    /// The number of instants in the range.
    pub open spec fn length(self) -> int {
        self.end - self.start
    }
}

/// Where the sub-range that starts at `start` ends: one span later, or at
/// `newest` where that comes first.
pub open spec fn sub_range_end(start: i64, newest: i64, span: i64) -> i64 {
    if newest - start <= span {
        newest
    } else {
        (start + span) as i64
    }
}

/// The cover of the range from `oldest` to `newest` by sub-ranges of at most
/// `span` instants: the sub-range that starts at `oldest`, then the cover of
/// what is left. It is empty where nothing lies between the two.
pub open spec fn cover(oldest: i64, newest: i64, span: i64) -> Seq<TimeRange>
    decreases newest - oldest,
{
    if oldest >= newest || span <= 0 {
        Seq::empty()
    } else {
        let end = sub_range_end(oldest, newest, span);
        seq![TimeRange { start: oldest, end }] + cover(end, newest, span)
    }
}

/// Splits the range from `oldest` to `newest` into its cover.
pub fn split_range(oldest: i64, newest: i64, span: i64) -> (ranges: Vec<TimeRange>)
    requires
        span > 0,
    ensures
        ranges@ == cover(oldest, newest, span),
{
    let mut ranges: Vec<TimeRange> = Vec::new();
    let mut current: i64 = oldest;
    while current < newest
        invariant
            span > 0,
            cover(oldest, newest, span) == ranges@ + cover(current, newest, span),
        decreases newest - current,
    {
        let end: i64 = if (newest as i128) - (current as i128) <= span as i128 {
            newest
        } else {
            current + span
        };
        assert(end == sub_range_end(current, newest, span));
        ranges.push(TimeRange { start: current, end });
        assert(ranges@ + cover(end, newest, span) =~= ranges@.drop_last() + cover(
            current,
            newest,
            span,
        ));
        current = end;
    }
    assert(ranges@ + cover(current, newest, span) =~= ranges@);
    ranges
}

/// The cover leaves no gap, overlaps nowhere and is in chronological order:
/// it starts at `oldest`, each sub-range starts where the one before it
/// ended, the last one ends at `newest`, and none is empty. No sub-range is
/// longer than the span, and all but the last are exactly as long.
pub proof fn lemma_cover_is_a_chain(oldest: i64, newest: i64, span: i64)
    requires
        span > 0,
        oldest <= newest,
    ensures
        oldest == newest ==> cover(oldest, newest, span).len() == 0,
        oldest < newest ==> cover(oldest, newest, span).len() > 0 && cover(
            oldest,
            newest,
            span,
        ).first().start == oldest && cover(oldest, newest, span).last().end == newest,
        forall|i: int|
            0 <= i < cover(oldest, newest, span).len() ==> {
                let range = #[trigger] cover(oldest, newest, span)[i];
                0 < range.length() <= span && oldest <= range.start && range.end <= newest
            },
        forall|i: int|
            0 <= i < cover(oldest, newest, span).len() - 1 ==> {
                let range = #[trigger] cover(oldest, newest, span)[i];
                range.end == cover(oldest, newest, span)[i + 1].start && range.length() == span
            },
    decreases newest - oldest,
{
    if oldest < newest {
        let end = sub_range_end(oldest, newest, span);
        let head = seq![TimeRange { start: oldest, end }];
        let rest = cover(end, newest, span);
        let all = cover(oldest, newest, span);
        lemma_cover_is_a_chain(end, newest, span);
        assert(all == head + rest);
        assert(all[0] == head[0]);
        assert forall|i: int| 0 <= i < all.len() implies {
            let range = #[trigger] all[i];
            0 < range.length() <= span && oldest <= range.start && range.end <= newest
        } by {
            if i > 0 {
                assert(all[i] == rest[i - 1]);
            }
        }
        assert forall|i: int| 0 <= i < all.len() - 1 implies {
            let range = #[trigger] all[i];
            range.end == all[i + 1].start && range.length() == span
        } by {
            assert(all[i + 1] == rest[i]);
            if i > 0 {
                assert(all[i] == rest[i - 1]);
            }
        }
        if rest.len() > 0 {
            assert(all.last() == rest.last());
        }
    }
}

/// Whether one of the ranges holds the instant `t`.
pub open spec fn some_range_contains(ranges: Seq<TimeRange>, t: int) -> bool {
    exists|i: int| 0 <= i < ranges.len() && (#[trigger] ranges[i]).contains(t)
}

/// The sub-ranges of the cover together are the range from `oldest` to
/// `newest`: an instant lies in the range exactly if a sub-range holds it,
/// and no two sub-ranges hold the same instant.
pub proof fn lemma_cover_is_exact(oldest: i64, newest: i64, span: i64)
    requires
        span > 0,
        oldest <= newest,
    ensures
        forall|t: int|
            (oldest <= t < newest) <==> #[trigger] some_range_contains(
                cover(oldest, newest, span),
                t,
            ),
        forall|i: int, j: int, t: int|
            0 <= i < cover(oldest, newest, span).len() && 0 <= j < cover(
                oldest,
                newest,
                span,
            ).len() && #[trigger] cover(oldest, newest, span)[i].contains(t) && #[trigger] cover(
                oldest,
                newest,
                span,
            )[j].contains(t) ==> i == j,
    decreases newest - oldest,
{
    let all = cover(oldest, newest, span);
    if oldest < newest {
        let end = sub_range_end(oldest, newest, span);
        let head = seq![TimeRange { start: oldest, end }];
        let rest = cover(end, newest, span);
        lemma_cover_is_exact(end, newest, span);
        lemma_cover_is_a_chain(end, newest, span);
        assert(all == head + rest);
        assert(all[0] == head[0]);
        assert forall|t: int| (oldest <= t < newest) <==> #[trigger] some_range_contains(
            all,
            t,
        ) by {
            if oldest <= t < newest {
                if t < end {
                    assert(all[0].contains(t));
                } else {
                    assert(some_range_contains(rest, t));
                    let i = choose|i: int| 0 <= i < rest.len() && (#[trigger] rest[i]).contains(t);
                    assert(all[i + 1] == rest[i]);
                    assert(all[i + 1].contains(t));
                }
            }
            if some_range_contains(all, t) {
                let i = choose|i: int| 0 <= i < all.len() && (#[trigger] all[i]).contains(t);
                if i > 0 {
                    assert(all[i] == rest[i - 1]);
                    assert(some_range_contains(rest, t));
                }
            }
        }
        assert forall|i: int, j: int, t: int|
            0 <= i < all.len() && 0 <= j < all.len() && #[trigger] all[i].contains(t)
                && #[trigger] all[j].contains(t) implies i == j by {
            if i > 0 {
                assert(all[i] == rest[i - 1]);
            }
            if j > 0 {
                assert(all[j] == rest[j - 1]);
            }
        }
    }
}

/// The time range of one fetch, as the two texts that are sent.
#[derive(Debug, Clone)]
pub struct Window {
    pub start_time: String,
    pub end_time: String,
}

impl Window {
    /// The two texts of the window.
    pub open spec fn texts(self) -> (Seq<char>, Seq<char>) {
        (self.start_time@, self.end_time@)
    }
}

/// Whether the two ends of a range of days are dates of the calendar.
pub open spec fn has_dates(range: TimeRange) -> bool {
    date_representable(range.start as int) && date_representable(range.end as int)
}

/// The texts of a range of days: the dates of its two ends.
pub open spec fn date_texts(range: TimeRange) -> (Seq<char>, Seq<char>) {
    (date_text(range.start as i32), date_text(range.end as i32))
}

/// The texts of the ranges of days, in their order.
pub open spec fn all_date_texts(ranges: Seq<TimeRange>) -> Seq<(Seq<char>, Seq<char>)> {
    Seq::new(ranges.len(), |i: int| date_texts(ranges[i]))
}

/// The texts of the windows, in their order.
pub open spec fn all_texts(windows: Seq<Window>) -> Seq<(Seq<char>, Seq<char>)> {
    Seq::new(windows.len(), |i: int| windows[i].texts())
}

fn day_text(day: i64) -> (text: Option<String>)
    ensures
        text.is_some() == date_representable(day as int),
        text matches Some(t) ==> t@ == date_text(day as i32),
{
    if day < -0x8000_0000 || day > 0x7fff_ffff {
        None
    } else {
        format_date(day as i32)
    }
}

/// Writes a range of days as a window: the dates of its two ends. There is
/// none where one of the two is no date of the calendar.
pub fn date_window(range: &TimeRange) -> (window: Option<Window>)
    ensures
        window.is_some() == has_dates(*range),
        window matches Some(w) ==> w.texts() == date_texts(*range),
{
    match day_text(range.start) {
        None => None,
        Some(start_time) => match day_text(range.end) {
            None => None,
            Some(end_time) => Some(Window { start_time, end_time }),
        },
    }
}

/// Writes ranges of days as windows, in their order. There are none where an
/// end of one of the ranges is no date of the calendar.
pub fn date_windows(ranges: &Vec<TimeRange>) -> (windows: Option<Vec<Window>>)
    ensures
        windows.is_some() == (forall|i: int| 0 <= i < ranges.len() ==> has_dates(#[trigger] ranges[i])),
        windows matches Some(w) ==> all_texts(w@) == all_date_texts(ranges@),
{
    let mut windows: Vec<Window> = Vec::new();
    let mut i: usize = 0;
    while i < ranges.len()
        invariant
            i <= ranges.len(),
            windows.len() == i,
            forall|k: int| 0 <= k < i ==> has_dates(#[trigger] ranges[k]),
            forall|k: int| 0 <= k < i ==> (#[trigger] windows[k]).texts() == date_texts(ranges[k]),
        decreases ranges.len() - i,
    {
        match date_window(&ranges[i]) {
            None => {
                return None;
            },
            Some(window) => {
                windows.push(window);
            },
        }
        i += 1;
    }
    assert(all_texts(windows@) =~= all_date_texts(ranges@));
    Some(windows)
}

} // verus!
