//! The hand-over to clustering: the observations that a clustering is run
//! on, and the grouping of the events by the cluster that each was assigned
//! to.

use crate::earthquake_event::EarthquakeEvent;
use vstd::prelude::*;
use vstd::string::*;

verus! {

/// Why a clustering came to nothing.
#[derive(Debug, Clone, Copy, PartialEq, Eq, Structural)]
pub enum ClusteringError {
    /// The assignments do not fit the events or the number of clusters.
    ClusteringFailed,
}

impl ClusteringError {
    /// The message of the error, for a reader.
    pub fn message(&self) -> (text: String)
        ensures
            text@ == "Clustering Failed"@,
    {
        String::from_str("Clustering Failed")
    }
}

/// The observation of an event: the field `lon` of its coordinates, then
/// the field `lat`, which are the second and the first number that the
/// catalogue sent.
pub open spec fn observation<T>(event: EarthquakeEvent<T>) -> Seq<T> {
    seq![event.coordinates.lon, event.coordinates.lat]
}

/// The observations of the events, in the events' order.
pub fn convert_to_linfa_observations<T: Copy>(events: &Vec<EarthquakeEvent<T>>) -> (observations:
    Vec<[T; 2]>)
    ensures
        observations.len() == events.len(),
        forall|i: int|
            0 <= i < events.len() ==> (#[trigger] observations[i])@ == observation(events[i]),
{
    let mut observations: Vec<[T; 2]> = Vec::new();
    let mut i: usize = 0;
    while i < events.len()
        invariant
            i <= events.len(),
            observations.len() == i,
            forall|k: int| 0 <= k < i ==> (#[trigger] observations[k])@ == observation(events[k]),
        decreases events.len() - i,
    {
        let pair: [T; 2] = [events[i].coordinates.lon, events[i].coordinates.lat];
        assert(pair@ =~= observation(events[i as int]));
        observations.push(pair);
        i += 1;
    }
    observations
}

/// Whether there is one assignment for each event, each to one of the
/// clusters.
pub open spec fn assignments_fit(events: nat, assignments: Seq<usize>, n_clusters: usize) -> bool {
    &&& assignments.len() == events
    &&& forall|i: int| 0 <= i < assignments.len() ==> (#[trigger] assignments[i]) < n_clusters
}

/// The items that are assigned to `cluster`, in the items' order.
pub open spec fn members<A>(items: Seq<A>, assignments: Seq<usize>, cluster: int) -> Seq<A>
    decreases items.len(),
{
    if items.len() == 0 || assignments.len() == 0 {
        Seq::empty()
    } else {
        let before = members(items.drop_last(), assignments.drop_last(), cluster);
        if assignments.last() == cluster {
            before.push(items.last())
        } else {
            before
        }
    }
}

/// Groups the events by the cluster that a clustering has assigned each to:
/// `assignments` holds the cluster of each event, in the events' order. The
/// result has one group for each cluster, and each group holds its events
/// in their first order. Fails where the assignments do not fit.
pub fn cluster_earthquake_events<T>(
    events: Vec<EarthquakeEvent<T>>,
    assignments: &Vec<usize>,
    n_clusters: usize,
) -> (clusters: Result<Vec<Vec<EarthquakeEvent<T>>>, ClusteringError>)
    ensures
        clusters.is_ok() == assignments_fit(events@.len(), assignments@, n_clusters),
        clusters matches Ok(groups) ==> groups.len() == n_clusters && forall|c: int|
            0 <= c < n_clusters ==> (#[trigger] groups[c])@ == members(events@, assignments@, c),
{
    if assignments.len() != events.len() {
        return Err(ClusteringError::ClusteringFailed);
    }
    let mut checked: usize = 0;
    while checked < assignments.len()
        invariant
            checked <= assignments.len(),
            forall|i: int| 0 <= i < checked ==> (#[trigger] assignments[i]) < n_clusters,
        decreases assignments.len() - checked,
    {
        if assignments[checked] >= n_clusters {
            return Err(ClusteringError::ClusteringFailed);
        }
        checked += 1;
    }
    let mut groups: Vec<Vec<EarthquakeEvent<T>>> = Vec::new();
    let mut made: usize = 0;
    while made < n_clusters
        invariant
            made <= n_clusters,
            groups.len() == made,
            forall|c: int| 0 <= c < made ==> (#[trigger] groups[c])@.len() == 0,
        decreases n_clusters - made,
    {
        groups.push(Vec::new());
        made += 1;
    }
    assert forall|c: int| 0 <= c < n_clusters implies (#[trigger] groups[c])@ == members(
        events@.take(0),
        assignments@.take(0),
        c,
    ) by {
        assert(groups[c]@ =~= Seq::<EarthquakeEvent<T>>::empty());
    }
    let mut i: usize = 0;
    for event in iter: events
        invariant
            iter.seq() == events@,
            i == iter.index(),
            assignments.len() == events.len(),
            groups.len() == n_clusters,
            forall|k: int| 0 <= k < assignments.len() ==> (#[trigger] assignments[k]) < n_clusters,
            forall|c: int|
                0 <= c < n_clusters ==> (#[trigger] groups[c])@ == members(
                    events@.take(i as int),
                    assignments@.take(i as int),
                    c,
                ),
    {
        let cluster: usize = assignments[i];
        let ghost before = groups@;
        groups[cluster].push(event);
        proof {
            let items = events@.take(i + 1);
            let marks = assignments@.take(i + 1);
            assert(items.drop_last() =~= events@.take(i as int));
            assert(marks.drop_last() =~= assignments@.take(i as int));
            assert(items.last() == event);
            assert(marks.last() == cluster);
            assert forall|c: int| 0 <= c < n_clusters implies (#[trigger] groups[c])@ == members(
                items,
                marks,
                c,
            ) by {
                assert(before[c]@ == members(events@.take(i as int), assignments@.take(i as int), c));
                if c != cluster {
                    assert(groups[c] == before[c]);
                }
            }
        }
        i += 1;
    }
    assert(events@.take(events@.len() as int) =~= events@);
    assert(assignments@.take(events@.len() as int) =~= assignments@);
    Ok(groups)
}

} // verus!
