//! The event model, the wire schema of the catalogue's answer, and the
//! interface of a data source.

use crate::text::{decimal_text, integer_text};
use vstd::prelude::*;
use vstd::string::*;

verus! {

/// The three numbers of the place of an event, in the order in which the
/// catalogue sends them: `lat` holds the first, `lon` the second and `depth`
/// the third. The catalogue sends the longitude first.
#[derive(Debug, Clone)]
pub struct Coordinates<T> {
    pub lat: T,
    pub lon: T,
    pub depth: T,
}

impl<T> Coordinates<T> {
    /// The three numbers in the order in which they were sent.
    pub open spec fn triple(self) -> Seq<T> {
        seq![self.lat, self.lon, self.depth]
    }
}

/// One earthquake observation. `T` is the type of its measured numbers
/// (magnitude and coordinates); the times are milliseconds since the Unix
/// epoch.
#[derive(Debug, Clone)]
pub struct EarthquakeEvent<T> {
    pub mag: T,
    pub place: Option<String>,
    pub time: i64,
    pub updated: i64,
    pub tsunami: i32,
    pub coordinates: Coordinates<T>,
    pub mag_type: String,
    pub event_type: String,
}

impl<T> EarthquakeEvent<T> {
    /// An event was not updated before it occurred.
    pub open spec fn wf(self) -> bool {
        self.time <= self.updated
    }

    /// Tells whether the event's times are in order.
    pub fn is_well_formed(&self) -> (ok: bool)
        ensures
            ok == self.wf(),
    {
        self.time <= self.updated
    }
}

/// The catalogue's answer: a list of features.
#[derive(Debug)]
pub struct GeoJsonData<T> {
    pub features: Vec<Feature<T>>,
}

/// One entry of the answer: what is known of an event, and where it was.
#[derive(Debug)]
pub struct Feature<T> {
    pub properties: Properties<T>,
    pub geometry: Geometry<T>,
    pub id: Option<String>,
}

/// The descriptive block of a feature, with the catalogue's own
/// bookkeeping. What an event is made of is always there; the place and the
/// bookkeeping may be missing.
#[derive(Debug)]
pub struct Properties<T> {
    pub mag: T,
    pub place: Option<String>,
    pub time: i64,
    pub updated: i64,
    pub tz: Option<String>,
    pub url: Option<String>,
    pub detail: Option<String>,
    pub felt: Option<i32>,
    pub cdi: Option<T>,
    pub mmi: Option<T>,
    pub alert: Option<String>,
    pub status: Option<String>,
    pub tsunami: i32,
    pub sig: Option<i32>,
    pub net: Option<String>,
    pub code: Option<String>,
    pub ids: Option<String>,
    pub sources: Option<String>,
    pub types: Option<String>,
    pub nst: Option<i32>,
    pub dmin: Option<T>,
    pub rms: Option<T>,
    pub gap: Option<T>,
    pub mag_type: String,
    pub event_type: String,
    pub title: Option<String>,
}

/// The location block of a feature.
#[derive(Debug)]
pub struct Geometry<T> {
    pub geometry_type: Option<String>,
    pub coordinates: Coordinates<T>,
}

impl<T> Feature<T> {
    /// The event that a feature describes: its magnitude, place, times,
    /// tsunami flag and the two type codes from the properties, its
    /// coordinates from the geometry.
    pub open spec fn event(self) -> EarthquakeEvent<T> {
        EarthquakeEvent {
            mag: self.properties.mag,
            place: self.properties.place,
            time: self.properties.time,
            updated: self.properties.updated,
            tsunami: self.properties.tsunami,
            coordinates: self.geometry.coordinates,
            mag_type: self.properties.mag_type,
            event_type: self.properties.event_type,
        }
    }

    /// Whether the feature was not updated before its event occurred.
    pub open spec fn times_in_order(self) -> bool {
        self.properties.time <= self.properties.updated
    }

    /// Turns a feature into its event and drops the catalogue's bookkeeping.
    /// The event is well-formed exactly if the feature's times are in order.
    pub fn into_event(self) -> (event: EarthquakeEvent<T>)
        ensures
            event == self.event(),
            event.wf() == self.times_in_order(),
    {
        EarthquakeEvent {
            mag: self.properties.mag,
            place: self.properties.place,
            time: self.properties.time,
            updated: self.properties.updated,
            tsunami: self.properties.tsunami,
            coordinates: self.geometry.coordinates,
            mag_type: self.properties.mag_type,
            event_type: self.properties.event_type,
        }
    }
}

impl<T> GeoJsonData<T> {
    /// The events of an answer, one for each feature, in the features' order.
    pub open spec fn events(self) -> Seq<EarthquakeEvent<T>> {
        Seq::new(self.features@.len(), |i: int| self.features@[i].event())
    }

    /// Whether no feature of the answer was updated before its event
    /// occurred.
    pub open spec fn times_in_order(self) -> bool {
        forall|i: int| 0 <= i < self.features@.len() ==> (#[trigger] self.features@[i]).times_in_order()
    }

    /// Tells whether the times of every feature are in order, that is whether
    /// every event of the answer is well-formed.
    pub fn has_times_in_order(&self) -> (ok: bool)
        ensures
            ok == self.times_in_order(),
            ok == (forall|i: int| 0 <= i < self.events().len() ==> (#[trigger] self.events()[i]).wf()),
    {
        let mut i: usize = 0;
        while i < self.features.len()
            invariant
                i <= self.features.len(),
                forall|k: int| 0 <= k < i ==> (#[trigger] self.features@[k]).times_in_order(),
            decreases self.features.len() - i,
        {
            if self.features[i].properties.time > self.features[i].properties.updated {
                assert(!self.events()[i as int].wf());
                return false;
            }
            i += 1;
        }
        assert forall|k: int| 0 <= k < self.events().len() implies (#[trigger] self.events()[k]).wf() by {
            assert(self.features@[k].times_in_order());
        }
        true
    }

    /// Turns an answer into its events. An event is well-formed exactly if
    /// the times of its feature are in order.
    pub fn into_events(self) -> (events: Vec<EarthquakeEvent<T>>)
        ensures
            events@ == self.events(),
            forall|i: int|
                0 <= i < events.len() ==> (#[trigger] events[i]).wf()
                    == self.features@[i].times_in_order(),
    {
        let ghost all = self.events();
        let mut events: Vec<EarthquakeEvent<T>> = Vec::new();
        for feature in iter: self.features
            invariant
                all.len() == iter.seq().len(),
                forall|i: int| 0 <= i < all.len() ==> all[i] == (#[trigger] iter.seq()[i]).event(),
                events@ == all.take(iter.index() as int),
        {
            events.push(feature.into_event());
            assert(events@ =~= all.take(iter.index() + 1));
        }
        assert(events@ =~= all);
        events
    }
}

/// A source of earthquake events. `may_answer` says which outcomes the
/// source can give to a query; `fetch_earthquake_data` gives one of them.
pub trait EarthquakeDataSource {
    /// What a failed fetch reports.
    type Error;

    /// The type of the events' measured numbers.
    type Number;

    /// Whether `outcome` is an outcome that this source can give to the
    /// query made of the four texts. A source that says nothing of its
    /// answers admits every outcome.
    open spec fn may_answer(
        &self,
        format: Seq<char>,
        start_time: Seq<char>,
        end_time: Seq<char>,
        min_magnitude: Seq<char>,
        outcome: Result<Vec<EarthquakeEvent<Self::Number>>, Self::Error>,
    ) -> bool {
        true
    }

    /// Fetches the events between two times that are at least of the given
    /// magnitude, in the source's order.
    fn fetch_earthquake_data(
        &self,
        format: &str,
        start_time: &str,
        end_time: &str,
        min_magnitude: &str,
    ) -> (outcome: Result<Vec<EarthquakeEvent<Self::Number>>, Self::Error>)
        ensures
            self.may_answer(format@, start_time@, end_time@, min_magnitude@, outcome),
    ;
}

/// The address of the USGS event catalogue.
pub open spec fn usgs_endpoint() -> Seq<char> {
    "https://earthquake.usgs.gov/fdsnws/event/1/query"@
}

/// The address of a query: the endpoint, then the four parameters in the
/// order format, start time, end time, minimum magnitude.
pub open spec fn query_url(
    endpoint: Seq<char>,
    format: Seq<char>,
    start_time: Seq<char>,
    end_time: Seq<char>,
    min_magnitude: Seq<char>,
) -> Seq<char> {
    endpoint + "?format="@ + format + "&starttime="@ + start_time + "&endtime="@ + end_time
        + "&minmagnitude="@ + min_magnitude
}

/// The USGS event catalogue, reached at `endpoint`.
#[derive(Debug, Clone)]
pub struct UsgsDataSource {
    pub endpoint: String,
}

impl UsgsDataSource {
    /// The catalogue at its public address.
    pub fn new() -> (source: UsgsDataSource)
        ensures
            source.endpoint@ == usgs_endpoint(),
    {
        UsgsDataSource { endpoint: String::from_str("https://earthquake.usgs.gov/fdsnws/event/1/query") }
    }

    /// The catalogue at another address.
    pub fn with_endpoint(endpoint: &str) -> (source: UsgsDataSource)
        ensures
            source.endpoint@ == endpoint@,
    {
        UsgsDataSource { endpoint: String::from_str(endpoint) }
    }

    /// The address to ask for the events of a query.
    pub fn request_url(
        &self,
        format: &str,
        start_time: &str,
        end_time: &str,
        min_magnitude: &str,
    ) -> (url: String)
        ensures
            url@ == query_url(self.endpoint@, format@, start_time@, end_time@, min_magnitude@),
    {
        let mut url = self.endpoint.clone();
        url.append("?format=");
        url.append(format);
        url.append("&starttime=");
        url.append(start_time);
        url.append("&endtime=");
        url.append(end_time);
        url.append("&minmagnitude=");
        url.append(min_magnitude);
        url
    }
}

/// The failure of a request in reqwest, carried through as it is.
#[verifier::external_type_specification]
#[verifier::external_body]
pub struct ExRequestError(reqwest::Error);

/// Why a fetch failed.
#[derive(Debug)]
pub enum Errors {
    /// The catalogue answered with a status other than 200; the text is the
    /// status.
    UnexpectedStatusCode(String),
    /// The request could not be made, or the answer could not be read.
    OtherError(reqwest::Error),
}

/// The message of an error.
pub open spec fn error_message(error: Errors) -> Seq<char> {
    match error {
        Errors::UnexpectedStatusCode(status) => "Unexpected status code: "@ + status@,
        Errors::OtherError(_) => "request error"@,
    }
}

impl Errors {
    /// The message of the error, for a reader.
    pub fn message(&self) -> (text: String)
        ensures
            text@ == error_message(*self),
    {
        match self {
            Errors::UnexpectedStatusCode(status) => {
                let mut text = String::from_str("Unexpected status code: ");
                text.append(status.as_str());
                text
            },
            Errors::OtherError(_) => String::from_str("request error"),
        }
    }
}

/// The text that reqwest writes for a status: the code and its reason
/// phrase, such as `400 Bad Request`.
pub uninterp spec fn status_line(code: u16) -> Seq<char>;

/// Writes a status code with its reason phrase.
///
/// Calls reqwest's `StatusCode::from_u16` and the `to_string` of
/// `StatusCode`. What is taken on trust: `from_u16` accepts exactly the codes
/// from 100 to 999, and the text depends on the code alone.
#[verifier::external_body]
fn status_code_text(code: u16) -> (text: Option<String>)
    ensures
        text.is_some() == (100 <= code <= 999),
        text matches Some(t) ==> t@ == status_line(code),
{
    match reqwest::StatusCode::from_u16(code) {
        Ok(status) => Some(status.to_string()),
        Err(_) => None,
    }
}

/// The text of a status in an error: the status with its reason phrase, or,
/// for a number that is no status code, the number and a note that it is
/// unknown.
pub open spec fn status_description(code: u16) -> Seq<char> {
    if 100 <= code <= 999 {
        status_line(code)
    } else {
        decimal_text(code as int) + " <unknown status code>"@
    }
}

/// Describes the status of an answer.
pub fn describe_status(code: u16) -> (text: String)
    ensures
        text@ == status_description(code),
{
    match status_code_text(code) {
        Some(text) => text,
        None => {
            let mut text = integer_text(code as i64);
            text.append(" <unknown status code>");
            text
        },
    }
}

/// Decides from the status of an answer whether its body is to be read:
/// only an answer with status 200 is; any other status is an error that
/// carries the status.
pub fn check_status(code: u16) -> (checked: Result<(), Errors>)
    ensures
        checked.is_ok() == (code == 200),
        checked matches Err(error) ==> (error matches Errors::UnexpectedStatusCode(status)
            && status@ == status_description(code)),
{
    if code == 200 {
        Ok(())
    } else {
        Err(Errors::UnexpectedStatusCode(describe_status(code)))
    }
}

/// Whether `outcome` is what an answer with status 200 comes to, where
/// reading its body gave `body`: the events of the body that was read, or
/// the error of the reading.
pub open spec fn is_outcome_of_body<T>(
    body: Result<GeoJsonData<T>, reqwest::Error>,
    outcome: Result<Vec<EarthquakeEvent<T>>, Errors>,
) -> bool {
    match body {
        Ok(data) => outcome matches Ok(events) && events@ == data.events(),
        Err(cause) => outcome == Err::<Vec<EarthquakeEvent<T>>, Errors>(Errors::OtherError(cause)),
    }
}

/// Turns the answer to a request into the outcome of the fetch. The body is
/// read, by `read_body`, only where the status is 200; its events are the
/// outcome then, or the error of the reading. With any other status the
/// outcome is the error that carries the status, whatever the body holds: it
/// is not read.
pub fn read_response<T, F: FnOnce() -> Result<GeoJsonData<T>, reqwest::Error>>(
    code: u16,
    read_body: F,
) -> (outcome: Result<Vec<EarthquakeEvent<T>>, Errors>)
    requires
        code == 200 ==> call_requires(read_body, ()),
    ensures
        code != 200 ==> (outcome matches Err(Errors::UnexpectedStatusCode(status)) && status@
            == status_description(code)),
        code == 200 ==> exists|body: Result<GeoJsonData<T>, reqwest::Error>|
            call_ensures(read_body, (), body) && #[trigger] is_outcome_of_body(body, outcome),
{
    match check_status(code) {
        Err(error) => Err(error),
        Ok(()) => {
            let body = read_body();
            let outcome = match body {
                Ok(data) => Ok(data.into_events()),
                Err(cause) => Err(Errors::OtherError(cause)),
            };
            assert(is_outcome_of_body(body, outcome));
            outcome
        },
    }
}

} // verus!
