//! The SNCF API side: the request URLs, the records the API returns, and
//! what the library keeps of them (stop areas among the places, journey
//! rows built from the journeys).

use vstd::prelude::*;
use vstd::string::StringSliceAdditionalSpecFns;
use vstd::utf8::encode_utf8;
use crate::civil::{
    ZonedTime, civil_text_spec, epoch_read_back, epoch_via_text, format_date, format_hm,
    law_epoch_read_back, parse_sncf_dt, resolvable_anywhere, resolved_from,
    rfc3339z_safe, sncf_civil_spec, sncf_dt_safe, utc_from_year_one, utc_reading, utc_text_spec,
};

verus! {

broadcast use vstd::string::group_string_axioms;

// ---------------------------------------------------------------------------
// Percent-encoding and the request URLs
// ---------------------------------------------------------------------------

/// The bytes that percent-encoding leaves as they are: ASCII letters and
/// digits, `-`, `.`, `_` and `~`.
pub open spec fn is_unreserved(b: u8) -> bool {
    (48 <= b <= 57) || (65 <= b <= 90) || (97 <= b <= 122) || b == 45 || b == 46 || b == 95
        || b == 126
}

/// An upper-case hexadecimal digit.
pub open spec fn hex_digit(v: int) -> char {
    if v < 10 {
        crate::civil::digit_char(v)
    } else if v == 10 {
        'A'
    } else if v == 11 {
        'B'
    } else if v == 12 {
        'C'
    } else if v == 13 {
        'D'
    } else if v == 14 {
        'E'
    } else {
        'F'
    }
}

/// Percent-encoding of a byte string: an unreserved byte stands for itself,
/// every other byte becomes `%` and its two upper-case hex digits.
pub open spec fn percent_encode(b: Seq<u8>) -> Seq<char>
    decreases b.len(),
{
    if b.len() == 0 {
        Seq::empty()
    } else {
        let head = if is_unreserved(b[0]) {
            seq![b[0] as char]
        } else {
            seq!['%', hex_digit((b[0] / 16) as int), hex_digit((b[0] % 16) as int)]
        };
        head + percent_encode(b.drop_first())
    }
}

/// `urlencoding::encode`, made owned. Claimed, as its source shows: every
/// byte of the UTF-8 text other than ASCII letters, digits, `-`, `.`, `_`
/// and `~` is written as `%` and two upper-case hex digits, the others are
/// kept, in order.
#[verifier::external_body]
fn url_encode(s: &str) -> (r: String)
    ensures
        r@ == percent_encode(s.spec_bytes()),
{
    urlencoding::encode(s).into_owned()
}

pub open spec fn places_url_spec(query: Seq<u8>) -> Seq<char> {
    "https://api.sncf.com/v1/coverage/sncf/places?q="@ + percent_encode(query)
}

/// The places-search URL for a free-text query.
pub fn places_url(query: &str) -> (r: String)
    ensures
        r@ == places_url_spec(query.spec_bytes()),
{
    let mut url = "https://api.sncf.com/v1/coverage/sncf/places?q=".to_owned();
    let q = url_encode(query);
    url.append(q.as_str());
    url
}

pub open spec fn journeys_url_spec(from_id: Seq<u8>, to_id: Seq<u8>) -> Seq<char> {
    "https://api.sncf.com/v1/coverage/sncf/journeys"@ + "?from="@ + percent_encode(from_id)
        + "&to="@ + percent_encode(to_id)
        + "&first_section_mode[]=walking&last_section_mode[]=walking&min_nb_transfers=0&direct_path=none&min_nb_journeys=25&is_journey_schedules=True"@
}

/// The journeys URL between two stop areas, walking at both ends, at least
/// 25 journeys, no direct path.
pub fn build_journeys_url(from_id: &str, to_id: &str) -> (r: String)
    ensures
        r@ == journeys_url_spec(from_id.spec_bytes(), to_id.spec_bytes()),
{
    let mut url = "https://api.sncf.com/v1/coverage/sncf/journeys".to_owned();
    let from = url_encode(from_id);
    let to = url_encode(to_id);
    url.append("?from=");
    url.append(from.as_str());
    url.append("&to=");
    url.append(to.as_str());
    url.append(
        "&first_section_mode[]=walking&last_section_mode[]=walking&min_nb_transfers=0&direct_path=none&min_nb_journeys=25&is_journey_schedules=True",
    );
    url
}

/// The message of a request that came back with a status other than
/// success: "HTTP " and the status.
pub fn http_failure(status: &str) -> (r: String)
    ensures
        r@ == "HTTP "@ + status@,
{
    let mut m = "HTTP ".to_owned();
    m.append(status);
    m
}

/// A minimal HTTP client: one GET with basic authentication.
pub trait Client {
    type Resp;

    type Error;

    fn get(&self, url: &str, api_key: &str) -> Result<Self::Resp, Self::Error>;
}

// ---------------------------------------------------------------------------
// Places
// ---------------------------------------------------------------------------

/// A place found by the places search.
#[derive(Debug)]
pub struct Place {
    pub id: String,
    pub name: String,
    pub embedded_type: Option<String>,
}

impl Clone for Place {
    fn clone(&self) -> (r: Self)
        ensures
            r == *self,
    {
        Place {
            id: self.id.clone(),
            name: self.name.clone(),
            embedded_type: match &self.embedded_type {
                Some(t) => Some(t.clone()),
                None => None,
            },
        }
    }
}

/// The body of a places search.
#[derive(Debug)]
pub struct PlacesResponse {
    pub places: Vec<Place>,
}

/// The place is a stop area (a station), not an address or a point of
/// interest.
pub open spec fn is_stop_area(p: Place) -> bool {
    p.embedded_type matches Some(t) && t@ == "stop_area"@
}

fn is_stop_area_exec(p: &Place) -> (r: bool)
    ensures
        r == is_stop_area(*p),
{
    match &p.embedded_type {
        Some(t) => {
            let key = "stop_area".to_owned();
            t.eq(&key)
        },
        None => false,
    }
}

/// Law: the station search keeps exactly the stop areas. Every place kept
/// has the type "stop_area", and every place of that type is kept.
pub proof fn law_stop_areas_keep_exactly_stop_areas(places: Seq<Place>)
    ensures
        ({
            let kept = places.filter(|p: Place| is_stop_area(p));
            &&& forall|k: int|
                #![trigger kept[k]]
                0 <= k < kept.len() ==> (kept[k].embedded_type matches Some(t) && t@
                    == "stop_area"@)
            &&& forall|i: int|
                #![trigger places[i]]
                0 <= i < places.len() && (places[i].embedded_type matches Some(t) && t@
                    == "stop_area"@) ==> kept.contains(places[i])
        }),
{
    broadcast use vstd::seq_lib::group_filter_ensures;

    let kept = places.filter(|p: Place| is_stop_area(p));
    assert forall|k: int| #![trigger kept[k]] 0 <= k < kept.len() implies (kept[k].embedded_type matches Some(t) && t@
        == "stop_area"@) by {
        assert(is_stop_area(kept[k]));
    }
    assert forall|i: int|
        #![trigger places[i]]
        0 <= i < places.len() && (places[i].embedded_type matches Some(t) && t@ == "stop_area"@)
        implies kept.contains(places[i]) by {
        assert(is_stop_area(places[i]));
    }
}

/// The stop areas among the places, in their order: every place kept has
/// the type "stop_area", and every place of that type is kept.
pub fn stop_areas(places: &Vec<Place>) -> (r: Vec<Place>)
    ensures
        r@ == places@.filter(|p: Place| is_stop_area(p)),
        forall|k: int|
            #![trigger r@[k]]
            0 <= k < r@.len() ==> (r@[k].embedded_type matches Some(t) && t@ == "stop_area"@),
        forall|i: int|
            #![trigger places@[i]]
            0 <= i < places@.len() && (places@[i].embedded_type matches Some(t) && t@
                == "stop_area"@) ==> r@.contains(places@[i]),
{
    proof {
        law_stop_areas_keep_exactly_stop_areas(places@);
    }
    let mut out: Vec<Place> = Vec::new();
    let mut i: usize = 0;
    while i < places.len()
        invariant
            i <= places@.len(),
            out@ == places@.take(i as int).filter(|p: Place| is_stop_area(p)),
        decreases places@.len() - i,
    {
        proof {
            reveal_with_fuel(Seq::<_>::filter, 1);
            assert(places@.take(i + 1).drop_last() =~= places@.take(i as int));
        }
        if is_stop_area_exec(&places[i]) {
            out.push(places[i].clone());
        }
        i = i + 1;
    }
    assert(places@.take(places@.len() as int) =~= places@);
    out
}

// ---------------------------------------------------------------------------
// Journeys
// ---------------------------------------------------------------------------

/// One journey as the API returns it.
#[derive(Debug)]
pub struct JourneyItem {
    pub departure_date_time: String,
    pub arrival_date_time: String,
    pub duration: Option<i64>,
    pub nb_transfers: Option<i64>,
}

/// The body of a journeys search.
#[derive(Debug)]
pub struct JourneysResponse {
    pub journeys: Vec<JourneyItem>,
}

/// One row of the journeys table.
#[derive(Debug)]
pub struct JourneyRow {
    pub dep: ZonedTime,
    pub arr: ZonedTime,
    pub dep_hm: String,
    pub arr_hm: String,
    pub date_str: String,
    pub duration_secs: i64,
    pub nb_transfers: i64,
}

/// The row that a departure, an arrival and a transfer count make: both
/// times, their "HH:MM", the departure's "YYYY-MM-DD", the seconds between
/// departure and arrival, and the transfers (0 when not given).
pub open spec fn is_row_of(row: JourneyRow, dep: ZonedTime, arr: ZonedTime, nb: Option<i64>) -> bool {
    &&& row.dep == dep
    &&& row.arr == arr
    &&& row.dep_hm@ == civil_text_spec(dep.civil).subrange(11, 16)
    &&& row.arr_hm@ == civil_text_spec(arr.civil).subrange(11, 16)
    &&& row.date_str@ == civil_text_spec(dep.civil).subrange(0, 10)
    &&& row.duration_secs == arr.epoch_seconds - dep.epoch_seconds
    &&& row.nb_transfers == match nb {
        Some(n) => n,
        None => 0,
    }
}

proof fn lemma_epoch_bounds(z: ZonedTime)
    requires
        z.wf(),
    ensures
        -400_000_000_000 < z.epoch_seconds < 400_000_000_000,
{
}

/// Builds the row of a journey from its resolved departure and arrival.
pub fn journey_row(dep: ZonedTime, arr: ZonedTime, nb_transfers: Option<i64>) -> (r: JourneyRow)
    requires
        dep.wf(),
        arr.wf(),
    ensures
        is_row_of(r, dep, arr, nb_transfers),
{
    proof {
        lemma_epoch_bounds(dep);
        lemma_epoch_bounds(arr);
    }
    let dep_hm = format_hm(&dep);
    let arr_hm = format_hm(&arr);
    let date_str = format_date(&dep);
    JourneyRow {
        dep,
        arr,
        dep_hm,
        arr_hm,
        date_str,
        duration_secs: arr.epoch_seconds - dep.epoch_seconds,
        nb_transfers: match nb_transfers {
            Some(n) => n,
            None => 0,
        },
    }
}

/// A journey's duration in seconds: the one the API reports, or else the
/// time from departure to arrival, each instant printed as jiff prints it
/// and read back with `rfc3339z_to_epoch` (a departure that does not read
/// back counts as 0, an arrival that does not as the departure), and never
/// below zero.
pub open spec fn journey_duration_spec(reported: Option<i64>, dep: ZonedTime, arr: ZonedTime) -> int {
    match reported {
        Some(d) => d as int,
        None => {
            let dep_sec = epoch_read_back(dep.epoch_seconds as int, 0);
            let arr_sec = epoch_read_back(arr.epoch_seconds as int, dep_sec);
            if arr_sec - dep_sec > 0 {
                arr_sec - dep_sec
            } else {
                0
            }
        },
    }
}

/// The duration of a journey, from the API's report or from its two times.
pub fn journey_duration(reported: Option<i64>, dep: &ZonedTime, arr: &ZonedTime) -> (r: i64)
    requires
        dep.wf(),
        arr.wf(),
        reported is None ==> rfc3339z_safe(utc_text_spec(utc_reading(dep.epoch_seconds as int)))
            && rfc3339z_safe(utc_text_spec(utc_reading(arr.epoch_seconds as int))),
    ensures
        r == journey_duration_spec(reported, *dep, *arr),
{
    match reported {
        Some(d) => d,
        None => {
            let dep_sec = epoch_via_text(dep, 0);
            let arr_sec = epoch_via_text(arr, dep_sec);
            let d = arr_sec - dep_sec;
            if d > 0 {
                d
            } else {
                0
            }
        },
    }
}

/// Law: with no reported duration, a journey lasts from its departure to
/// its arrival (zero when the arrival is not later), when the UTC wall
/// clocks of both instants are from year 1 on.
pub proof fn law_journey_duration_is_elapsed_time(dep: ZonedTime, arr: ZonedTime)
    requires
        utc_from_year_one(dep.epoch_seconds as int),
        utc_from_year_one(arr.epoch_seconds as int),
    ensures
        journey_duration_spec(None, dep, arr) == (if arr.epoch_seconds > dep.epoch_seconds {
            arr.epoch_seconds - dep.epoch_seconds
        } else {
            0
        }),
{
    law_epoch_read_back(dep.epoch_seconds as int, 0);
    law_epoch_read_back(arr.epoch_seconds as int, dep.epoch_seconds as int);
}

/// The journeys whose times can be read without a panic: the departure
/// reads safely, and so does the arrival whenever the departure reads as a
/// date-time (the arrival is read only then).
pub open spec fn journey_item_safe(j: JourneyItem) -> bool {
    &&& sncf_dt_safe(encode_utf8(j.departure_date_time@))
    &&& sncf_civil_spec(encode_utf8(j.departure_date_time@)) is Some ==> sncf_dt_safe(
        encode_utf8(j.arrival_date_time@),
    )
}


/// The row is built from the journey: its two times are the journey's two
/// readings resolved in a time zone, and the other fields follow from them.
pub open spec fn row_of_item(row: JourneyRow, j: JourneyItem) -> bool {
    &&& sncf_civil_spec(encode_utf8(j.departure_date_time@)) matches Some(dep)
        && resolved_from(dep, row.dep)
    &&& sncf_civil_spec(encode_utf8(j.arrival_date_time@)) matches Some(arr)
        && resolved_from(arr, row.arr)
    &&& is_row_of(row, row.dep, row.arr, j.nb_transfers)
}

/// Builds the row of one journey: `None` when its departure or arrival does
/// not read as a date-time, or when the machine's time zone cannot hold it;
/// otherwise the row of the two resolved times. Both readings lying far
/// enough inside jiff's range of instants, the row is always built.
pub fn journey_from_item(j: &JourneyItem) -> (r: Option<JourneyRow>)
    requires
        journey_item_safe(*j),
    ensures
        sncf_civil_spec(encode_utf8(j.departure_date_time@)) is None ==> r is None,
        sncf_civil_spec(encode_utf8(j.arrival_date_time@)) is None ==> r is None,
        (sncf_civil_spec(encode_utf8(j.departure_date_time@)) matches Some(dep)
            && resolvable_anywhere(dep)) && (sncf_civil_spec(
            encode_utf8(j.arrival_date_time@),
        ) matches Some(arr) && resolvable_anywhere(arr)) ==> r is Some,
        r matches Some(row) ==> row_of_item(row, *j),
{
    let dep = match parse_sncf_dt(j.departure_date_time.as_str()) {
        Some(z) => z,
        None => return None,
    };
    let arr = match parse_sncf_dt(j.arrival_date_time.as_str()) {
        Some(z) => z,
        None => return None,
    };
    Some(journey_row(dep, arr, j.nb_transfers))
}

/// The rows are drawn from the journeys in order: row `k` is built from
/// journey `idx[k]`, and the indices increase.
pub open spec fn rows_drawn_from(rows: Seq<JourneyRow>, items: Seq<JourneyItem>, idx: Seq<int>) -> bool {
    &&& idx.len() == rows.len()
    &&& forall|k: int| 0 <= k < idx.len() ==> 0 <= #[trigger] idx[k] < items.len()
    &&& forall|k1: int, k2: int| 0 <= k1 < k2 < idx.len() ==> idx[k1] < idx[k2]
    &&& forall|k: int| 0 <= k < idx.len() ==> row_of_item(#[trigger] rows[k], items[idx[k]])
}

/// Both of the journey's times read as date-times that lie far enough inside
/// jiff's range of instants to resolve in any time zone.
pub open spec fn item_resolvable(j: JourneyItem) -> bool {
    &&& sncf_civil_spec(encode_utf8(j.departure_date_time@)) matches Some(dep)
        && resolvable_anywhere(dep)
    &&& sncf_civil_spec(encode_utf8(j.arrival_date_time@)) matches Some(arr)
        && resolvable_anywhere(arr)
}

/// Journey `i` is among those the rows were drawn from.
pub open spec fn index_drawn(idx: Seq<int>, i: int) -> bool {
    exists|k: int| 0 <= k < idx.len() && #[trigger] idx[k] == i
}

/// The rows of the journeys whose times can be read and resolved, in order:
/// every row comes from a journey whose two times read, and every journey
/// whose two times read well inside jiff's range gives its row.
pub fn journey_rows(items: &Vec<JourneyItem>) -> (r: Vec<JourneyRow>)
    requires
        forall|i: int| 0 <= i < items@.len() ==> journey_item_safe(#[trigger] items@[i]),
    ensures
        exists|idx: Seq<int>|
            {
                &&& rows_drawn_from(r@, items@, idx)
                &&& forall|i: int|
                    0 <= i < items@.len() && item_resolvable(#[trigger] items@[i]) ==> index_drawn(
                        idx,
                        i,
                    )
            },
{
    let mut rows: Vec<JourneyRow> = Vec::new();
    let ghost mut idx: Seq<int> = Seq::empty();
    let mut i: usize = 0;
    while i < items.len()
        invariant
            i <= items@.len(),
            forall|i: int| 0 <= i < items@.len() ==> journey_item_safe(#[trigger] items@[i]),
            rows_drawn_from(rows@, items@, idx),
            forall|k: int| 0 <= k < idx.len() ==> idx[k] < i,
            forall|i0: int|
                0 <= i0 < i && item_resolvable(#[trigger] items@[i0]) ==> index_drawn(idx, i0),
        decreases items@.len() - i,
    {
        match journey_from_item(&items[i]) {
            Some(row) => {
                rows.push(row);
                proof {
                    let old_idx = idx;
                    idx = idx.push(i as int);
                    assert(idx[old_idx.len() as int] == i as int);
                    assert forall|i0: int|
                        0 <= i0 < i + 1 && item_resolvable(#[trigger] items@[i0]) implies index_drawn(
                        idx,
                        i0,
                    ) by {
                        if i0 < i {
                            let k = choose|k: int| 0 <= k < old_idx.len() && #[trigger] old_idx[k] == i0;
                            assert(idx[k] == i0);
                        }
                    }
                }
            },
            None => {},
        }
        i = i + 1;
    }
    rows
}


// ---------------------------------------------------------------------------
// A canned client for offline runs
// ---------------------------------------------------------------------------

/// The only URL the canned client knows.
pub open spec fn canned_places_url() -> Seq<char> {
    "https://api.sncf.com/v1/coverage/sncf/places?q=Grenoble"@
}

/// What the canned client answers.
#[derive(Clone, Copy, Debug, PartialEq, Eq, Structural)]
pub enum FakeReply {
    /// Its stored places search for "Grenoble".
    Places,
    /// An empty JSON object.
    Empty,
}

/// A client that answers from canned data, without a network.
#[derive(Debug)]
pub struct FakeClient;

impl FakeClient {
    pub fn new() -> (r: FakeClient)
        ensures
            r == FakeClient,
    {
        FakeClient
    }

    /// Which canned body answers `url`: the stored places search for its one
    /// known URL, an empty object for every other.
    pub fn get(&self, url: &str) -> (r: FakeReply)
        ensures
            r == (if url@ == canned_places_url() {
                FakeReply::Places
            } else {
                FakeReply::Empty
            }),
    {
        let known = "https://api.sncf.com/v1/coverage/sncf/places?q=Grenoble".to_owned();
        let asked = url.to_owned();
        if asked.eq(&known) {
            FakeReply::Places
        } else {
            FakeReply::Empty
        }
    }
}

impl Default for FakeClient {
    fn default() -> (r: FakeClient)
        ensures
            r == FakeClient,
    {
        FakeClient::new()
    }
}

/// Law: percent-encoded text stays inside its query parameter. Every char
/// of an encoded text is an unreserved ASCII char, `%`, or an upper-case hex
/// digit; none of `&`, `=`, `#`, `?`, `/` or a space can appear.
pub proof fn law_percent_encoding_is_url_safe(b: Seq<u8>)
    ensures
        forall|i: int|
            0 <= i < percent_encode(b).len() ==> {
                let c = #[trigger] percent_encode(b)[i];
                (is_unreserved(c as u8) && (c as u32) < 128) || c == '%' || ('0' <= c <= '9')
                    || ('A' <= c <= 'F')
            },
    decreases b.len(),
{
    if b.len() > 0 {
        law_percent_encoding_is_url_safe(b.drop_first());
        let rest = percent_encode(b.drop_first());
        let head = if is_unreserved(b[0]) {
            seq![b[0] as char]
        } else {
            seq!['%', hex_digit((b[0] / 16) as int), hex_digit((b[0] % 16) as int)]
        };
        assert(percent_encode(b) == head + rest);
        assert forall|i: int| 0 <= i < percent_encode(b).len() implies {
            let c = #[trigger] percent_encode(b)[i];
            (is_unreserved(c as u8) && (c as u32) < 128) || c == '%' || ('0' <= c <= '9') || ('A'
                <= c <= 'F')
        } by {
            if i >= head.len() {
                assert(percent_encode(b)[i] == rest[i - head.len()]);
            }
        }
    }
}

} // verus!
