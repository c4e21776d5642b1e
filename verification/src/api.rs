//! What the REST API serves: the day's time zone, stop listings, and
//! departure items with their real-time status and platform.
use vstd::prelude::*;
use vstd::hash_map::StringHashMap;

use crate::archive::{file_state, optional_records, required_records, GtfsArchive, GtfsError};
use crate::model::{
    clone_opt_string, Agency, Route, RouteView, Stop, StopView, Trip, TripView,
};
use crate::query::{
    departure_view, departure_views, schedule_departures, summary_name, summary_of, DepartureView,
    RouteGroup, StopSchedule,
};
use crate::realtime::{status_of, DepartureStatus, RealtimeFeed, TripStatusView};
use crate::records::record_views;
use crate::select::{keep, lemma_keep};
use crate::stops::{matching_stops, name_matches, parent_key};
use crate::text::{
    char_vec_views, chars_of, split_chars, split_on, str_lowercase, string_from_chars, trim,
    trim_chars,
};

verus! {

// ───────────────────────────── query parameters ─────────────────────────────

/// The ids of a `stop_ids=<id1,id2,...>` parameter: split at commas,
/// trimmed, empty pieces dropped.
pub open spec fn stop_id_list(param: Seq<char>) -> Seq<Seq<char>> {
    keep(split_on(param, ',').map_values(|p: Seq<char>| trim(p)), |p: Seq<char>| p.len() > 0)
}

/// Parses a comma-separated list of stop ids (see `stop_id_list`).
pub fn parse_stop_ids(param: &str) -> (res: Vec<String>)
    ensures
        res@.map_values(|s: String| s@) == stop_id_list(param@),
{
    let cs = chars_of(param);
    let pieces = split_chars(cs.as_slice(), ',');
    let ghost pv = split_on(cs@, ',').map_values(|p: Seq<char>| trim(p));
    let ghost pred = |p: Seq<char>| p.len() > 0;
    let mut out: Vec<String> = Vec::new();
    let mut i: usize = 0;
    assert(pv.take(0) =~= seq![]);
    assert(out@.map_values(|s: String| s@) =~= seq![]);
    while i < pieces.len()
        invariant
            i <= pieces@.len(),
            char_vec_views(pieces@) == split_on(cs@, ','),
            pv == split_on(cs@, ',').map_values(|p: Seq<char>| trim(p)),
            pred == (|p: Seq<char>| p.len() > 0),
            out@.map_values(|s: String| s@) == keep(pv.take(i as int), pred),
        decreases pieces@.len() - i,
    {
        let t = trim_chars(pieces[i].as_slice());
        assert(pv.take(i + 1).drop_last() =~= pv.take(i as int));
        assert(pv.take(i + 1).last() == t@) by {
            assert(char_vec_views(pieces@)[i as int] == pieces@[i as int]@);
        }
        if t.len() > 0 {
            let ghost before = out@;
            out.push(string_from_chars(t.as_slice()));
            assert(out@.map_values(|s: String| s@) =~= before.map_values(|s: String| s@).push(t@));
        }
        i = i + 1;
    }
    assert(pv.take(pieces@.len() as int) =~= pv);
    out
}

/// The stop ids of a schedule request: the parsed list (see
/// `stop_id_list`), or the message `stop_ids must not be empty` (a bad
/// request) when it holds none.
pub fn requested_stop_ids(param: &str) -> (res: Result<Vec<String>, String>)
    ensures
        match res {
            Ok(ids) => ids@.map_values(|s: String| s@) == stop_id_list(param@) && stop_id_list(param@).len() > 0,
            Err(msg) => stop_id_list(param@).len() == 0 && msg@ == "stop_ids must not be empty"@,
        },
{
    let ids = parse_stop_ids(param);
    if ids.len() == 0 {
        assert(ids@.map_values(|s: String| s@).len() == 0);
        return Err(String::from_str("stop_ids must not be empty"));
    }
    assert(ids@.map_values(|s: String| s@).len() > 0);
    Ok(ids)
}

// ───────────────────────────── service day ─────────────────────────────

/// The time zone in which the schedule endpoint takes "today": the one
/// given explicitly, else the feed's agency time zone, else none (the
/// system's).
///
/// # Errors
/// As `GtfsArchive::agency_timezone`, when no time zone is given.
pub fn service_timezone(archive: &GtfsArchive, explicit: Option<&str>) -> (res: Result<Option<String>, GtfsError>)
    ensures
        match explicit {
            Some(tz) => res matches Ok(Some(s)) && s@ == tz@,
            None => match optional_records(file_state::<Agency>(archive@, "agency.txt"@), "agency.txt"@) {
                Ok(None) => res matches Ok(None),
                Ok(Some(v)) => res matches Ok(tz) && tz.deep_view() == (if v.len() > 0 {
                    Some(v[0].agency_timezone)
                } else {
                    None
                }),
                Err(e) => res matches Err(x) && x@ == e,
            },
        },
{
    match explicit {
        Some(tz) => Ok(Some(String::from_str(tz))),
        None => archive.agency_timezone(),
    }
}

// ───────────────────────────── stops listing ─────────────────────────────

/// A stop as the stops endpoint lists it.
#[derive(Debug, Clone)]
pub struct ApiStop {
    pub stop_id: String,
    pub stop_name: String,
}

/// A top-level stop: it belongs to no parent station.
pub open spec fn is_top_level(s: StopView) -> bool {
    parent_key(s).len() == 0
}

/// What the stops endpoint lists for a query: the top-level stops whose
/// names contain the query (all top-level stops when it is absent or empty),
/// as `(stop_id, stop_name)`.
pub open spec fn listed_stops(stops: Seq<StopView>, q: Option<Seq<char>>) -> Seq<(Seq<char>, Seq<char>)> {
    keep(searched_stops(stops, q), |s: StopView| is_top_level(s)).map_values(|s: StopView| (s.stop_id, s.stop_name))
}

/// `entry` lists the stop `s`.
pub open spec fn is_entry_of(entry: (Seq<char>, Seq<char>), s: StopView) -> bool {
    entry == (s.stop_id, s.stop_name)
}

/// The stops that the stops endpoint searches among for a query.
pub open spec fn searched_stops(stops: Seq<StopView>, q: Option<Seq<char>>) -> Seq<StopView> {
    match q {
        Some(text) => if text.len() > 0 { matching_stops(stops, text) } else { stops },
        None => stops,
    }
}

proof fn lemma_searched_from(stops: Seq<StopView>, q: Option<Seq<char>>, k: int)
    requires
        0 <= k < searched_stops(stops, q).len(),
    ensures
        exists|j: int| 0 <= j < stops.len() && #[trigger] stops[j] == searched_stops(stops, q)[k],
{
    if q is Some && q->0.len() > 0 {
        let mp = |s: StopView| name_matches(s, str_lowercase(q->0));
        lemma_keep(stops, mp);
        assert(searched_stops(stops, q) == keep(stops, mp));
        assert(stops.contains(searched_stops(stops, q)[k]));
    } else {
        assert(stops[k] == searched_stops(stops, q)[k]);
    }
}

proof fn lemma_listed_entry(stops: Seq<StopView>, q: Option<Seq<char>>, i: int)
    requires
        0 <= i < listed_stops(stops, q).len(),
    ensures
        exists|j: int| 0 <= j < stops.len() && is_top_level(#[trigger] stops[j]) && is_entry_of(listed_stops(stops, q)[i], stops[j]),
{
    let found = searched_stops(stops, q);
    let pred = |s: StopView| is_top_level(s);
    let kept = keep(found, pred);
    lemma_keep(found, pred);
    assert(listed_stops(stops, q) == kept.map_values(|s: StopView| (s.stop_id, s.stop_name)));
    let x = kept[i];
    assert(pred(x));
    let k = choose|k: int| 0 <= k < found.len() && found[k] == x;
    lemma_searched_from(stops, q, k);
    let j = choose|j: int| 0 <= j < stops.len() && #[trigger] stops[j] == found[k];
    assert(is_top_level(stops[j]) && is_entry_of(listed_stops(stops, q)[i], stops[j]));
}

/// Every listed stop is a top-level stop, and every top-level stop that
/// the query finds is listed.
pub proof fn lemma_listed_stops_are_top_level(stops: Seq<StopView>, q: Option<Seq<char>>)
    ensures
        forall|e: (Seq<char>, Seq<char>)| #[trigger] listed_stops(stops, q).contains(e) ==> exists|j: int|
            0 <= j < stops.len() && is_top_level(#[trigger] stops[j]) && is_entry_of(e, stops[j]),
        forall|j: int| 0 <= j < stops.len() && is_top_level(#[trigger] stops[j]) && match q {
            Some(t) => t.len() == 0 || name_matches(stops[j], str_lowercase(t)),
            None => true,
        } ==> listed_stops(stops, q).contains((stops[j].stop_id, stops[j].stop_name)),
{
    let found = searched_stops(stops, q);
    let pred = |s: StopView| is_top_level(s);
    let kept = keep(found, pred);
    lemma_keep(found, pred);
    assert(listed_stops(stops, q) == kept.map_values(|s: StopView| (s.stop_id, s.stop_name)));
    assert forall|e: (Seq<char>, Seq<char>)| #[trigger] listed_stops(stops, q).contains(e) implies exists|j: int|
        0 <= j < stops.len() && is_top_level(#[trigger] stops[j]) && is_entry_of(e, stops[j]) by {
        let i = choose|i: int| 0 <= i < listed_stops(stops, q).len() && listed_stops(stops, q)[i] == e;
        lemma_listed_entry(stops, q, i);
    }
    assert forall|j: int| 0 <= j < stops.len() && is_top_level(#[trigger] stops[j]) && match q {
        Some(t) => t.len() == 0 || name_matches(stops[j], str_lowercase(t)),
        None => true,
    } implies listed_stops(stops, q).contains((stops[j].stop_id, stops[j].stop_name)) by {
        let x = stops[j];
        if q is Some && q->0.len() > 0 {
            let mp = |s: StopView| name_matches(s, str_lowercase(q->0));
            lemma_keep(stops, mp);
            assert(mp(stops[j]));
            assert(found.contains(x));
        } else {
            assert(found[j] == x);
        }
        let k = choose|k: int| 0 <= k < found.len() && found[k] == x;
        assert(pred(found[k]));
        assert(kept.contains(x));
        let m = choose|m: int| 0 <= m < kept.len() && kept[m] == x;
        assert(listed_stops(stops, q)[m] == (x.stop_id, x.stop_name));
    }
}

pub open spec fn item_views(items: Seq<ApiStop>) -> Seq<(Seq<char>, Seq<char>)> {
    items.map_values(|i: ApiStop| (i.stop_id@, i.stop_name@))
}

/// Lists stops for `GET /api/stops?q=<query>` (see `listed_stops`).
///
/// # Errors
/// As `GtfsArchive::stops`.
pub fn stop_items(archive: &GtfsArchive, q: Option<&str>) -> (res: Result<Vec<ApiStop>, GtfsError>)
    ensures
        match required_records(file_state::<Stop>(archive@, "stops.txt"@), "stops.txt"@) {
            Ok(v) => res matches Ok(items) && item_views(items@) == listed_stops(v, match q {
                Some(t) => Some(t@),
                None => None,
            }),
            Err(e) => res matches Err(x) && x@ == e,
        },
{
    let stops = match q {
        Some(text) => if text.is_empty() {
            archive.stops()?
        } else {
            archive.find_stops(text)?
        },
        None => archive.stops()?,
    };
    let ghost found = record_views(stops@);
    let ghost pred = |s: StopView| is_top_level(s);
    let mut out: Vec<ApiStop> = Vec::new();
    let mut i: usize = 0;
    assert(found.take(0) =~= seq![]);
    assert(item_views(out@) =~= seq![]);
    while i < stops.len()
        invariant
            i <= stops@.len(),
            found == record_views(stops@),
            pred == (|s: StopView| is_top_level(s)),
            item_views(out@) == keep(found.take(i as int), pred).map_values(|s: StopView| (s.stop_id, s.stop_name)),
        decreases stops@.len() - i,
    {
        let s = &stops[i];
        assert(found.take(i + 1).drop_last() =~= found.take(i as int));
        assert(found.take(i + 1).last() == s@);
        let top = match &s.parent_station {
            Some(p) => p.as_str().is_empty(),
            None => true,
        };
        assert(top == pred(s@));
        if top {
            let ghost before = out@;
            out.push(ApiStop { stop_id: s.stop_id.clone(), stop_name: s.stop_name.clone() });
            assert(item_views(out@) =~= item_views(before).push((s@.stop_id, s@.stop_name)));
            assert(keep(found.take(i + 1), pred) == keep(found.take(i as int), pred).push(s@));
            assert(keep(found.take(i + 1), pred).map_values(|s: StopView| (s.stop_id, s.stop_name))
                =~= keep(found.take(i as int), pred).map_values(|s: StopView| (s.stop_id, s.stop_name)).push((s@.stop_id, s@.stop_name)));
        }
        i = i + 1;
    }
    assert(found.take(stops@.len() as int) =~= found);
    Ok(out)
}

// ───────────────────────────── departure items ─────────────────────────────

/// A departure as the schedule endpoint returns it.
#[derive(Debug, Clone)]
pub struct ApiDeparture {
    pub trip_id: String,
    pub stop_id: String,
    /// Seconds since midnight of the service day.
    pub departure_secs: u32,
    pub route_name: String,
    pub route_type: Option<u16>,
    pub destination: String,
    /// `None` = no real-time data; positive = late, negative = early.
    pub delay_secs: Option<i32>,
    pub canceled: bool,
    pub skipped: bool,
    /// The platform of the departure's stop, when the feed names one.
    pub platform: Option<String>,
}

pub struct ApiDepartureView {
    pub trip_id: Seq<char>,
    pub stop_id: Seq<char>,
    pub departure_secs: u32,
    pub route_name: Seq<char>,
    pub route_type: Option<u16>,
    pub destination: Seq<char>,
    pub delay_secs: Option<i32>,
    pub canceled: bool,
    pub skipped: bool,
    pub platform: Option<Seq<char>>,
}

impl View for ApiDeparture {
    type V = ApiDepartureView;

    open spec fn view(&self) -> ApiDepartureView {
        ApiDepartureView {
            trip_id: self.trip_id@,
            stop_id: self.stop_id@,
            departure_secs: self.departure_secs,
            route_name: self.route_name@,
            route_type: self.route_type,
            destination: self.destination@,
            delay_secs: self.delay_secs,
            canceled: self.canceled,
            skipped: self.skipped,
            platform: self.platform.deep_view(),
        }
    }
}

/// The name a trip shows for its route: the route's short name, else its
/// long name, else the trip's route id.
pub open spec fn route_name_for(trip: TripView, route: Option<RouteView>) -> Seq<char> {
    match route {
        Some(r) => match r.route_short_name {
            Some(n) => n,
            None => match r.route_long_name {
                Some(n) => n,
                None => trip.route_id,
            },
        },
        None => trip.route_id,
    }
}

/// A departure is named by its route's short name whenever there is one,
/// by the long name only without a short name, and by the trip's route id
/// when neither exists or the route is unknown.
pub proof fn lemma_route_name_prefers_short_name(trip: TripView, route: Option<RouteView>)
    ensures
        (route matches Some(r) && r.route_short_name is Some) ==> route_name_for(trip, route)
            == route->0.route_short_name->0,
        (route matches Some(r) && r.route_short_name is None && r.route_long_name is Some) ==> route_name_for(
            trip,
            route,
        ) == route->0.route_long_name->0,
        (route is None || (route->0.route_short_name is None && route->0.route_long_name is None))
            ==> route_name_for(trip, route) == trip.route_id,
{
}

/// The name a departure shows for its route (see `route_name_for`).
pub open spec fn route_name_of(d: DepartureView) -> Seq<char> {
    route_name_for(d.1, d.2)
}

/// The departure's destination: the trip's headsign, else `?`.
pub open spec fn destination_of(d: DepartureView) -> Seq<char> {
    match d.1.trip_headsign {
        Some(h) => h,
        None => "?"@,
    }
}

/// The item of one departure: real-time status from the feed when there is
/// one (a delay, or canceled, or skipped), platform from the stops.
pub open spec fn departure_item(
    d: DepartureView,
    feed: Option<Map<Seq<char>, TripStatusView>>,
    stops: Map<Seq<char>, StopView>,
) -> ApiDepartureView {
    let status = match feed {
        Some(f) => status_of(f, d.1.trip_id, d.0.stop_id),
        None => None,
    };
    ApiDepartureView {
        trip_id: d.1.trip_id,
        stop_id: d.0.stop_id,
        departure_secs: d.0.departure_secs,
        route_name: route_name_of(d),
        route_type: match d.2 {
            Some(r) => r.route_type,
            None => None,
        },
        destination: destination_of(d),
        delay_secs: match status {
            Some(DepartureStatus::OnTime { delay_secs }) => Some(delay_secs),
            _ => None,
        },
        canceled: status == Some(DepartureStatus::Canceled),
        skipped: status == Some(DepartureStatus::Skipped),
        platform: if stops.contains_key(d.0.stop_id) {
            stops[d.0.stop_id].platform_code
        } else {
            None
        },
    }
}

/// A route summary is named as the departures of its route are: by the
/// name that its first departure's item shows.
pub proof fn lemma_summary_named_as_departures(deps: Seq<DepartureView>, g: RouteGroup)
    requires
        0 <= g.first < deps.len(),
    ensures
        summary_name(summary_of(deps, g)) == route_name_of(deps[g.first]),
        summary_name(summary_of(deps, g)) == departure_item(deps[g.first], None, Map::empty()).route_name,
{
}

/// What real-time data says of a departure shows in its item: a canceled
/// trip is flagged canceled; a stop that the trip's update marks skipped
/// is flagged skipped; a stop with an update otherwise gets its departure
/// delay (0 when none is given); without an update for the trip, or for
/// the stop of a running trip, the item carries no real-time status. At
/// most one of delay, canceled and skipped is set.
pub proof fn lemma_item_status_follows_feed(
    d: DepartureView,
    feed: Map<Seq<char>, TripStatusView>,
    stops: Map<Seq<char>, StopView>,
)
    ensures
        ({
            let item = departure_item(d, Some(feed), stops);
            let trip = d.1.trip_id;
            let stop = d.0.stop_id;
            &&& (feed.contains_key(trip) && feed[trip] == TripStatusView::Canceled) ==> (item.canceled
                && !item.skipped && item.delay_secs is None)
            &&& (feed.contains_key(trip) && feed[trip] is Running && feed[trip]->0.contains_key(stop)
                && feed[trip]->0[stop].skipped) ==> (item.skipped && !item.canceled && item.delay_secs is None)
            &&& (feed.contains_key(trip) && feed[trip] is Running && feed[trip]->0.contains_key(stop)
                && !feed[trip]->0[stop].skipped) ==> (!item.skipped && !item.canceled && item.delay_secs == Some(
                match feed[trip]->0[stop].departure_delay_secs {
                    Some(x) => x,
                    None => 0i32,
                },
            ))
            &&& (!feed.contains_key(trip) || (feed[trip] is Running && !feed[trip]->0.contains_key(stop)))
                ==> (!item.skipped && !item.canceled && item.delay_secs is None)
            &&& !(item.skipped && item.canceled)
            &&& (item.skipped || item.canceled) ==> item.delay_secs is None
        }),
{
}

/// Without real-time data a departure is shown from the static schedule
/// alone, and real-time data changes nothing but its status.
pub proof fn lemma_static_fallback(
    d: DepartureView,
    feed: Map<Seq<char>, TripStatusView>,
    stops: Map<Seq<char>, StopView>,
)
    ensures
        ({
            let plain = departure_item(d, None, stops);
            let live = departure_item(d, Some(feed), stops);
            &&& plain.delay_secs is None && !plain.canceled && !plain.skipped
            &&& live.trip_id == plain.trip_id && live.stop_id == plain.stop_id
            &&& live.departure_secs == plain.departure_secs && live.route_name == plain.route_name
            &&& live.route_type == plain.route_type && live.destination == plain.destination
            &&& live.platform == plain.platform
        }),
{
}

pub open spec fn feed_view(feed: Option<&RealtimeFeed>) -> Option<Map<Seq<char>, TripStatusView>> {
    match feed {
        Some(f) => Some(f@),
        None => None,
    }
}

/// The route name of a trip (see `route_name_for`).
pub fn route_name(trip: &Trip, route: Option<&Route>) -> (res: String)
    ensures
        res@ == route_name_for(trip@, match route {
            Some(r) => Some(r@),
            None => None,
        }),
{
    match route {
        Some(r) => match &r.route_short_name {
            Some(n) => n.clone(),
            None => match &r.route_long_name {
                Some(n) => n.clone(),
                None => trip.route_id.clone(),
            },
        },
        None => trip.route_id.clone(),
    }
}

pub fn destination(trip: &Trip) -> (res: String)
    ensures
        res@ == (match trip@.trip_headsign {
            Some(h) => h,
            None => "?"@,
        }),
{
    match &trip.trip_headsign {
        Some(h) => h.clone(),
        None => String::from_str("?"),
    }
}

/// The departures of a schedule as items (see `departure_item`), in
/// departure order.
pub fn departure_items(schedule: &StopSchedule, feed: Option<&RealtimeFeed>, stops: &StringHashMap<Stop>) -> (res: Vec<ApiDeparture>)
    ensures
        record_views(res@) == schedule_departures(schedule@).map_values(
            |d: DepartureView| departure_item(d, feed_view(feed), stops@.map_values(|s: Stop| s@)),
        ),
{
    let deps = schedule.departures();
    let ghost dv = departure_views(deps@);
    let ghost sv = stops@.map_values(|s: Stop| s@);
    let mut out: Vec<ApiDeparture> = Vec::new();
    let mut i: usize = 0;
    while i < deps.len()
        invariant
            i <= deps@.len(),
            dv == departure_views(deps@),
            sv == stops@.map_values(|s: Stop| s@),
            out@.len() == i,
            forall|j: int| 0 <= j < i ==> #[trigger] out@[j]@ == departure_item(dv[j], feed_view(feed), sv),
        decreases deps@.len() - i,
    {
        let (st, trip, route) = deps[i];
        let status = match feed {
            Some(f) => f.status_for(trip.trip_id.as_str(), st.stop_id.as_str()),
            None => None,
        };
        let (delay_secs, canceled, skipped) = match status {
            Some(DepartureStatus::Canceled) => (None, true, false),
            Some(DepartureStatus::Skipped) => (None, false, true),
            Some(DepartureStatus::OnTime { delay_secs }) => (Some(delay_secs), false, false),
            None => (None, false, false),
        };
        let platform = match stops.get(st.stop_id.as_str()) {
            Some(s) => clone_opt_string(&s.platform_code),
            None => None,
        };
        let item = ApiDeparture {
            trip_id: trip.trip_id.clone(),
            stop_id: st.stop_id.clone(),
            departure_secs: st.departure_time.as_secs(),
            route_name: route_name(trip, route),
            route_type: match route {
                Some(r) => r.route_type,
                None => None,
            },
            destination: destination(trip),
            delay_secs,
            canceled,
            skipped,
            platform,
        };
        assert(dv[i as int] == departure_view(deps@[i as int]));
        assert(item@ == departure_item(dv[i as int], feed_view(feed), sv));
        out.push(item);
        i = i + 1;
    }
    assert(record_views(out@) =~= dv.map_values(
        |d: DepartureView| departure_item(d, feed_view(feed), sv),
    ));
    out
}

} // verus!
