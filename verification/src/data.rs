//! Eager in-memory GTFS store: the whole archive parsed at once, for
//! callers without a filesystem.
use vstd::prelude::*;
use vstd::hash_set::StringHashSet;
use vstd::hash_map::StringHashMap;

use crate::archive::{
    entries_file_state, optional_records, read_entry_records, service_ok,
    set_view, trip_id_set, stop_times_at, FileState, GtfsError, GtfsErrorView,
};
use crate::calendar::{services_on, services_on_date};
use crate::model::{
    Agency, Calendar, CalendarDate, CalendarDateView, CalendarView, Route, RouteView, Stop,
    StopTime, StopTimeView, StopView, Trip, TripView,
};
use crate::query::{routes_by_id, trips_by_id, ScheduleView, StopSchedule};
use crate::records::{record_views, Record};
use crate::select::{keep, str_set, string_set_of};
use crate::stops::{
    ascii_matching_stops, filter_stops_by_name, lemma_empty_query_matches_all, matching_stops,
    stop_ref_views,
};
use crate::text::{ascii_upper, is_ascii_chars};
use crate::time::{date_key_text, weekday_number, weekday_from_number, CivilDate};
use crate::zipfile::{zip_archive_entries, zip_central_directory, zip_open};

verus! {

/// Eager in-memory GTFS store.
pub struct GtfsData {
    pub stops: Vec<Stop>,
    pub stop_times: Vec<StopTime>,
    pub trips: StringHashMap<Trip>,
    pub routes: StringHashMap<Route>,
    pub calendars: Vec<Calendar>,
    pub calendar_dates: Vec<CalendarDate>,
    pub agency_timezone: Option<String>,
}

pub struct GtfsDataView {
    pub stops: Seq<StopView>,
    pub stop_times: Seq<StopTimeView>,
    pub trips: Map<Seq<char>, TripView>,
    pub routes: Map<Seq<char>, RouteView>,
    pub calendars: Seq<CalendarView>,
    pub calendar_dates: Seq<CalendarDateView>,
    pub agency_timezone: Option<Seq<char>>,
}

impl View for GtfsData {
    type V = GtfsDataView;

    open spec fn view(&self) -> GtfsDataView {
        GtfsDataView {
            stops: record_views(self.stops@),
            stop_times: record_views(self.stop_times@),
            trips: self.trips@.map_values(|t: Trip| t@),
            routes: self.routes@.map_values(|r: Route| r@),
            calendars: record_views(self.calendars@),
            calendar_dates: record_views(self.calendar_dates@),
            agency_timezone: self.agency_timezone.deep_view(),
        }
    }
}

/// Loading a file that must be present: an absent file is `MissingFile`.
pub open spec fn loaded_required<V>(st: FileState<V>, name: Seq<char>) -> Result<Seq<V>, GtfsErrorView> {
    match st {
        FileState::Absent => Err(GtfsErrorView::MissingFile { name }),
        FileState::Unreadable => Err(GtfsErrorView::ReadEntry { name }),
        FileState::Malformed => Err(GtfsErrorView::Csv { file: name, row: None }),
        FileState::InvalidRow(i) => Err(GtfsErrorView::Csv { file: name, row: Some(i) }),
        FileState::Records(v) => Ok(v),
    }
}

pub open spec fn or_empty<V>(o: Option<Seq<V>>) -> Seq<V> {
    match o {
        Some(v) => v,
        None => seq![],
    }
}

/// The store that the entries of an archive make, or the first error, the
/// files taken in the order stops, stop times, trips, routes, calendar,
/// calendar dates, agency.
pub open spec fn data_from_entries(dir: Map<Seq<char>, Option<Option<Seq<u8>>>>) -> Result<GtfsDataView, GtfsErrorView> {
    match loaded_required(entries_file_state::<Stop>(dir, "stops.txt"@), "stops.txt"@) {
        Err(e) => Err(e),
        Ok(stops) => match loaded_required(entries_file_state::<StopTime>(dir, "stop_times.txt"@), "stop_times.txt"@) {
            Err(e) => Err(e),
            Ok(stop_times) => match loaded_required(entries_file_state::<Trip>(dir, "trips.txt"@), "trips.txt"@) {
                Err(e) => Err(e),
                Ok(trips) => match loaded_required(entries_file_state::<Route>(dir, "routes.txt"@), "routes.txt"@) {
                    Err(e) => Err(e),
                    Ok(routes) => match optional_records(entries_file_state::<Calendar>(dir, "calendar.txt"@), "calendar.txt"@) {
                        Err(e) => Err(e),
                        Ok(cals) => match optional_records(entries_file_state::<CalendarDate>(dir, "calendar_dates.txt"@), "calendar_dates.txt"@) {
                            Err(e) => Err(e),
                            Ok(cds) => match optional_records(entries_file_state::<Agency>(dir, "agency.txt"@), "agency.txt"@) {
                                Err(e) => Err(e),
                                Ok(agencies) => Ok(GtfsDataView {
                                    stops,
                                    stop_times,
                                    trips: trips_by_id(trips),
                                    routes: routes_by_id(routes),
                                    calendars: or_empty(cals),
                                    calendar_dates: or_empty(cds),
                                    agency_timezone: match agencies {
                                        Some(a) => if a.len() > 0 { Some(a[0].agency_timezone) } else { None },
                                        None => None,
                                    },
                                }),
                            },
                        },
                    },
                },
            },
        },
    }
}

/// The store that the archive bytes make, or the error.
pub open spec fn data_from_bytes(bytes: Seq<u8>) -> Result<GtfsDataView, GtfsErrorView> {
    match zip_central_directory(bytes) {
        None => Err(GtfsErrorView::Open { path: "<in-memory>"@ }),
        Some(dir) => data_from_entries(dir),
    }
}

/// The trips (by id) of the given trip ids whose service is active.
pub open spec fn trips_for(trips: Map<Seq<char>, TripView>, tids: Set<Seq<char>>, active: Option<Set<Seq<char>>>) -> Map<Seq<char>, TripView> {
    trips.restrict(Set::new(|id: Seq<char>| tids.contains(id) && trips.contains_key(id) && service_ok(active, trips[id])))
}

/// The routes (by id) that some of the given trips run on.
pub open spec fn routes_for(routes: Map<Seq<char>, RouteView>, trips: Map<Seq<char>, TripView>) -> Map<Seq<char>, RouteView> {
    routes.restrict(Set::new(|rid: Seq<char>| routes.contains_key(rid) && exists|id: Seq<char>| trips.contains_key(id) && #[trigger] trips[id].route_id == rid))
}

/// The schedule of the stores' data for the stops `ids`.
pub open spec fn data_schedule(d: GtfsDataView, ids: Set<Seq<char>>, active: Option<Set<Seq<char>>>) -> ScheduleView {
    let st = stop_times_at(d.stop_times, ids);
    let tr = trips_for(d.trips, trip_id_set(st), active);
    ScheduleView { stop_times: st, trips: tr, routes: routes_for(d.routes, tr) }
}

fn load_required<R: Record>(archive: &mut zip::ZipArchive<std::io::Cursor<Vec<u8>>>, name: &'static str) -> (res: Result<Vec<R>, GtfsError>)
    ensures
        zip_archive_entries(*final(archive)) == zip_archive_entries(*old(archive)),
        match loaded_required(entries_file_state::<R>(zip_archive_entries(*old(archive)), name@), name@) {
            Ok(v) => res matches Ok(x) && record_views(x@) == v,
            Err(e) => res matches Err(x) && x@ == e,
        },
{
    match read_entry_records::<R>(archive, name) {
        Ok(Some(v)) => Ok(v),
        Ok(None) => Err(GtfsError::MissingFile { name }),
        Err(e) => Err(e),
    }
}

fn keyed_trips(trips: Vec<Trip>) -> (res: StringHashMap<Trip>)
    ensures
        res@.map_values(|t: Trip| t@) == trips_by_id(record_views(trips@)),
{
    let s = StopSchedule::new(Vec::new(), trips, Vec::new());
    s.trips
}

fn keyed_routes(routes: Vec<Route>) -> (res: StringHashMap<Route>)
    ensures
        res@.map_values(|r: Route| r@) == routes_by_id(record_views(routes@)),
{
    let s = StopSchedule::new(Vec::new(), Vec::new(), routes);
    s.routes
}

impl GtfsData {
    /// Parse a GTFS ZIP from a byte slice (e.g. a browser File upload).
    ///
    /// # Errors
    /// `Open` when the bytes are not a ZIP archive; `MissingFile` for an
    /// absent stops, stop times, trips or routes file; `ReadEntry` or `Csv`
    /// for a file that cannot be opened, or read and parsed (see
    /// `data_from_bytes`).
    pub fn from_bytes(bytes: &[u8]) -> (res: Result<GtfsData, GtfsError>)
        ensures
            match data_from_bytes(bytes@) {
                Ok(v) => res matches Ok(d) && d@ == v,
                Err(e) => res matches Err(x) && x@ == e,
            },
    {
        let copy = vstd::slice::slice_to_vec(bytes);
        let mut zip = match zip_open(copy) {
            Ok(a) => a,
            Err(e) => {
                return Err(GtfsError::Open { path: String::from_str("<in-memory>"), source: e });
            },
        };
        let ghost dir = zip_archive_entries(zip);
        let stops = load_required::<Stop>(&mut zip, "stops.txt")?;
        let stop_times = load_required::<StopTime>(&mut zip, "stop_times.txt")?;
        let trips_vec = load_required::<Trip>(&mut zip, "trips.txt")?;
        let routes_vec = load_required::<Route>(&mut zip, "routes.txt")?;
        let calendars = read_entry_records::<Calendar>(&mut zip, "calendar.txt")?;
        let calendar_dates = read_entry_records::<CalendarDate>(&mut zip, "calendar_dates.txt")?;
        let agencies = read_entry_records::<Agency>(&mut zip, "agency.txt")?;
        let trips = keyed_trips(trips_vec);
        let routes = keyed_routes(routes_vec);
        let calendars: Vec<Calendar> = match calendars {
            Some(v) => v,
            None => {
                let v: Vec<Calendar> = Vec::new();
                assert(record_views(v@) =~= seq![]);
                v
            },
        };
        let calendar_dates: Vec<CalendarDate> = match calendar_dates {
            Some(v) => v,
            None => {
                let v: Vec<CalendarDate> = Vec::new();
                assert(record_views(v@) =~= seq![]);
                v
            },
        };
        let agency_timezone = match agencies {
            Some(a) => if a.len() > 0 {
                Some(a[0].agency_timezone.clone())
            } else {
                None
            },
            None => None,
        };
        let d = GtfsData { stops, stop_times, trips, routes, calendars, calendar_dates, agency_timezone };
        Ok(d)
    }

    /// Case-insensitive substring search on stop names. Returns up to 30 matches.
    pub fn find_stops(&self, query: &str) -> (res: Vec<&Stop>)
        ensures
            stop_ref_views(res@) == matching_stops(self@.stops, query@).take(
                if matching_stops(self@.stops, query@).len() < 30 {
                    matching_stops(self@.stops, query@).len() as int
                } else {
                    30
                },
            ),
            is_ascii_chars(query@) ==> stop_ref_views(res@) == ascii_matching_stops(self@.stops, query@).take(
                if ascii_matching_stops(self@.stops, query@).len() < 30 {
                    ascii_matching_stops(self@.stops, query@).len() as int
                } else {
                    30
                },
            ),
            stop_ref_views(res@) == matching_stops(self@.stops, ascii_upper(query@)).take(
                if matching_stops(self@.stops, ascii_upper(query@)).len() < 30 {
                    matching_stops(self@.stops, ascii_upper(query@)).len() as int
                } else {
                    30
                },
            ),
            query@.len() == 0 ==> stop_ref_views(res@) == self@.stops.take(
                if self@.stops.len() < 30 {
                    self@.stops.len() as int
                } else {
                    30
                },
            ),
    {
        let res = filter_stops_by_name(&self.stops, query, Some(30));
        proof {
            lemma_empty_query_matches_all(self@.stops);
            if query@.len() == 0 {
                assert(query@ =~= seq![]);
            }
        }
        res
    }

    /// Service IDs active on `date`, or `None` if no calendar data is present.
    pub fn active_service_ids(&self, date: &CivilDate) -> (res: Option<StringHashSet>)
        ensures
            self@.calendars.len() == 0 && self@.calendar_dates.len() == 0 ==> res is None,
            !(self@.calendars.len() == 0 && self@.calendar_dates.len() == 0) ==> (res matches Some(s)
                && s@ == services_on(
                self@.calendars,
                self@.calendar_dates,
                date_key_text(date@.0, date@.1, date@.2),
                weekday_from_number(weekday_number(date@.0, date@.1, date@.2)),
            )),
    {
        if self.calendars.len() == 0 && self.calendar_dates.len() == 0 {
            return None;
        }
        let key = date.date_key();
        let weekday = date.weekday();
        Some(services_on_date(&self.calendars, &self.calendar_dates, &key, weekday))
    }

    /// Build a `StopSchedule` from in-memory data (no I/O): the stop times
    /// at the given stops, the trips of those stop times whose service is
    /// active, and the routes of those trips (see `data_schedule`).
    pub fn schedule_for_stops(&self, stop_ids: &[&str], active_services: Option<&StringHashSet>) -> (res: StopSchedule)
        ensures
            res@ == data_schedule(self@, str_set(stop_ids@), set_view(active_services)),
    {
        let ids = string_set_of(stop_ids);
        let ghost sv = record_views(self.stop_times@);
        let ghost dv = self@;
        let ghost pred = |st: StopTimeView| ids@.contains(st.stop_id);
        let ghost active = set_view(active_services);
        let mut kept: Vec<StopTime> = Vec::new();
        let mut tm: StringHashMap<Trip> = StringHashMap::new();
        let mut rm: StringHashMap<Route> = StringHashMap::new();
        let mut i: usize = 0;
        assert(sv.take(0) =~= seq![]);
        assert(record_views(kept@) =~= seq![]);
        assert(tm@.map_values(|t: Trip| t@) =~= trips_for(dv.trips, trip_id_set(seq![]), active));
        assert(rm@.map_values(|r: Route| r@) =~= routes_for(dv.routes, tm@.map_values(|t: Trip| t@)));
        while i < self.stop_times.len()
            invariant
                i <= self.stop_times@.len(),
                sv == record_views(self.stop_times@),
                dv == self@,
                dv.trips == self.trips@.map_values(|t: Trip| t@),
                dv.routes == self.routes@.map_values(|r: Route| r@),
                pred == (|st: StopTimeView| ids@.contains(st.stop_id)),
                active == set_view(active_services),
                record_views(kept@) == keep(sv.take(i as int), pred),
                tm@.map_values(|t: Trip| t@) == trips_for(dv.trips, trip_id_set(record_views(kept@)), active),
                rm@.map_values(|r: Route| r@) == routes_for(dv.routes, tm@.map_values(|t: Trip| t@)),
            decreases self.stop_times@.len() - i,
        {
            let st = &self.stop_times[i];
            assert(sv.take(i + 1).drop_last() =~= sv.take(i as int));
            assert(sv.take(i + 1).last() == st@);
            assert(pred(st@) == ids@.contains(st@.stop_id));
            if ids.contains(st.stop_id.as_str()) {
                let ghost before = kept@;
                let ghost tm0 = tm@.map_values(|t: Trip| t@);
                let ghost rm0 = rm@.map_values(|r: Route| r@);
                kept.push(st.clone());
                assert(record_views(kept@) =~= record_views(before).push(st@));
                assert(record_views(kept@).drop_last() =~= record_views(before));
                let tid = st.trip_id.as_str();
                match self.trips.get(tid) {
                    Some(trip) => {
                        let ok = match active_services {
                            Some(s) => s.contains(trip.service_id.as_str()),
                            None => true,
                        };
                        assert(ok == service_ok(active, dv.trips[st@.trip_id]));
                        if ok {
                            let ghost tmraw = tm@;
                            tm.insert(st.trip_id.clone(), trip.clone());
                            let ghost tm1 = tm@.map_values(|t: Trip| t@);
                            assert(tm1 =~= tm0.insert(st@.trip_id, trip@)) by {
                                assert(tm@ == tmraw.insert(st@.trip_id, tm@[st@.trip_id]));
                            }
                            assert(trip_id_set(record_views(kept@)) == trip_id_set(record_views(before)).insert(st@.trip_id));
                            assert(dv.trips.contains_key(st@.trip_id) && dv.trips[st@.trip_id] == trip@);
                            assert(tm1 =~= trips_for(dv.trips, trip_id_set(record_views(kept@)), active));
                            match self.routes.get(trip.route_id.as_str()) {
                                Some(route) => {
                                    let ghost rmraw = rm@;
                                    rm.insert(trip.route_id.clone(), route.clone());
                                    let ghost rmv = rm@.map_values(|r: Route| r@);
                                    let ghost rid0 = trip@.route_id;
                                    let ghost k = st@.trip_id;
                                    assert(rmv =~= rm0.insert(rid0, route@)) by {
                                        assert(rm@ == rmraw.insert(rid0, rm@[rid0]));
                                    }
                                    assert(dv.routes.contains_key(rid0) && dv.routes[rid0] == route@);
                                    assert forall|id: Seq<char>| tm0.contains_key(id) implies #[trigger] tm0[id] == dv.trips[id] by {}
                                    assert forall|rid: Seq<char>| #[trigger] rmv.contains_key(rid) <==> routes_for(dv.routes, tm1).contains_key(rid) by {
                                        if rmv.contains_key(rid) {
                                            if rid == rid0 {
                                                assert(tm1.contains_key(k) && tm1[k].route_id == rid);
                                            } else {
                                                assert(rm0.contains_key(rid));
                                                let id = choose|id: Seq<char>| tm0.contains_key(id) && #[trigger] tm0[id].route_id == rid;
                                                assert(tm1.contains_key(id) && tm1[id].route_id == rid);
                                            }
                                        }
                                        if routes_for(dv.routes, tm1).contains_key(rid) {
                                            let id = choose|id: Seq<char>| tm1.contains_key(id) && #[trigger] tm1[id].route_id == rid;
                                            if id != k {
                                                assert(tm0.contains_key(id) && tm0[id].route_id == rid);
                                                assert(rm0.contains_key(rid));
                                            }
                                        }
                                    }
                                    assert forall|rid: Seq<char>| #[trigger] rmv.contains_key(rid) implies rmv[rid] == routes_for(dv.routes, tm1)[rid] by {
                                        if rid != rid0 {
                                            assert(rm0.contains_key(rid));
                                        }
                                    }
                                    assert(rmv =~= routes_for(dv.routes, tm1));
                                },
                                None => {
                                    let ghost rmv = rm@.map_values(|r: Route| r@);
                                    let ghost rid0 = trip@.route_id;
                                    let ghost k = st@.trip_id;
                                    assert(!dv.routes.contains_key(rid0));
                                    assert forall|id: Seq<char>| tm0.contains_key(id) implies #[trigger] tm0[id] == dv.trips[id] by {}
                                    assert forall|rid: Seq<char>| #[trigger] rmv.contains_key(rid) <==> routes_for(dv.routes, tm1).contains_key(rid) by {
                                        if rmv.contains_key(rid) {
                                            let id = choose|id: Seq<char>| tm0.contains_key(id) && #[trigger] tm0[id].route_id == rid;
                                            assert(tm1.contains_key(id) && tm1[id].route_id == rid);
                                        }
                                        if routes_for(dv.routes, tm1).contains_key(rid) {
                                            let id = choose|id: Seq<char>| tm1.contains_key(id) && #[trigger] tm1[id].route_id == rid;
                                            if id != k {
                                                assert(tm0.contains_key(id) && tm0[id].route_id == rid);
                                            }
                                        }
                                    }
                                    assert(rmv =~= routes_for(dv.routes, tm1));
                                },
                            }
                        } else {
                            assert(tm@.map_values(|t: Trip| t@) =~= trips_for(dv.trips, trip_id_set(record_views(kept@)), active));
                        }
                    },
                    None => {
                        assert(tm@.map_values(|t: Trip| t@) =~= trips_for(dv.trips, trip_id_set(record_views(kept@)), active));
                    },
                }
            }
            i = i + 1;
        }
        assert(sv.take(self.stop_times@.len() as int) =~= sv);
        StopSchedule { stop_times: kept, trips: tm, routes: rm }
    }

    pub fn agency_timezone(&self) -> (res: Option<&str>)
        ensures
            match res {
                Some(s) => self@.agency_timezone == Some(s@),
                None => self@.agency_timezone is None,
            },
    {
        match &self.agency_timezone {
            Some(s) => Some(s.as_str()),
            None => None,
        }
    }

    /// The number of stops: the length of the public `stops` list.
    pub fn stop_count(&self) -> (res: usize)
        ensures
            res == self@.stops.len(),
            res == self.stops@.len(),
    {
        self.stops.len()
    }
}


} // verus!
