//! Reading GTFS records from CSV rows, by column name (by position when
//! the header cannot be read).
use vstd::prelude::*;

use crate::model::{
    Agency, AgencyView, Calendar, CalendarDate, CalendarDateView, CalendarView, ExceptionType,
    Route, RouteView, Stop, StopTime, StopTimeView, StopView, Trip, TripView,
};
use crate::table::{
    cell, header_accepts, header_chars, optional_text, optional_uint, required_uint,
    resolve_columns, Columns, CsvTable,
};
use crate::text::{chars_of, parse_csv_uint};
use crate::time::{gtfs_time_secs, GtfsTime};

verus! {

// ───────────────────────────── cells ─────────────────────────────

/// The field of `row` at column `pos`, if there is one.
pub open spec fn cell_at(row: Seq<Seq<char>>, pos: Option<usize>) -> Option<Seq<char>> {
    match pos {
        Some(p) => if p < row.len() {
            Some(row[p as int])
        } else {
            None
        },
        None => None,
    }
}

/// The column of the `k`-th known field agrees with `cell`.
proof fn lemma_cell_at(cols: &Columns, row: Seq<Seq<char>>, k: int)
    requires
        cols.wf(),
        0 <= k < cols.known@.len(),
    ensures
        cell(cols.header@, row, cols.known@[k]) == cell_at(row, cols.positions@[k]),
{
    let _ = cols.positions@[k];
}

fn get_cell<'a>(row: &'a Vec<String>, pos: Option<usize>) -> (res: Option<&'a String>)
    ensures
        match res {
            Some(s) => cell_at(row.deep_view(), pos) == Some(s@),
            None => cell_at(row.deep_view(), pos) is None,
        },
{
    match pos {
        Some(p) => if p < row.len() {
            Some(&row[p])
        } else {
            None
        },
        None => None,
    }
}

fn read_text(row: &Vec<String>, pos: Option<usize>) -> (res: Option<String>)
    ensures
        res.deep_view() == cell_at(row.deep_view(), pos),
{
    match get_cell(row, pos) {
        Some(s) => Some(s.clone()),
        None => None,
    }
}

fn read_optional_text(row: &Vec<String>, pos: Option<usize>) -> (res: Option<String>)
    ensures
        res.deep_view() == optional_text(cell_at(row.deep_view(), pos)),
{
    match get_cell(row, pos) {
        Some(s) => {
            if s.as_str().is_empty() {
                None
            } else {
                Some(s.clone())
            }
        },
        None => None,
    }
}

fn read_uint(row: &Vec<String>, pos: Option<usize>, max: u32) -> (res: Option<u32>)
    ensures
        match res {
            Some(v) => required_uint(cell_at(row.deep_view(), pos), max as nat) == Some(v as nat),
            None => required_uint(cell_at(row.deep_view(), pos), max as nat) is None,
        },
{
    match get_cell(row, pos) {
        Some(s) => {
            let cs = chars_of(s.as_str());
            parse_csv_uint(cs.as_slice(), max)
        },
        None => None,
    }
}

fn read_optional_uint(row: &Vec<String>, pos: Option<usize>, max: u32) -> (res: Option<
    Option<u32>,
>)
    ensures
        match res {
            Some(Some(v)) => optional_uint(cell_at(row.deep_view(), pos), max as nat) == Some(
                Some(v as nat),
            ),
            Some(None) => optional_uint(cell_at(row.deep_view(), pos), max as nat) == Some(
                None::<nat>,
            ),
            None => optional_uint(cell_at(row.deep_view(), pos), max as nat) is None,
        },
{
    match get_cell(row, pos) {
        Some(s) => {
            if s.as_str().is_empty() {
                return Some(None);
            }
            let cs = chars_of(s.as_str());
            match parse_csv_uint(cs.as_slice(), max) {
                Some(v) => Some(Some(v)),
                None => None,
            }
        },
        None => Some(None),
    }
}

fn read_time(row: &Vec<String>, pos: Option<usize>) -> (res: Option<GtfsTime>)
    ensures
        match res {
            Some(t) => cell_at(row.deep_view(), pos) matches Some(c) && gtfs_time_secs(c) == Some(
                t@ as nat,
            ),
            None => cell_at(row.deep_view(), pos) is None || gtfs_time_secs(
                cell_at(row.deep_view(), pos)->0,
            ) is None,
        },
{
    match get_cell(row, pos) {
        Some(s) => match GtfsTime::parse(s.as_str()) {
            Ok(t) => Some(t),
            Err(_) => None,
        },
        None => None,
    }
}

/// A required `0`/`1`-style flag: any non-zero byte value is `true`.
pub open spec fn flag_value(c: Option<Seq<char>>) -> Option<bool> {
    match required_uint(c, 255) {
        Some(n) => Some(n != 0),
        None => None,
    }
}

fn read_flag(row: &Vec<String>, pos: Option<usize>) -> (res: Option<bool>)
    ensures
        res == flag_value(cell_at(row.deep_view(), pos)),
{
    match read_uint(row, pos, 255) {
        Some(v) => Some(v != 0),
        None => None,
    }
}

// ───────────────────────────── records ─────────────────────────────

/// A GTFS record type that is read from a CSV row by column names.
pub trait Record: Sized + View {
    /// The column names this record reads.
    spec fn fields() -> Seq<Seq<char>>;

    /// The record that `row` holds under `header`, if the row is valid.
    spec fn from_row(header: Seq<Seq<char>>, row: Seq<Seq<char>>) -> Option<Self::V>;

    fn field_names() -> (r: Vec<Vec<char>>)
        ensures
            r.deep_view() == Self::fields(),
    ;

    fn decode_row(cols: &Columns, row: &Vec<String>) -> (res: Option<Self>)
        requires
            cols.wf(),
            cols.known@ == Self::fields(),
        ensures
            match res {
                Some(r) => Self::from_row(cols.header@, row.deep_view()) == Some(r@),
                None => Self::from_row(cols.header@, row.deep_view()) is None,
            },
    ;
}

/// The views of a sequence of records.
pub open spec fn record_views<R: View>(s: Seq<R>) -> Seq<R::V> {
    s.map_values(|x: R| x@)
}

/// The records that the rows of a table hold, when every row is valid.
pub open spec fn records_of<R: Record>(header: Seq<Seq<char>>, rows: Seq<Seq<Seq<char>>>) -> Option<
    Seq<R::V>,
> {
    if forall|i: int| 0 <= i < rows.len() ==> (#[trigger] R::from_row(header, rows[i])) is Some {
        Some(Seq::new(rows.len(), |i: int| R::from_row(header, rows[i])->0))
    } else {
        None
    }
}

/// The index of the first row that is not a valid record (meaningful when
/// there is one).
pub open spec fn first_invalid_row<R: Record>(header: Seq<Seq<char>>, rows: Seq<Seq<Seq<char>>>) -> int {
    choose|i: int|
        0 <= i < rows.len() && (#[trigger] R::from_row(header, rows[i])) is None && forall|j: int|
            0 <= j < i ==> (#[trigger] R::from_row(header, rows[j])) is Some
}

/// A row that is invalid while every earlier one is valid is the first
/// invalid row.
pub proof fn lemma_first_invalid_row<R: Record>(header: Seq<Seq<char>>, rows: Seq<Seq<Seq<char>>>, i: int)
    requires
        0 <= i < rows.len(),
        R::from_row(header, rows[i]) is None,
        forall|j: int| 0 <= j < i ==> (#[trigger] R::from_row(header, rows[j])) is Some,
    ensures
        first_invalid_row::<R>(header, rows) == i,
{
    let c = first_invalid_row::<R>(header, rows);
    assert(0 <= c < rows.len() && R::from_row(header, rows[c]) is None && forall|j: int|
        0 <= j < c ==> (#[trigger] R::from_row(header, rows[j])) is Some);
    if c < i {
        assert(R::from_row(header, rows[c]) is Some);
    }
    if i < c {
        assert(R::from_row(header, rows[i]) is Some);
    }
}

/// The columns by which rows are read: the header's, or, when the header
/// could not be read, the record's fields in order (each row is then read
/// by position).
pub open spec fn read_header<R: Record>(header: Option<Seq<Seq<char>>>) -> Seq<Seq<char>> {
    match header {
        Some(h) => h,
        None => R::fields(),
    }
}

/// Reads every row of `t` as a record of type `R`; on the first invalid
/// row, its index.
pub fn decode_table<R: Record>(t: &CsvTable) -> (res: Result<Vec<R>, usize>)
    ensures
        match res {
            Ok(v) => records_of::<R>(read_header::<R>(t.header.deep_view()), t.rows.deep_view()) == Some(
                record_views(v@),
            ),
            Err(i) => records_of::<R>(read_header::<R>(t.header.deep_view()), t.rows.deep_view()) is None
                && i < t.rows@.len()
                && R::from_row(read_header::<R>(t.header.deep_view()), t.rows.deep_view()[i as int]) is None
                && forall|j: int| 0 <= j < i ==> (#[trigger] R::from_row(read_header::<R>(t.header.deep_view()), t.rows.deep_view()[j])) is Some,
        },
{
    let names = R::field_names();
    let hc = match &t.header {
        Some(h) => header_chars(h),
        None => R::field_names(),
    };
    let cols = resolve_columns(&hc, &names);
    let ghost h = read_header::<R>(t.header.deep_view());
    let ghost rows = t.rows.deep_view();
    let mut out: Vec<R> = Vec::new();
    let mut i: usize = 0;
    while i < t.rows.len()
        invariant
            i <= t.rows@.len(),
            cols.wf(),
            cols.known@ == R::fields(),
            cols.header@ == h,
            h == read_header::<R>(t.header.deep_view()),
            rows == t.rows.deep_view(),
            out@.len() == i,
            forall|j: int|
                0 <= j < i ==> R::from_row(h, rows[j]) == Some(#[trigger] out@[j]@),
        decreases t.rows@.len() - i,
    {
        assert(rows[i as int] == t.rows@[i as int].deep_view());
        match R::decode_row(&cols, &t.rows[i]) {
            Some(r) => {
                out.push(r);
            },
            None => {
                assert(!(forall|j: int| 0 <= j < rows.len() ==> (#[trigger] R::from_row(h, rows[j])) is Some));
                assert forall|j: int| 0 <= j < i implies (#[trigger] R::from_row(h, rows[j])) is Some by {
                    assert(R::from_row(h, rows[j]) == Some(out@[j]@));
                }
                return Err(i);
            },
        }
        i = i + 1;
    }
    assert forall|j: int| 0 <= j < rows.len() implies (#[trigger] R::from_row(h, rows[j])) is Some by {
        assert(R::from_row(h, rows[j]) == Some(out@[j]@));
    }
    assert(record_views(out@) =~= Seq::new(rows.len(), |j: int| R::from_row(h, rows[j])->0)) by {
        assert forall|j: int| 0 <= j < rows.len() implies record_views(out@)[j] == R::from_row(h, rows[j])->0 by {
            assert(R::from_row(h, rows[j]) == Some(out@[j]@));
        }
    }
    Ok(out)
}

// ── stops ──

pub open spec fn stop_row(h: Seq<Seq<char>>, row: Seq<Seq<char>>) -> Option<StopView> {
    let id = cell(h, row, "stop_id"@);
    let name = cell(h, row, "stop_name"@);
    if header_accepts(h, Stop::fields(), row.len()) && id is Some && name is Some {
        Some(
            StopView {
                stop_id: id->0,
                stop_name: name->0,
                parent_station: optional_text(cell(h, row, "parent_station"@)),
                platform_code: optional_text(cell(h, row, "platform_code"@)),
            },
        )
    } else {
        None
    }
}

impl Record for Stop {
    open spec fn fields() -> Seq<Seq<char>> {
        seq!["stop_id"@, "stop_name"@, "parent_station"@, "platform_code"@]
    }

    open spec fn from_row(header: Seq<Seq<char>>, row: Seq<Seq<char>>) -> Option<StopView> {
        stop_row(header, row)
    }

    fn field_names() -> (r: Vec<Vec<char>>) {
        let r = vec![chars_of("stop_id"), chars_of("stop_name"), chars_of("parent_station"), chars_of("platform_code")];
        assert(r.deep_view() =~= Self::fields()) by {
            assert(r@[0].deep_view() =~= r@[0]@);
            assert(r@[1].deep_view() =~= r@[1]@);
            assert(r@[2].deep_view() =~= r@[2]@);
            assert(r@[3].deep_view() =~= r@[3]@);
        }
        r
    }

    fn decode_row(cols: &Columns, row: &Vec<String>) -> (res: Option<Stop>) {
        proof {
            let rv = row.deep_view();
            lemma_cell_at(cols, rv, 0);
            lemma_cell_at(cols, rv, 1);
            lemma_cell_at(cols, rv, 2);
            lemma_cell_at(cols, rv, 3);
            assert(header_accepts(cols.header@, cols.known@, rv.len()) <==> (cols.unique && rv.len() >= cols.min_len));
        }
        if !(cols.unique && row.len() >= cols.min_len) {
            return None;
        }
        let stop_id = read_text(row, cols.positions[0]);
        let stop_name = read_text(row, cols.positions[1]);
        let parent_station = read_optional_text(row, cols.positions[2]);
        let platform_code = read_optional_text(row, cols.positions[3]);
        match (stop_id, stop_name) {
            (Some(stop_id), Some(stop_name)) => Some(Stop { stop_id, stop_name, parent_station, platform_code }),
            _ => None,
        }
    }
}


// ── stop times ──

pub open spec fn stop_time_row(h: Seq<Seq<char>>, row: Seq<Seq<char>>) -> Option<StopTimeView> {
    let trip = cell(h, row, "trip_id"@);
    let dep = cell(h, row, "departure_time"@);
    let stop = cell(h, row, "stop_id"@);
    if header_accepts(h, StopTime::fields(), row.len()) && trip is Some && dep is Some
        && gtfs_time_secs(dep->0) is Some && stop is Some {
        Some(
            StopTimeView {
                trip_id: trip->0,
                departure_secs: gtfs_time_secs(dep->0)->0 as u32,
                stop_id: stop->0,
            },
        )
    } else {
        None
    }
}

impl Record for StopTime {
    open spec fn fields() -> Seq<Seq<char>> {
        seq!["trip_id"@, "departure_time"@, "stop_id"@]
    }

    open spec fn from_row(header: Seq<Seq<char>>, row: Seq<Seq<char>>) -> Option<StopTimeView> {
        stop_time_row(header, row)
    }

    fn field_names() -> (r: Vec<Vec<char>>) {
        let r = vec![chars_of("trip_id"), chars_of("departure_time"), chars_of("stop_id")];
        assert(r.deep_view() =~= Self::fields()) by {
            assert(r@[0].deep_view() =~= r@[0]@);
            assert(r@[1].deep_view() =~= r@[1]@);
            assert(r@[2].deep_view() =~= r@[2]@);
        }
        r
    }

    fn decode_row(cols: &Columns, row: &Vec<String>) -> (res: Option<StopTime>) {
        proof {
            let rv = row.deep_view();
            lemma_cell_at(cols, rv, 0);
            lemma_cell_at(cols, rv, 1);
            lemma_cell_at(cols, rv, 2);
            assert(header_accepts(cols.header@, cols.known@, rv.len()) <==> (cols.unique && rv.len() >= cols.min_len));
        }
        if !(cols.unique && row.len() >= cols.min_len) {
            return None;
        }
        let trip_id = read_text(row, cols.positions[0]);
        let departure_time = read_time(row, cols.positions[1]);
        let stop_id = read_text(row, cols.positions[2]);
        match (trip_id, departure_time, stop_id) {
            (Some(trip_id), Some(departure_time), Some(stop_id)) => Some(StopTime { trip_id, departure_time, stop_id }),
            _ => None,
        }
    }
}

// ── trips ──

pub open spec fn trip_row(h: Seq<Seq<char>>, row: Seq<Seq<char>>) -> Option<TripView> {
    let service = cell(h, row, "service_id"@);
    let route = cell(h, row, "route_id"@);
    let trip = cell(h, row, "trip_id"@);
    if header_accepts(h, Trip::fields(), row.len()) && service is Some && route is Some
        && trip is Some {
        Some(
            TripView {
                service_id: service->0,
                route_id: route->0,
                trip_id: trip->0,
                trip_headsign: optional_text(cell(h, row, "trip_headsign"@)),
            },
        )
    } else {
        None
    }
}

impl Record for Trip {
    open spec fn fields() -> Seq<Seq<char>> {
        seq!["service_id"@, "route_id"@, "trip_id"@, "trip_headsign"@]
    }

    open spec fn from_row(header: Seq<Seq<char>>, row: Seq<Seq<char>>) -> Option<TripView> {
        trip_row(header, row)
    }

    fn field_names() -> (r: Vec<Vec<char>>) {
        let r = vec![chars_of("service_id"), chars_of("route_id"), chars_of("trip_id"), chars_of("trip_headsign")];
        assert(r.deep_view() =~= Self::fields()) by {
            assert(r@[0].deep_view() =~= r@[0]@);
            assert(r@[1].deep_view() =~= r@[1]@);
            assert(r@[2].deep_view() =~= r@[2]@);
            assert(r@[3].deep_view() =~= r@[3]@);
        }
        r
    }

    fn decode_row(cols: &Columns, row: &Vec<String>) -> (res: Option<Trip>) {
        proof {
            let rv = row.deep_view();
            lemma_cell_at(cols, rv, 0);
            lemma_cell_at(cols, rv, 1);
            lemma_cell_at(cols, rv, 2);
            lemma_cell_at(cols, rv, 3);
            assert(header_accepts(cols.header@, cols.known@, rv.len()) <==> (cols.unique && rv.len() >= cols.min_len));
        }
        if !(cols.unique && row.len() >= cols.min_len) {
            return None;
        }
        let service_id = read_text(row, cols.positions[0]);
        let route_id = read_text(row, cols.positions[1]);
        let trip_id = read_text(row, cols.positions[2]);
        let trip_headsign = read_optional_text(row, cols.positions[3]);
        match (service_id, route_id, trip_id) {
            (Some(service_id), Some(route_id), Some(trip_id)) => Some(Trip { service_id, route_id, trip_id, trip_headsign }),
            _ => None,
        }
    }
}

// ── routes ──

pub open spec fn route_row(h: Seq<Seq<char>>, row: Seq<Seq<char>>) -> Option<RouteView> {
    let id = cell(h, row, "route_id"@);
    let rt = optional_uint(cell(h, row, "route_type"@), 65535);
    if header_accepts(h, Route::fields(), row.len()) && id is Some && rt is Some {
        Some(
            RouteView {
                route_id: id->0,
                route_short_name: optional_text(cell(h, row, "route_short_name"@)),
                route_long_name: optional_text(cell(h, row, "route_long_name"@)),
                route_type: match rt->0 {
                    Some(n) => Some(n as u16),
                    None => None,
                },
            },
        )
    } else {
        None
    }
}

impl Record for Route {
    open spec fn fields() -> Seq<Seq<char>> {
        seq!["route_id"@, "route_short_name"@, "route_long_name"@, "route_type"@]
    }

    open spec fn from_row(header: Seq<Seq<char>>, row: Seq<Seq<char>>) -> Option<RouteView> {
        route_row(header, row)
    }

    fn field_names() -> (r: Vec<Vec<char>>) {
        let r = vec![chars_of("route_id"), chars_of("route_short_name"), chars_of("route_long_name"), chars_of("route_type")];
        assert(r.deep_view() =~= Self::fields()) by {
            assert(r@[0].deep_view() =~= r@[0]@);
            assert(r@[1].deep_view() =~= r@[1]@);
            assert(r@[2].deep_view() =~= r@[2]@);
            assert(r@[3].deep_view() =~= r@[3]@);
        }
        r
    }

    fn decode_row(cols: &Columns, row: &Vec<String>) -> (res: Option<Route>) {
        proof {
            let rv = row.deep_view();
            lemma_cell_at(cols, rv, 0);
            lemma_cell_at(cols, rv, 1);
            lemma_cell_at(cols, rv, 2);
            lemma_cell_at(cols, rv, 3);
            assert(header_accepts(cols.header@, cols.known@, rv.len()) <==> (cols.unique && rv.len() >= cols.min_len));
        }
        if !(cols.unique && row.len() >= cols.min_len) {
            return None;
        }
        let route_id = read_text(row, cols.positions[0]);
        let route_short_name = read_optional_text(row, cols.positions[1]);
        let route_long_name = read_optional_text(row, cols.positions[2]);
        let route_type = read_optional_uint(row, cols.positions[3], 65535);
        match (route_id, route_type) {
            (Some(route_id), Some(rt)) => {
                let route_type: Option<u16> = match rt {
                    Some(n) => Some(n as u16),
                    None => None,
                };
                Some(Route { route_id, route_short_name, route_long_name, route_type })
            },
            _ => None,
        }
    }
}

// ── calendars ──

pub open spec fn calendar_row(h: Seq<Seq<char>>, row: Seq<Seq<char>>) -> Option<CalendarView> {
    let service = cell(h, row, "service_id"@);
    let mo = flag_value(cell(h, row, "monday"@));
    let tu = flag_value(cell(h, row, "tuesday"@));
    let we = flag_value(cell(h, row, "wednesday"@));
    let th = flag_value(cell(h, row, "thursday"@));
    let fr = flag_value(cell(h, row, "friday"@));
    let sa = flag_value(cell(h, row, "saturday"@));
    let su = flag_value(cell(h, row, "sunday"@));
    let start = cell(h, row, "start_date"@);
    let end = cell(h, row, "end_date"@);
    if header_accepts(h, Calendar::fields(), row.len()) && service is Some && mo is Some
        && tu is Some && we is Some && th is Some && fr is Some && sa is Some && su is Some
        && start is Some && end is Some {
        Some(
            CalendarView {
                service_id: service->0,
                monday: mo->0,
                tuesday: tu->0,
                wednesday: we->0,
                thursday: th->0,
                friday: fr->0,
                saturday: sa->0,
                sunday: su->0,
                start_date: start->0,
                end_date: end->0,
            },
        )
    } else {
        None
    }
}

impl Record for Calendar {
    open spec fn fields() -> Seq<Seq<char>> {
        seq![
            "service_id"@,
            "monday"@,
            "tuesday"@,
            "wednesday"@,
            "thursday"@,
            "friday"@,
            "saturday"@,
            "sunday"@,
            "start_date"@,
            "end_date"@,
        ]
    }

    open spec fn from_row(header: Seq<Seq<char>>, row: Seq<Seq<char>>) -> Option<CalendarView> {
        calendar_row(header, row)
    }

    fn field_names() -> (r: Vec<Vec<char>>) {
        let r = vec![
            chars_of("service_id"),
            chars_of("monday"),
            chars_of("tuesday"),
            chars_of("wednesday"),
            chars_of("thursday"),
            chars_of("friday"),
            chars_of("saturday"),
            chars_of("sunday"),
            chars_of("start_date"),
            chars_of("end_date"),
        ];
        assert(r.deep_view() =~= Self::fields()) by {
            assert(r@[0].deep_view() =~= r@[0]@);
            assert(r@[1].deep_view() =~= r@[1]@);
            assert(r@[2].deep_view() =~= r@[2]@);
            assert(r@[3].deep_view() =~= r@[3]@);
            assert(r@[4].deep_view() =~= r@[4]@);
            assert(r@[5].deep_view() =~= r@[5]@);
            assert(r@[6].deep_view() =~= r@[6]@);
            assert(r@[7].deep_view() =~= r@[7]@);
            assert(r@[8].deep_view() =~= r@[8]@);
            assert(r@[9].deep_view() =~= r@[9]@);
        }
        r
    }

    fn decode_row(cols: &Columns, row: &Vec<String>) -> (res: Option<Calendar>) {
        proof {
            let rv = row.deep_view();
            lemma_cell_at(cols, rv, 0);
            lemma_cell_at(cols, rv, 1);
            lemma_cell_at(cols, rv, 2);
            lemma_cell_at(cols, rv, 3);
            lemma_cell_at(cols, rv, 4);
            lemma_cell_at(cols, rv, 5);
            lemma_cell_at(cols, rv, 6);
            lemma_cell_at(cols, rv, 7);
            lemma_cell_at(cols, rv, 8);
            lemma_cell_at(cols, rv, 9);
            assert(header_accepts(cols.header@, cols.known@, rv.len()) <==> (cols.unique && rv.len() >= cols.min_len));
        }
        if !(cols.unique && row.len() >= cols.min_len) {
            return None;
        }
        let service_id = read_text(row, cols.positions[0]);
        let monday = read_flag(row, cols.positions[1]);
        let tuesday = read_flag(row, cols.positions[2]);
        let wednesday = read_flag(row, cols.positions[3]);
        let thursday = read_flag(row, cols.positions[4]);
        let friday = read_flag(row, cols.positions[5]);
        let saturday = read_flag(row, cols.positions[6]);
        let sunday = read_flag(row, cols.positions[7]);
        let start_date = read_text(row, cols.positions[8]);
        let end_date = read_text(row, cols.positions[9]);
        match (service_id, start_date, end_date) {
            (Some(service_id), Some(start_date), Some(end_date)) => {
                match (monday, tuesday, wednesday, thursday, friday, saturday, sunday) {
                    (Some(monday), Some(tuesday), Some(wednesday), Some(thursday), Some(friday), Some(saturday), Some(sunday)) => {
                        Some(Calendar {
                            service_id,
                            monday,
                            tuesday,
                            wednesday,
                            thursday,
                            friday,
                            saturday,
                            sunday,
                            start_date,
                            end_date,
                        })
                    },
                    _ => None,
                }
            },
            _ => None,
        }
    }
}

// ── calendar dates ──

/// The exception kind of a GTFS `exception_type` code.
pub open spec fn exception_of(code: nat) -> Option<ExceptionType> {
    if code == 1 {
        Some(ExceptionType::Added)
    } else if code == 2 {
        Some(ExceptionType::Removed)
    } else {
        None
    }
}

pub open spec fn calendar_date_row(h: Seq<Seq<char>>, row: Seq<Seq<char>>) -> Option<CalendarDateView> {
    let service = cell(h, row, "service_id"@);
    let date = cell(h, row, "date"@);
    let code = required_uint(cell(h, row, "exception_type"@), 255);
    if header_accepts(h, CalendarDate::fields(), row.len()) && service is Some && date is Some
        && code is Some && exception_of(code->0) is Some {
        Some(
            CalendarDateView {
                service_id: service->0,
                date: date->0,
                exception_type: exception_of(code->0)->0,
            },
        )
    } else {
        None
    }
}

impl Record for CalendarDate {
    open spec fn fields() -> Seq<Seq<char>> {
        seq!["service_id"@, "date"@, "exception_type"@]
    }

    open spec fn from_row(header: Seq<Seq<char>>, row: Seq<Seq<char>>) -> Option<CalendarDateView> {
        calendar_date_row(header, row)
    }

    fn field_names() -> (r: Vec<Vec<char>>) {
        let r = vec![chars_of("service_id"), chars_of("date"), chars_of("exception_type")];
        assert(r.deep_view() =~= Self::fields()) by {
            assert(r@[0].deep_view() =~= r@[0]@);
            assert(r@[1].deep_view() =~= r@[1]@);
            assert(r@[2].deep_view() =~= r@[2]@);
        }
        r
    }

    fn decode_row(cols: &Columns, row: &Vec<String>) -> (res: Option<CalendarDate>) {
        proof {
            let rv = row.deep_view();
            lemma_cell_at(cols, rv, 0);
            lemma_cell_at(cols, rv, 1);
            lemma_cell_at(cols, rv, 2);
            assert(header_accepts(cols.header@, cols.known@, rv.len()) <==> (cols.unique && rv.len() >= cols.min_len));
        }
        if !(cols.unique && row.len() >= cols.min_len) {
            return None;
        }
        let service_id = read_text(row, cols.positions[0]);
        let date = read_text(row, cols.positions[1]);
        let code = read_uint(row, cols.positions[2], 255);
        match (service_id, date, code) {
            (Some(service_id), Some(date), Some(code)) => {
                match ExceptionType::from_code(code as u8) {
                    Ok(exception_type) => Some(CalendarDate { service_id, date, exception_type }),
                    Err(_) => None,
                }
            },
            _ => None,
        }
    }
}

// ── agencies ──

pub open spec fn agency_row(h: Seq<Seq<char>>, row: Seq<Seq<char>>) -> Option<AgencyView> {
    let tz = cell(h, row, "agency_timezone"@);
    if header_accepts(h, Agency::fields(), row.len()) && tz is Some {
        Some(AgencyView { agency_timezone: tz->0 })
    } else {
        None
    }
}

impl Record for Agency {
    open spec fn fields() -> Seq<Seq<char>> {
        seq!["agency_timezone"@]
    }

    open spec fn from_row(header: Seq<Seq<char>>, row: Seq<Seq<char>>) -> Option<AgencyView> {
        agency_row(header, row)
    }

    fn field_names() -> (r: Vec<Vec<char>>) {
        let r = vec![chars_of("agency_timezone")];
        assert(r.deep_view() =~= Self::fields()) by {
            assert(r@[0].deep_view() =~= r@[0]@);
        }
        r
    }

    fn decode_row(cols: &Columns, row: &Vec<String>) -> (res: Option<Agency>) {
        proof {
            let rv = row.deep_view();
            lemma_cell_at(cols, rv, 0);
            assert(header_accepts(cols.header@, cols.known@, rv.len()) <==> (cols.unique && rv.len() >= cols.min_len));
        }
        if !(cols.unique && row.len() >= cols.min_len) {
            return None;
        }
        match read_text(row, cols.positions[0]) {
            Some(agency_timezone) => Some(Agency { agency_timezone }),
            None => None,
        }
    }
}

} // verus!
