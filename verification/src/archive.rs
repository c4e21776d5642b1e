//! A GTFS archive: a ZIP of CSV files, read one file per query.
use vstd::prelude::*;
use vstd::hash_set::StringHashSet;
use vstd::hash_map::StringHashMap;

use crate::calendar::{services_on, services_on_date};
use crate::model::{
    Agency, Calendar, CalendarDate, Route, RouteView, Stop, StopTime, StopTimeView,
    StopView, Trip, TripView,
};
use crate::query::{routes_by_id, trips_by_id, ScheduleView, StopSchedule};
use crate::records::{
    decode_table, first_invalid_row, lemma_first_invalid_row, read_header, record_views, records_of,
    Record,
};
use crate::select::{keep, str_set, string_set_of};
use crate::stops::{
    ascii_matching_stops, clone_stops, expand_family, filter_stops_by_name,
    lemma_empty_query_matches_all, lemma_platform_and_station_same_family,
    matching_stops, parent_key, station_family, stops_by_id, stops_with_ids,
};
use crate::table::{csv_error_from_io, csv_records, read_csv_table};
use crate::text::{ascii_lower, ascii_upper, is_ascii_chars, push_str, string_from_chars};
use crate::time::{date_key_text, weekday_number, weekday_from_number, CivilDate};
use crate::zipfile::{
    entry_of, zip_archive_entries, zip_central_directory, zip_has_entry, zip_open, zip_read_entry,
};

verus! {

// ───────────────────────────── errors ─────────────────────────────

/// What made a file unreadable as records.
#[derive(Debug)]
pub enum CsvCause {
    /// The `csv` crate's error: the file could not be read to the end, or
    /// its text is not CSV.
    Read(csv::Error),
    /// The data row at this index (0 for the first row after the header)
    /// is not a valid record.
    InvalidRow { row: usize },
}

/// Why reading a GTFS archive failed, with the underlying cause.
#[derive(Debug)]
pub enum GtfsError {
    /// The data is not a ZIP archive that can be opened.
    Open { path: String, source: zip::result::ZipError },
    /// A file that every GTFS feed must hold is absent.
    MissingFile { name: &'static str },
    /// A file of the archive cannot be opened.
    ReadEntry { name: &'static str, source: zip::result::ZipError },
    /// A file cannot be read to the end, is not valid CSV, or holds a row
    /// that is not a valid record.
    Csv { file: &'static str, source: CsvCause },
}

pub enum GtfsErrorView {
    Open { path: Seq<char> },
    MissingFile { name: Seq<char> },
    ReadEntry { name: Seq<char> },
    /// `row`: the index of the first data row that is not a valid record,
    /// when that is what failed.
    Csv { file: Seq<char>, row: Option<int> },
}

impl View for GtfsError {
    type V = GtfsErrorView;

    open spec fn view(&self) -> GtfsErrorView {
        match self {
            GtfsError::Open { path, .. } => GtfsErrorView::Open { path: path@ },
            GtfsError::MissingFile { name } => GtfsErrorView::MissingFile { name: name@ },
            GtfsError::ReadEntry { name, .. } => GtfsErrorView::ReadEntry { name: name@ },
            GtfsError::Csv { file, source } => GtfsErrorView::Csv {
                file: file@,
                row: match source {
                    CsvCause::Read(_) => None,
                    CsvCause::InvalidRow { row } => Some(*row as int),
                },
            },
        }
    }
}

/// The message of an error.
pub open spec fn error_text(e: GtfsErrorView) -> Seq<char> {
    match e {
        GtfsErrorView::Open { path } => "failed to open archive at "@ + path,
        GtfsErrorView::MissingFile { name } => "missing required file \""@ + name
            + "\" in archive"@,
        GtfsErrorView::ReadEntry { name } => "failed to read entry \""@ + name
            + "\" from archive"@,
        GtfsErrorView::Csv { file, .. } => "failed to parse CSV in \""@ + file + "\""@,
    }
}

impl GtfsError {
    /// The error message (see `error_text`).
    pub fn to_string(&self) -> (res: String)
        ensures
            res@ == error_text(self@),
    {
        let mut out: Vec<char> = Vec::new();
        match self {
            GtfsError::Open { path, .. } => {
                push_str(&mut out, "failed to open archive at ");
                push_str(&mut out, path.as_str());
            },
            GtfsError::MissingFile { name } => {
                push_str(&mut out, "missing required file \"");
                push_str(&mut out, name);
                push_str(&mut out, "\" in archive");
            },
            GtfsError::ReadEntry { name, .. } => {
                push_str(&mut out, "failed to read entry \"");
                push_str(&mut out, name);
                push_str(&mut out, "\" from archive");
            },
            GtfsError::Csv { file, .. } => {
                push_str(&mut out, "failed to parse CSV in \"");
                push_str(&mut out, file);
                push_str(&mut out, "\"");
            },
        }
        string_from_chars(out.as_slice())
    }
}

// ───────────────────────────── reading files ─────────────────────────────

/// What a file of the archive holds, read as records of one type.
pub enum FileState<V> {
    /// There is no such file.
    Absent,
    /// The file cannot be opened.
    Unreadable,
    /// The file cannot be read to the end, or is not CSV.
    Malformed,
    /// The data row at this index is the first that is not a record of the
    /// type.
    InvalidRow(int),
    Records(Seq<V>),
}

/// The state of file `name` among an archive's entries, read as records of
/// type `R`.
pub open spec fn entries_file_state<R: Record>(entries: Map<Seq<char>, Option<Option<Seq<u8>>>>, name: Seq<char>) -> FileState<R::V> {
    if !entries.contains_key(name) {
        FileState::Absent
    } else {
        match entries[name] {
            None => FileState::Unreadable,
            Some(None) => FileState::Malformed,
            Some(Some(bytes)) => match csv_records(bytes) {
                None => FileState::Malformed,
                Some((h, rows)) => match records_of::<R>(read_header::<R>(h), rows) {
                    None => FileState::InvalidRow(first_invalid_row::<R>(read_header::<R>(h), rows)),
                    Some(v) => FileState::Records(v),
                },
            },
        }
    }
}

/// The state of file `name` of the archive `data`, read as records of `R`.
pub open spec fn file_state<R: Record>(data: Seq<u8>, name: Seq<char>) -> FileState<R::V> {
    match zip_central_directory(data) {
        Some(dir) => entries_file_state::<R>(dir, name),
        None => FileState::Absent,
    }
}

/// Reads entry `name` of an open archive as records of type `R`
/// (`Ok(None)` when absent).
pub fn read_entry_records<R: Record>(archive: &mut zip::ZipArchive<std::io::Cursor<Vec<u8>>>, name: &'static str) -> (res: Result<Option<Vec<R>>, GtfsError>)
    ensures
        zip_archive_entries(*final(archive)) == zip_archive_entries(*old(archive)),
        agrees_optional(res, optional_records(entries_file_state::<R>(zip_archive_entries(*old(archive)), name@), name@)),
{
    let bytes = match zip_read_entry(archive, name) {
        Ok(Some(Ok(b))) => b,
        Ok(Some(Err(e))) => {
            return Err(GtfsError::Csv { file: name, source: CsvCause::Read(csv_error_from_io(e)) });
        },
        Ok(None) => {
            return Ok(None);
        },
        Err(e) => {
            return Err(GtfsError::ReadEntry { name, source: e });
        },
    };
    let table = match read_csv_table(bytes.as_slice()) {
        Ok(t) => t,
        Err(e) => {
            return Err(GtfsError::Csv { file: name, source: CsvCause::Read(e) });
        },
    };
    match decode_table::<R>(&table) {
        Ok(v) => Ok(Some(v)),
        Err(row) => {
            proof {
                lemma_first_invalid_row::<R>(read_header::<R>(table.header.deep_view()), table.rows.deep_view(), row as int);
            }
            Err(GtfsError::Csv { file: name, source: CsvCause::InvalidRow { row } })
        },
    }
}

/// Reading a file that must be present: its records, or the error.
pub open spec fn required_records<V>(st: FileState<V>, name: Seq<char>) -> Result<Seq<V>, GtfsErrorView> {
    match st {
        FileState::Records(v) => Ok(v),
        FileState::Malformed => Err(GtfsErrorView::Csv { file: name, row: None }),
        FileState::InvalidRow(i) => Err(GtfsErrorView::Csv { file: name, row: Some(i) }),
        _ => Err(GtfsErrorView::ReadEntry { name }),
    }
}

/// Reading a file that may be absent.
pub open spec fn optional_records<V>(st: FileState<V>, name: Seq<char>) -> Result<Option<Seq<V>>, GtfsErrorView> {
    match st {
        FileState::Absent => Ok(None),
        FileState::Unreadable => Err(GtfsErrorView::ReadEntry { name }),
        FileState::Malformed => Err(GtfsErrorView::Csv { file: name, row: None }),
        FileState::InvalidRow(i) => Err(GtfsErrorView::Csv { file: name, row: Some(i) }),
        FileState::Records(v) => Ok(Some(v)),
    }
}

/// Reading a file that may be absent gives `None` when it is absent, and
/// otherwise exactly what reading it as a required file gives.
pub proof fn lemma_optional_read<V>(st: FileState<V>, name: Seq<char>)
    ensures
        st is Absent ==> optional_records(st, name) == Ok::<Option<Seq<V>>, GtfsErrorView>(None),
        !(st is Absent) ==> optional_records(st, name) == match required_records(st, name) {
            Ok(v) => Ok::<Option<Seq<V>>, GtfsErrorView>(Some(v)),
            Err(e) => Err(e),
        },
{
}

/// The view of a result's error.
pub open spec fn err_view<T>(r: Result<T, GtfsError>) -> GtfsErrorView
    recommends
        r is Err,
{
    match r {
        Err(e) => e@,
        Ok(_) => GtfsErrorView::Open { path: seq![] },
    }
}

/// The files every GTFS archive must hold.
pub open spec fn required_files() -> Seq<Seq<char>> {
    seq!["stops.txt"@, "stop_times.txt"@, "trips.txt"@, "routes.txt"@]
}

/// The archive opens and holds every required file.
pub open spec fn is_gtfs_archive(data: Seq<u8>) -> bool {
    &&& zip_central_directory(data) is Some
    &&& forall|k: int| 0 <= k < required_files().len() ==> #[trigger] entry_of(data, required_files()[k]) is Some
}

/// The first required file that `data` lacks.
pub open spec fn first_missing(data: Seq<u8>, k: int) -> Option<Seq<char>>
    decreases 4 - k,
{
    if k >= 4 || k < 0 {
        None
    } else if entry_of(data, required_files()[k]) is None {
        Some(required_files()[k])
    } else {
        first_missing(data, k + 1)
    }
}

/// Handle to a GTFS ZIP archive, kept as its bytes.
///
/// Each query reads only the file it needs.
pub struct GtfsArchive {
    data: Vec<u8>,
}

impl View for GtfsArchive {
    type V = Seq<u8>;

    closed spec fn view(&self) -> Seq<u8> {
        self.data@
    }
}

impl GtfsArchive {
    #[verifier::type_invariant]
    spec fn inv(self) -> bool {
        is_gtfs_archive(self.data@)
    }

    /// Opens a GTFS archive held in memory, validating that the required
    /// files exist.
    ///
    /// # Errors
    /// `Open` (path `<in-memory>`) when the bytes are not a ZIP archive,
    /// `MissingFile` for the first absent one of `stops.txt`,
    /// `stop_times.txt`, `trips.txt`, `routes.txt`.
    pub fn from_bytes(data: Vec<u8>) -> (res: Result<GtfsArchive, GtfsError>)
        ensures
            zip_central_directory(data@) is None <==> (res matches Err(e) && e@ == GtfsErrorView::Open { path: "<in-memory>"@ }),
            zip_central_directory(data@) is Some ==> match first_missing(data@, 0) {
                Some(name) => res matches Err(e) && e@ == GtfsErrorView::MissingFile { name },
                None => res matches Ok(a) && a@ == data@,
            },
            res is Ok <==> is_gtfs_archive(data@),
    {
        let ghost d = data@;
        let copy = vstd::slice::slice_to_vec(data.as_slice());
        let archive = match zip_open(copy) {
            Ok(a) => a,
            Err(e) => {
                return Err(GtfsError::Open { path: String::from_str("<in-memory>"), source: e });
            },
        };
        let ghost dir = zip_central_directory(d)->0;
        let names: [&'static str; 4] = ["stops.txt", "stop_times.txt", "trips.txt", "routes.txt"];
        assert(names@.map_values(|s: &str| s@) =~= required_files());
        let mut k: usize = 0;
        while k < 4
            invariant
                k <= 4,
                d == data@,
                names@.map_values(|s: &str| s@) == required_files(),
                zip_central_directory(d) == Some(zip_archive_entries(archive)),
                forall|j: int| 0 <= j < k ==> #[trigger] entry_of(d, required_files()[j]) is Some,
                first_missing(d, 0) == first_missing(d, k as int),
            decreases 4 - k,
        {
            let name = names[k];
            assert(name@ == required_files()[k as int]);
            if !zip_has_entry(&archive, name) {
                assert(entry_of(d, required_files()[k as int]) is None);
                return Err(GtfsError::MissingFile { name });
            }
            assert(entry_of(d, required_files()[k as int]) is Some);
            k = k + 1;
        }
        Ok(GtfsArchive { data })
    }

    /// Reads file `name` as records of type `R`: `Ok(None)` when it is
    /// absent, otherwise what `read_required` gives, wrapped in `Some`.
    fn read_file<R: Record>(&self, name: &'static str) -> (res: Result<Option<Vec<R>>, GtfsError>)
        ensures
            agrees_optional(res, optional_records(file_state::<R>(self@, name@), name@)),
            file_state::<R>(self@, name@) is Absent ==> res matches Ok(None),
            !(file_state::<R>(self@, name@) is Absent) ==> match required_records(file_state::<R>(self@, name@), name@) {
                Ok(v) => res matches Ok(Some(x)) && record_views(x@) == v,
                Err(e) => res matches Err(x) && x@ == e,
            },
    {
        proof {
            lemma_optional_read(file_state::<R>(self@, name@), name@);
        }
        proof { use_type_invariant(self); }
        let copy = vstd::slice::slice_to_vec(self.data.as_slice());
        let mut archive = match zip_open(copy) {
            Ok(a) => a,
            Err(e) => {
                return Err(GtfsError::Open { path: String::from_str("<in-memory>"), source: e });
            },
        };
        read_entry_records::<R>(&mut archive, name)
    }

    /// Reads a file that every archive holds.
    fn read_required<R: Record>(&self, name: &'static str) -> (res: Result<Vec<R>, GtfsError>)
        requires
            name@ == "stops.txt"@ || name@ == "stop_times.txt"@ || name@ == "trips.txt"@
                || name@ == "routes.txt"@,
        ensures
            agrees(res, required_records(file_state::<R>(self@, name@), name@)),
    {
        proof {
            use_type_invariant(self);
            assert(entry_of(self@, required_files()[0]) is Some);
            assert(entry_of(self@, required_files()[1]) is Some);
            assert(entry_of(self@, required_files()[2]) is Some);
            assert(entry_of(self@, required_files()[3]) is Some);
            assert(!(file_state::<R>(self@, name@) is Absent));
        }
        match self.read_file::<R>(name) {
            Ok(Some(v)) => Ok(v),
            Ok(None) => Err(GtfsError::MissingFile { name }),
            Err(e) => Err(e),
        }
    }

    /// List all stops in the archive.
    ///
    /// # Errors
    /// `ReadEntry` when `stops.txt` cannot be opened, `Csv` when it cannot
    /// be read to the end, is not valid CSV or holds an invalid row.
    pub fn stops(&self) -> (res: Result<Vec<Stop>, GtfsError>)
        ensures
            agrees(res, required_records(file_state::<Stop>(self@, "stops.txt"@), "stops.txt"@)),
    {
        self.read_required::<Stop>("stops.txt")
    }

    /// Search stops by name (case-insensitive substring match): the empty
    /// query finds every stop, and a query finds the same stops as its ASCII
    /// uppercase and its ASCII lowercase.
    ///
    /// # Errors
    /// As `stops`.
    pub fn find_stops(&self, query: &str) -> (res: Result<Vec<Stop>, GtfsError>)
        ensures
            agrees(res, match required_records(file_state::<Stop>(self@, "stops.txt"@), "stops.txt"@) {
                Ok(v) => Ok(matching_stops(v, query@)),
                Err(e) => Err(e),
            }),
            is_ascii_chars(query@) ==> agrees(res, match required_records(file_state::<Stop>(self@, "stops.txt"@), "stops.txt"@) {
                Ok(v) => Ok(ascii_matching_stops(v, query@)),
                Err(e) => Err(e),
            }),
            query@.len() == 0 ==> agrees(res, required_records(file_state::<Stop>(self@, "stops.txt"@), "stops.txt"@)),
            agrees(res, match required_records(file_state::<Stop>(self@, "stops.txt"@), "stops.txt"@) {
                Ok(v) => Ok(matching_stops(v, ascii_upper(query@))),
                Err(e) => Err(e),
            }),
            agrees(res, match required_records(file_state::<Stop>(self@, "stops.txt"@), "stops.txt"@) {
                Ok(v) => Ok(matching_stops(v, ascii_lower(query@))),
                Err(e) => Err(e),
            }),
    {
        let all = self.read_required::<Stop>("stops.txt")?;
        let found = filter_stops_by_name(&all, query, None);
        proof {
            lemma_empty_query_matches_all(record_views(all@));
            if query@.len() == 0 {
                assert(query@ =~= seq![]);
            }
        }
        Ok(clone_stops(&found))
    }

    /// Fetch the [`Stop`] records for a given set of stop IDs, keyed by id.
    ///
    /// # Errors
    /// As `stops`.
    pub fn stops_by_ids(&self, ids: &StringHashSet) -> (res: Result<StringHashMap<Stop>, GtfsError>)
        ensures
            match required_records(file_state::<Stop>(self@, "stops.txt"@), "stops.txt"@) {
                Ok(v) => res matches Ok(m) && m@.map_values(|s: Stop| s@) == stops_by_id(
                    keep(v, |s: StopView| ids@.contains(s.stop_id)),
                ),
                Err(e) => res matches Err(x) && x@ == e,
            },
    {
        let all = self.read_required::<Stop>("stops.txt")?;
        Ok(stops_with_ids(&all, ids))
    }

    /// Expand a set of stop IDs to include their full station family: the
    /// selected stops, their parent stations, and all children of either
    /// (see `station_family`).
    ///
    /// # Errors
    /// As `stops`.
    pub fn expand_stop_ids(&self, stop_ids: &StringHashSet) -> (res: Result<StringHashSet, GtfsError>)
        ensures
            match required_records(file_state::<Stop>(self@, "stops.txt"@), "stops.txt"@) {
                Ok(v) => res matches Ok(s) && s@ == station_family(stop_ids@, v),
                Err(e) => res matches Err(x) && x@ == e,
            },
    {
        let all = self.read_required::<Stop>("stops.txt")?;
        Ok(expand_family(stop_ids, &all))
    }

    /// Read the IANA timezone name from `agency.txt` (its first agency),
    /// returning `None` if the file is absent or lists no agency.
    ///
    /// # Errors
    /// `ReadEntry` or `Csv` for an unreadable or malformed `agency.txt`.
    pub fn agency_timezone(&self) -> (res: Result<Option<String>, GtfsError>)
        ensures
            match optional_records(file_state::<Agency>(self@, "agency.txt"@), "agency.txt"@) {
                Ok(None) => res matches Ok(None),
                Ok(Some(v)) => res matches Ok(tz) && tz.deep_view() == (if v.len() > 0 {
                    Some(v[0].agency_timezone)
                } else {
                    None
                }),
                Err(e) => res matches Err(x) && x@ == e,
            },
    {
        match self.read_file::<Agency>("agency.txt")? {
            Some(v) => {
                if v.len() > 0 {
                    Ok(Some(v[0].agency_timezone.clone()))
                } else {
                    Ok(None)
                }
            },
            None => Ok(None),
        }
    }

    /// Return the set of `service_id`s active on `date`, or `None` if the
    /// archive holds neither `calendar.txt` nor `calendar_dates.txt` (in
    /// which case callers should treat all services as active).
    ///
    /// Applies both `calendar.txt` (regular schedule) and
    /// `calendar_dates.txt` (exceptions); see `services_on`.
    ///
    /// # Errors
    /// `ReadEntry` or `Csv` for an unreadable or malformed calendar file
    /// (`calendar.txt` is read first).
    pub fn active_service_ids(&self, date: &CivilDate) -> (res: Result<Option<StringHashSet>, GtfsError>)
        ensures
            ({
                let cal = optional_records(file_state::<Calendar>(self@, "calendar.txt"@), "calendar.txt"@);
                let exc = optional_records(file_state::<CalendarDate>(self@, "calendar_dates.txt"@), "calendar_dates.txt"@);
                let key = date_key_text(date@.0, date@.1, date@.2);
                let wd = weekday_from_number(weekday_number(date@.0, date@.1, date@.2));
                match (cal, exc) {
                    (Err(e), _) => res matches Err(x) && x@ == e,
                    (Ok(_), Err(e)) => res matches Err(x) && x@ == e,
                    (Ok(None), Ok(None)) => res matches Ok(None),
                    (Ok(c), Ok(d)) => res matches Ok(Some(s)) && s@ == services_on(
                        match c { Some(v) => v, None => seq![] },
                        match d { Some(v) => v, None => seq![] },
                        key,
                        wd,
                    ),
                }
            }),
    {
        let key = date.date_key();
        let weekday = date.weekday();
        let calendars = self.read_file::<Calendar>("calendar.txt")?;
        let exceptions = self.read_file::<CalendarDate>("calendar_dates.txt")?;
        if calendars.is_none() && exceptions.is_none() {
            return Ok(None);
        }
        let cals: Vec<Calendar> = match calendars {
            Some(v) => v,
            None => Vec::new(),
        };
        let cds: Vec<CalendarDate> = match exceptions {
            Some(v) => v,
            None => Vec::new(),
        };
        proof {
            if calendars is None {
                assert(record_views(cals@) =~= seq![]);
            }
            if exceptions is None {
                assert(record_views(cds@) =~= seq![]);
            }
        }
        Ok(Some(services_on_date(&cals, &cds, &key, weekday)))
    }
}

// ───────────────────────────── schedules ─────────────────────────────

/// The trip ids of some stop times.
pub open spec fn trip_id_set(sts: Seq<StopTimeView>) -> Set<Seq<char>>
    decreases sts.len(),
{
    if sts.len() == 0 {
        Set::empty()
    } else {
        trip_id_set(sts.drop_last()).insert(sts.last().trip_id)
    }
}

/// The route ids of some trips.
pub open spec fn route_id_set(trips: Seq<TripView>) -> Set<Seq<char>>
    decreases trips.len(),
{
    if trips.len() == 0 {
        Set::empty()
    } else {
        route_id_set(trips.drop_last()).insert(trips.last().route_id)
    }
}

/// The trip's service is active (every service is, without a calendar).
pub open spec fn service_ok(active: Option<Set<Seq<char>>>, t: TripView) -> bool {
    match active {
        Some(s) => s.contains(t.service_id),
        None => true,
    }
}

/// The stop times at the given stops.
pub open spec fn stop_times_at(sts: Seq<StopTimeView>, ids: Set<Seq<char>>) -> Seq<StopTimeView> {
    keep(sts, |st: StopTimeView| ids.contains(st.stop_id))
}

/// The trips among `tids` whose service is active.
pub open spec fn trips_serving(trips: Seq<TripView>, tids: Set<Seq<char>>, active: Option<Set<Seq<char>>>) -> Seq<TripView> {
    keep(trips, |t: TripView| tids.contains(t.trip_id) && service_ok(active, t))
}

/// The routes among `rids`.
pub open spec fn routes_among(routes: Seq<RouteView>, rids: Set<Seq<char>>) -> Seq<RouteView> {
    keep(routes, |r: RouteView| rids.contains(r.route_id))
}

/// The schedule for the stops `ids`: their stop times, the active trips of
/// those stop times, and the routes of those trips.
pub open spec fn selected_schedule(
    sts: Seq<StopTimeView>,
    trips: Seq<TripView>,
    routes: Seq<RouteView>,
    ids: Set<Seq<char>>,
    active: Option<Set<Seq<char>>>,
) -> ScheduleView {
    let st = stop_times_at(sts, ids);
    let tr = trips_serving(trips, trip_id_set(st), active);
    let ro = routes_among(routes, route_id_set(tr));
    ScheduleView { stop_times: st, trips: trips_by_id(tr), routes: routes_by_id(ro) }
}

pub open spec fn set_view(s: Option<&StringHashSet>) -> Option<Set<Seq<char>>> {
    match s {
        Some(x) => Some(x@),
        None => None,
    }
}

fn select_stop_times(all: &Vec<StopTime>, ids: &StringHashSet) -> (res: (Vec<StopTime>, StringHashSet))
    ensures
        record_views(res.0@) == stop_times_at(record_views(all@), ids@),
        res.1@ == trip_id_set(record_views(res.0@)),
{
    let ghost sv = record_views(all@);
    let ghost pred = |st: StopTimeView| ids@.contains(st.stop_id);
    let mut kept: Vec<StopTime> = Vec::new();
    let mut tids = StringHashSet::new();
    let mut i: usize = 0;
    assert(sv.take(0) =~= seq![]);
    assert(record_views(kept@) =~= seq![]);
    while i < all.len()
        invariant
            i <= all@.len(),
            sv == record_views(all@),
            pred == (|st: StopTimeView| ids@.contains(st.stop_id)),
            record_views(kept@) == keep(sv.take(i as int), pred),
            tids@ == trip_id_set(record_views(kept@)),
        decreases all@.len() - i,
    {
        let st = &all[i];
        assert(sv.take(i + 1).drop_last() =~= sv.take(i as int));
        assert(sv.take(i + 1).last() == st@);
        assert(pred(st@) == ids@.contains(st@.stop_id));
        if ids.contains(st.stop_id.as_str()) {
            let ghost before = kept@;
            kept.push(st.clone());
            tids.insert(st.trip_id.clone());
            assert(record_views(kept@) =~= record_views(before).push(st@));
            assert(record_views(kept@).drop_last() =~= record_views(before));
        }
        i = i + 1;
    }
    assert(sv.take(all@.len() as int) =~= sv);
    (kept, tids)
}

fn select_trips(all: &Vec<Trip>, tids: &StringHashSet, active: Option<&StringHashSet>) -> (res: (Vec<Trip>, StringHashSet))
    ensures
        record_views(res.0@) == trips_serving(record_views(all@), tids@, set_view(active)),
        res.1@ == route_id_set(record_views(res.0@)),
{
    let ghost sv = record_views(all@);
    let ghost pred = |t: TripView| tids@.contains(t.trip_id) && service_ok(set_view(active), t);
    let mut kept: Vec<Trip> = Vec::new();
    let mut rids = StringHashSet::new();
    let mut i: usize = 0;
    assert(sv.take(0) =~= seq![]);
    assert(record_views(kept@) =~= seq![]);
    while i < all.len()
        invariant
            i <= all@.len(),
            sv == record_views(all@),
            pred == (|t: TripView| tids@.contains(t.trip_id) && service_ok(set_view(active), t)),
            record_views(kept@) == keep(sv.take(i as int), pred),
            rids@ == route_id_set(record_views(kept@)),
        decreases all@.len() - i,
    {
        let t = &all[i];
        assert(sv.take(i + 1).drop_last() =~= sv.take(i as int));
        assert(sv.take(i + 1).last() == t@);
        assert(pred(t@) == (tids@.contains(t@.trip_id) && service_ok(set_view(active), t@)));
        let ok = match active {
            Some(s) => s.contains(t.service_id.as_str()),
            None => true,
        };
        if tids.contains(t.trip_id.as_str()) && ok {
            let ghost before = kept@;
            kept.push(t.clone());
            rids.insert(t.route_id.clone());
            assert(record_views(kept@) =~= record_views(before).push(t@));
            assert(record_views(kept@).drop_last() =~= record_views(before));
        }
        i = i + 1;
    }
    assert(sv.take(all@.len() as int) =~= sv);
    (kept, rids)
}

fn select_routes(all: &Vec<Route>, rids: &StringHashSet) -> (res: Vec<Route>)
    ensures
        record_views(res@) == routes_among(record_views(all@), rids@),
{
    let ghost sv = record_views(all@);
    let ghost pred = |r: RouteView| rids@.contains(r.route_id);
    let mut kept: Vec<Route> = Vec::new();
    let mut i: usize = 0;
    assert(sv.take(0) =~= seq![]);
    assert(record_views(kept@) =~= seq![]);
    while i < all.len()
        invariant
            i <= all@.len(),
            sv == record_views(all@),
            pred == (|r: RouteView| rids@.contains(r.route_id)),
            record_views(kept@) == keep(sv.take(i as int), pred),
        decreases all@.len() - i,
    {
        let r = &all[i];
        assert(sv.take(i + 1).drop_last() =~= sv.take(i as int));
        assert(sv.take(i + 1).last() == r@);
        assert(pred(r@) == rids@.contains(r@.route_id));
        if rids.contains(r.route_id.as_str()) {
            let ghost before = kept@;
            kept.push(r.clone());
            assert(record_views(kept@) =~= record_views(before).push(r@));
        }
        i = i + 1;
    }
    assert(sv.take(all@.len() as int) =~= sv);
    kept
}

/// The schedule of the stops `ids` read from the archive `data` (see
/// `selected_schedule`), or the error of the first of `stop_times.txt`,
/// `trips.txt`, `routes.txt` that cannot be read.
pub open spec fn archive_schedule(data: Seq<u8>, ids: Set<Seq<char>>, active: Option<Set<Seq<char>>>) -> Result<ScheduleView, GtfsErrorView> {
    match required_records(file_state::<StopTime>(data, "stop_times.txt"@), "stop_times.txt"@) {
        Err(e) => Err(e),
        Ok(sts) => match required_records(file_state::<Trip>(data, "trips.txt"@), "trips.txt"@) {
            Err(e) => Err(e),
            Ok(trips) => match required_records(file_state::<Route>(data, "routes.txt"@), "routes.txt"@) {
                Err(e) => Err(e),
                Ok(routes) => Ok(selected_schedule(sts, trips, routes, ids, active)),
            },
        },
    }
}

/// A schedule result agrees with the expected schedule or error.
pub open spec fn schedule_agrees(res: Result<StopSchedule, GtfsError>, expected: Result<ScheduleView, GtfsErrorView>) -> bool {
    match expected {
        Ok(v) => res matches Ok(s) && s@ == v,
        Err(e) => res matches Err(x) && x@ == e,
    }
}

/// The schedule of a station family, with the family's stops by id.
pub struct StationSchedule {
    pub schedule: StopSchedule,
    pub stops: StringHashMap<Stop>,
}

/// The schedule of the station family of `ids` in the archive `data` and
/// the family's stops by id, or the first error reading `stops.txt`,
/// `stop_times.txt`, `trips.txt`, `routes.txt`.
pub open spec fn station_view(data: Seq<u8>, ids: Set<Seq<char>>, active: Option<Set<Seq<char>>>) -> Result<(ScheduleView, Map<Seq<char>, StopView>), GtfsErrorView> {
    match required_records(file_state::<Stop>(data, "stops.txt"@), "stops.txt"@) {
        Err(e) => Err(e),
        Ok(sv) => {
            let fam = station_family(ids, sv);
            match archive_schedule(data, fam, active) {
                Err(e) => Err(e),
                Ok(v) => Ok((v, stops_by_id(keep(sv, |s: StopView| fam.contains(s.stop_id))))),
            }
        },
    }
}

/// Asking for a platform or for its station gives the same schedule and
/// stops: when stop `c` of the archive's `stops.txt` (every record of which
/// names the non-empty station `p` as parent) has no children of its own,
/// and `p` has no parent station.
pub proof fn lemma_platform_or_station_same_schedule(data: Seq<u8>, c: Seq<char>, p: Seq<char>, active: Option<Set<Seq<char>>>)
    requires
        p.len() > 0,
        required_records(file_state::<Stop>(data, "stops.txt"@), "stops.txt"@) matches Ok(stops) && {
            &&& exists|i: int| 0 <= i < stops.len() && (#[trigger] stops[i]).stop_id == c
            &&& forall|i: int| 0 <= i < stops.len() && (#[trigger] stops[i]).stop_id == c ==> stops[i].parent_station == Some(p)
            &&& forall|i: int| 0 <= i < stops.len() && (#[trigger] stops[i]).stop_id == p ==> parent_key(stops[i]).len() == 0
            &&& forall|i: int| 0 <= i < stops.len() ==> parent_key(#[trigger] stops[i]) != c
        },
    ensures
        station_view(data, set![c], active) == station_view(data, set![p], active),
{
    let stops = required_records(file_state::<Stop>(data, "stops.txt"@), "stops.txt"@)->Ok_0;
    lemma_platform_and_station_same_family(stops, c, p);
}

impl GtfsArchive {
    fn schedule_for_id_set(&self, ids: &StringHashSet, active_services: Option<&StringHashSet>) -> (res: Result<StopSchedule, GtfsError>)
        ensures
            schedule_agrees(res, archive_schedule(self@, ids@, set_view(active_services))),
    {
        let all_stop_times = self.read_required::<StopTime>("stop_times.txt")?;
        let (stop_times, tids) = select_stop_times(&all_stop_times, ids);
        let all_trips = self.read_required::<Trip>("trips.txt")?;
        let (trips, rids) = select_trips(&all_trips, &tids, active_services);
        let all_routes = self.read_required::<Route>("routes.txt")?;
        let routes = select_routes(&all_routes, &rids);
        Ok(StopSchedule::new(stop_times, trips, routes))
    }

    /// Build a schedule for the given stops, optionally filtered to active
    /// service IDs: the stop times at those stops, the trips of those stop
    /// times whose service is active, and the routes of those trips (see
    /// `selected_schedule`).
    ///
    /// # Errors
    /// `ReadEntry` or `Csv` for `stop_times.txt`, `trips.txt` or
    /// `routes.txt`, read in that order.
    pub fn schedule_for_stops(&self, stop_ids: &[&str], active_services: Option<&StringHashSet>) -> (res: Result<StopSchedule, GtfsError>)
        ensures
            schedule_agrees(res, archive_schedule(self@, str_set(stop_ids@), set_view(active_services))),
    {
        let ids = string_set_of(stop_ids);
        self.schedule_for_id_set(&ids, active_services)
    }

    /// The schedule of the whole station family of the given stops (see
    /// `station_family`), so that selecting a platform or its station gives
    /// every departure of the station, with the family's stops by id (for
    /// their platforms).
    ///
    /// # Errors
    /// `ReadEntry` or `Csv` for `stops.txt`, then as `schedule_for_stops`.
    pub fn station_schedule(&self, stop_ids: &[&str], active_services: Option<&StringHashSet>) -> (res: Result<StationSchedule, GtfsError>)
        ensures
            match station_view(self@, str_set(stop_ids@), set_view(active_services)) {
                Err(e) => res matches Err(x) && x@ == e,
                Ok((v, m)) => res matches Ok(b) && b.schedule@ == v && b.stops@.map_values(|s: Stop| s@) == m,
            },
    {
        let ids = string_set_of(stop_ids);
        let all = self.read_required::<Stop>("stops.txt")?;
        let family = expand_family(&ids, &all);
        let schedule = self.schedule_for_id_set(&family, active_services)?;
        let stops = stops_with_ids(&all, &family);
        Ok(StationSchedule { schedule, stops })
    }
}

/// A result of records agrees with the expected records or error.
pub open spec fn agrees<T: View>(res: Result<Vec<T>, GtfsError>, expected: Result<Seq<T::V>, GtfsErrorView>) -> bool {
    match expected {
        Ok(v) => res matches Ok(x) && record_views(x@) == v,
        Err(e) => res matches Err(x) && x@ == e,
    }
}

/// A result of optional records agrees with the expected outcome.
pub open spec fn agrees_optional<T: View>(res: Result<Option<Vec<T>>, GtfsError>, expected: Result<Option<Seq<T::V>>, GtfsErrorView>) -> bool {
    match expected {
        Ok(None) => res matches Ok(None),
        Ok(Some(v)) => res matches Ok(Some(x)) && record_views(x@) == v,
        Err(e) => res matches Err(x) && x@ == e,
    }
}

} // verus!
