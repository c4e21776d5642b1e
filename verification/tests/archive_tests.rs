use std::io::{Cursor, Write};

use trainwreck::archive::{CsvCause, GtfsArchive, GtfsError};
use trainwreck::select::string_set_of;
use trainwreck::time::CivilDate;

const STOPS: &str = "stop_id,stop_name,parent_station,platform_code
8503000,Zürich HB,,
8503000:0:7,Zürich HB,8503000,7
8503000:0:8,Zürich HB,8503000,8
8507000,Bern,,
8507000:0:1,Bern,8507000,1
8500010,Basel SBB,,
";

const STOP_TIMES: &str = "trip_id,arrival_time,departure_time,stop_id,stop_sequence
T1,14:30:00,14:30:00,8503000:0:7,1
T2,08:15:00,08:15:00,8503000:0:8,1
T3,25:10:00,25:10:00,8503000:0:7,1
T4,09:00:00,09:00:00,8507000:0:1,1
T5,10:00:00,10:00:00,8503000:0:8,1
";

const TRIPS: &str = "route_id,service_id,trip_id,trip_headsign
R1,WK,T1,Genève-Aéroport
R2,WK,T2,Chur
R1,WE,T3,Genève-Aéroport
R1,WK,T4,Zürich HB
R3,WK,T5,
";

const ROUTES: &str = "route_id,agency_id,route_short_name,route_long_name,route_type
R1,SBB,IC 1,,2
R2,SBB,,InterRegio,103
R3,VBZ,,,3
";

const CALENDAR: &str = "service_id,monday,tuesday,wednesday,thursday,friday,saturday,sunday,start_date,end_date
WK,1,1,1,1,1,0,0,20240101,20241231
WE,0,0,0,0,0,1,1,20240101,20241231
";

const CALENDAR_DATES: &str = "service_id,date,exception_type
WK,20240229,2
WE,20240229,1
";

const AGENCY: &str = "agency_id,agency_name,agency_url,agency_timezone
SBB,SBB,https://www.sbb.ch,Europe/Zurich
";

fn zip_of(files: &[(&str, &str)]) -> Vec<u8> {
    let mut w = zip::ZipWriter::new(Cursor::new(Vec::new()));
    let opts = zip::write::SimpleFileOptions::default().compression_method(zip::CompressionMethod::Deflated);
    for (name, body) in files {
        w.start_file(*name, opts).unwrap();
        w.write_all(body.as_bytes()).unwrap();
    }
    w.finish().unwrap().into_inner()
}

fn full_feed() -> Vec<u8> {
    zip_of(&[
        ("stops.txt", STOPS),
        ("stop_times.txt", STOP_TIMES),
        ("trips.txt", TRIPS),
        ("routes.txt", ROUTES),
        ("calendar.txt", CALENDAR),
        ("calendar_dates.txt", CALENDAR_DATES),
        ("agency.txt", AGENCY),
    ])
}

fn required_only() -> Vec<u8> {
    zip_of(&[
        ("stops.txt", STOPS),
        ("stop_times.txt", STOP_TIMES),
        ("trips.txt", TRIPS),
        ("routes.txt", ROUTES),
    ])
}

fn archive() -> GtfsArchive {
    GtfsArchive::from_bytes(full_feed()).unwrap()
}

fn sorted(mut v: Vec<String>) -> Vec<String> {
    v.sort();
    v
}

#[test]
fn open_rejects_bytes_that_are_not_a_zip() {
    match GtfsArchive::from_bytes(b"not a zip archive".to_vec()) {
        Err(e) => {
            assert!(matches!(e, GtfsError::Open { .. }));
            assert_eq!(e.to_string(), "failed to open archive at <in-memory>");
        },
        Ok(_) => panic!("garbage opened as an archive"),
    }
}

#[test]
fn open_reports_the_first_missing_required_file() {
    let bytes = zip_of(&[("stops.txt", STOPS), ("trips.txt", TRIPS), ("routes.txt", ROUTES)]);
    match GtfsArchive::from_bytes(bytes) {
        Err(e) => {
            assert!(matches!(e, GtfsError::MissingFile { name: "stop_times.txt" }));
            assert_eq!(e.to_string(), "missing required file \"stop_times.txt\" in archive");
        },
        Ok(_) => panic!("archive without stop_times.txt opened"),
    }
    let none = zip_of(&[("agency.txt", AGENCY)]);
    assert!(matches!(GtfsArchive::from_bytes(none), Err(GtfsError::MissingFile { name: "stops.txt" })));
}

#[test]
fn stops_lists_every_stop_in_file_order() {
    let stops = archive().stops().unwrap();
    let ids: Vec<&str> = stops.iter().map(|s| s.stop_id.as_str()).collect();
    assert_eq!(ids, vec!["8503000", "8503000:0:7", "8503000:0:8", "8507000", "8507000:0:1", "8500010"]);
    assert_eq!(stops[0].stop_name, "Zürich HB");
    assert_eq!(stops[0].parent_station, None);
    assert_eq!(stops[1].parent_station.as_deref(), Some("8503000"));
    assert_eq!(stops[1].platform_code.as_deref(), Some("7"));
}

#[test]
fn find_stops_is_case_insensitive() {
    let a = archive();
    let upper = a.find_stops("ZÜRICH").unwrap();
    assert_eq!(upper.len(), 3);
    assert!(upper.iter().all(|s| s.stop_name == "Zürich HB"));
    let lower = a.find_stops("basel").unwrap();
    assert_eq!(lower.len(), 1);
    assert_eq!(lower[0].stop_id, "8500010");
    assert!(a.find_stops("Lugano").unwrap().is_empty());
    assert_eq!(a.find_stops("").unwrap().len(), 6);
}

#[test]
fn agency_timezone_reads_the_first_agency() {
    assert_eq!(archive().agency_timezone().unwrap().as_deref(), Some("Europe/Zurich"));
    let plain = GtfsArchive::from_bytes(required_only()).unwrap();
    assert_eq!(plain.agency_timezone().unwrap(), None);
}

#[test]
fn active_services_apply_the_calendar_and_its_exceptions() {
    let a = archive();
    let tuesday = CivilDate::new(2024, 2, 27).unwrap();
    let s = a.active_service_ids(&tuesday).unwrap().unwrap();
    assert!(s.contains("WK"));
    assert!(!s.contains("WE"));
    // 2024-02-29 is a Thursday: WK is removed and WE added that day.
    let leap_day = CivilDate::new(2024, 2, 29).unwrap();
    let s = a.active_service_ids(&leap_day).unwrap().unwrap();
    assert!(!s.contains("WK"));
    assert!(s.contains("WE"));
    let saturday = CivilDate::new(2024, 3, 2).unwrap();
    let s = a.active_service_ids(&saturday).unwrap().unwrap();
    assert!(s.contains("WE"));
    assert!(!s.contains("WK"));
    // Outside the calendar's date range nothing runs.
    let later = CivilDate::new(2025, 1, 7).unwrap();
    let s = a.active_service_ids(&later).unwrap().unwrap();
    assert!(!s.contains("WK"));
    assert!(!s.contains("WE"));
}

#[test]
fn without_calendar_files_every_service_is_active() {
    let plain = GtfsArchive::from_bytes(required_only()).unwrap();
    let day = CivilDate::new(2024, 2, 27).unwrap();
    assert!(plain.active_service_ids(&day).unwrap().is_none());
}

#[test]
fn schedule_for_stops_selects_stop_times_trips_and_routes() {
    let a = archive();
    let day = CivilDate::new(2024, 2, 27).unwrap();
    let active = a.active_service_ids(&day).unwrap();
    let schedule = a.schedule_for_stops(&["8503000:0:7"], active.as_ref()).unwrap();
    assert_eq!(schedule.stop_times.len(), 2);
    let deps = schedule.departures();
    // T3 runs on weekends only, so only T1 departs.
    assert_eq!(deps.len(), 1);
    assert_eq!(deps[0].1.trip_id, "T1");
    assert_eq!(deps[0].2.unwrap().route_short_name.as_deref(), Some("IC 1"));

    let all = a.schedule_for_stops(&["8503000:0:7", "8503000:0:8"], None).unwrap();
    let times: Vec<u32> = all.departures().iter().map(|d| d.0.departure_time.as_secs()).collect();
    assert_eq!(times, vec![8 * 3600 + 15 * 60, 10 * 3600, 14 * 3600 + 30 * 60, 25 * 3600 + 10 * 60]);
}

#[test]
fn departures_are_ordered_by_time() {
    let a = archive();
    let s = a.schedule_for_stops(&["8503000:0:7", "8503000:0:8", "8507000:0:1"], None).unwrap();
    let deps = s.departures();
    assert_eq!(deps.len(), 5);
    for w in deps.windows(2) {
        assert!(w[0].0.departure_time.as_secs() <= w[1].0.departure_time.as_secs());
    }
}

#[test]
fn route_summaries_count_trips_per_route() {
    let a = archive();
    let s = a.schedule_for_stops(&["8503000:0:7", "8503000:0:8"], None).unwrap();
    let sums = s.route_summaries();
    let ids: Vec<&str> = sums.iter().map(|r| r.route_id.as_str()).collect();
    assert_eq!(ids, vec!["R2", "R3", "R1"]);
    assert_eq!(sums[2].trip_count, 2);
    assert_eq!(sums[2].first_departure.as_secs(), 14 * 3600 + 30 * 60);
    assert_eq!(sums[2].to_string(), "IC 1 → Genève-Aéroport (Rail) — 2 trips, first at 14:30");
    assert_eq!(sums[0].to_string(), "InterRegio → Chur (Rail) — 1 trips, first at 08:15");
    assert_eq!(sums[1].to_string(), "R3 (Bus) — 1 trips, first at 10:00");
}

#[test]
fn expand_stop_ids_returns_the_station_family() {
    let a = archive();
    let sel = string_set_of(&["8503000:0:7"]);
    let fam = a.expand_stop_ids(&sel).unwrap();
    for id in ["8503000", "8503000:0:7", "8503000:0:8"] {
        assert!(fam.contains(id));
    }
    assert!(!fam.contains("8507000"));
    let parent = string_set_of(&["8503000"]);
    let fam2 = a.expand_stop_ids(&parent).unwrap();
    for id in ["8503000", "8503000:0:7", "8503000:0:8"] {
        assert!(fam2.contains(id));
    }
    assert!(!fam2.contains("8507000:0:1"));
}

#[test]
fn stops_by_ids_keys_the_selected_stops() {
    let a = archive();
    let m = a.stops_by_ids(&string_set_of(&["8507000", "8503000:0:8", "nope"])).unwrap();
    assert_eq!(m.get("8507000").unwrap().stop_name, "Bern");
    assert_eq!(m.get("8503000:0:8").unwrap().platform_code.as_deref(), Some("8"));
    assert!(m.get("nope").is_none());
    assert!(m.get("8503000").is_none());
}

#[test]
fn a_platform_and_its_station_give_the_same_schedule() {
    let a = archive();
    let by_platform = a.station_schedule(&["8503000:0:7"], None).unwrap();
    let by_station = a.station_schedule(&["8503000"], None).unwrap();
    let trips = |s: &trainwreck::archive::StationSchedule| {
        sorted(s.schedule.departures().iter().map(|d| d.1.trip_id.clone()).collect())
    };
    assert_eq!(trips(&by_platform), vec!["T1", "T2", "T3", "T5"]);
    assert_eq!(trips(&by_platform), trips(&by_station));
    assert_eq!(by_station.stops.get("8503000:0:7").unwrap().platform_code.as_deref(), Some("7"));
}

#[test]
fn a_malformed_file_is_a_csv_error() {
    let bad_times = "trip_id,departure_time,stop_id\nT1,8:60:00,A\n";
    let bytes = zip_of(&[
        ("stops.txt", STOPS),
        ("stop_times.txt", bad_times),
        ("trips.txt", TRIPS),
        ("routes.txt", ROUTES),
    ]);
    let a = GtfsArchive::from_bytes(bytes).unwrap();
    match a.schedule_for_stops(&["A"], None) {
        Err(e) => {
            assert!(matches!(e, GtfsError::Csv { file: "stop_times.txt", .. }));
            assert_eq!(e.to_string(), "failed to parse CSV in \"stop_times.txt\"");
        },
        Ok(_) => panic!("invalid time accepted"),
    }
    let bad_exc = "service_id,date,exception_type\nWK,20240229,3\n";
    let bytes = zip_of(&[
        ("stops.txt", STOPS),
        ("stop_times.txt", STOP_TIMES),
        ("trips.txt", TRIPS),
        ("routes.txt", ROUTES),
        ("calendar_dates.txt", bad_exc),
    ]);
    let a = GtfsArchive::from_bytes(bytes).unwrap();
    let day = CivilDate::new(2024, 2, 29).unwrap();
    assert!(matches!(a.active_service_ids(&day), Err(GtfsError::Csv { file: "calendar_dates.txt", .. })));
}

#[test]
fn hexadecimal_and_missing_route_types_are_read() {
    let routes = "route_id,route_short_name,route_long_name,route_type\nR1,S3,,0x2\nR2,,,\n";
    let bytes = zip_of(&[
        ("stops.txt", STOPS),
        ("stop_times.txt", STOP_TIMES),
        ("trips.txt", TRIPS),
        ("routes.txt", routes),
    ]);
    let a = GtfsArchive::from_bytes(bytes).unwrap();
    let s = a.schedule_for_stops(&["8503000:0:7", "8503000:0:8"], None).unwrap();
    let deps = s.departures();
    let r1 = deps.iter().find(|d| d.1.route_id == "R1").unwrap().2.unwrap();
    assert_eq!(r1.route_type, Some(2));
    assert_eq!(r1.transport_label(), "Rail");
    let r2 = deps.iter().find(|d| d.1.route_id == "R2").unwrap().2.unwrap();
    assert_eq!(r2.route_type, None);
    assert_eq!(r2.transport_label(), "Transit");
}

#[test]
fn the_last_exception_of_a_date_wins() {
    let dates = "service_id,date,exception_type
WK,20240305,1
WK,20240305,2
WE,20240305,2
WE,20240305,1
";
    let bytes = zip_of(&[
        ("stops.txt", STOPS),
        ("stop_times.txt", STOP_TIMES),
        ("trips.txt", TRIPS),
        ("routes.txt", ROUTES),
        ("calendar.txt", CALENDAR),
        ("calendar_dates.txt", dates),
    ]);
    let a = GtfsArchive::from_bytes(bytes).unwrap();
    let day = CivilDate::new(2024, 3, 5).unwrap();
    let s = a.active_service_ids(&day).unwrap().unwrap();
    assert!(!s.contains("WK"));
    assert!(s.contains("WE"));
    let other = CivilDate::new(2024, 3, 6).unwrap();
    let s = a.active_service_ids(&other).unwrap().unwrap();
    assert!(s.contains("WK"));
    assert!(!s.contains("WE"));
}

#[test]
fn a_file_that_fails_its_checksum_is_a_csv_error() {
    let mut w = zip::ZipWriter::new(Cursor::new(Vec::new()));
    let stored = zip::write::SimpleFileOptions::default().compression_method(zip::CompressionMethod::Stored);
    for (name, body) in [("stops.txt", STOPS), ("stop_times.txt", STOP_TIMES), ("trips.txt", TRIPS), ("routes.txt", ROUTES)] {
        w.start_file(name, stored).unwrap();
        w.write_all(body.as_bytes()).unwrap();
    }
    let mut bytes = w.finish().unwrap().into_inner();
    let at = bytes.windows(5).position(|x| x == b"Basel").unwrap();
    bytes[at] = b'X';
    let a = GtfsArchive::from_bytes(bytes).unwrap();
    match a.stops() {
        Err(e) => assert!(matches!(e, GtfsError::Csv { file: "stops.txt", source: CsvCause::Read(_) })),
        Ok(_) => panic!("corrupted entry read without error"),
    }
    assert_eq!(a.schedule_for_stops(&["8503000:0:7"], None).unwrap().departures().len(), 2);
}

#[test]
fn a_header_that_is_not_utf8_reads_rows_by_position() {
    let mut w = zip::ZipWriter::new(Cursor::new(Vec::new()));
    let opts = zip::write::SimpleFileOptions::default();
    w.start_file("stops.txt", opts).unwrap();
    w.write_all(b"stop_\xffid,name\nA,Alpha,P,3\nB,Beta\n").unwrap();
    for (name, body) in [("stop_times.txt", STOP_TIMES), ("trips.txt", TRIPS), ("routes.txt", ROUTES)] {
        w.start_file(name, opts).unwrap();
        w.write_all(body.as_bytes()).unwrap();
    }
    let a = GtfsArchive::from_bytes(w.finish().unwrap().into_inner()).unwrap();
    let stops = a.stops().unwrap();
    assert_eq!(stops.len(), 2);
    assert_eq!(stops[0].stop_id, "A");
    assert_eq!(stops[0].stop_name, "Alpha");
    assert_eq!(stops[0].parent_station.as_deref(), Some("P"));
    assert_eq!(stops[0].platform_code.as_deref(), Some("3"));
    assert_eq!(stops[1].stop_id, "B");
    assert_eq!(stops[1].parent_station, None);
}

#[test]
fn errors_keep_their_cause() {
    match GtfsArchive::from_bytes(b"not a zip archive".to_vec()) {
        Err(GtfsError::Open { source, .. }) => assert!(!source.to_string().is_empty()),
        _ => panic!("expected an Open error"),
    }
    let bad = "trip_id,departure_time,stop_id\nT1,08:00:00,A\nT2,8:60:00,A\n";
    let a = GtfsArchive::from_bytes(zip_of(&[
        ("stops.txt", STOPS),
        ("stop_times.txt", bad),
        ("trips.txt", TRIPS),
        ("routes.txt", ROUTES),
    ]))
    .unwrap();
    match a.schedule_for_stops(&["A"], None) {
        Err(GtfsError::Csv { file: "stop_times.txt", source: CsvCause::InvalidRow { row } }) => assert_eq!(row, 1),
        _ => panic!("expected the second row to be reported"),
    }
}

#[test]
fn ascii_queries_ignore_letter_case() {
    let a = archive();
    let ids = |q: &str| a.find_stops(q).unwrap().into_iter().map(|s| s.stop_id).collect::<Vec<_>>();
    assert_eq!(ids("bern"), ids(&"bern".to_ascii_uppercase()));
    assert_eq!(ids("Basel sbb"), ids("BASEL SBB"));
    assert_eq!(ids("bern"), vec!["8507000", "8507000:0:1"]);
    let all: Vec<String> = a.stops().unwrap().into_iter().map(|s| s.stop_id).collect();
    assert_eq!(ids(""), all);
}

#[test]
fn any_query_ignores_ascii_letter_case() {
    let a = archive();
    let ids = |q: &str| a.find_stops(q).unwrap().into_iter().map(|s| s.stop_id).collect::<Vec<_>>();
    assert_eq!(ids("zürich"), ids(&"zürich".to_ascii_uppercase()));
    assert_eq!(ids("ZÜRICH hb"), ids(&"ZÜRICH hb".to_ascii_lowercase()));
    assert_eq!(ids("ZÜRICH"), vec!["8503000", "8503000:0:7", "8503000:0:8"]);
}

#[test]
fn an_invalid_row_is_reported_by_its_index() {
    let bad = "service_id,date,exception_type\nWK,20240229,1\nWK,20240301,2\nWE,20240302,9\n";
    let a = GtfsArchive::from_bytes(zip_of(&[
        ("stops.txt", STOPS),
        ("stop_times.txt", STOP_TIMES),
        ("trips.txt", TRIPS),
        ("routes.txt", ROUTES),
        ("calendar_dates.txt", bad),
    ]))
    .unwrap();
    match a.active_service_ids(&CivilDate::new(2024, 2, 29).unwrap()) {
        Err(GtfsError::Csv { file: "calendar_dates.txt", source: CsvCause::InvalidRow { row } }) => assert_eq!(row, 2),
        _ => panic!("expected the third row to be reported"),
    }
}
