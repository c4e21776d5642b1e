use std::io::{Cursor, Write};

use trainwreck::archive::GtfsError;
use trainwreck::data::GtfsData;
use trainwreck::time::CivilDate;

fn zip_of(files: &[(&str, &str)]) -> Vec<u8> {
    let mut w = zip::ZipWriter::new(Cursor::new(Vec::new()));
    let opts = zip::write::SimpleFileOptions::default().compression_method(zip::CompressionMethod::Stored);
    for (name, body) in files {
        w.start_file(*name, opts).unwrap();
        w.write_all(body.as_bytes()).unwrap();
    }
    w.finish().unwrap().into_inner()
}

const STOP_TIMES: &str = "trip_id,departure_time,stop_id\nT1,07:00:00,A\nT2,06:30:00,A\nT3,08:00:00,B\n";
const TRIPS: &str = "route_id,service_id,trip_id,trip_headsign\nR1,S1,T1,North\nR1,S2,T2,South\nR2,S1,T3,\n";
const ROUTES: &str = "route_id,route_short_name,route_long_name,route_type\nR1,1,,0\nR2,,Airport Line,1\n";

fn many_stops(n: usize) -> String {
    let mut s = String::from("stop_id,stop_name\n");
    for i in 0..n {
        s.push_str(&format!("S{i},Main Street {i}\n"));
    }
    s.push_str("A,Alpha\nB,Beta\n");
    s
}

fn data_with(stops: &str) -> GtfsData {
    let cal = "service_id,monday,tuesday,wednesday,thursday,friday,saturday,sunday,start_date,end_date\nS1,1,1,1,1,1,1,1,20240101,20241231\n";
    let dates = "service_id,date,exception_type\nS1,20240615,2\nS2,20240615,1\n";
    let agency = "agency_name,agency_timezone\nLocal,Europe/Berlin\n";
    let bytes = zip_of(&[
        ("stops.txt", stops),
        ("stop_times.txt", STOP_TIMES),
        ("trips.txt", TRIPS),
        ("routes.txt", ROUTES),
        ("calendar.txt", cal),
        ("calendar_dates.txt", dates),
        ("agency.txt", agency),
    ]);
    GtfsData::from_bytes(&bytes).unwrap()
}

#[test]
fn from_bytes_loads_every_file() {
    let d = data_with(&many_stops(3));
    assert_eq!(d.stop_count(), 5);
    assert_eq!(d.stop_count(), d.stops.len());
    assert_eq!(d.stop_times.len(), 3);
    assert_eq!(d.trips.get("T2").unwrap().service_id, "S2");
    assert_eq!(d.routes.get("R2").unwrap().route_long_name.as_deref(), Some("Airport Line"));
    assert_eq!(d.agency_timezone(), Some("Europe/Berlin"));
}

#[test]
fn from_bytes_reports_errors() {
    assert!(matches!(GtfsData::from_bytes(b"PK nonsense"), Err(GtfsError::Open { .. })));
    let no_trips = zip_of(&[("stops.txt", "stop_id,stop_name\nA,Alpha\n"), ("stop_times.txt", STOP_TIMES)]);
    match GtfsData::from_bytes(&no_trips) {
        Err(e) => assert_eq!(e.to_string(), "missing required file \"trips.txt\" in archive"),
        Ok(_) => panic!("loaded without trips.txt"),
    }
}

#[test]
fn find_stops_returns_at_most_thirty() {
    let d = data_with(&many_stops(40));
    let found = d.find_stops("MAIN street");
    assert_eq!(found.len(), 30);
    assert_eq!(found[0].stop_id, "S0");
    assert_eq!(found[29].stop_id, "S29");
    let alpha = d.find_stops("alp");
    assert_eq!(alpha.len(), 1);
    assert_eq!(alpha[0].stop_id, "A");
}

#[test]
fn active_services_in_memory() {
    let d = data_with(&many_stops(1));
    let normal = CivilDate::new(2024, 6, 14).unwrap();
    let s = d.active_service_ids(&normal).unwrap();
    assert!(s.contains("S1"));
    assert!(!s.contains("S2"));
    let special = CivilDate::new(2024, 6, 15).unwrap();
    let s = d.active_service_ids(&special).unwrap();
    assert!(!s.contains("S1"));
    assert!(s.contains("S2"));
}

#[test]
fn no_calendar_means_every_service() {
    let bytes = zip_of(&[
        ("stops.txt", "stop_id,stop_name\nA,Alpha\n"),
        ("stop_times.txt", STOP_TIMES),
        ("trips.txt", TRIPS),
        ("routes.txt", ROUTES),
    ]);
    let d = GtfsData::from_bytes(&bytes).unwrap();
    assert!(d.active_service_ids(&CivilDate::new(2024, 6, 14).unwrap()).is_none());
    assert_eq!(d.agency_timezone(), None);
}

#[test]
fn schedule_for_stops_in_memory() {
    let d = data_with(&many_stops(1));
    let day = CivilDate::new(2024, 6, 14).unwrap();
    let active = d.active_service_ids(&day);
    let s = d.schedule_for_stops(&["A"], active.as_ref());
    let deps = s.departures();
    assert_eq!(deps.len(), 1);
    assert_eq!(deps[0].1.trip_id, "T1");
    assert_eq!(deps[0].2.unwrap().route_short_name.as_deref(), Some("1"));
    let all = d.schedule_for_stops(&["A", "B"], None);
    let order: Vec<&str> = all.departures().iter().map(|x| x.1.trip_id.as_str()).collect();
    assert_eq!(order, vec!["T2", "T1", "T3"]);
}
