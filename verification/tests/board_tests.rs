use std::io::{Cursor, Write};

use trainwreck::api::{
    departure_items, parse_stop_ids, requested_stop_ids, route_name, service_timezone, stop_items,
    ApiDeparture, ApiStop,
};
use trainwreck::archive::GtfsArchive;
use trainwreck::board::{
    build_rows, cells_of, chosen_stop, departure_lines, departure_status, secs_since_midnight,
    BoardState, DepartureRow, SearchState, SearchStep,
};
use trainwreck::model::{Route, StopTime, Trip};
use trainwreck::query::StopSchedule;
use trainwreck::realtime::{
    FeedEntity, RealtimeFeed, StopTimeEvent, StopTimeUpdate, TripDescriptor, TripUpdate, TRIP_CANCELED,
};
use trainwreck::time::GtfsTime;

fn zip_of(files: &[(&str, &str)]) -> Vec<u8> {
    let mut w = zip::ZipWriter::new(Cursor::new(Vec::new()));
    let opts = zip::write::SimpleFileOptions::default();
    for (name, body) in files {
        w.start_file(*name, opts).unwrap();
        w.write_all(body.as_bytes()).unwrap();
    }
    w.finish().unwrap().into_inner()
}

fn station() -> GtfsArchive {
    let stops = "stop_id,stop_name,parent_station,platform_code
P,Central,,
P1,Central,P,1
P2,Central,P,2
Q,Harbour,,
";
    let stop_times = "trip_id,departure_time,stop_id
T1,10:05:00,P1
T2,10:00:00,P2
T3,11:00:00,Q
";
    let trips = "route_id,service_id,trip_id,trip_headsign
R1,S,T1,Airport
R2,S,T2,
R1,S,T3,Airport
";
    let routes = "route_id,route_short_name,route_long_name,route_type
R1,S3,,109
R2,,Night Bus,3
";
    GtfsArchive::from_bytes(zip_of(&[
        ("stops.txt", stops),
        ("stop_times.txt", stop_times),
        ("trips.txt", trips),
        ("routes.txt", routes),
    ]))
    .unwrap()
}

fn delay_feed() -> RealtimeFeed {
    let entities = vec![
        FeedEntity {
            trip_update: Some(TripUpdate {
                trip: TripDescriptor { trip_id: Some("T1".into()), schedule_relationship: None },
                stop_time_update: vec![StopTimeUpdate {
                    stop_id: Some("P1".into()),
                    departure: Some(StopTimeEvent { delay: Some(120) }),
                    schedule_relationship: None,
                }],
            }),
        },
        FeedEntity {
            trip_update: Some(TripUpdate {
                trip: TripDescriptor { trip_id: Some("T2".into()), schedule_relationship: Some(TRIP_CANCELED) },
                stop_time_update: vec![],
            }),
        },
    ];
    RealtimeFeed::from_entities(&entities)
}

fn dep(trip: &str, secs: u32, delay: Option<i32>) -> ApiDeparture {
    ApiDeparture {
        trip_id: trip.into(),
        stop_id: "P1".into(),
        departure_secs: secs,
        route_name: "S3".into(),
        route_type: Some(2),
        destination: "Airport".into(),
        delay_secs: delay,
        canceled: false,
        skipped: false,
        platform: Some("1".into()),
    }
}

#[test]
fn parse_stop_ids_splits_trims_and_drops_empty_pieces() {
    assert_eq!(parse_stop_ids("a, b ,,c"), vec!["a", "b", "c"]);
    assert_eq!(parse_stop_ids(" 8503000 "), vec!["8503000"]);
    assert!(parse_stop_ids("").is_empty());
    assert!(parse_stop_ids(" , ,").is_empty());
}

#[test]
fn stop_items_lists_only_top_level_stations() {
    let a = station();
    let all = stop_items(&a, None).unwrap();
    let ids: Vec<&str> = all.iter().map(|s| s.stop_id.as_str()).collect();
    assert_eq!(ids, vec!["P", "Q"]);
    let empty = stop_items(&a, Some("")).unwrap();
    assert_eq!(empty.len(), 2);
    let found = stop_items(&a, Some("cent")).unwrap();
    assert_eq!(found.len(), 1);
    assert_eq!(found[0].stop_id, "P");
    assert_eq!(found[0].stop_name, "Central");
    assert!(stop_items(&a, Some("nowhere")).unwrap().is_empty());
}

#[test]
fn departure_items_merge_real_time_status_and_platforms() {
    let a = station();
    let st = a.station_schedule(&["P"], None).unwrap();
    let feed = delay_feed();
    let items = departure_items(&st.schedule, Some(&feed), &st.stops);
    assert_eq!(items.len(), 2);
    // T2 (10:00, canceled) comes before T1 (10:05, two minutes late).
    assert_eq!(items[0].trip_id, "T2");
    assert!(items[0].canceled);
    assert_eq!(items[0].delay_secs, None);
    assert_eq!(items[0].route_name, "Night Bus");
    assert_eq!(items[0].destination, "?");
    assert_eq!(items[0].platform.as_deref(), Some("2"));
    assert_eq!(items[1].trip_id, "T1");
    assert_eq!(items[1].departure_secs, 36_300);
    assert_eq!(items[1].delay_secs, Some(120));
    assert!(!items[1].canceled && !items[1].skipped);
    assert_eq!(items[1].route_name, "S3");
    assert_eq!(items[1].route_type, Some(109));
    assert_eq!(items[1].destination, "Airport");
    assert_eq!(items[1].platform.as_deref(), Some("1"));

    let plain = departure_items(&st.schedule, None, &st.stops);
    assert!(plain.iter().all(|i| i.delay_secs.is_none() && !i.canceled && !i.skipped));
    assert_eq!(plain.len(), items.len());
    for (p, l) in plain.iter().zip(items.iter()) {
        assert_eq!(p.trip_id, l.trip_id);
        assert_eq!(p.stop_id, l.stop_id);
        assert_eq!(p.departure_secs, l.departure_secs);
        assert_eq!(p.route_name, l.route_name);
        assert_eq!(p.route_type, l.route_type);
        assert_eq!(p.destination, l.destination);
        assert_eq!(p.platform, l.platform);
    }
}

#[test]
fn route_name_falls_back_to_the_route_id() {
    let trip = Trip { service_id: "S".into(), route_id: "R9".into(), trip_id: "T".into(), trip_headsign: None };
    assert_eq!(route_name(&trip, None), "R9");
    let long = Route { route_id: "R9".into(), route_short_name: None, route_long_name: Some("Lake Line".into()), route_type: None };
    assert_eq!(route_name(&trip, Some(&long)), "Lake Line");
    let short = Route { route_id: "R9".into(), route_short_name: Some("9".into()), route_long_name: Some("Lake Line".into()), route_type: None };
    assert_eq!(route_name(&trip, Some(&short)), "9");
}

#[test]
fn build_rows_keeps_the_window_and_sorts() {
    let now = 36_000;
    let deps = vec![
        dep("late", now + 10_800, None),
        dep("too-late", now + 10_801, None),
        dep("early", now - 60, None),
        dep("gone", now - 61, None),
        dep("soon", now + 30, None),
        dep("soon-too", now + 30, None),
    ];
    let rows = build_rows(deps, now);
    let ids: Vec<&str> = rows.iter().map(|r| r.trip_id.as_str()).collect();
    assert_eq!(ids, vec!["early", "soon", "soon-too", "late"]);
    assert!(build_rows(vec![dep("x", 10, None)], 0).len() == 1);
    assert!(build_rows(vec![], 5).is_empty());
}

fn row(delay: Option<i32>, canceled: bool, skipped: bool) -> DepartureRow {
    let d = dep("t", 52_200, delay);
    let mut r = build_rows(vec![d], 52_200).remove(0);
    r.canceled = canceled;
    r.skipped = skipped;
    r
}

#[test]
fn status_badges() {
    assert_eq!(departure_status(&row(Some(300), true, false)), ("CANCELLED".to_string(), "cancelled"));
    assert_eq!(departure_status(&row(None, false, true)), ("SKIPPED".to_string(), "cancelled"));
    assert_eq!(departure_status(&row(None, false, false)), (String::new(), ""));
    assert_eq!(departure_status(&row(Some(0), false, false)), ("on time".to_string(), "on-time"));
    assert_eq!(departure_status(&row(Some(150), false, false)), ("+2m".to_string(), "delayed"));
    assert_eq!(departure_status(&row(Some(30), false, false)), ("+0m".to_string(), "delayed"));
    assert_eq!(departure_status(&row(Some(-90), false, false)), ("-1m".to_string(), "early"));
    assert_eq!(departure_status(&row(Some(-30), false, false)), ("0m".to_string(), "early"));
}

#[test]
fn board_cells() {
    let r = row(Some(150), false, false);
    let c = cells_of(&r, 52_200 - 600);
    assert_eq!(c.time, "14:30");
    assert_eq!(c.countdown, "in 10m");
    assert_eq!(c.route_class, "route-badge rail");
    assert_eq!(c.route_name, "S3");
    assert_eq!(c.destination, "Airport");
    assert_eq!(c.platform.as_deref(), Some("1"));
    assert_eq!(c.status_text, "+2m");
    assert_eq!(c.status_class, "status-badge delayed");
}

#[test]
fn clock_seconds() {
    assert_eq!(secs_since_midnight(0, 0, 0), 0);
    assert_eq!(secs_since_midnight(14, 30, 5), 52_205);
    assert_eq!(secs_since_midnight(23, 59, 59), 86_399);
}

#[test]
fn the_search_runs_only_for_the_latest_input() {
    let mut s = SearchState::new();
    assert_eq!(s.on_input(""), SearchStep::Clear);
    let first = match s.on_input("Zür") {
        SearchStep::Debounce { generation } => generation,
        SearchStep::Clear => panic!("non-empty text cleared the search"),
    };
    assert!(s.is_current(first));
    let second = s.on_input("Züri");
    assert!(!s.is_current(first));
    assert_eq!(second, SearchStep::Debounce { generation: first + 1 });
    assert_eq!(s.on_input(""), SearchStep::Clear);
    assert!(s.is_current(first + 1));
}

#[test]
fn terminal_lines() {
    let st = |trip: &str, t: &str, stop: &str| StopTime {
        trip_id: trip.into(),
        departure_time: GtfsTime::parse(t).unwrap(),
        stop_id: stop.into(),
    };
    let trips = vec![
        Trip { service_id: "S".into(), route_id: "R1".into(), trip_id: "T1".into(), trip_headsign: Some("Airport".into()) },
        Trip { service_id: "S".into(), route_id: "R2".into(), trip_id: "T2".into(), trip_headsign: None },
    ];
    let routes = vec![Route { route_id: "R1".into(), route_short_name: Some("S3".into()), route_long_name: None, route_type: Some(2) }];
    let schedule = StopSchedule::new(vec![st("T1", "10:05:00", "P1"), st("T2", "25:00:00", "P2")], trips, routes);
    let midnight = 1_700_000_000_i64;
    let now = midnight + 10 * 3600;
    let feed = delay_feed();
    let lines = departure_lines(&schedule, Some(&feed), Some(midnight), now);
    assert_eq!(lines.len(), 2);
    assert_eq!(
        lines[0],
        format!("10:05 {:<8} | {:<6} → {:<30} {}", "+5m", "S3", "Airport", "[+2m 0s]")
    );
    assert_eq!(
        lines[1],
        format!("01:00+1d {:<8} | {:<6} → {:<30} {}", "+900m", "R2", "?", "[CANCELLED]")
    );
    let quiet = departure_lines(&schedule, None, None, now);
    assert_eq!(quiet[0], format!("10:05 {:<8} | {:<6} → {:<30} ", "", "S3", "Airport"));
    let past = departure_lines(&schedule, None, Some(midnight), midnight + 11 * 3600);
    assert!(past[0].starts_with("10:05 55m ago  | "));
    let empty = StopSchedule::new(vec![], vec![], vec![]);
    assert!(departure_lines(&empty, None, None, now).is_empty());
}

#[test]
fn the_service_day_time_zone() {
    let a = station();
    assert_eq!(service_timezone(&a, Some("Europe/Zurich")).unwrap().as_deref(), Some("Europe/Zurich"));
    assert_eq!(service_timezone(&a, None).unwrap(), None);
    let with_agency = GtfsArchive::from_bytes(zip_of(&[
        ("stops.txt", "stop_id,stop_name\nA,Alpha\n"),
        ("stop_times.txt", "trip_id,departure_time,stop_id\n"),
        ("trips.txt", "route_id,service_id,trip_id\n"),
        ("routes.txt", "route_id,route_type\n"),
        ("agency.txt", "agency_name,agency_timezone\nA,America/New_York\nB,Europe/Paris\n"),
    ]))
    .unwrap();
    assert_eq!(service_timezone(&with_agency, None).unwrap().as_deref(), Some("America/New_York"));
    assert_eq!(service_timezone(&with_agency, Some("UTC")).unwrap().as_deref(), Some("UTC"));
}

#[test]
fn schedule_requests_need_stop_ids() {
    assert_eq!(requested_stop_ids(" a ,b").unwrap(), vec!["a", "b"]);
    assert_eq!(requested_stop_ids(" , ").unwrap_err(), "stop_ids must not be empty");
    assert_eq!(requested_stop_ids("").unwrap_err(), "stop_ids must not be empty");
}

#[test]
fn the_terminal_shows_the_first_match() {
    let a = station();
    let found = a.find_stops("central").unwrap();
    assert_eq!(chosen_stop(&found, "central").unwrap().stop_id, "P");
    let none = a.find_stops("nowhere").unwrap();
    assert_eq!(chosen_stop(&none, "nowhere").unwrap_err(), "no stops matching \"nowhere\"");
}

#[test]
fn board_state_steps() {
    let mut b = BoardState::new();
    b.type_query("Cen");
    assert_eq!(b.stop_query, "Cen");
    b.search_done(Ok(vec![ApiStop { stop_id: "P".into(), stop_name: "Central".into() }]));
    assert_eq!(b.matched_stops.len(), 1);
    assert!(b.refresh().is_none());
    assert!(!b.loading);
    let stop = b.matched_stops[0].clone();
    let ids = b.select_stop(&stop);
    assert_eq!(ids, vec!["P"]);
    assert_eq!(b.selected_stop_ids, vec!["P"]);
    assert_eq!(b.stop_query, "Central");
    assert!(b.matched_stops.is_empty());
    assert!(b.loading);
    b.schedule_done(Err("timeout".into()), 36_000, false);
    assert_eq!(b.error.as_deref(), Some("Schedule fetch failed: timeout"));
    assert!(!b.loading);
    assert_eq!(b.refresh(), Some(vec!["P".to_string()]));
    assert!(b.loading && b.error.is_none());
    b.schedule_done(Ok(vec![dep("x", 36_100, None), dep("y", 50_000, None), dep("w", 36_050, None)]), 36_000, true);
    let trips: Vec<&str> = b.departures.iter().map(|r| r.trip_id.as_str()).collect();
    assert_eq!(trips, vec!["w", "x"]);
    b.schedule_done(Err("offline".into()), 36_000, true);
    assert_eq!(b.error.as_deref(), Some("Refresh failed: offline"));
    assert_eq!(b.departures.len(), 2);
    b.search_done(Err("500".into()));
    assert_eq!(b.error.as_deref(), Some("Stop search failed: 500"));
    b.type_query("");
    assert!(b.matched_stops.is_empty());
}
