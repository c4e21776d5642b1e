use trainwreck::model::{Calendar, ExceptionType, Route};
use trainwreck::realtime::{
    DepartureStatus, FeedEntity, RealtimeFeed, StopTimeEvent, StopTimeUpdate, TripDescriptor,
    TripUpdate, STOP_SKIPPED, TRIP_CANCELED,
};
use trainwreck::time::Weekday;

fn stop_update(stop: Option<&str>, delay: Option<i32>, rel: Option<i32>) -> StopTimeUpdate {
    StopTimeUpdate {
        stop_id: stop.map(String::from),
        departure: Some(StopTimeEvent { delay }),
        schedule_relationship: rel,
    }
}

fn trip(id: Option<&str>, rel: Option<i32>, stops: Vec<StopTimeUpdate>) -> FeedEntity {
    FeedEntity {
        trip_update: Some(TripUpdate {
            trip: TripDescriptor { trip_id: id.map(String::from), schedule_relationship: rel },
            stop_time_update: stops,
        }),
    }
}

fn feed() -> RealtimeFeed {
    let entities = vec![
        trip(Some("T1"), None, vec![
            stop_update(Some("A"), Some(150), None),
            stop_update(Some("B"), None, Some(STOP_SKIPPED)),
            stop_update(Some("C"), Some(-60), Some(0)),
            stop_update(Some(""), Some(999), None),
            StopTimeUpdate { stop_id: Some("D".into()), departure: None, schedule_relationship: None },
        ]),
        trip(Some("T2"), Some(TRIP_CANCELED), vec![stop_update(Some("A"), Some(30), None)]),
        trip(Some(""), None, vec![stop_update(Some("A"), Some(5), None)]),
        trip(None, None, vec![stop_update(Some("A"), Some(5), None)]),
        FeedEntity { trip_update: None },
    ];
    RealtimeFeed::from_entities(&entities)
}

#[test]
fn status_for_reports_delays_cancellations_and_skips() {
    let f = feed();
    assert_eq!(f.status_for("T1", "A"), Some(DepartureStatus::OnTime { delay_secs: 150 }));
    assert_eq!(f.status_for("T1", "B"), Some(DepartureStatus::Skipped));
    assert_eq!(f.status_for("T1", "C"), Some(DepartureStatus::OnTime { delay_secs: -60 }));
    assert_eq!(f.status_for("T1", "D"), Some(DepartureStatus::OnTime { delay_secs: 0 }));
    assert_eq!(f.status_for("T1", "Z"), None);
    assert_eq!(f.status_for("T1", ""), None);
    assert_eq!(f.status_for("T2", "A"), Some(DepartureStatus::Canceled));
    assert_eq!(f.status_for("T2", "anything"), Some(DepartureStatus::Canceled));
    assert_eq!(f.status_for("T9", "A"), None);
    assert_eq!(f.status_for("", "A"), None);
}

#[test]
fn a_later_update_for_a_trip_replaces_an_earlier_one() {
    let entities = vec![
        trip(Some("T1"), None, vec![stop_update(Some("A"), Some(60), None)]),
        trip(Some("T1"), Some(TRIP_CANCELED), vec![]),
    ];
    let f = RealtimeFeed::from_entities(&entities);
    assert_eq!(f.status_for("T1", "A"), Some(DepartureStatus::Canceled));
    let entities = vec![
        trip(Some("T1"), Some(TRIP_CANCELED), vec![]),
        trip(Some("T1"), None, vec![stop_update(Some("A"), Some(60), None)]),
    ];
    let f = RealtimeFeed::from_entities(&entities);
    assert_eq!(f.status_for("T1", "A"), Some(DepartureStatus::OnTime { delay_secs: 60 }));
}

#[test]
fn status_annotations_match_the_documented_table() {
    assert_eq!(DepartureStatus::OnTime { delay_secs: 0 }.to_string(), "[on time]");
    assert_eq!(DepartureStatus::OnTime { delay_secs: 150 }.to_string(), "[+2m 30s]");
    assert_eq!(DepartureStatus::OnTime { delay_secs: -60 }.to_string(), "[-1m 0s]");
    assert_eq!(DepartureStatus::OnTime { delay_secs: 45 }.to_string(), "[+45s]");
    assert_eq!(DepartureStatus::OnTime { delay_secs: -5 }.to_string(), "[-5s]");
    assert_eq!(DepartureStatus::Canceled.to_string(), "[CANCELLED]");
    assert_eq!(DepartureStatus::Skipped.to_string(), "[STOP SKIPPED]");
    assert_eq!(DepartureStatus::OnTime { delay_secs: i32::MIN }.to_string(), "[-35791394m 8s]");
}

#[test]
fn transport_labels_and_classes() {
    let route = |t: Option<u16>| Route { route_id: "R".into(), route_short_name: None, route_long_name: None, route_type: t };
    assert_eq!(route(Some(0)).transport_label(), "Tram");
    assert_eq!(route(Some(1)).transport_label(), "Subway");
    assert_eq!(route(Some(2)).transport_label(), "Rail");
    assert_eq!(route(Some(106)).transport_label(), "Rail");
    assert_eq!(route(Some(3)).transport_label(), "Bus");
    assert_eq!(route(Some(700)).transport_label(), "Bus");
    assert_eq!(route(Some(4)).transport_label(), "Ferry");
    assert_eq!(route(Some(5)).transport_label(), "Cable Car");
    assert_eq!(route(Some(6)).transport_label(), "Gondola");
    assert_eq!(route(Some(7)).transport_label(), "Funicular");
    assert_eq!(route(Some(11)).transport_label(), "Trolleybus");
    assert_eq!(route(Some(12)).transport_label(), "Transit");
    assert_eq!(route(None).transport_label(), "Transit");
    assert_eq!(route(Some(2)).transport_css_class(), "rail");
    assert_eq!(Route::transport_css_class_for(Some(0)), "tram");
    assert_eq!(Route::transport_css_class_for(Some(7)), "tram");
    assert_eq!(Route::transport_css_class_for(Some(1)), "subway");
    assert_eq!(Route::transport_css_class_for(Some(799)), "bus");
    assert_eq!(Route::transport_css_class_for(Some(4)), "ferry");
    assert_eq!(Route::transport_css_class_for(Some(200)), "transit");
    assert_eq!(Route::transport_css_class_for(None), "transit");
}

#[test]
fn exception_codes_and_weekdays() {
    assert_eq!(ExceptionType::from_code(1), Ok(ExceptionType::Added));
    assert_eq!(ExceptionType::from_code(2), Ok(ExceptionType::Removed));
    assert_eq!(ExceptionType::from_code(0).unwrap_err(), "invalid exception_type 0: expected 1 (added) or 2 (removed)");
    let cal = Calendar {
        service_id: "S".into(),
        monday: true,
        tuesday: false,
        wednesday: false,
        thursday: false,
        friday: true,
        saturday: false,
        sunday: true,
        start_date: "20240101".into(),
        end_date: "20241231".into(),
    };
    assert!(cal.runs_on(Weekday::Monday));
    assert!(!cal.runs_on(Weekday::Tuesday));
    assert!(cal.runs_on(Weekday::Friday));
    assert!(cal.runs_on(Weekday::Sunday));
    assert!(!cal.runs_on(Weekday::Saturday));
}
