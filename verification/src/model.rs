//! The GTFS records this library reads: stops, stop times, trips, routes,
//! service calendars and agencies, with their mathematical views.
use vstd::prelude::*;

use crate::time::{GtfsTime, Weekday};
use crate::text::{decimal, push_decimal, push_str, string_from_chars};

verus! {

/// A copy of an optional string.
pub fn clone_opt_string(o: &Option<String>) -> (res: Option<String>)
    ensures
        res.deep_view() == o.deep_view(),
{
    match o {
        Some(s) => Some(s.clone()),
        None => None,
    }
}

// ───────────────────────────── stops ─────────────────────────────

/// A transit stop/station.
#[derive(Debug)]
pub struct Stop {
    pub stop_id: String,
    pub stop_name: String,
    /// The station this stop belongs to, if any (`parent_station`).
    pub parent_station: Option<String>,
    /// Platform identifier shown to riders (`platform_code`).
    pub platform_code: Option<String>,
}

pub struct StopView {
    pub stop_id: Seq<char>,
    pub stop_name: Seq<char>,
    pub parent_station: Option<Seq<char>>,
    pub platform_code: Option<Seq<char>>,
}

impl View for Stop {
    type V = StopView;

    open spec fn view(&self) -> StopView {
        StopView {
            stop_id: self.stop_id@,
            stop_name: self.stop_name@,
            parent_station: self.parent_station.deep_view(),
            platform_code: self.platform_code.deep_view(),
        }
    }
}

impl Clone for Stop {
    fn clone(&self) -> (res: Stop)
        ensures
            res@ == self@,
    {
        Stop {
            stop_id: self.stop_id.clone(),
            stop_name: self.stop_name.clone(),
            parent_station: clone_opt_string(&self.parent_station),
            platform_code: clone_opt_string(&self.platform_code),
        }
    }
}

// ───────────────────────────── stop times ─────────────────────────────

/// A scheduled stop-time linking a trip to a stop.
#[derive(Debug)]
pub struct StopTime {
    pub trip_id: String,
    pub departure_time: GtfsTime,
    pub stop_id: String,
}

pub struct StopTimeView {
    pub trip_id: Seq<char>,
    pub departure_secs: u32,
    pub stop_id: Seq<char>,
}

impl View for StopTime {
    type V = StopTimeView;

    open spec fn view(&self) -> StopTimeView {
        StopTimeView {
            trip_id: self.trip_id@,
            departure_secs: self.departure_time@,
            stop_id: self.stop_id@,
        }
    }
}

impl Clone for StopTime {
    fn clone(&self) -> (res: StopTime)
        ensures
            res@ == self@,
    {
        StopTime {
            trip_id: self.trip_id.clone(),
            departure_time: self.departure_time,
            stop_id: self.stop_id.clone(),
        }
    }
}

// ───────────────────────────── trips ─────────────────────────────

/// A trip along a route.
#[derive(Debug)]
pub struct Trip {
    pub service_id: String,
    pub route_id: String,
    pub trip_id: String,
    pub trip_headsign: Option<String>,
}

pub struct TripView {
    pub service_id: Seq<char>,
    pub route_id: Seq<char>,
    pub trip_id: Seq<char>,
    pub trip_headsign: Option<Seq<char>>,
}

impl View for Trip {
    type V = TripView;

    open spec fn view(&self) -> TripView {
        TripView {
            service_id: self.service_id@,
            route_id: self.route_id@,
            trip_id: self.trip_id@,
            trip_headsign: self.trip_headsign.deep_view(),
        }
    }
}

impl Clone for Trip {
    fn clone(&self) -> (res: Trip)
        ensures
            res@ == self@,
    {
        Trip {
            service_id: self.service_id.clone(),
            route_id: self.route_id.clone(),
            trip_id: self.trip_id.clone(),
            trip_headsign: clone_opt_string(&self.trip_headsign),
        }
    }
}

// ───────────────────────────── calendars ─────────────────────────────

/// A service schedule defining which days a service operates.
#[derive(Debug)]
pub struct Calendar {
    pub service_id: String,
    pub monday: bool,
    pub tuesday: bool,
    pub wednesday: bool,
    pub thursday: bool,
    pub friday: bool,
    pub saturday: bool,
    pub sunday: bool,
    /// First day of service, `YYYYMMDD`.
    pub start_date: String,
    /// Last day of service, `YYYYMMDD`.
    pub end_date: String,
}

pub struct CalendarView {
    pub service_id: Seq<char>,
    pub monday: bool,
    pub tuesday: bool,
    pub wednesday: bool,
    pub thursday: bool,
    pub friday: bool,
    pub saturday: bool,
    pub sunday: bool,
    pub start_date: Seq<char>,
    pub end_date: Seq<char>,
}

impl View for Calendar {
    type V = CalendarView;

    open spec fn view(&self) -> CalendarView {
        CalendarView {
            service_id: self.service_id@,
            monday: self.monday,
            tuesday: self.tuesday,
            wednesday: self.wednesday,
            thursday: self.thursday,
            friday: self.friday,
            saturday: self.saturday,
            sunday: self.sunday,
            start_date: self.start_date@,
            end_date: self.end_date@,
        }
    }
}

/// The weekday flag of `cal` for `weekday`.
pub open spec fn calendar_runs_on(cal: CalendarView, weekday: Weekday) -> bool {
    match weekday {
        Weekday::Monday => cal.monday,
        Weekday::Tuesday => cal.tuesday,
        Weekday::Wednesday => cal.wednesday,
        Weekday::Thursday => cal.thursday,
        Weekday::Friday => cal.friday,
        Weekday::Saturday => cal.saturday,
        Weekday::Sunday => cal.sunday,
    }
}

/// A calendar runs on a weekday exactly when its flag of that weekday's
/// name is set, whatever its other flags.
pub proof fn lemma_runs_on_reads_the_named_flag(cal: CalendarView)
    ensures
        calendar_runs_on(cal, Weekday::Monday) == cal.monday,
        calendar_runs_on(cal, Weekday::Tuesday) == cal.tuesday,
        calendar_runs_on(cal, Weekday::Wednesday) == cal.wednesday,
        calendar_runs_on(cal, Weekday::Thursday) == cal.thursday,
        calendar_runs_on(cal, Weekday::Friday) == cal.friday,
        calendar_runs_on(cal, Weekday::Saturday) == cal.saturday,
        calendar_runs_on(cal, Weekday::Sunday) == cal.sunday,
{
}

/// Changing the flag of one weekday changes whether the calendar runs on
/// that weekday, and on no other.
pub proof fn lemma_one_flag_one_weekday(cal: CalendarView)
    ensures
        forall|v: Weekday| v != Weekday::Wednesday ==> calendar_runs_on(
            CalendarView { wednesday: !cal.wednesday, ..cal },
            v,
        ) == calendar_runs_on(cal, v),
        calendar_runs_on(CalendarView { wednesday: !cal.wednesday, ..cal }, Weekday::Wednesday) != calendar_runs_on(
            cal,
            Weekday::Wednesday,
        ),
        forall|v: Weekday| v != Weekday::Thursday ==> calendar_runs_on(
            CalendarView { thursday: !cal.thursday, ..cal },
            v,
        ) == calendar_runs_on(cal, v),
        forall|v: Weekday| v != Weekday::Monday ==> calendar_runs_on(
            CalendarView { monday: !cal.monday, ..cal },
            v,
        ) == calendar_runs_on(cal, v),
        forall|v: Weekday| v != Weekday::Tuesday ==> calendar_runs_on(
            CalendarView { tuesday: !cal.tuesday, ..cal },
            v,
        ) == calendar_runs_on(cal, v),
        forall|v: Weekday| v != Weekday::Friday ==> calendar_runs_on(
            CalendarView { friday: !cal.friday, ..cal },
            v,
        ) == calendar_runs_on(cal, v),
        forall|v: Weekday| v != Weekday::Saturday ==> calendar_runs_on(
            CalendarView { saturday: !cal.saturday, ..cal },
            v,
        ) == calendar_runs_on(cal, v),
        forall|v: Weekday| v != Weekday::Sunday ==> calendar_runs_on(
            CalendarView { sunday: !cal.sunday, ..cal },
            v,
        ) == calendar_runs_on(cal, v),
{
}

impl Calendar {
    /// Whether the service runs on this day of the week.
    pub fn runs_on(&self, weekday: Weekday) -> (r: bool)
        ensures
            r == calendar_runs_on(self@, weekday),
    {
        match weekday {
            Weekday::Monday => self.monday,
            Weekday::Tuesday => self.tuesday,
            Weekday::Wednesday => self.wednesday,
            Weekday::Thursday => self.thursday,
            Weekday::Friday => self.friday,
            Weekday::Saturday => self.saturday,
            Weekday::Sunday => self.sunday,
        }
    }
}

/// Whether a service is added or removed on a particular date.
#[derive(Debug, Clone, Copy, PartialEq, Eq, Structural)]
pub enum ExceptionType {
    /// Service has been added for this date (`exception_type = 1`).
    Added,
    /// Service has been removed for this date (`exception_type = 2`).
    Removed,
}

/// The message for an `exception_type` code other than 1 or 2.
pub open spec fn invalid_exception_message(v: u8) -> Seq<char> {
    "invalid exception_type "@ + decimal(v as nat) + ": expected 1 (added) or 2 (removed)"@
}

impl ExceptionType {
    /// Decodes the GTFS `exception_type` code: 1 is `Added`, 2 is `Removed`.
    ///
    /// # Errors
    /// Any other code, with the message `invalid_exception_message`.
    pub fn from_code(v: u8) -> (res: Result<ExceptionType, String>)
        ensures
            v == 1 ==> res == Ok::<ExceptionType, String>(ExceptionType::Added),
            v == 2 ==> res == Ok::<ExceptionType, String>(ExceptionType::Removed),
            v != 1 && v != 2 ==> (res matches Err(m) && m@ == invalid_exception_message(v)),
    {
        if v == 1 {
            Ok(ExceptionType::Added)
        } else if v == 2 {
            Ok(ExceptionType::Removed)
        } else {
            let mut msg: Vec<char> = Vec::new();
            push_str(&mut msg, "invalid exception_type ");
            push_decimal(&mut msg, v as u64);
            push_str(&mut msg, ": expected 1 (added) or 2 (removed)");
            Err(string_from_chars(msg.as_slice()))
        }
    }
}

/// A service date exception (added or removed service day).
#[derive(Debug)]
pub struct CalendarDate {
    pub service_id: String,
    /// `YYYYMMDD`.
    pub date: String,
    pub exception_type: ExceptionType,
}

pub struct CalendarDateView {
    pub service_id: Seq<char>,
    pub date: Seq<char>,
    pub exception_type: ExceptionType,
}

impl View for CalendarDate {
    type V = CalendarDateView;

    open spec fn view(&self) -> CalendarDateView {
        CalendarDateView {
            service_id: self.service_id@,
            date: self.date@,
            exception_type: self.exception_type,
        }
    }
}

/// A transit agency (operator).
#[derive(Debug)]
pub struct Agency {
    pub agency_timezone: String,
}

pub struct AgencyView {
    pub agency_timezone: Seq<char>,
}

impl View for Agency {
    type V = AgencyView;

    open spec fn view(&self) -> AgencyView {
        AgencyView { agency_timezone: self.agency_timezone@ }
    }
}

// ───────────────────────────── routes ─────────────────────────────

/// A transit route.
#[derive(Debug)]
pub struct Route {
    pub route_id: String,
    pub route_short_name: Option<String>,
    pub route_long_name: Option<String>,
    pub route_type: Option<u16>,
}

pub struct RouteView {
    pub route_id: Seq<char>,
    pub route_short_name: Option<Seq<char>>,
    pub route_long_name: Option<Seq<char>>,
    pub route_type: Option<u16>,
}

impl View for Route {
    type V = RouteView;

    open spec fn view(&self) -> RouteView {
        RouteView {
            route_id: self.route_id@,
            route_short_name: self.route_short_name.deep_view(),
            route_long_name: self.route_long_name.deep_view(),
            route_type: self.route_type,
        }
    }
}

impl Clone for Route {
    fn clone(&self) -> (res: Route)
        ensures
            res@ == self@,
    {
        Route {
            route_id: self.route_id.clone(),
            route_short_name: clone_opt_string(&self.route_short_name),
            route_long_name: clone_opt_string(&self.route_long_name),
            route_type: self.route_type,
        }
    }
}

/// The display label of a GTFS `route_type` (basic codes and the extended
/// rail 100–199 and bus 700–799 ranges).
pub open spec fn transport_label_of(route_type: Option<u16>) -> Seq<char> {
    match route_type {
        Some(t) => if t == 0 {
            "Tram"@
        } else if t == 1 {
            "Subway"@
        } else if t == 2 || (100 <= t <= 199) {
            "Rail"@
        } else if t == 3 || (700 <= t <= 799) {
            "Bus"@
        } else if t == 4 {
            "Ferry"@
        } else if t == 5 {
            "Cable Car"@
        } else if t == 6 {
            "Gondola"@
        } else if t == 7 {
            "Funicular"@
        } else if t == 11 {
            "Trolleybus"@
        } else {
            "Transit"@
        },
        None => "Transit"@,
    }
}

/// The CSS class of a GTFS `route_type` badge: cable-borne and trolleybus
/// services share the tram style.
pub open spec fn transport_css_class_of(route_type: Option<u16>) -> Seq<char> {
    match route_type {
        Some(t) => if t == 0 || t == 5 || t == 6 || t == 7 || t == 11 {
            "tram"@
        } else if t == 1 {
            "subway"@
        } else if t == 2 || (100 <= t <= 199) {
            "rail"@
        } else if t == 3 || (700 <= t <= 799) {
            "bus"@
        } else if t == 4 {
            "ferry"@
        } else {
            "transit"@
        },
        None => "transit"@,
    }
}

/// The badge's CSS class follows the transport label: every route type
/// labelled `Bus` (basic 3 and extended 700–799) has the `bus` class and
/// no other does; likewise rail, subway and ferry; trams and the
/// cable-borne and trolleybus types share `tram`; the rest is `transit`.
pub proof fn lemma_badge_class_follows_label(route_type: Option<u16>)
    ensures
        transport_label_of(route_type) == "Bus"@ <==> transport_css_class_of(route_type) == "bus"@,
        transport_label_of(route_type) == "Rail"@ <==> transport_css_class_of(route_type) == "rail"@,
        transport_label_of(route_type) == "Subway"@ <==> transport_css_class_of(route_type) == "subway"@,
        transport_label_of(route_type) == "Ferry"@ <==> transport_css_class_of(route_type) == "ferry"@,
        transport_label_of(route_type) == "Transit"@ <==> transport_css_class_of(route_type) == "transit"@,
        (transport_label_of(route_type) == "Tram"@ || transport_label_of(route_type) == "Cable Car"@
            || transport_label_of(route_type) == "Gondola"@ || transport_label_of(route_type) == "Funicular"@
            || transport_label_of(route_type) == "Trolleybus"@) <==> transport_css_class_of(route_type) == "tram"@,
        transport_css_class_of(route_type) == "bus"@ <==> (route_type matches Some(t) && (t == 3 || 700 <= t <= 799)),
        transport_css_class_of(route_type) == "rail"@ <==> (route_type matches Some(t) && (t == 2 || 100 <= t <= 199)),
{
    reveal_strlit("Bus");
    assert("Bus"@.len() == 3 && "Bus"@[0] == 'B');
    reveal_strlit("Rail");
    assert("Rail"@.len() == 4 && "Rail"@[0] == 'R');
    reveal_strlit("Subway");
    assert("Subway"@.len() == 6 && "Subway"@[0] == 'S');
    reveal_strlit("Ferry");
    assert("Ferry"@.len() == 5 && "Ferry"@[0] == 'F');
    reveal_strlit("Transit");
    assert("Transit"@.len() == 7 && "Transit"@[0] == 'T');
    reveal_strlit("Tram");
    assert("Tram"@.len() == 4 && "Tram"@[0] == 'T');
    reveal_strlit("Cable Car");
    assert("Cable Car"@.len() == 9 && "Cable Car"@[0] == 'C');
    reveal_strlit("Gondola");
    assert("Gondola"@.len() == 7 && "Gondola"@[0] == 'G');
    reveal_strlit("Funicular");
    assert("Funicular"@.len() == 9 && "Funicular"@[0] == 'F');
    reveal_strlit("Trolleybus");
    assert("Trolleybus"@.len() == 10 && "Trolleybus"@[0] == 'T');
    reveal_strlit("bus");
    assert("bus"@.len() == 3 && "bus"@[0] == 'b');
    reveal_strlit("rail");
    assert("rail"@.len() == 4 && "rail"@[0] == 'r');
    reveal_strlit("subway");
    assert("subway"@.len() == 6 && "subway"@[0] == 's');
    reveal_strlit("ferry");
    assert("ferry"@.len() == 5 && "ferry"@[0] == 'f');
    reveal_strlit("transit");
    assert("transit"@.len() == 7 && "transit"@[0] == 't');
    reveal_strlit("tram");
    assert("tram"@.len() == 4 && "tram"@[0] == 't');
}

impl Route {
    /// Map GTFS `route_type` integer to a display label.
    pub fn transport_label(&self) -> (res: &'static str)
        ensures
            res@ == transport_label_of(self.route_type),
    {
        match self.route_type {
            Some(t) => if t == 0 {
                "Tram"
            } else if t == 1 {
                "Subway"
            } else if t == 2 || (100 <= t && t <= 199) {
                "Rail"
            } else if t == 3 || (700 <= t && t <= 799) {
                "Bus"
            } else if t == 4 {
                "Ferry"
            } else if t == 5 {
                "Cable Car"
            } else if t == 6 {
                "Gondola"
            } else if t == 7 {
                "Funicular"
            } else if t == 11 {
                "Trolleybus"
            } else {
                "Transit"
            },
            None => "Transit",
        }
    }

    /// CSS class name for the route badge (used by the web frontend).
    pub fn transport_css_class(&self) -> (res: &'static str)
        ensures
            res@ == transport_css_class_of(self.route_type),
    {
        Self::transport_css_class_for(self.route_type)
    }

    /// CSS class name from a raw `route_type` value (avoids constructing a [`Route`]).
    pub fn transport_css_class_for(route_type: Option<u16>) -> (res: &'static str)
        ensures
            res@ == transport_css_class_of(route_type),
    {
        match route_type {
            Some(t) => if t == 0 || t == 5 || t == 6 || t == 7 || t == 11 {
                "tram"
            } else if t == 1 {
                "subway"
            } else if t == 2 || (100 <= t && t <= 199) {
                "rail"
            } else if t == 3 || (700 <= t && t <= 799) {
                "bus"
            } else if t == 4 {
                "ferry"
            } else {
                "transit"
            },
            None => "transit",
        }
    }
}

} // verus!
