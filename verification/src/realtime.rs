//! Real-time trip updates (GTFS-RT) and the status of a departure.
use vstd::prelude::*;
use vstd::hash_map::StringHashMap;

use crate::text::{decimal, push_decimal, push_str, string_from_chars};

verus! {

/// `TripDescriptor.ScheduleRelationship::CANCELED`.
pub const TRIP_CANCELED: i32 = 3;

/// `StopTimeUpdate.ScheduleRelationship::SKIPPED`.
pub const STOP_SKIPPED: i32 = 1;

// ───────────────────────────── decoded feed messages ─────────────────────────────

/// The timing of an arrival or departure in a stop time update.
#[derive(Debug, Clone, Copy)]
pub struct StopTimeEvent {
    pub delay: Option<i32>,
}

/// A real-time update for one stop of a trip.
#[derive(Debug)]
pub struct StopTimeUpdate {
    pub stop_id: Option<String>,
    pub departure: Option<StopTimeEvent>,
    pub schedule_relationship: Option<i32>,
}

/// Which trip an update is about.
#[derive(Debug)]
pub struct TripDescriptor {
    pub trip_id: Option<String>,
    pub schedule_relationship: Option<i32>,
}

/// A real-time update for one trip.
#[derive(Debug)]
pub struct TripUpdate {
    pub trip: TripDescriptor,
    pub stop_time_update: Vec<StopTimeUpdate>,
}

/// One entity of a feed message.
#[derive(Debug)]
pub struct FeedEntity {
    pub trip_update: Option<TripUpdate>,
}

pub struct StopTimeUpdateView {
    pub stop_id: Option<Seq<char>>,
    pub departure: Option<StopTimeEvent>,
    pub schedule_relationship: Option<i32>,
}

impl View for StopTimeUpdate {
    type V = StopTimeUpdateView;

    open spec fn view(&self) -> StopTimeUpdateView {
        StopTimeUpdateView {
            stop_id: self.stop_id.deep_view(),
            departure: self.departure,
            schedule_relationship: self.schedule_relationship,
        }
    }
}

pub struct TripUpdateView {
    pub trip_id: Option<Seq<char>>,
    pub schedule_relationship: Option<i32>,
    pub stop_time_update: Seq<StopTimeUpdateView>,
}

impl View for TripUpdate {
    type V = TripUpdateView;

    open spec fn view(&self) -> TripUpdateView {
        TripUpdateView {
            trip_id: self.trip.trip_id.deep_view(),
            schedule_relationship: self.trip.schedule_relationship,
            stop_time_update: self.stop_time_update@.map_values(|u: StopTimeUpdate| u@),
        }
    }
}

impl View for FeedEntity {
    type V = Option<TripUpdateView>;

    open spec fn view(&self) -> Option<TripUpdateView> {
        match self.trip_update {
            Some(t) => Some(t@),
            None => None,
        }
    }
}

// ───────────────────────────── statuses ─────────────────────────────

/// The real-time state of one stop of a running trip.
#[derive(Debug, Clone, Copy, PartialEq, Eq, Structural)]
pub struct StopTimeStatus {
    pub departure_delay_secs: Option<i32>,
    pub skipped: bool,
}

/// The real-time state of a trip.
pub enum TripStatus {
    Running(StringHashMap<StopTimeStatus>),
    Canceled,
}

pub enum TripStatusView {
    Running(Map<Seq<char>, StopTimeStatus>),
    Canceled,
}

impl View for TripStatus {
    type V = TripStatusView;

    open spec fn view(&self) -> TripStatusView {
        match self {
            TripStatus::Running(m) => TripStatusView::Running(m@),
            TripStatus::Canceled => TripStatusView::Canceled,
        }
    }
}

/// Real-time trip states by trip id.
pub struct RealtimeFeed {
    pub trips: StringHashMap<TripStatus>,
}

impl View for RealtimeFeed {
    type V = Map<Seq<char>, TripStatusView>;

    open spec fn view(&self) -> Map<Seq<char>, TripStatusView> {
        self.trips@.map_values(|t: TripStatus| t@)
    }
}

/// The real-time status of one departure.
#[derive(Debug, Clone, Copy, PartialEq, Eq, Structural)]
pub enum DepartureStatus {
    /// Running; positive is late, negative early, zero on time.
    OnTime { delay_secs: i32 },
    Canceled,
    Skipped,
}

/// The status of the departure of `trip_id` at `stop_id`: unknown without
/// an update for the trip; canceled when the trip is; for a running trip,
/// unknown without an update for the stop, skipped when the stop is, else
/// its departure delay (0 when none is given).
pub open spec fn status_of(feed: Map<Seq<char>, TripStatusView>, trip_id: Seq<char>, stop_id: Seq<char>) -> Option<DepartureStatus> {
    if !feed.contains_key(trip_id) {
        None
    } else {
        match feed[trip_id] {
            TripStatusView::Canceled => Some(DepartureStatus::Canceled),
            TripStatusView::Running(stops) => if !stops.contains_key(stop_id) {
                None
            } else if stops[stop_id].skipped {
                Some(DepartureStatus::Skipped)
            } else {
                Some(DepartureStatus::OnTime {
                    delay_secs: match stops[stop_id].departure_delay_secs {
                        Some(d) => d,
                        None => 0,
                    },
                })
            },
        }
    }
}

impl RealtimeFeed {
    /// The status of the departure of `trip_id` at `stop_id` (see `status_of`).
    pub fn status_for(&self, trip_id: &str, stop_id: &str) -> (res: Option<DepartureStatus>)
        ensures
            res == status_of(self@, trip_id@, stop_id@),
    {
        match self.trips.get(trip_id) {
            None => None,
            Some(TripStatus::Canceled) => Some(DepartureStatus::Canceled),
            Some(TripStatus::Running(stops)) => match stops.get(stop_id) {
                None => None,
                Some(sts) => {
                    if sts.skipped {
                        return Some(DepartureStatus::Skipped);
                    }
                    Some(DepartureStatus::OnTime {
                        delay_secs: match sts.departure_delay_secs {
                            Some(d) => d,
                            None => 0,
                        },
                    })
                },
            },
        }
    }
}

// ───────────────────────────── building a feed ─────────────────────────────

/// A present, non-empty identifier.
pub open spec fn nonempty_id(id: Option<Seq<char>>) -> bool {
    id matches Some(s) && s.len() > 0
}

/// The stop states of a running trip: one per update with a stop id, a
/// later update for the same stop replacing an earlier one.
pub open spec fn stop_statuses(updates: Seq<StopTimeUpdateView>) -> Map<Seq<char>, StopTimeStatus>
    decreases updates.len(),
{
    if updates.len() == 0 {
        Map::empty()
    } else {
        let m = stop_statuses(updates.drop_last());
        let u = updates.last();
        if nonempty_id(u.stop_id) {
            m.insert(
                u.stop_id->0,
                StopTimeStatus {
                    departure_delay_secs: match u.departure {
                        Some(e) => e.delay,
                        None => None,
                    },
                    skipped: u.schedule_relationship == Some(STOP_SKIPPED),
                },
            )
        } else {
            m
        }
    }
}

/// The state a trip update gives its trip.
pub open spec fn trip_status_of(tu: TripUpdateView) -> TripStatusView {
    if tu.schedule_relationship == Some(TRIP_CANCELED) {
        TripStatusView::Canceled
    } else {
        TripStatusView::Running(stop_statuses(tu.stop_time_update))
    }
}

/// The trip states of a feed message: one per trip update with a trip id,
/// a later update for the same trip replacing an earlier one.
pub open spec fn feed_of(entities: Seq<Option<TripUpdateView>>) -> Map<Seq<char>, TripStatusView>
    decreases entities.len(),
{
    if entities.len() == 0 {
        Map::empty()
    } else {
        let m = feed_of(entities.drop_last());
        match entities.last() {
            Some(tu) => if nonempty_id(tu.trip_id) {
                m.insert(tu.trip_id->0, trip_status_of(tu))
            } else {
                m
            },
            None => m,
        }
    }
}

fn nonempty(id: &Option<String>) -> (res: bool)
    ensures
        res == nonempty_id(id.deep_view()),
{
    match id {
        Some(s) => !s.as_str().is_empty(),
        None => false,
    }
}

fn running_statuses(updates: &Vec<StopTimeUpdate>) -> (res: StringHashMap<StopTimeStatus>)
    ensures
        res@ == stop_statuses(updates@.map_values(|u: StopTimeUpdate| u@)),
{
    let ghost uv = updates@.map_values(|u: StopTimeUpdate| u@);
    let mut m: StringHashMap<StopTimeStatus> = StringHashMap::new();
    let mut i: usize = 0;
    assert(uv.take(0) =~= seq![]);
    while i < updates.len()
        invariant
            i <= updates@.len(),
            uv == updates@.map_values(|u: StopTimeUpdate| u@),
            m@ == stop_statuses(uv.take(i as int)),
        decreases updates@.len() - i,
    {
        let u = &updates[i];
        assert(uv.take(i + 1).drop_last() =~= uv.take(i as int));
        assert(uv.take(i + 1).last() == u@);
        if nonempty(&u.stop_id) {
            match &u.stop_id {
                Some(id) => {
                    let status = StopTimeStatus {
                        departure_delay_secs: match u.departure {
                            Some(e) => e.delay,
                            None => None,
                        },
                        skipped: u.schedule_relationship == Some(STOP_SKIPPED),
                    };
                    m.insert(id.clone(), status);
                },
                None => {},
            }
        }
        i = i + 1;
    }
    assert(uv.take(updates@.len() as int) =~= uv);
    m
}

impl RealtimeFeed {
    /// The trip states of a decoded feed message (see `feed_of`): trip
    /// updates without a trip id, and stop updates without a stop id, are
    /// ignored; a canceled trip keeps no stop states.
    pub fn from_entities(entities: &Vec<FeedEntity>) -> (res: RealtimeFeed)
        ensures
            res@ == feed_of(entities@.map_values(|e: FeedEntity| e@)),
    {
        let ghost ev = entities@.map_values(|e: FeedEntity| e@);
        let mut trips: StringHashMap<TripStatus> = StringHashMap::new();
        let mut i: usize = 0;
        assert(ev.take(0) =~= seq![]);
        assert(trips@.map_values(|t: TripStatus| t@) =~= Map::empty());
        while i < entities.len()
            invariant
                i <= entities@.len(),
                ev == entities@.map_values(|e: FeedEntity| e@),
                trips@.map_values(|t: TripStatus| t@) == feed_of(ev.take(i as int)),
            decreases entities@.len() - i,
        {
            let e = &entities[i];
            assert(ev.take(i + 1).drop_last() =~= ev.take(i as int));
            assert(ev.take(i + 1).last() == e@);
            match &e.trip_update {
                Some(tu) => {
                    if nonempty(&tu.trip.trip_id) {
                        match &tu.trip.trip_id {
                            Some(id) => {
                                let status = if tu.trip.schedule_relationship == Some(TRIP_CANCELED) {
                                    TripStatus::Canceled
                                } else {
                                    TripStatus::Running(running_statuses(&tu.stop_time_update))
                                };
                                let ghost sv = status@;
                                let ghost before = trips@;
                                trips.insert(id.clone(), status);
                                assert(trips@.map_values(|t: TripStatus| t@) =~= before.map_values(|t: TripStatus| t@).insert(id@, sv));
                            },
                            None => {},
                        }
                    }
                },
                None => {},
            }
            i = i + 1;
        }
        assert(ev.take(entities@.len() as int) =~= ev);
        RealtimeFeed { trips }
    }
}

// ───────────────────────────── display ─────────────────────────────

/// The status annotation: `[CANCELLED]`, `[STOP SKIPPED]`, `[on time]`, or
/// the delay as `[+<s>s]` / `[-<s>s]` under a minute and `[+<m>m <s>s]` /
/// `[-<m>m <s>s]` from a minute on.
pub open spec fn status_text(s: DepartureStatus) -> Seq<char> {
    match s {
        DepartureStatus::Canceled => "[CANCELLED]"@,
        DepartureStatus::Skipped => "[STOP SKIPPED]"@,
        DepartureStatus::OnTime { delay_secs } => if delay_secs == 0 {
            "[on time]"@
        } else {
            let sign = if delay_secs > 0 { "+"@ } else { "-"@ };
            let secs: nat = if delay_secs > 0 { delay_secs as nat } else { (-delay_secs) as nat };
            if secs / 60 == 0 {
                "["@ + sign + decimal(secs % 60) + "s]"@
            } else {
                "["@ + sign + decimal(secs / 60) + "m "@ + decimal(secs % 60) + "s]"@
            }
        },
    }
}

/// The annotation tells the states apart: `[CANCELLED]`, `[STOP SKIPPED]`
/// and `[on time]` for a zero delay; a late departure's starts with `[+`,
/// an early one's with `[-`, and both end in `s]`.
pub proof fn lemma_status_text_shows_the_state(s: DepartureStatus)
    ensures
        s == DepartureStatus::Canceled ==> status_text(s) == "[CANCELLED]"@,
        s == DepartureStatus::Skipped ==> status_text(s) == "[STOP SKIPPED]"@,
        s == (DepartureStatus::OnTime { delay_secs: 0 }) ==> status_text(s) == "[on time]"@,
        (s matches DepartureStatus::OnTime { delay_secs } && delay_secs > 0) ==> status_text(s).subrange(0, 2)
            == "[+"@,
        (s matches DepartureStatus::OnTime { delay_secs } && delay_secs < 0) ==> status_text(s).subrange(0, 2)
            == "[-"@,
        (s matches DepartureStatus::OnTime { delay_secs } && delay_secs != 0) ==> status_text(s).subrange(
            status_text(s).len() - 2,
            status_text(s).len() as int,
        ) == "s]"@,
{
    reveal_strlit("[+");
    reveal_strlit("[-");
    reveal_strlit("s]");
    reveal_strlit("[");
    reveal_strlit("+");
    reveal_strlit("-");
    reveal_strlit("m ");
    if let DepartureStatus::OnTime { delay_secs } = s {
        if delay_secs != 0 {
            let t = status_text(s);
            assert(t.subrange(0, 2) =~= "[+"@ || t.subrange(0, 2) =~= "[-"@);
            assert(t.subrange(t.len() - 2, t.len() as int) =~= "s]"@);
        }
    }
}

impl DepartureStatus {
    /// The annotation shown next to a departure (see `status_text`).
    pub fn to_string(&self) -> (res: String)
        ensures
            res@ == status_text(*self),
    {
        let mut out: Vec<char> = Vec::new();
        match self {
            DepartureStatus::Canceled => push_str(&mut out, "[CANCELLED]"),
            DepartureStatus::Skipped => push_str(&mut out, "[STOP SKIPPED]"),
            DepartureStatus::OnTime { delay_secs } => {
                let d = *delay_secs;
                if d == 0 {
                    push_str(&mut out, "[on time]");
                } else {
                    let secs: u64 = if d > 0 { d as u64 } else { (-(d as i64)) as u64 };
                    push_str(&mut out, "[");
                    if d > 0 {
                        push_str(&mut out, "+");
                    } else {
                        push_str(&mut out, "-");
                    }
                    if secs / 60 == 0 {
                        push_decimal(&mut out, secs % 60);
                        push_str(&mut out, "s]");
                    } else {
                        push_decimal(&mut out, secs / 60);
                        push_str(&mut out, "m ");
                        push_decimal(&mut out, secs % 60);
                        push_str(&mut out, "s]");
                    }
                }
            },
        }
        string_from_chars(out.as_slice())
    }
}

} // verus!
