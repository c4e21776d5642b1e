//! The trips serving a set of stops, their departures in time order, and
//! per-route summaries.
use vstd::prelude::*;
use vstd::hash_map::StringHashMap;

use crate::model::{
    clone_opt_string, transport_label_of, Route, RouteView, StopTime, StopTimeView, Trip,
    TripView,
};
use crate::records::record_views;
use crate::sorting::{
    insertion_point, lemma_insertion_point_is, lemma_sort_by_key, sort_by_key, sorted_by,
};
use crate::text::{decimal, push_decimal, push_str, string_from_chars};
use crate::time::{gtfs_time_text, GtfsTime};

verus! {

/// Trips keyed by `trip_id`, a later trip replacing an earlier one with the
/// same id.
pub open spec fn trips_by_id(s: Seq<TripView>) -> Map<Seq<char>, TripView>
    decreases s.len(),
{
    if s.len() == 0 {
        Map::empty()
    } else {
        trips_by_id(s.drop_last()).insert(s.last().trip_id, s.last())
    }
}

/// Routes keyed by `route_id`, a later route replacing an earlier one with
/// the same id.
pub open spec fn routes_by_id(s: Seq<RouteView>) -> Map<Seq<char>, RouteView>
    decreases s.len(),
{
    if s.len() == 0 {
        Map::empty()
    } else {
        routes_by_id(s.drop_last()).insert(s.last().route_id, s.last())
    }
}

/// All trips serving a set of stops, with their routes resolved.
pub struct StopSchedule {
    pub stop_times: Vec<StopTime>,
    pub trips: StringHashMap<Trip>,
    pub routes: StringHashMap<Route>,
}

pub struct ScheduleView {
    pub stop_times: Seq<StopTimeView>,
    pub trips: Map<Seq<char>, TripView>,
    pub routes: Map<Seq<char>, RouteView>,
}

impl View for StopSchedule {
    type V = ScheduleView;

    open spec fn view(&self) -> ScheduleView {
        ScheduleView {
            stop_times: record_views(self.stop_times@),
            trips: self.trips@.map_values(|t: Trip| t@),
            routes: self.routes@.map_values(|r: Route| r@),
        }
    }
}

/// One departure: the stop time, its trip and the trip's route if known.
pub type DepartureView = (StopTimeView, TripView, Option<RouteView>);

/// The stop times that belong to a known trip, in their order, each with
/// its trip and (if known) the trip's route.
pub open spec fn join_departures(
    sts: Seq<StopTimeView>,
    trips: Map<Seq<char>, TripView>,
    routes: Map<Seq<char>, RouteView>,
) -> Seq<DepartureView>
    decreases sts.len(),
{
    if sts.len() == 0 {
        seq![]
    } else {
        let prev = join_departures(sts.drop_last(), trips, routes);
        let st = sts.last();
        if trips.contains_key(st.trip_id) {
            let t = trips[st.trip_id];
            prev.push(
                (st, t, if routes.contains_key(t.route_id) {
                    Some(routes[t.route_id])
                } else {
                    None
                }),
            )
        } else {
            prev
        }
    }
}

/// Departures are ordered by departure time.
pub open spec fn by_departure() -> spec_fn(DepartureView) -> int {
    |d: DepartureView| d.0.departure_secs as int
}

/// The departures of a schedule, by departure time (equal times in the
/// order of the stop times).
pub open spec fn schedule_departures(s: ScheduleView) -> Seq<DepartureView> {
    sort_by_key(join_departures(s.stop_times, s.trips, s.routes), by_departure())
}

pub open spec fn departure_view(d: (&StopTime, &Trip, Option<&Route>)) -> DepartureView {
    (
        d.0@,
        d.1@,
        match d.2 {
            Some(r) => Some(r@),
            None => None,
        },
    )
}

pub open spec fn departure_views(s: Seq<(&StopTime, &Trip, Option<&Route>)>) -> Seq<DepartureView> {
    s.map_values(|d: (&StopTime, &Trip, Option<&Route>)| departure_view(d))
}

impl StopSchedule {
    /// A schedule of the given stop times, with the trips keyed by
    /// `trip_id` and the routes by `route_id` (a later record replacing an
    /// earlier one with the same id).
    pub fn new(stop_times: Vec<StopTime>, trips: Vec<Trip>, routes: Vec<Route>) -> (res: StopSchedule)
        ensures
            res@ == (ScheduleView {
                stop_times: record_views(stop_times@),
                trips: trips_by_id(record_views(trips@)),
                routes: routes_by_id(record_views(routes@)),
            }),
    {
        let mut tm: StringHashMap<Trip> = StringHashMap::new();
        let mut i: usize = 0;
        assert(tm@.map_values(|t: Trip| t@) =~= trips_by_id(record_views(trips@).take(0)));
        while i < trips.len()
            invariant
                i <= trips@.len(),
                tm@.map_values(|t: Trip| t@) == trips_by_id(record_views(trips@).take(i as int)),
            decreases trips@.len() - i,
        {
            let t = trips[i].clone();
            let ghost before = tm@;
            tm.insert(trips[i].trip_id.clone(), t);
            assert(record_views(trips@).take(i + 1).drop_last() =~= record_views(trips@).take(i as int));
            assert(tm@.map_values(|t: Trip| t@) =~= before.map_values(|t: Trip| t@).insert(trips@[i as int].trip_id@, trips@[i as int]@));
            i = i + 1;
        }
        let mut rm: StringHashMap<Route> = StringHashMap::new();
        let mut j: usize = 0;
        assert(rm@.map_values(|r: Route| r@) =~= routes_by_id(record_views(routes@).take(0)));
        while j < routes.len()
            invariant
                j <= routes@.len(),
                rm@.map_values(|r: Route| r@) == routes_by_id(record_views(routes@).take(j as int)),
            decreases routes@.len() - j,
        {
            let r = routes[j].clone();
            let ghost before = rm@;
            rm.insert(routes[j].route_id.clone(), r);
            assert(record_views(routes@).take(j + 1).drop_last() =~= record_views(routes@).take(j as int));
            assert(rm@.map_values(|r: Route| r@) =~= before.map_values(|r: Route| r@).insert(routes@[j as int].route_id@, routes@[j as int]@));
            j = j + 1;
        }
        assert(record_views(trips@).take(trips@.len() as int) =~= record_views(trips@));
        assert(record_views(routes@).take(routes@.len() as int) =~= record_views(routes@));
        StopSchedule { stop_times, trips: tm, routes: rm }
    }

    /// Iterate over departures sorted by departure time,
    /// yielding `(stop_time, trip, route)` tuples.
    pub fn departures(&self) -> (res: Vec<(&StopTime, &Trip, Option<&Route>)>)
        ensures
            departure_views(res@) == schedule_departures(self@),
    {
        let ghost sv = self@;
        let mut deps: Vec<(&StopTime, &Trip, Option<&Route>)> = Vec::new();
        let mut i: usize = 0;
        assert(sv.stop_times.take(0) =~= seq![]);
        assert(departure_views(deps@) =~= seq![]);
        while i < self.stop_times.len()
            invariant
                i <= self.stop_times@.len(),
                sv == self@,
                departure_views(deps@) == sort_by_key(
                    join_departures(sv.stop_times.take(i as int), sv.trips, sv.routes),
                    by_departure(),
                ),
            decreases self.stop_times@.len() - i,
        {
            let st = &self.stop_times[i];
            let ghost prefix = sv.stop_times.take(i + 1);
            assert(prefix.drop_last() =~= sv.stop_times.take(i as int));
            assert(prefix.last() == st@);
            match self.trips.get(st.trip_id.as_str()) {
                Some(trip) => {
                    let route = self.routes.get(trip.route_id.as_str());
                    let k = st.departure_time.as_secs();
                    let ghost dv = departure_views(deps@);
                    let mut p: usize = 0;
                    while p < deps.len() && deps[p].0.departure_time.as_secs() <= k
                        invariant
                            p <= deps@.len(),
                            dv == departure_views(deps@),
                            forall|q: int| 0 <= q < p ==> (by_departure())(dv[q]) <= k as int,
                        decreases deps@.len() - p,
                    {
                        p = p + 1;
                    }
                    proof {
                        lemma_insertion_point_is(dv, k as int, by_departure(), p as int);
                    }
                    let item = (st, trip, route);
                    deps.insert(p, item);
                    assert(departure_views(deps@) =~= dv.insert(p as int, departure_view(item)));
                    proof {
                        assert(sv.trips.contains_key(st@.trip_id));
                        assert(sv.trips[st@.trip_id] == trip@);
                        match route {
                            Some(r) => {
                                assert(sv.routes.contains_key(trip@.route_id));
                                assert(sv.routes[trip@.route_id] == r@);
                            },
                            None => {
                                assert(!sv.routes.contains_key(trip@.route_id));
                            },
                        }
                        let x = departure_view(item);
                        assert(join_departures(prefix, sv.trips, sv.routes) == join_departures(
                            sv.stop_times.take(i as int),
                            sv.trips,
                            sv.routes,
                        ).push(x));
                        assert((by_departure())(x) == k as int);
                        let jn = join_departures(sv.stop_times.take(i as int), sv.trips, sv.routes);
                        assert(jn.push(x).drop_last() =~= jn);
                        assert(jn.push(x).last() == x);
                        assert(sort_by_key(jn.push(x), by_departure()) == dv.insert(p as int, x));
                    }
                },
                None => {
                    assert(!sv.trips.contains_key(st@.trip_id));
                    assert(join_departures(prefix, sv.trips, sv.routes) == join_departures(
                        sv.stop_times.take(i as int),
                        sv.trips,
                        sv.routes,
                    ));
                },
            }
            i = i + 1;
        }
        assert(sv.stop_times.take(self.stop_times@.len() as int) =~= sv.stop_times);
        deps
    }
}

/// The departures are ordered by departure time and are exactly the joined
/// stop times, each once.
pub proof fn lemma_departures_sorted(s: ScheduleView)
    ensures
        sorted_by(schedule_departures(s), by_departure()),
        schedule_departures(s).to_multiset() == join_departures(
            s.stop_times,
            s.trips,
            s.routes,
        ).to_multiset(),
{
    lemma_sort_by_key(join_departures(s.stop_times, s.trips, s.routes), by_departure());
}


// ───────────────────────────── route summaries ─────────────────────────────

/// Condensed view of a route serving a stop.
pub struct RouteSummary {
    pub route_id: String,
    pub short_name: Option<String>,
    pub long_name: Option<String>,
    pub route_type: Option<u16>,
    pub headsign: Option<String>,
    pub first_departure: GtfsTime,
    pub trip_count: usize,
}

pub struct RouteSummaryView {
    pub route_id: Seq<char>,
    pub short_name: Option<Seq<char>>,
    pub long_name: Option<Seq<char>>,
    pub route_type: Option<u16>,
    pub headsign: Option<Seq<char>>,
    pub first_departure: u32,
    pub trip_count: nat,
}

impl View for RouteSummary {
    type V = RouteSummaryView;

    open spec fn view(&self) -> RouteSummaryView {
        RouteSummaryView {
            route_id: self.route_id@,
            short_name: self.short_name.deep_view(),
            long_name: self.long_name.deep_view(),
            route_type: self.route_type,
            headsign: self.headsign.deep_view(),
            first_departure: self.first_departure@,
            trip_count: self.trip_count as nat,
        }
    }
}

/// The departures of one route: its id, the index of its first departure
/// and how many departures it has.
pub struct RouteGroup {
    pub route_id: Seq<char>,
    pub first: int,
    pub count: nat,
}

/// The group of `route_id` among `groups`.
pub open spec fn group_index(groups: Seq<RouteGroup>, route_id: Seq<char>) -> Option<int>
    decreases groups.len(),
{
    if groups.len() == 0 {
        None
    } else if groups[0].route_id == route_id {
        Some(0)
    } else {
        match group_index(groups.drop_first(), route_id) {
            Some(q) => Some(q + 1),
            None => None,
        }
    }
}

/// The departures grouped by the trip's `route_id`, groups in the order of
/// their first departure.
pub open spec fn route_groups(deps: Seq<DepartureView>) -> Seq<RouteGroup>
    decreases deps.len(),
{
    if deps.len() == 0 {
        seq![]
    } else {
        let g = route_groups(deps.drop_last());
        let rid = deps.last().1.route_id;
        match group_index(g, rid) {
            Some(q) => g.update(
                q,
                RouteGroup { route_id: g[q].route_id, first: g[q].first, count: g[q].count + 1 },
            ),
            None => g.push(RouteGroup { route_id: rid, first: deps.len() - 1, count: 1 }),
        }
    }
}

/// The summary of a group: names and type of the route, headsign of its
/// first trip, its first departure time and its number of departures.
pub open spec fn summary_of(deps: Seq<DepartureView>, g: RouteGroup) -> RouteSummaryView {
    let d = deps[g.first];
    RouteSummaryView {
        route_id: d.1.route_id,
        short_name: match d.2 {
            Some(r) => r.route_short_name,
            None => None,
        },
        long_name: match d.2 {
            Some(r) => r.route_long_name,
            None => None,
        },
        route_type: match d.2 {
            Some(r) => r.route_type,
            None => None,
        },
        headsign: d.1.trip_headsign,
        first_departure: d.0.departure_secs,
        trip_count: g.count,
    }
}

/// Summaries are ordered by their first departure.
pub open spec fn by_first_departure() -> spec_fn(RouteSummaryView) -> int {
    |s: RouteSummaryView| s.first_departure as int
}

/// The route summaries of a list of departures, ordered by first departure.
pub open spec fn summaries_of(deps: Seq<DepartureView>) -> Seq<RouteSummaryView> {
    sort_by_key(
        route_groups(deps).map_values(|g: RouteGroup| summary_of(deps, g)),
        by_first_departure(),
    )
}

/// The sum of the groups' departure counts.
pub open spec fn total_count(groups: Seq<RouteGroup>) -> nat
    decreases groups.len(),
{
    if groups.len() == 0 {
        0
    } else {
        total_count(groups.drop_last()) + groups.last().count
    }
}

proof fn lemma_group_index(groups: Seq<RouteGroup>, rid: Seq<char>)
    ensures
        match group_index(groups, rid) {
            Some(q) => 0 <= q < groups.len() && groups[q].route_id == rid && forall|r: int|
                0 <= r < q ==> groups[r].route_id != rid,
            None => forall|r: int| 0 <= r < groups.len() ==> groups[r].route_id != rid,
        },
    decreases groups.len(),
{
    if groups.len() > 0 {
        lemma_group_index(groups.drop_first(), rid);
        if groups[0].route_id != rid {
            assert forall|r: int| 1 <= r < groups.len() implies groups[r] == groups.drop_first()[r - 1] by {}
        }
    }
}

proof fn lemma_group_index_is(groups: Seq<RouteGroup>, rid: Seq<char>, q: int)
    requires
        0 <= q <= groups.len(),
        forall|r: int| 0 <= r < q ==> groups[r].route_id != rid,
        q < groups.len() ==> groups[q].route_id == rid,
    ensures
        group_index(groups, rid) == (if q < groups.len() { Some(q) } else { None::<int> }),
    decreases q,
{
    if q > 0 {
        lemma_group_index_is(groups.drop_first(), rid, q - 1);
    }
}

proof fn lemma_total_count_update(g: Seq<RouteGroup>, q: int, v: RouteGroup)
    requires
        0 <= q < g.len(),
    ensures
        total_count(g.update(q, v)) + g[q].count == total_count(g) + v.count,
    decreases g.len(),
{
    if q < g.len() - 1 {
        lemma_total_count_update(g.drop_last(), q, v);
        assert(g.update(q, v).drop_last() =~= g.drop_last().update(q, v));
    } else {
        assert(g.update(q, v).drop_last() =~= g.drop_last());
    }
}

/// What the groups of a list of departures hold: each group's first
/// departure has its route, route ids are distinct, and every departure is
/// counted in exactly one group.
pub proof fn lemma_route_groups(deps: Seq<DepartureView>)
    ensures
        forall|q: int|
            0 <= q < route_groups(deps).len() ==> {
                let g = #[trigger] route_groups(deps)[q];
                &&& 0 <= g.first < deps.len()
                &&& deps[g.first].1.route_id == g.route_id
                &&& 1 <= g.count <= deps.len()
            },
        forall|q: int, r: int|
            0 <= q < r < route_groups(deps).len() ==> #[trigger] route_groups(deps)[q].route_id
                != #[trigger] route_groups(deps)[r].route_id,
        total_count(route_groups(deps)) == deps.len(),
    decreases deps.len(),
{
    if deps.len() > 0 {
        let prev = deps.drop_last();
        lemma_route_groups(prev);
        let g = route_groups(prev);
        let rid = deps.last().1.route_id;
        lemma_group_index(g, rid);
        match group_index(g, rid) {
            Some(q) => {
                let v = RouteGroup { route_id: g[q].route_id, first: g[q].first, count: g[q].count + 1 };
                lemma_total_count_update(g, q, v);
            },
            None => {
                let v = RouteGroup { route_id: rid, first: deps.len() - 1, count: 1 };
                assert(g.push(v).drop_last() =~= g);
            },
        }
        let out = route_groups(deps);
        assert forall|q: int| 0 <= q < out.len() implies {
            let gq = #[trigger] out[q];
            &&& 0 <= gq.first < deps.len()
            &&& deps[gq.first].1.route_id == gq.route_id
            &&& 1 <= gq.count <= deps.len()
        } by {
            if q < g.len() {
                assert(deps[g[q].first] == prev[g[q].first]);
            }
        }
    }
}

/// Route summaries are ordered by first departure, name each route once,
/// and their trip counts add up to the number of departures.
pub proof fn lemma_summaries(deps: Seq<DepartureView>)
    ensures
        sorted_by(summaries_of(deps), by_first_departure()),
        summaries_of(deps).len() == route_groups(deps).len(),
        total_count(route_groups(deps)) == deps.len(),
{
    lemma_route_groups(deps);
    lemma_sort_by_key(route_groups(deps).map_values(|g: RouteGroup| summary_of(deps, g)), by_first_departure());
}

fn opt_route_text(r: Option<&Route>, long: bool) -> (res: Option<String>)
    ensures
        res.deep_view() == match r {
            Some(r) => if long { r@.route_long_name } else { r@.route_short_name },
            None => None,
        },
{
    match r {
        Some(r) => if long {
            clone_opt_string(&r.route_long_name)
        } else {
            clone_opt_string(&r.route_short_name)
        },
        None => None,
    }
}

type Departure<'a> = (&'a StopTime, &'a Trip, Option<&'a Route>);

/// The group (by index of its first departure) whose route is that of
/// departure `i`.
fn find_group(deps: &Vec<Departure>, firsts: &Vec<usize>, i: usize) -> (res: Option<usize>)
    requires
        i < deps@.len(),
        forall|r: int| 0 <= r < firsts@.len() ==> firsts@[r] < deps@.len(),
    ensures
        match res {
            Some(q) => q < firsts@.len() && deps@[firsts@[q as int] as int].1.route_id@
                == deps@[i as int].1.route_id@ && forall|r: int|
                0 <= r < q ==> deps@[firsts@[r] as int].1.route_id@ != deps@[i as int].1.route_id@,
            None => forall|r: int|
                0 <= r < firsts@.len() ==> deps@[firsts@[r] as int].1.route_id@
                    != deps@[i as int].1.route_id@,
        },
{
    let mut q: usize = 0;
    while q < firsts.len()
        invariant
            q <= firsts@.len(),
            i < deps@.len(),
            forall|r: int| 0 <= r < firsts@.len() ==> firsts@[r] < deps@.len(),
            forall|r: int|
                0 <= r < q ==> deps@[firsts@[r] as int].1.route_id@ != deps@[i as int].1.route_id@,
        decreases firsts@.len() - q,
    {
        let f = firsts[q];
        if deps[f].1.route_id == deps[i].1.route_id {
            return Some(q);
        }
        q = q + 1;
    }
    None
}

/// Groups departures by route: the index of each group's first departure
/// and its number of departures (see `route_groups`).
fn group_departures(deps: &Vec<Departure>) -> (res: (Vec<usize>, Vec<usize>))
    ensures
        res.0@.len() == route_groups(departure_views(deps@)).len(),
        res.1@.len() == res.0@.len(),
        forall|q: int|
            0 <= q < res.0@.len() ==> res.0@[q] == route_groups(departure_views(deps@))[q].first
                && res.1@[q] == route_groups(departure_views(deps@))[q].count,
{
    let ghost dv = departure_views(deps@);
    let mut firsts: Vec<usize> = Vec::new();
    let mut counts: Vec<usize> = Vec::new();
    let mut i: usize = 0;
    assert(dv.take(0) =~= seq![]);
    while i < deps.len()
        invariant
            i <= deps@.len(),
            dv == departure_views(deps@),
            firsts@.len() == route_groups(dv.take(i as int)).len(),
            counts@.len() == firsts@.len(),
            forall|q: int|
                0 <= q < firsts@.len() ==> firsts@[q] == route_groups(dv.take(i as int))[q].first
                    && counts@[q] == route_groups(dv.take(i as int))[q].count,
        decreases deps@.len() - i,
    {
        let ghost g = route_groups(dv.take(i as int));
        let ghost rid = dv[i as int].1.route_id;
        proof {
            lemma_route_groups(dv.take(i as int));
            assert forall|r: int| 0 <= r < g.len() implies 0 <= (#[trigger] g[r]).first < i
                && dv[g[r].first].1.route_id == g[r].route_id by {
                assert(dv.take(i as int)[g[r].first] == dv[g[r].first]);
            }
        }
        let found = find_group(deps, &firsts, i);
        let ghost next = dv.take(i + 1);
        assert(next.drop_last() =~= dv.take(i as int));
        assert(next.last() == dv[i as int]);
        match found {
            Some(q) => {
                proof {
                    lemma_group_index_is(g, rid, q as int);
                }
                let c = counts[q];
                counts.set(q, c + 1);
            },
            None => {
                proof {
                    assert forall|r: int| 0 <= r < g.len() implies g[r].route_id != rid by {
                        assert(dv[firsts@[r] as int] == departure_view(deps@[firsts@[r] as int]));
                        assert(dv[i as int] == departure_view(deps@[i as int]));
                    }
                    lemma_group_index_is(g, rid, firsts@.len() as int);
                }
                firsts.push(i);
                counts.push(1);
            },
        }
        i = i + 1;
    }
    assert(dv.take(deps@.len() as int) =~= dv);
    (firsts, counts)
}

/// Inserts `summary` after every summary whose first departure is not later.
fn insert_by_first_departure(out: &mut Vec<RouteSummary>, summary: RouteSummary)
    ensures
        record_views(final(out)@) == record_views(old(out)@).insert(
            insertion_point(record_views(old(out)@), summary@.first_departure as int, by_first_departure()),
            summary@,
        ),
{
    let key = summary.first_departure.as_secs();
    let ghost sv = record_views(out@);
    let mut p: usize = 0;
    while p < out.len() && out[p].first_departure.as_secs() <= key
        invariant
            p <= out@.len(),
            sv == record_views(out@),
            forall|q: int| 0 <= q < p ==> (by_first_departure())(sv[q]) <= key as int,
        decreases out@.len() - p,
    {
        p = p + 1;
    }
    proof {
        lemma_insertion_point_is(sv, key as int, by_first_departure(), p as int);
    }
    let ghost x = summary@;
    out.insert(p, summary);
    assert(record_views(out@) =~= sv.insert(p as int, x));
}

fn summary_for(d: Departure, count: usize) -> (res: RouteSummary)
    ensures
        res@ == summary_of(seq![departure_view(d)], RouteGroup { route_id: d.1.route_id@, first: 0, count: count as nat }),
{
    RouteSummary {
        route_id: d.1.route_id.clone(),
        short_name: opt_route_text(d.2, false),
        long_name: opt_route_text(d.2, true),
        route_type: match d.2 {
            Some(r) => r.route_type,
            None => None,
        },
        headsign: clone_opt_string(&d.1.trip_headsign),
        first_departure: d.0.departure_time,
        trip_count: count,
    }
}

impl StopSchedule {
    /// Unique route summaries serving these stops: one per route, with the
    /// number of departures and the first of them, ordered by first
    /// departure.
    pub fn route_summaries(&self) -> (res: Vec<RouteSummary>)
        ensures
            record_views(res@) == summaries_of(schedule_departures(self@)),
    {
        let deps = self.departures();
        let ghost dv = departure_views(deps@);
        let (firsts, counts) = group_departures(&deps);
        let ghost groups = route_groups(dv);
        proof {
            lemma_route_groups(dv);
        }
        let mut out: Vec<RouteSummary> = Vec::new();
        let ghost unsorted = groups.map_values(|g: RouteGroup| summary_of(dv, g));
        let mut k: usize = 0;
        assert(record_views(out@) =~= sort_by_key(unsorted.take(0), by_first_departure()));
        while k < firsts.len()
            invariant
                k <= firsts@.len(),
                dv == departure_views(deps@),
                groups == route_groups(dv),
                unsorted == groups.map_values(|g: RouteGroup| summary_of(dv, g)),
                firsts@.len() == groups.len(),
                counts@.len() == groups.len(),
                forall|q: int|
                    0 <= q < firsts@.len() ==> firsts@[q] == groups[q].first && counts@[q]
                        == groups[q].count,
                forall|q: int|
                    0 <= q < groups.len() ==> 0 <= (#[trigger] groups[q]).first < dv.len()
                        && dv[groups[q].first].1.route_id == groups[q].route_id,
                record_views(out@) == sort_by_key(unsorted.take(k as int), by_first_departure()),
            decreases firsts@.len() - k,
        {
            let f = firsts[k];
            let summary = summary_for(deps[f], counts[k]);
            let ghost x = summary@;
            assert(x == summary_of(dv, groups[k as int]));
            let ghost pre = unsorted.take(k as int);
            insert_by_first_departure(&mut out, summary);
            proof {
                assert(unsorted.take(k + 1).drop_last() =~= pre);
                assert(unsorted.take(k + 1).last() == x);
            }
            k = k + 1;
        }
        assert(unsorted.take(firsts@.len() as int) =~= unsorted);
        assert(schedule_departures(self@) == dv);
        out
    }
}

/// The display name of a route summary: short name, else long name, else
/// the route id.
pub open spec fn summary_name(s: RouteSummaryView) -> Seq<char> {
    match s.short_name {
        Some(n) => n,
        None => match s.long_name {
            Some(n) => n,
            None => s.route_id,
        },
    }
}

/// `<name>[ → <headsign>][ (<transport>)] — <n> trips, first at <HH:MM>`.
pub open spec fn summary_text(s: RouteSummaryView) -> Seq<char> {
    summary_name(s) + match s.headsign {
        Some(h) => " → "@ + h,
        None => seq![],
    } + match s.route_type {
        Some(t) => " ("@ + transport_label_of(Some(t)) + ")"@,
        None => seq![],
    } + " — "@ + decimal(s.trip_count) + " trips, first at "@ + gtfs_time_text(
        s.first_departure as nat,
    )
}

/// A summary is named by its route's short name whenever there is one,
/// by its long name only without a short name, and by the route id only
/// without either; its line starts with that name.
pub proof fn lemma_summary_name_prefers_short_name(s: RouteSummaryView)
    ensures
        s.short_name matches Some(n) ==> summary_name(s) == n,
        s.short_name is None ==> (s.long_name matches Some(n) ==> summary_name(s) == n),
        (s.short_name is None && s.long_name is None) ==> summary_name(s) == s.route_id,
        s.short_name matches Some(n) ==> summary_text(s).subrange(0, n.len() as int) == n,
        summary_text(s).subrange(0, summary_name(s).len() as int) == summary_name(s),
{
    let n = summary_name(s);
    let rest = summary_text(s).subrange(n.len() as int, summary_text(s).len() as int);
    assert(summary_text(s) =~= n + rest);
    assert((n + rest).subrange(0, n.len() as int) =~= n);
}

impl RouteSummary {
    /// One line describing the route (see `summary_text`).
    pub fn to_string(&self) -> (res: String)
        ensures
            res@ == summary_text(self@),
    {
        let mut out: Vec<char> = Vec::new();
        match &self.short_name {
            Some(n) => push_str(&mut out, n.as_str()),
            None => match &self.long_name {
                Some(n) => push_str(&mut out, n.as_str()),
                None => push_str(&mut out, self.route_id.as_str()),
            },
        }
        let ghost a = out@;
        match &self.headsign {
            Some(h) => {
                push_str(&mut out, " → ");
                push_str(&mut out, h.as_str());
            },
            None => {},
        }
        let ghost b = out@;
        match self.route_type {
            Some(t) => {
                let r = Route { route_id: String::new(), route_short_name: None, route_long_name: None, route_type: Some(t) };
                push_str(&mut out, " (");
                push_str(&mut out, r.transport_label());
                push_str(&mut out, ")");
            },
            None => {},
        }
        let ghost c = out@;
        push_str(&mut out, " — ");
        push_decimal(&mut out, self.trip_count as u64);
        push_str(&mut out, " trips, first at ");
        let t = self.first_departure.to_string();
        push_str(&mut out, t.as_str());
        assert(out@ =~= summary_text(self@));
        string_from_chars(out.as_slice())
    }
}

} // verus!
