//! The departure board: the rows the web board shows with their status
//! badges, and the lines the terminal prints for a schedule.
use vstd::prelude::*;

use crate::api::{destination_of, feed_view, route_name_of, ApiDeparture, ApiDepartureView, ApiStop};
use crate::model::{clone_opt_string, transport_css_class_of, Route, Stop};
use crate::query::{departure_view, departure_views, schedule_departures, DepartureView, StopSchedule};
use crate::realtime::{status_of, status_text, RealtimeFeed, TripStatusView};
use crate::records::record_views;
use crate::select::keep;
use crate::sorting::{lemma_insertion_point_is, lemma_sort_by_key, sort_by_key, sorted_by};
use crate::text::{chars_of, decimal, push_chars, push_decimal, push_str, string_from_chars};
use crate::time::{
    format_hhmm, gtfs_time_text, hhmm_text, minutes_offset, minutes_offset_text, relative_text,
    relative_time,
};

verus! {

// ───────────────────────────── board rows ─────────────────────────────

/// One row in the departure board, built from an `ApiDeparture`.
#[derive(Debug, Clone)]
pub struct DepartureRow {
    pub trip_id: String,
    pub stop_id: String,
    /// Seconds since midnight of the service day.
    pub departure_secs: u32,
    pub route_name: String,
    /// GTFS `route_type` integer (for CSS class / label).
    pub route_type: Option<u16>,
    pub destination: String,
    /// `None` = no real-time data; positive = late, negative = early.
    pub delay_secs: Option<i32>,
    pub canceled: bool,
    pub skipped: bool,
    pub platform: Option<String>,
}

impl View for DepartureRow {
    type V = ApiDepartureView;

    open spec fn view(&self) -> ApiDepartureView {
        ApiDepartureView {
            trip_id: self.trip_id@,
            stop_id: self.stop_id@,
            departure_secs: self.departure_secs,
            route_name: self.route_name@,
            route_type: self.route_type,
            destination: self.destination@,
            delay_secs: self.delay_secs,
            canceled: self.canceled,
            skipped: self.skipped,
            platform: self.platform.deep_view(),
        }
    }
}

/// Seconds since midnight of the wall-clock time `h:min:s`.
pub fn secs_since_midnight(h: u32, min: u32, s: u32) -> (res: u32)
    requires
        h * 3600 + min * 60 + s <= u32::MAX,
    ensures
        res == h * 3600 + min * 60 + s,
{
    h * 3600 + min * 60 + s
}

/// The board shows departures from one minute before `now` up to three
/// hours after it.
pub open spec fn in_window(now: int) -> spec_fn(ApiDepartureView) -> bool {
    |d: ApiDepartureView| now - 60 <= d.departure_secs && d.departure_secs <= now + 10_800
}

/// Rows are ordered by departure time.
pub open spec fn by_time() -> spec_fn(ApiDepartureView) -> int {
    |d: ApiDepartureView| d.departure_secs as int
}

/// The board's rows at `now` (seconds since midnight): the departures in
/// the window, by departure time (equal times in the order received).
pub open spec fn board_rows(deps: Seq<ApiDepartureView>, now: int) -> Seq<ApiDepartureView> {
    sort_by_key(keep(deps, in_window(now)), by_time())
}

fn row_of(d: &ApiDeparture) -> (res: DepartureRow)
    ensures
        res@ == d@,
{
    DepartureRow {
        trip_id: d.trip_id.clone(),
        stop_id: d.stop_id.clone(),
        departure_secs: d.departure_secs,
        route_name: d.route_name.clone(),
        route_type: d.route_type,
        destination: d.destination.clone(),
        delay_secs: d.delay_secs,
        canceled: d.canceled,
        skipped: d.skipped,
        platform: clone_opt_string(&d.platform),
    }
}

/// Build the sorted list of upcoming rows from the API response, keeping
/// only departures within 1 minute ago and up to 3 hours ahead of
/// `now_secs` (seconds since midnight; see `board_rows`).
pub fn build_rows(deps: Vec<ApiDeparture>, now_secs: u32) -> (res: Vec<DepartureRow>)
    ensures
        record_views(res@) == board_rows(record_views(deps@), now_secs as int),
{
    let ghost dv = record_views(deps@);
    let ghost pred = in_window(now_secs as int);
    let now: i64 = now_secs as i64;
    let mut rows: Vec<DepartureRow> = Vec::new();
    let mut i: usize = 0;
    assert(dv.take(0) =~= seq![]);
    assert(record_views(rows@) =~= seq![]);
    while i < deps.len()
        invariant
            i <= deps@.len(),
            dv == record_views(deps@),
            pred == in_window(now_secs as int),
            now == now_secs,
            record_views(rows@) == sort_by_key(keep(dv.take(i as int), pred), by_time()),
        decreases deps@.len() - i,
    {
        let d = &deps[i];
        let ghost prefix = dv.take(i + 1);
        assert(prefix.drop_last() =~= dv.take(i as int));
        assert(prefix.last() == d@);
        let dep: i64 = d.departure_secs as i64;
        if dep >= now - 60 && dep <= now + 10_800 {
            let k = d.departure_secs;
            let ghost rv = record_views(rows@);
            let mut p: usize = 0;
            while p < rows.len() && rows[p].departure_secs <= k
                invariant
                    p <= rows@.len(),
                    rv == record_views(rows@),
                    forall|q: int| 0 <= q < p ==> (by_time())(rv[q]) <= k as int,
                decreases rows@.len() - p,
            {
                p = p + 1;
            }
            proof {
                lemma_insertion_point_is(rv, k as int, by_time(), p as int);
            }
            let row = row_of(d);
            rows.insert(p, row);
            assert(record_views(rows@) =~= rv.insert(p as int, d@));
            proof {
                let kept = keep(dv.take(i as int), pred);
                assert(pred(d@));
                assert(keep(prefix, pred) == kept.push(d@));
                assert(kept.push(d@).drop_last() =~= kept);
                assert(kept.push(d@).last() == d@);
            }
        } else {
            assert(!pred(d@));
            assert(keep(prefix, pred) == keep(dv.take(i as int), pred));
        }
        i = i + 1;
    }
    assert(dv.take(deps@.len() as int) =~= dv);
    rows
}

/// The board holds exactly the departures in its window, each as often as
/// received, ordered by departure time.
pub proof fn lemma_board_rows(deps: Seq<ApiDepartureView>, now: int)
    ensures
        sorted_by(board_rows(deps, now), by_time()),
        board_rows(deps, now).to_multiset() == keep(deps, in_window(now)).to_multiset(),
        forall|i: int| 0 <= i < board_rows(deps, now).len() ==> now - 60 <= #[trigger] board_rows(deps, now)[i].departure_secs <= now + 10_800,
{
    let kept = keep(deps, in_window(now));
    lemma_sort_by_key(kept, by_time());
    crate::select::lemma_keep(deps, in_window(now));
    assert forall|i: int| 0 <= i < board_rows(deps, now).len() implies now - 60 <= #[trigger] board_rows(deps, now)[i].departure_secs <= now + 10_800 by {
        let x = board_rows(deps, now)[i];
        assert(board_rows(deps, now).contains(x));
        vstd::seq_lib::to_multiset_contains(board_rows(deps, now), x);
        vstd::seq_lib::to_multiset_contains(kept, x);
        let j = choose|j: int| 0 <= j < kept.len() && kept[j] == x;
        assert((in_window(now))(kept[j]));
    }
}

// ───────────────────────────── status badges ─────────────────────────────

/// `x` in decimal, with a leading `-` when negative.
pub open spec fn signed_decimal(x: int) -> Seq<char> {
    if x < 0 {
        "-"@ + decimal((-x) as nat)
    } else {
        decimal(x as nat)
    }
}

/// Whole minutes of `d` seconds, truncated toward zero.
pub open spec fn whole_minutes(d: int) -> int {
    if d >= 0 {
        d / 60
    } else {
        -((-d) / 60)
    }
}

/// The status badge of a row, as (text, CSS class): `CANCELLED` or
/// `SKIPPED` (class `cancelled`); nothing without real-time data; `on time`;
/// else the delay in whole minutes as `+<m>m` (`delayed`) or `<m>m`
/// (`early`, minutes truncated toward zero).
pub open spec fn status_badge(r: ApiDepartureView) -> (Seq<char>, Seq<char>) {
    if r.canceled {
        ("CANCELLED"@, "cancelled"@)
    } else if r.skipped {
        ("SKIPPED"@, "cancelled"@)
    } else {
        match r.delay_secs {
            None => (Seq::empty(), Seq::empty()),
            Some(d) => if d == 0 {
                ("on time"@, "on-time"@)
            } else if d > 0 {
                ("+"@ + decimal((d / 60) as nat) + "m"@, "delayed"@)
            } else {
                (signed_decimal(whole_minutes(d as int)) + "m"@, "early"@)
            },
        }
    }
}

/// The badge's class follows the row's real-time state: `cancelled` for a
/// canceled trip or a skipped stop, none without real-time data, `on-time`
/// for no delay, `delayed` for a late and `early` for an early departure.
pub proof fn lemma_badge_class_follows_state(r: ApiDepartureView)
    ensures
        (r.canceled || r.skipped) ==> status_badge(r).1 == "cancelled"@,
        (!r.canceled && !r.skipped && r.delay_secs is None) ==> status_badge(r) == (Seq::<char>::empty(), Seq::<char>::empty()),
        (!r.canceled && !r.skipped && r.delay_secs == Some(0i32)) ==> status_badge(r).1 == "on-time"@,
        (!r.canceled && !r.skipped && r.delay_secs is Some && r.delay_secs->0 > 0) ==> status_badge(r).1 == "delayed"@,
        (!r.canceled && !r.skipped && r.delay_secs is Some && r.delay_secs->0 < 0) ==> status_badge(r).1 == "early"@,
        r.canceled ==> status_badge(r).0 == "CANCELLED"@,
        (!r.canceled && r.skipped) ==> status_badge(r).0 == "SKIPPED"@,
{
}

/// The status badge shown on a row (see `status_badge`).
pub fn departure_status(row: &DepartureRow) -> (res: (String, &'static str))
    ensures
        (res.0@, res.1@) == status_badge(row@),
{
    if row.canceled {
        return (String::from_str("CANCELLED"), "cancelled");
    }
    if row.skipped {
        return (String::from_str("SKIPPED"), "cancelled");
    }
    match row.delay_secs {
        None => {
            proof {
                reveal_strlit("");
            }
            (String::new(), "")
        },
        Some(d) => {
            if d == 0 {
                (String::from_str("on time"), "on-time")
            } else if d > 0 {
                let mut out: Vec<char> = Vec::new();
                push_str(&mut out, "+");
                push_decimal(&mut out, (d / 60) as u64);
                push_str(&mut out, "m");
                (string_from_chars(out.as_slice()), "delayed")
            } else {
                let m: i64 = -((-(d as i64)) / 60);
                let mut out: Vec<char> = Vec::new();
                if m < 0 {
                    push_str(&mut out, "-");
                    push_decimal(&mut out, (-m) as u64);
                } else {
                    push_decimal(&mut out, m as u64);
                }
                push_str(&mut out, "m");
                (string_from_chars(out.as_slice()), "early")
            }
        },
    }
}

// ───────────────────────────── board cells ─────────────────────────────

/// What the board shows for one row.
pub struct RowCells {
    /// `HH:MM`.
    pub time: String,
    /// The countdown (see `relative_text`).
    pub countdown: String,
    /// The route badge's CSS classes: `route-badge <transport class>`.
    pub route_class: String,
    pub route_name: String,
    pub destination: String,
    /// The platform, when the feed names one.
    pub platform: Option<String>,
    pub status_text: String,
    /// The status badge's CSS classes: `status-badge <status class>`.
    pub status_class: String,
}

pub struct RowCellsView {
    pub time: Seq<char>,
    pub countdown: Seq<char>,
    pub route_class: Seq<char>,
    pub route_name: Seq<char>,
    pub destination: Seq<char>,
    pub platform: Option<Seq<char>>,
    pub status_text: Seq<char>,
    pub status_class: Seq<char>,
}

impl View for RowCells {
    type V = RowCellsView;

    open spec fn view(&self) -> RowCellsView {
        RowCellsView {
            time: self.time@,
            countdown: self.countdown@,
            route_class: self.route_class@,
            route_name: self.route_name@,
            destination: self.destination@,
            platform: self.platform.deep_view(),
            status_text: self.status_text@,
            status_class: self.status_class@,
        }
    }
}

/// The cells of a row at `now` (seconds since midnight).
pub open spec fn row_cells(r: ApiDepartureView, now: int) -> RowCellsView {
    RowCellsView {
        time: hhmm_text(r.departure_secs as nat),
        countdown: relative_text(r.departure_secs - now),
        route_class: "route-badge "@ + transport_css_class_of(r.route_type),
        route_name: r.route_name,
        destination: r.destination,
        platform: r.platform,
        status_text: status_badge(r).0,
        status_class: "status-badge "@ + status_badge(r).1,
    }
}

/// The cells the board shows for `row` at `now_secs` (see `row_cells`).
pub fn cells_of(row: &DepartureRow, now_secs: u32) -> (res: RowCells)
    ensures
        res@ == row_cells(row@, now_secs as int),
{
    let (status_text, status) = departure_status(row);
    let mut route_class: Vec<char> = Vec::new();
    push_str(&mut route_class, "route-badge ");
    push_str(&mut route_class, Route::transport_css_class_for(row.route_type));
    let mut status_class: Vec<char> = Vec::new();
    push_str(&mut status_class, "status-badge ");
    push_str(&mut status_class, status);
    RowCells {
        time: format_hhmm(row.departure_secs),
        countdown: relative_time(row.departure_secs, now_secs),
        route_class: string_from_chars(route_class.as_slice()),
        route_name: row.route_name.clone(),
        destination: row.destination.clone(),
        platform: clone_opt_string(&row.platform),
        status_text,
        status_class: string_from_chars(status_class.as_slice()),
    }
}

// ───────────────────────────── stop search ─────────────────────────────

/// What the stop search does with newly typed text.
#[derive(Debug, Clone, Copy, PartialEq, Eq, Structural)]
pub enum SearchStep {
    /// The text is empty: clear the matches and search nothing.
    Clear,
    /// Search after the debounce delay, unless newer text arrived by then.
    Debounce { generation: u32 },
}

/// The next input counter and step for text typed while the counter is `g`.
pub open spec fn search_next(g: u32, text: Seq<char>) -> (u32, SearchStep) {
    if text.len() == 0 {
        (g, SearchStep::Clear)
    } else {
        ((g + 1) as u32, SearchStep::Debounce { generation: (g + 1) as u32 })
    }
}

/// The stop search's input counter: a delayed search runs only when no
/// newer input has arrived since it was scheduled.
pub struct SearchState {
    generation: u32,
}

impl View for SearchState {
    type V = u32;

    closed spec fn view(&self) -> u32 {
        self.generation
    }
}

impl SearchState {
    pub fn new() -> (res: SearchState)
        ensures
            res@ == 0,
    {
        SearchState { generation: 0 }
    }

    /// Takes newly typed text (see `search_next`).
    pub fn on_input(&mut self, text: &str) -> (step: SearchStep)
        requires
            text@.len() > 0 ==> old(self)@ < u32::MAX,
        ensures
            (final(self)@, step) == search_next(old(self)@, text@),
    {
        if text.is_empty() {
            return SearchStep::Clear;
        }
        self.generation = self.generation + 1;
        SearchStep::Debounce { generation: self.generation }
    }

    /// Whether a search scheduled as `generation` is still the latest.
    pub fn is_current(&self, generation: u32) -> (res: bool)
        ensures
            res == (self@ == generation),
    {
        self.generation == generation
    }
}

/// A search scheduled for some text is stale once more text is typed: its
/// generation is no longer the current one.
pub proof fn lemma_newer_input_supersedes(g: u32, first: Seq<char>, second: Seq<char>)
    requires
        first.len() > 0,
        second.len() > 0,
        g + 2 <= u32::MAX,
    ensures
        search_next(g, first).1 matches SearchStep::Debounce { generation }
            && search_next(search_next(g, first).0, second).0 != generation,
{
}

// ───────────────────────────── board state ─────────────────────────────

/// What the web board holds between events.
pub struct BoardState {
    /// The text in the stop search box.
    pub stop_query: String,
    /// The stops that the last search found.
    pub matched_stops: Vec<ApiStop>,
    /// The stops whose departures are shown.
    pub selected_stop_ids: Vec<String>,
    /// The rows of the board.
    pub departures: Vec<DepartureRow>,
    /// A schedule request is in flight.
    pub loading: bool,
    /// The latest error message.
    pub error: Option<String>,
}

/// `prefix` followed by the error text `e`.
pub open spec fn failure_message(prefix: Seq<char>, e: Seq<char>) -> Seq<char> {
    prefix + e
}

fn failure(prefix: &str, e: &str) -> (res: String)
    ensures
        res@ == failure_message(prefix@, e@),
{
    let mut out: Vec<char> = Vec::new();
    push_str(&mut out, prefix);
    push_str(&mut out, e);
    string_from_chars(out.as_slice())
}

impl BoardState {
    /// The board before any event: nothing typed, found, selected or shown.
    pub fn new() -> (res: BoardState)
        ensures
            res.stop_query@ == Seq::<char>::empty(),
            res.matched_stops@.len() == 0,
            res.selected_stop_ids@.len() == 0,
            res.departures@.len() == 0,
            !res.loading,
            res.error is None,
    {
        BoardState {
            stop_query: String::new(),
            matched_stops: Vec::new(),
            selected_stop_ids: Vec::new(),
            departures: Vec::new(),
            loading: false,
            error: None,
        }
    }

    /// New text in the search box: it becomes the query, and empty text
    /// clears the found stops.
    pub fn type_query(&mut self, text: &str)
        ensures
            final(self).stop_query@ == text@,
            text@.len() == 0 ==> final(self).matched_stops@.len() == 0,
            text@.len() > 0 ==> final(self).matched_stops@ == old(self).matched_stops@,
            final(self).selected_stop_ids@ == old(self).selected_stop_ids@,
            final(self).departures@ == old(self).departures@,
            final(self).loading == old(self).loading,
            final(self).error == old(self).error,
    {
        self.stop_query = String::from_str(text);
        if text.is_empty() {
            self.matched_stops = Vec::new();
        }
    }

    /// The outcome of a stop search: the found stops, or the error
    /// `Stop search failed: <e>`.
    pub fn search_done(&mut self, result: Result<Vec<ApiStop>, String>)
        ensures
            match result {
                Ok(stops) => final(self).matched_stops@ == stops@ && final(self).error == old(self).error,
                Err(e) => final(self).matched_stops@ == old(self).matched_stops@
                    && (final(self).error matches Some(m) && m@ == failure_message("Stop search failed: "@, e@)),
            },
            final(self).stop_query == old(self).stop_query,
            final(self).selected_stop_ids@ == old(self).selected_stop_ids@,
            final(self).departures@ == old(self).departures@,
            final(self).loading == old(self).loading,
    {
        match result {
            Ok(stops) => {
                self.matched_stops = stops;
            },
            Err(e) => {
                self.error = Some(failure("Stop search failed: ", e.as_str()));
            },
        }
    }

    /// Choosing a found stop: it alone is selected, its name becomes the
    /// query, the found stops are cleared, and its schedule is requested
    /// (the ids returned); the error is cleared.
    pub fn select_stop(&mut self, stop: &ApiStop) -> (ids: Vec<String>)
        ensures
            ids@.map_values(|s: String| s@) == seq![stop.stop_id@],
            final(self).selected_stop_ids@.map_values(|s: String| s@) == seq![stop.stop_id@],
            final(self).stop_query@ == stop.stop_name@,
            final(self).matched_stops@.len() == 0,
            final(self).loading,
            final(self).error is None,
            final(self).departures@ == old(self).departures@,
    {
        let mut ids: Vec<String> = Vec::new();
        ids.push(stop.stop_id.clone());
        let mut selected: Vec<String> = Vec::new();
        selected.push(stop.stop_id.clone());
        assert(ids@.map_values(|s: String| s@) =~= seq![stop.stop_id@]);
        assert(selected@.map_values(|s: String| s@) =~= seq![stop.stop_id@]);
        self.selected_stop_ids = selected;
        self.stop_query = stop.stop_name.clone();
        self.matched_stops = Vec::new();
        self.loading = true;
        self.error = None;
        ids
    }

    /// The refresh button: without selected stops nothing happens; else
    /// their schedule is requested again (the ids returned) and the error
    /// is cleared.
    pub fn refresh(&mut self) -> (ids: Option<Vec<String>>)
        ensures
            old(self).selected_stop_ids@.len() == 0 ==> ids is None && final(self).loading == old(self).loading
                && final(self).error == old(self).error,
            old(self).selected_stop_ids@.len() > 0 ==> (ids matches Some(v) && v@.map_values(|s: String| s@)
                == old(self).selected_stop_ids@.map_values(|s: String| s@)) && final(self).loading
                && final(self).error is None,
            final(self).selected_stop_ids@ == old(self).selected_stop_ids@,
            final(self).stop_query == old(self).stop_query,
            final(self).matched_stops@ == old(self).matched_stops@,
            final(self).departures@ == old(self).departures@,
    {
        if self.selected_stop_ids.len() == 0 {
            return None;
        }
        let mut ids: Vec<String> = Vec::new();
        let mut i: usize = 0;
        while i < self.selected_stop_ids.len()
            invariant
                i <= self.selected_stop_ids@.len(),
                ids@.map_values(|s: String| s@) == self.selected_stop_ids@.take(i as int).map_values(|s: String| s@),
            decreases self.selected_stop_ids@.len() - i,
        {
            let c = self.selected_stop_ids[i].clone();
            let ghost before = ids@;
            ids.push(c);
            assert(self.selected_stop_ids@.take(i + 1) =~= self.selected_stop_ids@.take(i as int).push(self.selected_stop_ids@[i as int]));
            assert(ids@.map_values(|s: String| s@) =~= before.map_values(|s: String| s@).push(c@));
            assert(ids@.map_values(|s: String| s@) =~= self.selected_stop_ids@.take(i + 1).map_values(|s: String| s@));
            i = i + 1;
        }
        assert(self.selected_stop_ids@.take(i as int) =~= self.selected_stop_ids@);
        self.loading = true;
        self.error = None;
        Some(ids)
    }

    /// The outcome of a schedule request made at `now_secs` (seconds since
    /// midnight): the board's rows (see `board_rows`), or the error
    /// `Refresh failed: <e>` after a refresh and `Schedule fetch failed:
    /// <e>` after a selection; either way the request is over.
    pub fn schedule_done(&mut self, result: Result<Vec<ApiDeparture>, String>, now_secs: u32, after_refresh: bool)
        ensures
            match result {
                Ok(deps) => record_views(final(self).departures@) == board_rows(record_views(deps@), now_secs as int)
                    && final(self).error == old(self).error,
                Err(e) => final(self).departures@ == old(self).departures@ && (final(self).error matches Some(m)
                    && m@ == failure_message(
                    if after_refresh { "Refresh failed: "@ } else { "Schedule fetch failed: "@ },
                    e@,
                )),
            },
            !final(self).loading,
            final(self).selected_stop_ids@ == old(self).selected_stop_ids@,
            final(self).stop_query == old(self).stop_query,
            final(self).matched_stops@ == old(self).matched_stops@,
    {
        match result {
            Ok(deps) => {
                self.departures = build_rows(deps, now_secs);
            },
            Err(e) => {
                let prefix = if after_refresh { "Refresh failed: " } else { "Schedule fetch failed: " };
                self.error = Some(failure(prefix, e.as_str()));
            },
        }
        self.loading = false;
    }
}

// ───────────────────────────── terminal stop choice ─────────────────────────────

/// The message when no stop matches `query`: `no stops matching "<query>"`.
pub open spec fn no_match_message(query: Seq<char>) -> Seq<char> {
    "no stops matching \""@ + query + "\""@
}

/// The stop whose schedule the terminal shows: the first match, or the
/// message `no stops matching "<query>"` when there is none.
pub fn chosen_stop<'a>(matches: &'a Vec<Stop>, query: &str) -> (res: Result<&'a Stop, String>)
    ensures
        match res {
            Ok(s) => matches@.len() > 0 && *s == matches@[0],
            Err(msg) => matches@.len() == 0 && msg@ == no_match_message(query@),
        },
{
    if matches.len() == 0 {
        let mut out: Vec<char> = Vec::new();
        push_str(&mut out, "no stops matching \"");
        push_str(&mut out, query);
        push_str(&mut out, "\"");
        return Err(string_from_chars(out.as_slice()));
    }
    Ok(&matches[0])
}

// ───────────────────────────── terminal lines ─────────────────────────────

/// `s` followed by spaces up to `width` characters (nothing is cut).
pub open spec fn pad_right(s: Seq<char>, width: nat) -> Seq<char> {
    if s.len() >= width {
        s
    } else {
        s + Seq::new((width - s.len()) as nat, |i: int| ' ')
    }
}

/// Appends `s` padded with spaces to `width` characters.
fn push_padded_right(out: &mut Vec<char>, s: &str, width: usize)
    ensures
        final(out)@ == old(out)@ + pad_right(s@, width as nat),
{
    let cs = chars_of(s);
    let ghost start = out@;
    push_chars(out, cs.as_slice());
    let mut k: usize = cs.len();
    while k < width
        invariant
            cs@ == s@,
            cs@.len() <= k,
            k <= width || k == cs@.len(),
            out@ == start + cs@ + Seq::new((k - cs@.len()) as nat, |i: int| ' '),
        decreases width - k,
    {
        out.push(' ');
        k = k + 1;
        assert(out@ =~= start + cs@ + Seq::new((k - cs@.len()) as nat, |i: int| ' '));
    }
    if cs.len() >= width {
        assert(out@ =~= start + cs@);
    } else {
        assert(out@ =~= start + pad_right(s@, width as nat));
    }
}

/// The countdown of a departure in the terminal: whole minutes from `now`
/// (a timestamp, in seconds) to the departure, which is `departure_secs`
/// after local `midnight`; empty when local midnight is unknown.
pub open spec fn countdown(midnight: Option<i64>, departure_secs: int, now: int) -> Seq<char> {
    match midnight {
        Some(m) => minutes_offset_text(m + departure_secs - now),
        None => Seq::empty(),
    }
}

/// The terminal line of one departure: its time, countdown, route name,
/// destination and real-time status (empty without one), as
/// `{time} {countdown:<8} | {route:<6} → {destination:<30} {status}`.
pub open spec fn departure_line(
    d: DepartureView,
    feed: Option<Map<Seq<char>, TripStatusView>>,
    midnight: Option<i64>,
    now: int,
) -> Seq<char> {
    let status = match feed {
        Some(f) => match status_of(f, d.1.trip_id, d.0.stop_id) {
            Some(s) => status_text(s),
            None => Seq::empty(),
        },
        None => Seq::empty(),
    };
    gtfs_time_text(d.0.departure_secs as nat) + " "@ + pad_right(countdown(midnight, d.0.departure_secs as int, now), 8)
        + " | "@ + pad_right(route_name_of(d), 6) + " → "@ + pad_right(destination_of(d), 30) + " "@ + status
}

/// Real-time data only appends the departure's status to its terminal
/// line: the line without a feed, followed by the status annotation when
/// the feed gives one (`[CANCELLED]` for a canceled trip, `[STOP SKIPPED]`
/// for a stop the trip's update skips, `[on time]` for a stop updated
/// without delay), and nothing more when it gives none.
pub proof fn lemma_line_status_follows_feed(
    d: DepartureView,
    feed: Map<Seq<char>, TripStatusView>,
    midnight: Option<i64>,
    now: int,
)
    ensures
        ({
            let plain = departure_line(d, None, midnight, now);
            let live = departure_line(d, Some(feed), midnight, now);
            let trip = d.1.trip_id;
            let stop = d.0.stop_id;
            &&& status_of(feed, trip, stop) matches Some(s) ==> live == plain + status_text(s)
            &&& status_of(feed, trip, stop) is None ==> live == plain
            &&& (feed.contains_key(trip) && feed[trip] == TripStatusView::Canceled) ==> live == plain
                + "[CANCELLED]"@
            &&& (feed.contains_key(trip) && feed[trip] is Running && feed[trip]->0.contains_key(stop)
                && feed[trip]->0[stop].skipped) ==> live == plain + "[STOP SKIPPED]"@
            &&& (feed.contains_key(trip) && feed[trip] is Running && feed[trip]->0.contains_key(stop)
                && !feed[trip]->0[stop].skipped && (feed[trip]->0[stop].departure_delay_secs is None
                || feed[trip]->0[stop].departure_delay_secs == Some(0i32))) ==> live == plain + "[on time]"@
            &&& (!feed.contains_key(trip) || (feed[trip] is Running && !feed[trip]->0.contains_key(stop)))
                ==> live == plain
        }),
{
    let plain = departure_line(d, None, midnight, now);
    assert(plain + Seq::<char>::empty() =~= plain);
}

/// The terminal lines of a schedule's departures, in departure order (see
/// `departure_line`); `now_ts` and `midnight_ts` are timestamps in seconds.
pub fn departure_lines(
    schedule: &StopSchedule,
    feed: Option<&RealtimeFeed>,
    midnight_ts: Option<i64>,
    now_ts: i64,
) -> (res: Vec<String>)
    ensures
        res@.map_values(|s: String| s@) == schedule_departures(schedule@).map_values(
            |d: DepartureView| departure_line(d, feed_view(feed), midnight_ts, now_ts as int),
        ),
{
    let deps = schedule.departures();
    let ghost dv = departure_views(deps@);
    let mut out: Vec<String> = Vec::new();
    let mut i: usize = 0;
    while i < deps.len()
        invariant
            i <= deps@.len(),
            dv == departure_views(deps@),
            out@.len() == i,
            forall|j: int| 0 <= j < i ==> #[trigger] out@[j]@ == departure_line(dv[j], feed_view(feed), midnight_ts, now_ts as int),
        decreases deps@.len() - i,
    {
        let (st, trip, route) = deps[i];
        assert(dv[i as int] == departure_view(deps@[i as int]));
        let secs = st.departure_time.as_secs();
        let rel = match midnight_ts {
            Some(m) => minutes_offset((m as i128) + (secs as i128) - (now_ts as i128)),
            None => String::new(),
        };
        let route_name = crate::api::route_name(trip, route);
        let headsign = crate::api::destination(trip);
        let status = match feed {
            Some(f) => match f.status_for(trip.trip_id.as_str(), st.stop_id.as_str()) {
                Some(s) => s.to_string(),
                None => String::new(),
            },
            None => String::new(),
        };
        let mut line: Vec<char> = Vec::new();
        push_str(&mut line, st.departure_time.to_string().as_str());
        push_str(&mut line, " ");
        push_padded_right(&mut line, rel.as_str(), 8);
        push_str(&mut line, " | ");
        push_padded_right(&mut line, route_name.as_str(), 6);
        push_str(&mut line, " → ");
        push_padded_right(&mut line, headsign.as_str(), 30);
        push_str(&mut line, " ");
        push_str(&mut line, status.as_str());
        let text = string_from_chars(line.as_slice());
        assert(text@ == departure_line(dv[i as int], feed_view(feed), midnight_ts, now_ts as int));
        out.push(text);
        i = i + 1;
    }
    assert(out@.map_values(|s: String| s@) =~= dv.map_values(
        |d: DepartureView| departure_line(d, feed_view(feed), midnight_ts, now_ts as int),
    ));
    out
}

} // verus!
