//! Stop searches and station families.
use vstd::prelude::*;
use vstd::hash_set::StringHashSet;
use vstd::hash_map::StringHashMap;

use crate::model::{Stop, StopView};
use crate::records::record_views;
use crate::select::keep;
use crate::text::{
    ascii_lower, ascii_upper, chars_of, contains_chars, has_substring, is_ascii_chars,
    lemma_ascii_upper_lower, str_lowercase, to_lowercase,
};

verus! {

// ───────────────────────────── name search ─────────────────────────────

/// The stop's name contains `query_lower` once lowercased.
pub open spec fn name_matches(s: StopView, query_lower: Seq<char>) -> bool {
    has_substring(str_lowercase(s.stop_name), query_lower)
}

/// The stops whose names contain `query`, ignoring case (both sides are
/// lowercased), in their order.
pub open spec fn matching_stops(stops: Seq<StopView>, query: Seq<char>) -> Seq<StopView> {
    keep(stops, |s: StopView| name_matches(s, str_lowercase(query)))
}

/// The search ignores case: two queries with the same lowercase find the
/// same stops.
pub proof fn lemma_search_ignores_case(stops: Seq<StopView>, q1: Seq<char>, q2: Seq<char>)
    requires
        str_lowercase(q1) == str_lowercase(q2),
    ensures
        matching_stops(stops, q1) == matching_stops(stops, q2),
{
    assert((|s: StopView| name_matches(s, str_lowercase(q1))) =~= (|s: StopView| name_matches(s, str_lowercase(q2))));
}

/// The stops whose lowercased names contain the ASCII lowercase of `query`:
/// what the search finds for an ASCII query.
pub open spec fn ascii_matching_stops(stops: Seq<StopView>, query: Seq<char>) -> Seq<StopView> {
    keep(stops, |s: StopView| name_matches(s, ascii_lower(query)))
}

/// For ASCII queries the search ignores letter case: a query and its ASCII
/// uppercase find the same stops.
pub proof fn lemma_ascii_search_ignores_case(stops: Seq<StopView>, q: Seq<char>)
    requires
        is_ascii_chars(q),
    ensures
        is_ascii_chars(ascii_upper(q)),
        ascii_matching_stops(stops, ascii_upper(q)) == ascii_matching_stops(stops, q),
{
    lemma_ascii_upper_lower(q);
    assert((|s: StopView| name_matches(s, ascii_lower(ascii_upper(q)))) =~= (|s: StopView| name_matches(s, ascii_lower(q))));
}

/// The empty query matches every stop.
pub proof fn lemma_empty_query_matches_all(stops: Seq<StopView>)
    ensures
        ascii_matching_stops(stops, seq![]) == stops,
    decreases stops.len(),
{
    if stops.len() > 0 {
        lemma_empty_query_matches_all(stops.drop_last());
        let name = str_lowercase(stops.last().stop_name);
        let e = ascii_lower(seq![]);
        assert(e =~= seq![]);
        assert(name.subrange(0, 0 + e.len() as int) =~= e);
        assert(name_matches(stops.last(), e));
        assert(stops.drop_last().push(stops.last()) =~= stops);
    }
}

/// Whether the stop's name contains `query_lower` once lowercased.
pub fn stop_name_matches(stop: &Stop, query_lower: &Vec<char>) -> (res: bool)
    ensures
        res == name_matches(stop@, query_lower@),
{
    let name = to_lowercase(stop.stop_name.as_str());
    let cs = chars_of(name.as_str());
    contains_chars(cs.as_slice(), query_lower.as_slice())
}

/// The stops of `stops` whose names contain `query`, case-insensitively,
/// in order, at most `limit` of them when a limit is given.
pub fn filter_stops_by_name<'a>(stops: &'a Vec<Stop>, query: &str, limit: Option<usize>) -> (res: Vec<&'a Stop>)
    ensures
        stop_ref_views(res@) == match limit {
            Some(n) => matching_stops(record_views(stops@), query@).take(
                if matching_stops(record_views(stops@), query@).len() < n {
                    matching_stops(record_views(stops@), query@).len() as int
                } else {
                    n as int
                },
            ),
            None => matching_stops(record_views(stops@), query@),
        },
        is_ascii_chars(query@) ==> matching_stops(record_views(stops@), query@) == ascii_matching_stops(
            record_views(stops@),
            query@,
        ),
        matching_stops(record_views(stops@), ascii_upper(query@)) == matching_stops(record_views(stops@), query@),
        matching_stops(record_views(stops@), ascii_lower(query@)) == matching_stops(record_views(stops@), query@),
{
    let q = to_lowercase(query);
    proof {
        assert((|s: StopView| name_matches(s, str_lowercase(ascii_upper(query@)))) =~= (|s: StopView| name_matches(s, str_lowercase(query@))));
        assert((|s: StopView| name_matches(s, str_lowercase(ascii_lower(query@)))) =~= (|s: StopView| name_matches(s, str_lowercase(query@))));
        if is_ascii_chars(query@) {
            assert((|s: StopView| name_matches(s, str_lowercase(query@))) =~= (|s: StopView| name_matches(s, ascii_lower(query@))));
        }
    }
    let ghost same_for_ascii = (is_ascii_chars(query@) ==> matching_stops(record_views(stops@), query@)
        == ascii_matching_stops(record_views(stops@), query@))
        && matching_stops(record_views(stops@), ascii_upper(query@)) == matching_stops(record_views(stops@), query@)
        && matching_stops(record_views(stops@), ascii_lower(query@)) == matching_stops(record_views(stops@), query@);
    assert(same_for_ascii);
    let qc = chars_of(q.as_str());
    let ghost sv = record_views(stops@);
    let ghost pred = |s: StopView| name_matches(s, str_lowercase(query@));
    let mut out: Vec<&'a Stop> = Vec::new();
    let mut i: usize = 0;
    assert(sv.take(0) =~= seq![]);
    assert(stop_ref_views(out@) =~= seq![]);
    while i < stops.len()
        invariant
            i <= stops@.len(),
            sv == record_views(stops@),
            qc@ == str_lowercase(query@),
            pred == (|s: StopView| name_matches(s, str_lowercase(query@))),
            stop_ref_views(out@) == keep(sv.take(i as int), pred),
            limit matches Some(n) ==> out@.len() <= n,
            same_for_ascii,
            same_for_ascii == ((is_ascii_chars(query@) ==> matching_stops(record_views(stops@), query@)
                == ascii_matching_stops(record_views(stops@), query@))
                && matching_stops(record_views(stops@), ascii_upper(query@)) == matching_stops(record_views(stops@), query@)
                && matching_stops(record_views(stops@), ascii_lower(query@)) == matching_stops(record_views(stops@), query@)),
        decreases stops@.len() - i,
    {
        if let Some(n) = limit {
            if out.len() >= n {
                proof {
                    lemma_keep_prefix(sv, pred, i as int);
                }
                return out;
            }
        }
        assert(sv.take(i + 1).drop_last() =~= sv.take(i as int));
        assert(sv.take(i + 1).last() == stops@[i as int]@);
        if stop_name_matches(&stops[i], &qc) {
            if let Some(n) = limit {
                assert(out@.len() < n);
            }
            let ghost before = out@;
            out.push(&stops[i]);
            assert(stop_ref_views(out@) =~= stop_ref_views(before).push(stops@[i as int]@));
        }
        i = i + 1;
    }
    assert(sv.take(stops@.len() as int) =~= sv);
    out
}

/// The views of a list of stop references.
pub open spec fn stop_ref_views(s: Seq<&Stop>) -> Seq<StopView> {
    s.map_values(|x: &Stop| x@)
}

/// Copies of the referenced stops.
pub fn clone_stops(refs: &Vec<&Stop>) -> (res: Vec<Stop>)
    ensures
        record_views(res@) == stop_ref_views(refs@),
{
    let mut out: Vec<Stop> = Vec::new();
    let mut i: usize = 0;
    while i < refs.len()
        invariant
            i <= refs@.len(),
            out@.len() == i,
            forall|j: int| 0 <= j < i ==> #[trigger] out@[j]@ == refs@[j]@,
        decreases refs@.len() - i,
    {
        out.push(refs[i].clone());
        i = i + 1;
    }
    assert(record_views(out@) =~= stop_ref_views(refs@));
    out
}

/// Selecting from a prefix gives a prefix of the selection.
pub proof fn lemma_keep_prefix<T>(s: Seq<T>, pred: spec_fn(T) -> bool, i: int)
    requires
        0 <= i <= s.len(),
    ensures
        keep(s.take(i), pred).len() <= keep(s, pred).len(),
        keep(s, pred).take(keep(s.take(i), pred).len() as int) == keep(s.take(i), pred),
    decreases s.len() - i,
{
    if i < s.len() {
        lemma_keep_prefix(s, pred, i + 1);
        assert(s.take(i + 1).drop_last() =~= s.take(i));
        let a = keep(s.take(i), pred);
        let b = keep(s.take(i + 1), pred);
        let w = keep(s, pred);
        assert(w.take(a.len() as int) =~= b.take(a.len() as int));
        assert(b.take(a.len() as int) =~= a);
    } else {
        assert(s.take(i) =~= s);
        assert(keep(s, pred).take(keep(s, pred).len() as int) =~= keep(s, pred));
    }
}

// ───────────────────────────── families ─────────────────────────────

/// The station a stop belongs to, the empty id when it has none.
pub open spec fn parent_key(s: StopView) -> Seq<char> {
    match s.parent_station {
        Some(p) => p,
        None => seq![],
    }
}

/// The (non-empty) parent stations of the selected stops.
pub open spec fn selected_parents(ids: Set<Seq<char>>, stops: Seq<StopView>) -> Set<Seq<char>>
    decreases stops.len(),
{
    if stops.len() == 0 {
        Set::empty()
    } else {
        let s = selected_parents(ids, stops.drop_last());
        let x = stops.last();
        if ids.contains(x.stop_id) && parent_key(x).len() > 0 {
            s.insert(parent_key(x))
        } else {
            s
        }
    }
}

/// A stop belongs to the family of the selection when it is selected, is
/// the parent of a selected stop, or is a child of either.
pub open spec fn in_family(ids: Set<Seq<char>>, parents: Set<Seq<char>>, x: StopView) -> bool {
    ||| ids.contains(x.stop_id)
    ||| parents.contains(x.stop_id)
    ||| ids.contains(parent_key(x))
    ||| parents.contains(parent_key(x))
}

pub open spec fn family_members(ids: Set<Seq<char>>, parents: Set<Seq<char>>, stops: Seq<StopView>) -> Set<Seq<char>>
    decreases stops.len(),
{
    if stops.len() == 0 {
        Set::empty()
    } else {
        let s = family_members(ids, parents, stops.drop_last());
        if in_family(ids, parents, stops.last()) {
            s.insert(stops.last().stop_id)
        } else {
            s
        }
    }
}

/// The ids of the whole station family of the selected stops: the stops
/// themselves, their parent stations, and all children of either.
pub open spec fn station_family(ids: Set<Seq<char>>, stops: Seq<StopView>) -> Set<Seq<char>> {
    family_members(ids, selected_parents(ids, stops), stops)
}

pub proof fn lemma_selected_parents(ids: Set<Seq<char>>, stops: Seq<StopView>, p: Seq<char>)
    ensures
        selected_parents(ids, stops).contains(p) <==> exists|i: int|
            0 <= i < stops.len() && ids.contains((#[trigger] stops[i]).stop_id) && parent_key(stops[i]) == p && p.len() > 0,
    decreases stops.len(),
{
    if stops.len() > 0 {
        let d = stops.drop_last();
        lemma_selected_parents(ids, d, p);
        if selected_parents(ids, d).contains(p) {
            let i = choose|i: int| 0 <= i < d.len() && ids.contains((#[trigger] d[i]).stop_id) && parent_key(d[i]) == p && p.len() > 0;
            assert(stops[i] == d[i]);
        }
        if exists|i: int| 0 <= i < stops.len() && ids.contains((#[trigger] stops[i]).stop_id) && parent_key(stops[i]) == p && p.len() > 0 {
            let i = choose|i: int| 0 <= i < stops.len() && ids.contains((#[trigger] stops[i]).stop_id) && parent_key(stops[i]) == p && p.len() > 0;
            if i < stops.len() - 1 {
                assert(d[i] == stops[i]);
            }
        }
    }
}

pub proof fn lemma_family_members(ids: Set<Seq<char>>, parents: Set<Seq<char>>, stops: Seq<StopView>, id: Seq<char>)
    ensures
        family_members(ids, parents, stops).contains(id) <==> exists|i: int|
            0 <= i < stops.len() && (#[trigger] stops[i]).stop_id == id && in_family(ids, parents, stops[i]),
    decreases stops.len(),
{
    if stops.len() > 0 {
        let d = stops.drop_last();
        lemma_family_members(ids, parents, d, id);
        if family_members(ids, parents, d).contains(id) {
            let i = choose|i: int| 0 <= i < d.len() && (#[trigger] d[i]).stop_id == id && in_family(ids, parents, d[i]);
            assert(stops[i] == d[i]);
        }
        if exists|i: int| 0 <= i < stops.len() && (#[trigger] stops[i]).stop_id == id && in_family(ids, parents, stops[i]) {
            let i = choose|i: int| 0 <= i < stops.len() && (#[trigger] stops[i]).stop_id == id && in_family(ids, parents, stops[i]);
            if i < stops.len() - 1 {
                assert(d[i] == stops[i]);
            }
        }
    }
}

/// Every selected stop that exists is in its family.
pub proof fn lemma_family_contains_selection(ids: Set<Seq<char>>, stops: Seq<StopView>, i: int)
    requires
        0 <= i < stops.len(),
        ids.contains(stops[i].stop_id),
    ensures
        station_family(ids, stops).contains(stops[i].stop_id),
{
    lemma_family_members(ids, selected_parents(ids, stops), stops, stops[i].stop_id);
}

/// Selecting a platform or its station gives the same family: when stop
/// `c` (every record of which names the non-empty station `p` as parent)
/// has no children of its own, and `p` has no parent station, the family
/// of `{c}` is the family of `{p}`.
pub proof fn lemma_platform_and_station_same_family(stops: Seq<StopView>, c: Seq<char>, p: Seq<char>)
    requires
        p.len() > 0,
        exists|i: int| 0 <= i < stops.len() && (#[trigger] stops[i]).stop_id == c,
        forall|i: int| 0 <= i < stops.len() && (#[trigger] stops[i]).stop_id == c ==> stops[i].parent_station == Some(p),
        forall|i: int| 0 <= i < stops.len() && (#[trigger] stops[i]).stop_id == p ==> parent_key(stops[i]).len() == 0,
        forall|i: int| 0 <= i < stops.len() ==> parent_key(#[trigger] stops[i]) != c,
    ensures
        station_family(set![c], stops) == station_family(set![p], stops),
{
    let ic = choose|i: int| 0 <= i < stops.len() && (#[trigger] stops[i]).stop_id == c;
    assert(c != p) by {
        if c == p {
            assert(parent_key(stops[ic]) == p);
        }
    }
    let pc = selected_parents(set![c], stops);
    let pp = selected_parents(set![p], stops);
    assert forall|x: Seq<char>| pc.contains(x) <==> x == p by {
        lemma_selected_parents(set![c], stops, x);
        if x == p {
            assert(set![c].contains(stops[ic].stop_id) && parent_key(stops[ic]) == x);
        }
    }
    assert forall|x: Seq<char>| !pp.contains(x) by {
        lemma_selected_parents(set![p], stops, x);
    }
    assert forall|id: Seq<char>| station_family(set![c], stops).contains(id) <==> station_family(set![p], stops).contains(id) by {
        lemma_family_members(set![c], pc, stops, id);
        lemma_family_members(set![p], pp, stops, id);
        if station_family(set![c], stops).contains(id) {
            let i = choose|i: int| 0 <= i < stops.len() && (#[trigger] stops[i]).stop_id == id && in_family(set![c], pc, stops[i]);
            assert(pc.contains(p));
            assert(in_family(set![p], pp, stops[i]));
        }
        if station_family(set![p], stops).contains(id) {
            let i = choose|i: int| 0 <= i < stops.len() && (#[trigger] stops[i]).stop_id == id && in_family(set![p], pp, stops[i]);
            assert(pc.contains(p));
            assert(in_family(set![c], pc, stops[i]));
        }
    }
    assert(station_family(set![c], stops) =~= station_family(set![p], stops));
}

/// Given a set of stop IDs and the full stop list, return the union of:
/// - the selected stops themselves
/// - their parent stations (if any)
/// - all children of those parents (siblings of the selected stops)
/// - all direct children of the selected stops (if they are themselves parents)
pub fn expand_family(stop_ids: &StringHashSet, all_stops: &Vec<Stop>) -> (res: StringHashSet)
    ensures
        res@ == station_family(stop_ids@, record_views(all_stops@)),
{
    let ghost sv = record_views(all_stops@);
    let mut parents = StringHashSet::new();
    let mut i: usize = 0;
    assert(sv.take(0) =~= seq![]);
    while i < all_stops.len()
        invariant
            i <= all_stops@.len(),
            sv == record_views(all_stops@),
            parents@ == selected_parents(stop_ids@, sv.take(i as int)),
        decreases all_stops@.len() - i,
    {
        let s = &all_stops[i];
        if stop_ids.contains(s.stop_id.as_str()) {
            match &s.parent_station {
                Some(p) => {
                    if !p.as_str().is_empty() {
                        parents.insert(p.clone());
                    }
                },
                None => {},
            }
        }
        assert(sv.take(i + 1).drop_last() =~= sv.take(i as int));
        assert(sv.take(i + 1).last() == s@);
        i = i + 1;
    }
    assert(sv.take(all_stops@.len() as int) =~= sv);
    let mut out = StringHashSet::new();
    let mut j: usize = 0;
    assert(sv.take(0) =~= seq![]);
    while j < all_stops.len()
        invariant
            j <= all_stops@.len(),
            sv == record_views(all_stops@),
            parents@ == selected_parents(stop_ids@, sv),
            out@ == family_members(stop_ids@, parents@, sv.take(j as int)),
        decreases all_stops@.len() - j,
    {
        let s = &all_stops[j];
        let id = s.stop_id.as_str();
        let member = match &s.parent_station {
            Some(p) => stop_ids.contains(id) || parents.contains(id) || stop_ids.contains(
                p.as_str(),
            ) || parents.contains(p.as_str()),
            None => {
                let empty = String::new();
                stop_ids.contains(id) || parents.contains(id) || stop_ids.contains(empty.as_str())
                    || parents.contains(empty.as_str())
            },
        };
        if member {
            out.insert(s.stop_id.clone());
        }
        assert(sv.take(j + 1).drop_last() =~= sv.take(j as int));
        assert(sv.take(j + 1).last() == s@);
        j = j + 1;
    }
    assert(sv.take(all_stops@.len() as int) =~= sv);
    out
}

// ───────────────────────────── lookups ─────────────────────────────

/// Stops keyed by `stop_id`, a later stop replacing an earlier one.
pub open spec fn stops_by_id(s: Seq<StopView>) -> Map<Seq<char>, StopView>
    decreases s.len(),
{
    if s.len() == 0 {
        Map::empty()
    } else {
        stops_by_id(s.drop_last()).insert(s.last().stop_id, s.last())
    }
}

/// The stops whose ids are in `ids`, keyed by id.
pub fn stops_with_ids(stops: &Vec<Stop>, ids: &StringHashSet) -> (res: StringHashMap<Stop>)
    ensures
        res@.map_values(|s: Stop| s@) == stops_by_id(
            keep(record_views(stops@), |s: StopView| ids@.contains(s.stop_id)),
        ),
{
    let ghost sv = record_views(stops@);
    let ghost pred = |s: StopView| ids@.contains(s.stop_id);
    let mut m: StringHashMap<Stop> = StringHashMap::new();
    let mut i: usize = 0;
    assert(sv.take(0) =~= seq![]);
    assert(m@.map_values(|s: Stop| s@) =~= Map::empty());
    while i < stops.len()
        invariant
            i <= stops@.len(),
            sv == record_views(stops@),
            pred == (|s: StopView| ids@.contains(s.stop_id)),
            m@.map_values(|s: Stop| s@) == stops_by_id(keep(sv.take(i as int), pred)),
        decreases stops@.len() - i,
    {
        let s = &stops[i];
        assert(sv.take(i + 1).drop_last() =~= sv.take(i as int));
        assert(sv.take(i + 1).last() == s@);
        assert(pred(s@) == ids@.contains(s@.stop_id));
        if ids.contains(s.stop_id.as_str()) {
            let ghost before = m@;
            m.insert(s.stop_id.clone(), s.clone());
            assert(m@.map_values(|s: Stop| s@) =~= before.map_values(|s: Stop| s@).insert(s@.stop_id, s@));
            let ghost k0 = keep(sv.take(i as int), pred);
            assert(keep(sv.take(i + 1), pred) == k0.push(s@));
            assert(k0.push(s@).drop_last() =~= k0);
        } else {
            assert(keep(sv.take(i + 1), pred) == keep(sv.take(i as int), pred));
        }
        i = i + 1;
    }
    assert(sv.take(stops@.len() as int) =~= sv);
    m
}

} // verus!
