//! Which services run on a date: the regular weekly calendars, then the
//! date's added and removed exceptions in file order.
use vstd::prelude::*;
use vstd::hash_set::StringHashSet;

use crate::model::{
    calendar_runs_on, Calendar, CalendarDate, CalendarDateView, CalendarView, ExceptionType,
};
use crate::records::record_views;
use crate::select::keep;
use crate::text::{chars_equal, chars_lex_le, chars_of, lex_le};
use crate::time::Weekday;

verus! {

/// A regular calendar covers the date `key` (`YYYYMMDD`, compared as text)
/// and runs on its weekday.
pub open spec fn calendar_covers(cal: CalendarView, key: Seq<char>, weekday: Weekday) -> bool {
    lex_le(cal.start_date, key) && lex_le(key, cal.end_date) && calendar_runs_on(cal, weekday)
}

/// The services of the regular calendars that cover the date.
pub open spec fn regular_services(cals: Seq<CalendarView>, key: Seq<char>, weekday: Weekday) -> Set<
    Seq<char>,
>
    decreases cals.len(),
{
    if cals.len() == 0 {
        Set::empty()
    } else {
        let s = regular_services(cals.drop_last(), key, weekday);
        if calendar_covers(cals.last(), key, weekday) {
            s.insert(cals.last().service_id)
        } else {
            s
        }
    }
}

/// `base` after the exceptions dated `key`, in order: an added service
/// joins the set, a removed one leaves it.
pub open spec fn apply_exceptions(base: Set<Seq<char>>, cds: Seq<CalendarDateView>, key: Seq<char>) -> Set<
    Seq<char>,
>
    decreases cds.len(),
{
    if cds.len() == 0 {
        base
    } else {
        let s = apply_exceptions(base, cds.drop_last(), key);
        let cd = cds.last();
        if cd.date == key {
            match cd.exception_type {
                ExceptionType::Added => s.insert(cd.service_id),
                ExceptionType::Removed => s.remove(cd.service_id),
            }
        } else {
            s
        }
    }
}

/// The services active on the date.
pub open spec fn services_on(
    cals: Seq<CalendarView>,
    cds: Seq<CalendarDateView>,
    key: Seq<char>,
    weekday: Weekday,
) -> Set<Seq<char>> {
    apply_exceptions(regular_services(cals, key, weekday), cds, key)
}

/// The exceptions for `service` on the date `key`.
pub open spec fn exceptions_for(cds: Seq<CalendarDateView>, service: Seq<char>, key: Seq<char>) -> Seq<
    CalendarDateView,
> {
    keep(cds, |cd: CalendarDateView| cd.date == key && cd.service_id == service)
}

/// A date's exceptions decide: the last exception for a service on that
/// date says whether it runs (added) or not (removed); without one, the
/// regular calendars decide.
pub proof fn lemma_last_exception_wins(
    base: Set<Seq<char>>,
    cds: Seq<CalendarDateView>,
    key: Seq<char>,
    service: Seq<char>,
)
    ensures
        exceptions_for(cds, service, key).len() > 0 ==> (apply_exceptions(base, cds, key).contains(
            service,
        ) <==> exceptions_for(cds, service, key).last().exception_type == ExceptionType::Added),
        exceptions_for(cds, service, key).len() == 0 ==> (apply_exceptions(base, cds, key).contains(
            service,
        ) <==> base.contains(service)),
    decreases cds.len(),
{
    if cds.len() > 0 {
        lemma_last_exception_wins(base, cds.drop_last(), key, service);
    }
}

/// Computes `services_on` for a date given as its `YYYYMMDD` characters.
pub fn services_on_date(
    cals: &Vec<Calendar>,
    cds: &Vec<CalendarDate>,
    key: &Vec<char>,
    weekday: Weekday,
) -> (res: StringHashSet)
    ensures
        res@ == services_on(record_views(cals@), record_views(cds@), key@, weekday),
{
    let ghost cv = record_views(cals@);
    let ghost dv = record_views(cds@);
    let mut active = StringHashSet::new();
    let mut i: usize = 0;
    assert(cv.take(0) =~= seq![]);
    while i < cals.len()
        invariant
            i <= cals@.len(),
            cv == record_views(cals@),
            active@ == regular_services(cv.take(i as int), key@, weekday),
        decreases cals@.len() - i,
    {
        let cal = &cals[i];
        let start = chars_of(cal.start_date.as_str());
        let end = chars_of(cal.end_date.as_str());
        let covers = chars_lex_le(start.as_slice(), key.as_slice()) && chars_lex_le(
            key.as_slice(),
            end.as_slice(),
        ) && cal.runs_on(weekday);
        if covers {
            active.insert(cal.service_id.clone());
        }
        assert(cv.take(i + 1).drop_last() =~= cv.take(i as int));
        assert(cv.take(i + 1).last() == cal@);
        i = i + 1;
    }
    assert(cv.take(cals@.len() as int) =~= cv);
    let ghost base = active@;
    let mut j: usize = 0;
    assert(dv.take(0) =~= seq![]);
    while j < cds.len()
        invariant
            j <= cds@.len(),
            dv == record_views(cds@),
            active@ == apply_exceptions(base, dv.take(j as int), key@),
        decreases cds@.len() - j,
    {
        let cd = &cds[j];
        let date = chars_of(cd.date.as_str());
        if chars_equal(date.as_slice(), key.as_slice()) {
            match cd.exception_type {
                ExceptionType::Added => {
                    active.insert(cd.service_id.clone());
                },
                ExceptionType::Removed => {
                    active.remove(cd.service_id.as_str());
                },
            }
        }
        assert(dv.take(j + 1).drop_last() =~= dv.take(j as int));
        assert(dv.take(j + 1).last() == cd@);
        j = j + 1;
    }
    assert(dv.take(cds@.len() as int) =~= dv);
    active
}

} // verus!
