//! The logic of the built-in date and time class `ДатаВремя`: moving a
//! millisecond timestamp by a unit, finding which unit and direction a
//! method name stands for, and picking a component of a local date.
use vstd::prelude::*;
use crate::builtins::catalog::{DateTimeUnit, datetime_units, spec_datetime_units};
use crate::text::str_eq;
use chrono::{Datelike, TimeZone, Timelike};

verus! {

/// The timestamp `ms` moved by `amount` units of `millis` milliseconds,
/// forward or back, where the product and the result fit in `i64`.
pub open spec fn checked_shift(ms: int, millis: int, amount: int, forward: bool) -> Option<int> {
    let delta = amount * millis;
    let r = if forward { ms + delta } else { ms - delta };
    if i64::MIN <= delta <= i64::MAX && i64::MIN <= r <= i64::MAX {
        Some(r)
    } else {
        None
    }
}

/// The `добавить_*` and `вычесть_*` methods: `ms` moved by `amount` units,
/// or `None` where the arithmetic leaves `i64`.
pub fn shift_by_unit(ms: i64, unit: &DateTimeUnit, amount: i64, forward: bool) -> (r: Option<i64>)
    ensures
        match r {
            Some(v) => checked_shift(ms as int, unit.millis as int, amount as int, forward) == Some(v as int),
            None => checked_shift(ms as int, unit.millis as int, amount as int, forward) is None,
        },
{
    let delta = match amount.checked_mul(unit.millis) {
        Some(d) => d,
        None => return None,
    };
    if forward {
        ms.checked_add(delta)
    } else {
        ms.checked_sub(delta)
    }
}

/// Some name in `names` has the text `name`.
pub open spec fn has_name(names: Seq<&'static str>, name: Seq<char>) -> bool {
    exists|i: int| 0 <= i < names.len() && (#[trigger] names[i])@ == name
}

/// The unit length and direction of the method `name` among `units`: the
/// first unit whose adding or subtracting method is so named.
pub open spec fn unit_method(units: Seq<DateTimeUnit>, name: Seq<char>) -> Option<(i64, bool)>
    decreases units.len(),
{
    if units.len() == 0 {
        None
    } else if has_name(units[0].add.names@, name) {
        Some((units[0].millis, true))
    } else if has_name(units[0].subtract.names@, name) {
        Some((units[0].millis, false))
    } else {
        unit_method(units.drop_first(), name)
    }
}

fn names_contain(names: &'static [&'static str], name: &str) -> (r: bool)
    ensures
        r == has_name(names@, name@),
{
    let mut i: usize = 0;
    while i < names.len()
        invariant
            i <= names@.len(),
            forall|j: int| 0 <= j < i ==> (#[trigger] names@[j])@ != name@,
        decreases names@.len() - i,
    {
        if str_eq(names[i], name) {
            return true;
        }
        i = i + 1;
    }
    false
}

/// The unit length in milliseconds and the direction (`true` forward) of a
/// date shifting method, by any of its names.
pub fn shift_method(name: &str) -> (r: Option<(i64, bool)>)
    ensures
        r == unit_method(spec_datetime_units(), name@),
{
    let units = datetime_units();
    let mut i: usize = 0;
    assert(units@.skip(0) =~= units@);
    while i < units.len()
        invariant
            units@ == spec_datetime_units(),
            i <= units@.len(),
            unit_method(units@, name@) == unit_method(units@.skip(i as int), name@),
        decreases units@.len() - i,
    {
        let u = &units[i];
        assert(units@.skip(i as int)[0] == units@[i as int]);
        assert(units@.skip(i as int).drop_first() =~= units@.skip(i + 1));
        if names_contain(u.add.names, name) {
            return Some((u.millis, true));
        }
        if names_contain(u.subtract.names, name) {
            return Some((u.millis, false));
        }
        i = i + 1;
    }
    None
}

/// The components of a local date and time.
#[derive(Debug, Clone, Copy)]
pub struct DateParts {
    pub year: i64,
    pub month: i64,
    pub day: i64,
    pub hour: i64,
    pub minute: i64,
    pub second: i64,
}

/// The component that a component method returns: its value for the
/// Russian names `год`, `месяц`, `день`, `час`, `минута`, `секунда`, and 0
/// for any other name.
pub open spec fn component(name: Seq<char>, p: DateParts) -> i64 {
    if name == "год"@ {
        p.year
    } else if name == "месяц"@ {
        p.month
    } else if name == "день"@ {
        p.day
    } else if name == "час"@ {
        p.hour
    } else if name == "минута"@ {
        p.minute
    } else if name == "секунда"@ {
        p.second
    } else {
        0
    }
}

/// The value a component method named `name` gives for a date with
/// components `parts`.
pub fn datetime_component(name: &str, parts: &DateParts) -> (r: i64)
    ensures
        r == component(name@, *parts),
{
    if str_eq(name, "год") {
        parts.year
    } else if str_eq(name, "месяц") {
        parts.month
    } else if str_eq(name, "день") {
        parts.day
    } else if str_eq(name, "час") {
        parts.hour
    } else if str_eq(name, "минута") {
        parts.minute
    } else if str_eq(name, "секунда") {
        parts.second
    } else {
        0
    }
}

/// Every component lies in its calendar range.
pub open spec fn parts_in_range(p: DateParts) -> bool {
    &&& 1 <= p.month <= 12
    &&& 1 <= p.day <= 31
    &&& 0 <= p.hour <= 23
    &&& 0 <= p.minute <= 59
    &&& 0 <= p.second <= 59
}

/// `Local.timestamp_millis_opt(ms)` with its components read out: the date
/// and time in the machine's time zone, `None` where `chrono` has no date
/// for `ms`. What the components are depends on that time zone, so only
/// their calendar ranges are stated.
#[verifier::external_body]
fn local_date_parts(ms: i64) -> (r: Option<DateParts>)
    ensures
        r matches Some(p) ==> parts_in_range(p),
{
    match chrono::Local.timestamp_millis_opt(ms).single() {
        Some(dt) => Some(DateParts {
            year: dt.year() as i64,
            month: dt.month() as i64,
            day: dt.day() as i64,
            hour: dt.hour() as i64,
            minute: dt.minute() as i64,
            second: dt.second() as i64,
        }),
        None => None,
    }
}

/// `Local::now().timestamp_millis()`: the current time; nothing is stated
/// of its value.
#[verifier::external_body]
fn now_millis() -> (r: i64) {
    chrono::Local::now().timestamp_millis()
}

/// The component method `name` on the timestamp `ms`: the local date of
/// `ms` with the component picked from it, or `None` where there is no
/// date for `ms`.
pub fn component_at(name: &str, ms: i64) -> (r: Option<(DateParts, i64)>)
    ensures
        r matches Some((p, v)) ==> parts_in_range(p) && v == component(name@, p),
{
    match local_date_parts(ms) {
        Some(p) => {
            let v = datetime_component(name, &p);
            Some((p, v))
        },
        None => None,
    }
}

/// The timestamp a new date starts with: the one given, or the current
/// time.
pub fn initial_millis(given: Option<i64>) -> (r: i64)
    ensures
        given matches Some(v) ==> r == v,
{
    match given {
        Some(v) => v,
        None => now_millis(),
    }
}

} // verus!
