//! Battery charge as a percentage, from the text of two sysfs attributes.

use vstd::prelude::*;
use crate::text::{decimal, decimal_text, has_prefix, parse_i32, parsed_i32, starts_with, trim, trimmed};

verus! {

/// The charge read from an attribute's text: the integer it holds once
/// trimmed; `None` when the read failed or the text is no integer.
pub open spec fn charge_reading(text: Option<Seq<char>>) -> Option<i32> {
    match text {
        Some(t) => parsed_i32(trimmed(t)),
        None => None,
    }
}

/// The percentage that `now` is of `full`, rounded down; defined for a
/// non-negative charge and a positive capacity.
pub open spec fn percent_value(now: i32, full: i32) -> Option<nat> {
    if now >= 0 && full > 0 {
        Some(((now as int * 100) / (full as int)) as nat)
    } else {
        None
    }
}

/// The text shown for a percentage, such as `25%`.
pub open spec fn percent_text(p: nat) -> Seq<char> {
    decimal(p) + "%"@
}

/// The text shown for two readings: present when both are and the
/// percentage is defined.
pub open spec fn charge_text(now: Option<i32>, full: Option<i32>) -> Option<Seq<char>> {
    match (now, full) {
        (Some(n), Some(f)) => match percent_value(n, f) {
            Some(p) => Some(percent_text(p)),
            None => None,
        },
        _ => None,
    }
}

/// The view of an optional text.
pub open spec fn text_view(t: Option<String>) -> Option<Seq<char>> {
    match t {
        Some(s) => Some(s@),
        None => None,
    }
}

/// Reads a charge from an attribute's text, if the read succeeded.
pub fn parse_charge(text: Option<String>) -> (r: Option<i32>)
    ensures
        r == charge_reading(text_view(text)),
{
    match text {
        Some(t) => parse_i32(trim(t.as_str())),
        None => None,
    }
}

/// The percentage text for two readings.
pub fn charge_percent(now: Option<i32>, full: Option<i32>) -> (r: Option<String>)
    ensures
        text_view(r) == charge_text(now, full),
{
    match (now, full) {
        (Some(n), Some(f)) => {
            if n >= 0 && f > 0 {
                let p: u64 = (n as u64) * 100 / (f as u64);
                let mut s = decimal_text(p);
                s.append("%");
                Some(s)
            } else {
                None
            }
        },
        _ => None,
    }
}

/// The percentage text for the texts of the two attributes; absent, never
/// an error, when either is missing or not a number.
pub fn battery_percent(now: Option<String>, full: Option<String>) -> (r: Option<String>)
    ensures
        text_view(r) == charge_text(
            charge_reading(text_view(now)),
            charge_reading(text_view(full)),
        ),
{
    let n = parse_charge(now);
    let f = parse_charge(full);
    charge_percent(n, f)
}

/// The name of a power-supply entry that is a battery begins with `BAT`.
pub open spec fn is_battery_name(name: Seq<char>) -> bool {
    has_prefix(name, "BAT"@)
}

/// The first of the power-supply entries that is a battery.
pub fn pick_battery(names: &Vec<String>) -> (r: Option<usize>)
    ensures
        match r {
            Some(i) => i < names@.len() && is_battery_name(names@[i as int]@) && forall|j: int|
                0 <= j < i ==> !is_battery_name(#[trigger] names@[j]@),
            None => forall|j: int| 0 <= j < names@.len() ==> !is_battery_name(#[trigger] names@[j]@),
        },
{
    let mut i: usize = 0;
    while i < names.len()
        invariant
            i <= names@.len(),
            forall|j: int| 0 <= j < i ==> !is_battery_name(#[trigger] names@[j]@),
        decreases names@.len() - i,
    {
        if starts_with(names[i].as_str(), "BAT") {
            return Some(i);
        }
        i = i + 1;
    }
    None
}

/// When either attribute cannot be read or does not hold a number, the
/// battery value is absent, never an error.
pub proof fn lemma_unreadable_charge_is_absent(now: Option<Seq<char>>, full: Option<Seq<char>>)
    requires
        charge_reading(now) is None || charge_reading(full) is None,
    ensures
        charge_text(charge_reading(now), charge_reading(full)) is None,
{
}

} // verus!
