//! The due-reminder check, and how a choice is shown in a prompt.

use vstd::prelude::*;
use crate::models::Choice;
use crate::text::{append_chars, string_from_chars, to_chars};
use crate::timestamp::{whole_days_between, Instant, Timestamp};

verus! {

/// The mathematical value of an optional timestamp.
pub open spec fn opt_instant(at: Option<Timestamp>) -> Option<Instant> {
    match at {
        Some(t) => Some(t@),
        None => None,
    }
}

/// Whether a choice is due: it has a reminder interval, and it was never
/// used or at least that many whole days have passed since its last use.
pub open spec fn is_due(interval: Option<i32>, now: Instant, latest: Option<Instant>) -> bool {
    match interval {
        None => false,
        Some(days) => match latest {
            None => true,
            Some(at) => whole_days_between(now, at) >= days,
        },
    }
}

/// How a choice is shown: its shortcut in brackets, then its label, between
/// asterisks where the choice is due.
pub open spec fn choice_text(shortcut: Seq<char>, label: Seq<char>, due: bool) -> Seq<char> {
    seq!['['] + shortcut + seq![']', ' '] + if due {
        seq!['*'] + label + seq!['*']
    } else {
        label
    }
}

/// Whether `choice` is due at `now`, given the time of the most recent entry
/// that refers to it.
///
/// A choice without reminder interval is never due, whatever its history. A
/// choice with an interval that was never used is always due.
pub fn choice_is_due(choice: &Choice, now: &Timestamp, latest: Option<Timestamp>) -> (due: bool)
    ensures
        due == is_due(choice.reminder_timer_in_days, now@, opt_instant(latest)),
        choice.reminder_timer_in_days is None ==> !due,
        choice.reminder_timer_in_days is Some && latest is None ==> due,
{
    match choice.reminder_timer_in_days {
        None => false,
        Some(days) => match latest {
            None => true,
            Some(at) => now.days_since(&at) >= days as i64,
        },
    }
}

/// The text that shows `choice` in a prompt; `due` says whether the choice
/// is to be marked as due.
pub fn format_choice_and_shortcut(choice: &Choice, due: bool) -> (text: String)
    ensures
        text@ == choice_text(choice.shortcut@, choice.label@, due),
{
    let mut out: Vec<char> = vec!['['];
    let shortcut = to_chars(choice.shortcut.as_str());
    let label = to_chars(choice.label.as_str());
    append_chars(&mut out, &shortcut);
    out.push(']');
    out.push(' ');
    if due {
        out.push('*');
        append_chars(&mut out, &label);
        out.push('*');
    } else {
        append_chars(&mut out, &label);
    }
    assert(out@ =~= choice_text(choice.shortcut@, choice.label@, due));
    string_from_chars(&out)
}

} // verus!
