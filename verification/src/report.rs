//! The listing of entries: grouped by day, within a day by time of day.

use vstd::prelude::*;
use crate::errors::Error;
use crate::models::EntryWithLabelsTuple;
use crate::text::{
    append_chars, string_from_chars, string_views, to_chars, trim_chars, trimmed,
};
use crate::timestamp::{date_text, time_text, Timestamp};
use vstd::string::StringExecFns;

verus! {

/// The line of one entry: the label of its category and, after an arrow, of
/// its choice, where it has them; its free text, after a colon where the
/// entry has a category; two spaces and a line break.
pub open spec fn entry_line(item: EntryWithLabelsTuple) -> Seq<char> {
    let labels = match item.1 {
        Some(category) => category@ + match item.2 {
            Some(choice) => seq![' ', '-', '>', ' '] + choice@,
            None => Seq::empty(),
        },
        None => Seq::empty(),
    };
    let details = match item.0.details {
        Some(text) => if item.0.category is Some {
            seq![' ', ':', ' '] + text@
        } else {
            text@
        },
        None => Seq::empty(),
    };
    labels + details + seq![' ', ' ', '\n']
}

/// Whether the item at `i` is the first of its day: it is the first of all,
/// or the item before it is of another day.
pub open spec fn starts_day(items: Seq<EntryWithLabelsTuple>, i: int) -> bool {
    i == 0 || items[i].0.timestamp@.day != items[i - 1].0.timestamp@.day
}

/// Whether the item at `i` is the first of its time of day within its day.
pub open spec fn starts_time(items: Seq<EntryWithLabelsTuple>, i: int) -> bool {
    ||| starts_day(items, i)
    ||| items[i].0.timestamp@.second != items[i - 1].0.timestamp@.second
    ||| items[i].0.timestamp@.nano != items[i - 1].0.timestamp@.nano
}

/// What the item at `i` adds to the listing: the heading of its day where it
/// is the first of that day, two line breaks before it unless it is the first
/// day; the heading of its time where it is the first of that time; its line.
pub open spec fn listed_item(
    items: Seq<EntryWithLabelsTuple>,
    dates: Seq<Seq<char>>,
    times: Seq<Seq<char>>,
    i: int,
) -> Seq<char> {
    let day_heading = if starts_day(items, i) {
        (if i > 0 {
            seq!['\n', '\n']
        } else {
            Seq::empty()
        }) + seq!['#', '#', ' '] + dates[i] + seq!['\n']
    } else {
        Seq::empty()
    };
    let time_heading = if starts_time(items, i) {
        seq!['#', '#', '#', ' '] + times[i] + seq!['\n']
    } else {
        Seq::empty()
    };
    day_heading + time_heading + entry_line(items[i])
}

/// The listing of the first `n` items, without the line breaks that close it.
pub open spec fn listing_upto(
    items: Seq<EntryWithLabelsTuple>,
    dates: Seq<Seq<char>>,
    times: Seq<Seq<char>>,
    n: int,
) -> Seq<char>
    decreases n,
{
    if n <= 0 {
        Seq::empty()
    } else {
        listing_upto(items, dates, times, n - 1) + listed_item(items, dates, times, n - 1)
    }
}

/// The listing of `items`, the item at each index headed by the date and time
/// texts at that index: days and times in the order of the items, each day
/// closed by two line breaks. Empty where there is no item.
pub open spec fn listing(
    items: Seq<EntryWithLabelsTuple>,
    dates: Seq<Seq<char>>,
    times: Seq<Seq<char>>,
) -> Seq<char> {
    if items.len() == 0 {
        Seq::empty()
    } else {
        listing_upto(items, dates, times, items.len() as int) + seq!['\n', '\n']
    }
}

/// The date texts of `items`.
pub open spec fn item_dates(items: Seq<EntryWithLabelsTuple>) -> Seq<Seq<char>> {
    Seq::new(items.len(), |i: int| date_text(items[i].0.timestamp@.day))
}

/// The time texts of `items`.
pub open spec fn item_times(items: Seq<EntryWithLabelsTuple>) -> Seq<Seq<char>> {
    Seq::new(
        items.len(),
        |i: int| time_text(items[i].0.timestamp@.second, items[i].0.timestamp@.nano),
    )
}

/// Appends the line of `item` to `out`.
fn push_entry_line(out: &mut Vec<char>, item: &EntryWithLabelsTuple)
    ensures
        final(out)@ == old(out)@ + entry_line(*item),
{
    let ghost before = out@;
    match &item.1 {
        Some(category) => {
            append_chars(out, &to_chars(category.as_str()));
            match &item.2 {
                Some(choice) => {
                    let arrow: Vec<char> = vec![' ', '-', '>', ' '];
                    append_chars(out, &arrow);
                    append_chars(out, &to_chars(choice.as_str()));
                },
                None => {},
            }
        },
        None => {},
    }
    match &item.0.details {
        Some(text) => {
            if item.0.category.is_some() {
                let colon: Vec<char> = vec![' ', ':', ' '];
                append_chars(out, &colon);
            }
            append_chars(out, &to_chars(text.as_str()));
        },
        None => {},
    }
    out.push(' ');
    out.push(' ');
    out.push('\n');
    assert(out@ =~= before + entry_line(*item));
}

/// The listing of `items` under the given date and time texts, one of each
/// for each item.
///
/// Items that follow each other on the same day stand under one heading of
/// that day, and within it those of the same time under one heading of that
/// time. The items are taken in the order given: a day that comes back after
/// another day is headed again.
pub fn list_entries(items: &Vec<EntryWithLabelsTuple>, dates: &Vec<String>, times: &Vec<String>) -> (text:
    String)
    requires
        dates@.len() == items@.len(),
        times@.len() == items@.len(),
    ensures
        text@ == listing(items@, string_views(dates@), string_views(times@)),
{
    let mut out: Vec<char> = Vec::new();
    let mut i: usize = 0;
    while i < items.len()
        invariant
            i <= items.len(),
            dates@.len() == items@.len(),
            times@.len() == items@.len(),
            out@ == listing_upto(items@, string_views(dates@), string_views(times@), i as int),
        decreases items.len() - i,
    {
        let ghost before = out@;
        let at = items[i].0.timestamp;
        let mut new_day = i == 0;
        let mut new_time = i == 0;
        if i > 0 {
            let previous = items[i - 1].0.timestamp;
            new_day = at.day() != previous.day();
            new_time = new_day || at.second() != previous.second() || at.nano() != previous.nano();
        }
        assert(new_day == starts_day(items@, i as int));
        assert(new_time == starts_time(items@, i as int));
        if new_day {
            if i > 0 {
                out.push('\n');
                out.push('\n');
            }
            out.push('#');
            out.push('#');
            out.push(' ');
            append_chars(&mut out, &to_chars(dates[i].as_str()));
            out.push('\n');
        }
        if new_time {
            out.push('#');
            out.push('#');
            out.push('#');
            out.push(' ');
            append_chars(&mut out, &to_chars(times[i].as_str()));
            out.push('\n');
        }
        push_entry_line(&mut out, &items[i]);
        assert(out@ =~= before + listed_item(items@, string_views(dates@), string_views(times@), i as int));
        i += 1;
    }
    if items.len() > 0 {
        out.push('\n');
        out.push('\n');
    }
    assert(out@ =~= listing(items@, string_views(dates@), string_views(times@)));
    string_from_chars(&out)
}

/// The entries as text for the reader: the listing of `response` under the
/// dates and times of its entries, without the whitespace at its ends.
pub fn printable_entries(response: &Vec<EntryWithLabelsTuple>) -> (text: String)
    ensures
        text@ == trimmed(listing(response@, item_dates(response@), item_times(response@))),
{
    let mut dates: Vec<String> = Vec::new();
    let mut times: Vec<String> = Vec::new();
    let mut i: usize = 0;
    while i < response.len()
        invariant
            i <= response.len(),
            dates.len() == i,
            times.len() == i,
            forall|k: int|
                0 <= k < i ==> dates@[k]@ == date_text(response@[k].0.timestamp@.day) && times@[k]@
                    == time_text(
                    response@[k].0.timestamp@.second,
                    response@[k].0.timestamp@.nano,
                ),
        decreases response.len() - i,
    {
        dates.push(response[i].0.timestamp.date_string());
        times.push(response[i].0.timestamp.time_string());
        i += 1;
    }
    assert(string_views(dates@) =~= item_dates(response@));
    assert(string_views(times@) =~= item_times(response@));
    let full = list_entries(response, &dates, &times);
    string_from_chars(&trim_chars(&to_chars(full.as_str())))
}

/// Where a listing goes.
#[derive(Debug, Clone, PartialEq, Eq)]
pub enum PrintAction {
    /// Write the text to the file at this path, over what the file held.
    WriteFile { path: String, text: String },
    /// Show the text.
    Show { text: String },
}

/// The period that a listing of the last `days` days covers: from `days`
/// days before `now` to `now`. None where the period would begin before the
/// first day that can be represented.
pub fn print_period(now: &Timestamp, days: u32) -> (period: Option<(Timestamp, Timestamp)>)
    ensures
        match period {
            Some((from, to)) => to@ == now@ && from@.day == now@.day - days && from@.second
                == now@.second && from@.nano == now@.nano,
            None => now@.day - days < crate::timestamp::MIN_DAY,
        },
{
    match now.days_earlier(days) {
        Some(from) => Some((from, *now)),
        None => None,
    }
}

/// Decides what is done with the entries of the period: they are written to
/// the file at `output`, or shown where no file is named. It is an error if
/// there is nothing to list.
pub fn print(response: &Vec<EntryWithLabelsTuple>, output: &Option<String>) -> (action: Result<
    PrintAction,
    Error,
>)
    ensures
        match action {
            Ok(PrintAction::WriteFile { path, text }) => output == Some(path) && text@.len() > 0
                && text@ == trimmed(
                listing(response@, item_dates(response@), item_times(response@)),
            ),
            Ok(PrintAction::Show { text }) => output is None && text@.len() > 0 && text@
                == trimmed(listing(response@, item_dates(response@), item_times(response@))),
            Err(error) => {
                &&& trimmed(
                    listing(response@, item_dates(response@), item_times(response@)),
                ).len() == 0
                &&& error matches Error::InvalidInput(message)
                &&& message@ == "No entries found"@
            },
        },
{
    let text = printable_entries(response);
    if text.as_str().unicode_len() == 0 {
        return Err(Error::InvalidInput(String::from_str("No entries found")));
    }
    match output {
        Some(path) => Ok(PrintAction::WriteFile { path: path.clone(), text }),
        None => Ok(PrintAction::Show { text }),
    }
}

} // verus!
