//! The streak report: which labels were used on which of the last days, and
//! the table that shows it.

use vstd::prelude::*;
use vstd::utf8::encode_utf8;
use crate::text::{append_chars, digit, digit_char, string_from_chars, to_chars};
use crate::timestamp::{
    full_days_between, is_before, lemma_full_days, lemma_whole_days_by_calendar, valid_instant,
    Instant, Timestamp,
};

verus! {

/// The number of days that the streak report looks back, today included.
pub const STREAK_RANGE: usize = 7;

/// One use of a label, or a label that was never used: what the store hands
/// over for each choice that is shown in streaks.
pub type Reading = (Seq<char>, Option<Instant>);

/// The mathematical value of a list of `(label, timestamp)` pairs.
pub open spec fn readings(source: Seq<(String, Option<Timestamp>)>) -> Seq<Reading> {
    Seq::new(
        source.len(),
        |i: int|
            (
                source[i].0@,
                match source[i].1 {
                    Some(at) => Some(at@),
                    None => None,
                },
            ),
    )
}

/// Whether the calendar day of `at` is one of the `range` days that end with
/// the day of `now`.
pub open spec fn in_window(now: Instant, at: Instant, range: int) -> bool {
    0 <= now.day - at.day < range
}

/// Whether `reading` gives its label a row in the table: it has no timestamp,
/// or its timestamp lies in the window.
pub open spec fn listed(now: Instant, range: int, reading: Reading) -> bool {
    match reading.1 {
        Some(at) => in_window(now, at, range),
        None => true,
    }
}

/// Whether `reading` marks the day `k` days ago for its label: its timestamp
/// lies in the window, `k` full days before `now`.
pub open spec fn marks(now: Instant, range: int, reading: Reading, k: int) -> bool {
    match reading.1 {
        Some(at) => in_window(now, at, range) && full_days_between(now, at) == k,
        None => false,
    }
}

/// Whether `reading` is passed over: its timestamp lies in the window by the
/// calendar, but the full days since then are no day of the window. This is
/// so for a reading on the day of `now` at a later time.
pub open spec fn passed_over(now: Instant, range: int, reading: Reading) -> bool {
    match reading.1 {
        Some(at) => in_window(now, at, range) && !(0 <= full_days_between(now, at) < range),
        None => false,
    }
}

/// The number of readings that are passed over.
pub open spec fn passed_over_count(now: Instant, range: int, source: Seq<Reading>) -> nat
    decreases source.len(),
{
    if source.len() == 0 {
        0
    } else {
        passed_over_count(now, range, source.drop_last()) + if passed_over(
            now,
            range,
            source.last(),
        ) {
            1nat
        } else {
            0nat
        }
    }
}

/// The labels that have a row, each once, in the order in which they are
/// first listed.
pub open spec fn listed_labels(now: Instant, range: int, source: Seq<Reading>) -> Seq<Seq<char>>
    decreases source.len(),
{
    if source.len() == 0 {
        Seq::empty()
    } else {
        let before = listed_labels(now, range, source.drop_last());
        if listed(now, range, source.last()) && !before.contains(source.last().0) {
            before.push(source.last().0)
        } else {
            before
        }
    }
}

/// Whether some reading of `label` marks the day `k` days ago.
pub open spec fn seen(now: Instant, range: int, source: Seq<Reading>, label: Seq<char>, k: int)
    -> bool {
    exists|i: int|
        0 <= i < source.len() && (#[trigger] source[i]).0 == label && marks(
            now,
            range,
            source[i],
            k,
        )
}

/// For each of `labels` its row: for each day of the window whether some
/// reading of the label marks it.
pub open spec fn marked_days(now: Instant, range: int, source: Seq<Reading>, labels: Seq<Seq<char>>)
    -> Seq<Seq<bool>> {
    Seq::new(
        labels.len(),
        |r: int| Seq::new(range as nat, |k: int| seen(now, range, source, labels[r], k)),
    )
}

/// One row of the streak table.
#[derive(Debug, Clone, PartialEq, Eq)]
pub struct StreakRow {
    /// The label of the choice.
    pub label: String,
    /// For each day of the window whether the label was used then; index 0
    /// is the most recent day.
    pub days: Vec<bool>,
}

/// The streak table: for each label a row of days, no label twice, every row
/// as long as the window.
#[derive(Debug, PartialEq, Eq)]
pub struct StreakTable {
    range_days: usize,
    rows: Vec<StreakRow>,
}

/// The labels of `rows`.
pub open spec fn row_labels(rows: Seq<StreakRow>) -> Seq<Seq<char>> {
    Seq::new(rows.len(), |r: int| rows[r].label@)
}

/// The days of `rows`.
pub open spec fn row_days(rows: Seq<StreakRow>) -> Seq<Seq<bool>> {
    Seq::new(rows.len(), |r: int| rows[r].days@)
}

/// Whether `rows` can be the rows of a table over `range` days.
pub open spec fn rows_fit(rows: Seq<StreakRow>, range: int) -> bool {
    &&& forall|r: int| 0 <= r < rows.len() ==> (#[trigger] rows[r]).days@.len() == range
    &&& forall|r: int, s: int|
        0 <= r < s < rows.len() ==> (#[trigger] rows[r]).label@ != (#[trigger] rows[s]).label@
}

impl StreakTable {
    #[verifier::type_invariant]
    spec fn well_formed(self) -> bool {
        rows_fit(self.rows@, self.range_days as int)
    }

    /// The number of days in each row.
    pub closed spec fn range(self) -> int {
        self.range_days as int
    }

    /// The labels of the rows, in order.
    pub closed spec fn labels(self) -> Seq<Seq<char>> {
        row_labels(self.rows@)
    }

    /// The days of the rows, in order.
    pub closed spec fn days(self) -> Seq<Seq<bool>> {
        row_days(self.rows@)
    }

    /// Whether the table is what its type promises: one row per label, each
    /// `range()` days long.
    pub open spec fn valid(self) -> bool {
        &&& self.labels().len() == self.days().len()
        &&& forall|r: int| 0 <= r < self.days().len() ==> (#[trigger] self.days()[r]).len() == self.range()
        &&& forall|r: int, s: int|
            0 <= r < s < self.labels().len() ==> (#[trigger] self.labels()[r]) != (
            #[trigger] self.labels()[s])
    }

    /// The table as a map from label to days.
    pub open spec fn view(self) -> Map<Seq<char>, Seq<bool>> {
        Map::new(
            |label: Seq<char>| self.labels().contains(label),
            |label: Seq<char>| self.days()[self.labels().index_of(label)],
        )
    }

    /// The table with the given rows, where no label occurs twice and every
    /// row has `range_days` days.
    pub fn from_rows(range_days: usize, rows: Vec<StreakRow>) -> (made: Option<StreakTable>)
        ensures
            made is Some <==> rows_fit(rows@, range_days as int),
            made matches Some(table) ==> table.range() == range_days && table.labels()
                == row_labels(rows@) && table.days() == row_days(rows@) && table.valid(),
    {
        let mut r: usize = 0;
        while r < rows.len()
            invariant
                r <= rows.len(),
                rows_fit(rows@.take(r as int), range_days as int),
            decreases rows.len() - r,
        {
            if rows[r].days.len() != range_days {
                return None;
            }
            let mut s: usize = 0;
            while s < r
                invariant
                    s <= r < rows.len(),
                    forall|t: int| 0 <= t < s ==> (#[trigger] rows@[t]).label@ != rows@[r as int].label@,
                decreases r - s,
            {
                if rows[s].label == rows[r].label {
                    return None;
                }
                s += 1;
            }
            assert(rows_fit(rows@.take(r + 1), range_days as int)) by {
                let next = rows@.take(r + 1);
                let prev = rows@.take(r as int);
                assert forall|a: int| 0 <= a < next.len() implies (#[trigger] next[a]).days@.len()
                    == range_days by {
                    if a < r {
                        assert(prev[a] == next[a]);
                    }
                }
                assert forall|a: int, b: int| 0 <= a < b < next.len() implies (#[trigger] next[a]).label@
                    != (#[trigger] next[b]).label@ by {
                    if b < r {
                        assert(prev[a] == next[a]);
                        assert(prev[b] == next[b]);
                    }
                }
            }
            r += 1;
        }
        assert(rows@.take(rows.len() as int) =~= rows@);
        let table = StreakTable { range_days, rows };
        proof {
            table.lemma_valid();
        }
        Some(table)
    }

    proof fn lemma_valid(self)
        requires
            rows_fit(self.rows@, self.range_days as int),
        ensures
            self.valid(),
    {
        assert forall|r: int| 0 <= r < self.days().len() implies (#[trigger] self.days()[r]).len()
            == self.range() by {
            assert(self.rows@[r].days@.len() == self.range_days);
        }
        assert forall|r: int, s: int| 0 <= r < s < self.labels().len() implies (
        #[trigger] self.labels()[r]) != (#[trigger] self.labels()[s]) by {
            assert(self.rows@[r].label@ != self.rows@[s].label@);
        }
    }

    /// The number of days in each row.
    pub fn range_days(&self) -> (n: usize)
        ensures
            n == self.range(),
            self.valid(),
    {
        proof {
            use_type_invariant(self);
            self.lemma_valid();
        }
        self.range_days
    }

    /// The rows, in order.
    pub fn rows(&self) -> (rows: &Vec<StreakRow>)
        ensures
            row_labels(rows@) == self.labels(),
            row_days(rows@) == self.days(),
            rows_fit(rows@, self.range()),
            self.valid(),
    {
        proof {
            use_type_invariant(self);
            self.lemma_valid();
        }
        &self.rows
    }

    /// Whether the table has no row.
    pub fn is_empty(&self) -> (empty: bool)
        ensures
            empty == (self.labels().len() == 0),
    {
        self.rows.len() == 0
    }

    /// The days of the row of `label`, if the table has such a row.
    pub fn get(&self, label: &str) -> (days: Option<&Vec<bool>>)
        ensures
            days is Some <==> self@.contains_key(label@),
            days matches Some(d) ==> d@ == self@[label@],
    {
        proof {
            use_type_invariant(self);
        }
        let wanted = label.to_owned();
        let mut r: usize = 0;
        while r < self.rows.len()
            invariant
                r <= self.rows.len(),
                wanted@ == label@,
                forall|t: int| 0 <= t < r ==> (#[trigger] self.rows@[t]).label@ != label@,
            decreases self.rows.len() - r,
        {
            if self.rows[r].label == wanted {
                proof {
                    use_type_invariant(self);
                    let labels = self.labels();
                    assert(labels[r as int] == label@);
                    assert(labels.contains(label@));
                    let at = labels.index_of(label@);
                    assert(0 <= at < labels.len() && labels[at] == label@);
                    if at != r {
                        if at < r {
                            assert(self.rows@[at].label@ != self.rows@[r as int].label@);
                        } else {
                            assert(self.rows@[r as int].label@ != self.rows@[at].label@);
                        }
                    }
                }
                return Some(&self.rows[r].days);
            }
            r += 1;
        }
        proof {
            let labels = self.labels();
            if labels.contains(label@) {
                let at = choose|at: int| 0 <= at < labels.len() && labels[at] == label@;
                assert(self.rows@[at].label@ == label@);
            }
        }
        None
    }
}

proof fn lemma_seen_step(now: Instant, range: int, source: Seq<Reading>, label: Seq<char>, k: int)
    requires
        source.len() > 0,
    ensures
        seen(now, range, source, label, k) <==> seen(now, range, source.drop_last(), label, k) || (
        source.last().0 == label && marks(now, range, source.last(), k)),
{
    let before = source.drop_last();
    if seen(now, range, source, label, k) {
        let i = choose|i: int|
            0 <= i < source.len() && (#[trigger] source[i]).0 == label && marks(
                now,
                range,
                source[i],
                k,
            );
        if i < before.len() {
            assert(before[i] == source[i]);
        }
    }
    if seen(now, range, before, label, k) {
        let i = choose|i: int|
            0 <= i < before.len() && (#[trigger] before[i]).0 == label && marks(
                now,
                range,
                before[i],
                k,
            );
        assert(source[i] == before[i]);
    }
    if source.last().0 == label && marks(now, range, source.last(), k) {
        assert(source[source.len() - 1] == source.last());
    }
}

/// A row of `n` days on none of which the label was used.
fn blank_days(n: usize) -> (days: Vec<bool>)
    ensures
        days@.len() == n,
        forall|k: int| 0 <= k < n ==> !days@[k],
{
    let mut days: Vec<bool> = Vec::new();
    let mut k: usize = 0;
    while k < n
        invariant
            k <= n,
            days@.len() == k,
            forall|j: int| 0 <= j < k ==> !days@[j],
        decreases n - k,
    {
        days.push(false);
        k += 1;
    }
    days
}

/// The index of the row of `label`, if there is one.
fn find_row(rows: &Vec<StreakRow>, label: &String) -> (found: Option<usize>)
    ensures
        found matches Some(r) ==> r < rows.len() && rows@[r as int].label@ == label@,
        found is None ==> !row_labels(rows@).contains(label@),
{
    let mut r: usize = 0;
    while r < rows.len()
        invariant
            r <= rows.len(),
            forall|t: int| 0 <= t < r ==> (#[trigger] rows@[t]).label@ != label@,
        decreases rows.len() - r,
    {
        if rows[r].label == *label {
            return Some(r);
        }
        r += 1;
    }
    proof {
        let labels = row_labels(rows@);
        if labels.contains(label@) {
            let at = choose|at: int| 0 <= at < labels.len() && labels[at] == label@;
            assert(rows@[at].label@ == label@);
        }
    }
    None
}

/// Turns the uses of labels into the streak table over the `range_days` days
/// that end with the day of `now`, and counts the readings that were passed
/// over, so that the caller can warn of them.
///
/// A label gets a row with its first reading that has no timestamp or whose
/// timestamp falls on a day of the window; readings on other days leave no
/// trace. A reading in the window marks the day that lies as many full days
/// back as have passed since; several readings of one label mark the same
/// row. A reading on the day of `now` at a later time marks nothing.
pub fn aggregate_streaks(
    now: &Timestamp,
    range_days: usize,
    source: &Vec<(String, Option<Timestamp>)>,
) -> (out: (StreakTable, usize))
    ensures
        out.0.valid(),
        out.0.range() == range_days,
        out.0.labels() == listed_labels(now@, range_days as int, readings(source@)),
        out.0.days() == marked_days(
            now@,
            range_days as int,
            readings(source@),
            out.0.labels(),
        ),
        out.1 == passed_over_count(now@, range_days as int, readings(source@)),
{
    let ghost all = readings(source@);
    let ghost range = range_days as int;
    let today = now.day();
    let mut rows: Vec<StreakRow> = Vec::new();
    let mut skipped: usize = 0;
    let mut i: usize = 0;
    assert(row_labels(rows@) =~= listed_labels(now@, range, all.take(0)));
    while i < source.len()
        invariant
            i <= source.len(),
            skipped <= i,
            skipped == passed_over_count(now@, range, all.take(i as int)),
            all == readings(source@),
            range == range_days as int,
            today == now@.day,
            valid_instant(now@),
            rows_fit(rows@, range),
            row_labels(rows@) == listed_labels(now@, range, all.take(i as int)),
            forall|r: int, k: int|
                0 <= r < rows.len() && 0 <= k < range ==> (#[trigger] rows@[r].days@[k]) == seen(
                    now@,
                    range,
                    all.take(i as int),
                    rows@[r].label@,
                    k,
                ),
        decreases source.len() - i,
    {
        let ghost before = all.take(i as int);
        let ghost next = all.take(i + 1);
        let ghost reading = all[i as int];
        let ghost old_rows = rows@;
        proof {
            assert(next.drop_last() =~= before);
            assert(next.last() == reading);
            assert forall|label: Seq<char>, k: int|
                seen(now@, range, next, label, k) <==> seen(now@, range, before, label, k) || (
                reading.0 == label && marks(now@, range, reading, k)) by {
                lemma_seen_step(now@, range, next, label, k);
            }
        }
        let label = &source[i].0;
        let mut row_wanted = true;
        let mut day_index: Option<usize> = None;
        match source[i].1 {
            Some(at) => {
                let gap: i64 = today as i64 - at.day() as i64;
                if gap >= 0 && (gap as u64) < (range_days as u64) {
                    proof {
                        lemma_whole_days_by_calendar(now@, at@);
                        lemma_full_days(now@, at@);
                    }
                    if now.is_before(&at) {
                        skipped += 1;
                    } else {
                        let passed = now.days_since(&at);
                        day_index = Some(passed as usize);
                    }
                } else {
                    row_wanted = false;
                }
            },
            None => {},
        }
        assert(skipped == passed_over_count(now@, range, next));
        assert(row_wanted == listed(now@, range, reading));
        assert(label@ == reading.0);
        assert(forall|k: int|
            0 <= k < range ==> (marks(now@, range, reading, k) <==> day_index == Some(k as usize)));
        assert(day_index matches Some(k) ==> k < range_days);
        assert(day_index is Some ==> row_wanted);
        if row_wanted {
            let r = match find_row(&rows, label) {
                Some(r) => {
                    assert(row_labels(rows@)[r as int] == reading.0);
                    r
                },
                None => {
                    assert forall|t: int| 0 <= t < rows.len() implies (#[trigger] rows@[t]).label@
                        != reading.0 by {
                        assert(row_labels(rows@)[t] == rows@[t].label@);
                    }
                    rows.push(StreakRow { label: label.clone(), days: blank_days(range_days) });
                    proof {
                        assert(row_labels(rows@) =~= row_labels(old_rows).push(reading.0));
                        assert forall|k: int| 0 <= k < range implies !seen(
                            now@,
                            range,
                            before,
                            reading.0,
                            k,
                        ) by {
                            lemma_unlisted_label_is_unseen(now@, range, before, reading.0, k);
                        }
                    }
                    rows.len() - 1
                },
            };
            let ghost mid_rows = rows@;
            assert(rows_fit(mid_rows, range));
            assert(row_labels(mid_rows) == listed_labels(now@, range, next));
            assert(mid_rows[r as int].label@ == reading.0);
            assert(forall|t: int, k: int|
                0 <= t < mid_rows.len() && 0 <= k < range ==> (#[trigger] mid_rows[t].days@[k])
                    == seen(now@, range, before, mid_rows[t].label@, k));
            match day_index {
                Some(k) => {
                    let mut days: Vec<bool> = Vec::new();
                    std::mem::swap(&mut days, &mut rows[r].days);
                    days.set(k, true);
                    std::mem::swap(&mut days, &mut rows[r].days);
                    assert(rows@.len() == mid_rows.len());
                    assert(forall|t: int|
                        0 <= t < rows@.len() ==> (#[trigger] rows@[t]).label == mid_rows[t].label);
                    assert(forall|t: int|
                        0 <= t < rows@.len() && t != r ==> (#[trigger] rows@[t]).days == mid_rows[t].days);
                    assert(rows@[r as int].days@ == mid_rows[r as int].days@.update(k as int, true));
                    assert(row_labels(rows@) =~= row_labels(mid_rows));
                },
                None => {},
            }
        }
        i += 1;
    }
    assert(all.take(source.len() as int) =~= all);
    let table = StreakTable { range_days, rows };
    proof {
        table.lemma_valid();
        assert(table.labels() == listed_labels(now@, range, all));
        let expected = marked_days(now@, range, all, table.labels());
        assert(table.days().len() == expected.len());
        assert forall|r: int| 0 <= r < expected.len() implies table.days()[r] == expected[r] by {
            assert(table.rows@[r].days@.len() == range);
            assert forall|k: int| 0 <= k < range implies table.rows@[r].days@[k] == expected[r][k] by {
                assert(table.labels()[r] == table.rows@[r].label@);
            }
            assert(table.days()[r] =~= expected[r]);
        }
        assert(table.days() =~= expected);
    }
    (table, skipped)
}

/// A label that has no row was not seen on any day.
proof fn lemma_unlisted_label_is_unseen(
    now: Instant,
    range: int,
    source: Seq<Reading>,
    label: Seq<char>,
    k: int,
)
    requires
        !listed_labels(now, range, source).contains(label),
    ensures
        !seen(now, range, source, label, k),
    decreases source.len(),
{
    if source.len() > 0 {
        let before = listed_labels(now, range, source.drop_last());
        lemma_seen_step(now, range, source, label, k);
        if listed(now, range, source.last()) && !before.contains(source.last().0) {
            let grown = before.push(source.last().0);
            assert(grown[before.len() as int] == source.last().0);
            if before.contains(label) {
                let at = choose|at: int| 0 <= at < before.len() && before[at] == label;
                assert(grown[at] == label);
            }
        }
        lemma_unlisted_label_is_unseen(now, range, source.drop_last(), label, k);
    }
}

/// The streak table over the last [`STREAK_RANGE`] days, and the number of
/// readings that were passed over.
pub fn fetch_and_process_streaks(now: &Timestamp, response: &Vec<(String, Option<Timestamp>)>) -> (out: (
    StreakTable,
    usize,
))
    ensures
        out.0.valid(),
        out.0.range() == STREAK_RANGE,
        out.0.labels() == listed_labels(now@, STREAK_RANGE as int, readings(response@)),
        out.0.days() == marked_days(
            now@,
            STREAK_RANGE as int,
            readings(response@),
            out.0.labels(),
        ),
        out.1 == passed_over_count(now@, STREAK_RANGE as int, readings(response@)),
{
    aggregate_streaks(now, STREAK_RANGE, response)
}

/// A label has a row exactly if one of its readings is listed, and no label
/// has two rows.
pub proof fn lemma_rows_are_the_listed_labels(
    now: Instant,
    range: int,
    source: Seq<Reading>,
    label: Seq<char>,
)
    ensures
        listed_labels(now, range, source).contains(label) <==> exists|i: int|
            0 <= i < source.len() && (#[trigger] source[i]).0 == label && listed(
                now,
                range,
                source[i],
            ),
        listed_labels(now, range, source).no_duplicates(),
    decreases source.len(),
{
    let labels = listed_labels(now, range, source);
    if source.len() > 0 {
        let before_source = source.drop_last();
        let before = listed_labels(now, range, before_source);
        let last = source.last();
        lemma_rows_are_the_listed_labels(now, range, before_source, label);
        if before.contains(label) {
            let at = choose|at: int| 0 <= at < before.len() && before[at] == label;
            assert(labels[at] == label);
            let i = choose|i: int|
                0 <= i < before_source.len() && (#[trigger] before_source[i]).0 == label && listed(
                    now,
                    range,
                    before_source[i],
                );
            assert(source[i] == before_source[i]);
        }
        if listed(now, range, last) && !before.contains(last.0) {
            assert(labels[before.len() as int] == last.0);
            assert(source[source.len() - 1] == last);
        }
        if labels.contains(label) && !before.contains(label) {
            let at = choose|at: int| 0 <= at < labels.len() && labels[at] == label;
            if at < before.len() {
                assert(before[at] == label);
            }
            assert(source[source.len() - 1] == last);
        }
        if exists|i: int|
            0 <= i < source.len() && (#[trigger] source[i]).0 == label && listed(
                now,
                range,
                source[i],
            ) {
            let i = choose|i: int|
                0 <= i < source.len() && (#[trigger] source[i]).0 == label && listed(
                    now,
                    range,
                    source[i],
                );
            if i < before_source.len() {
                assert(before_source[i] == source[i]);
            } else {
                assert(source[i] == last);
                if before.contains(last.0) {
                } else {
                    assert(labels[before.len() as int] == last.0);
                }
            }
        }
    }
}

/// A reading whose day lies in the window marks a day of it unless it was
/// taken after `now`: the full days that have passed since are less than
/// `range`, and not negative exactly if the reading is not later than `now`.
pub proof fn lemma_reading_in_window_marks_a_day(now: Instant, at: Instant, range: int)
    requires
        valid_instant(now),
        valid_instant(at),
        in_window(now, at, range),
    ensures
        -1 <= full_days_between(now, at) <= now.day - at.day < range,
        is_before(now, at) <==> full_days_between(now, at) == -1,
        is_before(now, at) ==> now.day == at.day,
        is_before(now, at) <==> passed_over(now, range, (Seq::<char>::empty(), Some(at))),
{
    lemma_whole_days_by_calendar(now, at);
    lemma_full_days(now, at);
}

/// A reading taken at `now` itself marks today, the day with index 0; one
/// taken `k` days earlier at the same time of day marks the day with index
/// `k`, as long as `k` is less than `range`; one taken `range` or more
/// calendar days before `now`, or on a later day, marks nothing and gives its
/// label no row.
pub proof fn lemma_days_marked(now: Instant, at: Instant, range: int, label: Seq<char>)
    requires
        valid_instant(now),
        valid_instant(at),
    ensures
        range >= 1 ==> marks(now, range, (label, Some(now)), 0),
        at.second == now.second && at.nano == now.nano && 0 <= now.day - at.day < range ==> marks(
            now,
            range,
            (label, Some(at)),
            now.day - at.day,
        ),
        now.day - at.day >= range || now.day < at.day ==> !listed(now, range, (label, Some(at)))
            && !passed_over(now, range, (label, Some(at))) && forall|k: int|
            !marks(now, range, (label, Some(at)), k),
{
    lemma_whole_days_by_calendar(now, now);
    lemma_full_days(now, now);
    if now.day >= at.day {
        lemma_whole_days_by_calendar(now, at);
        lemma_full_days(now, at);
    }
}

/// A label all of whose readings lack a timestamp still has a row, and no day
/// of that row is marked.
pub proof fn lemma_unused_label_has_blank_row(
    now: Instant,
    range: int,
    source: Seq<Reading>,
    label: Seq<char>,
)
    requires
        exists|i: int| 0 <= i < source.len() && (#[trigger] source[i]).0 == label,
        forall|i: int| 0 <= i < source.len() && (#[trigger] source[i]).0 == label ==> source[i].1 is None,
    ensures
        listed_labels(now, range, source).contains(label),
        forall|k: int| !seen(now, range, source, label, k),
{
    let i = choose|i: int| 0 <= i < source.len() && (#[trigger] source[i]).0 == label;
    assert(listed(now, range, source[i]));
    lemma_rows_are_the_listed_labels(now, range, source, label);
}


/// `n` spaces; none where `n` is not positive.
pub open spec fn spaces(n: int) -> Seq<char> {
    Seq::new(
        if n > 0 {
            n as nat
        } else {
            0
        },
        |i: int| ' ',
    )
}

/// The length of `label` in bytes of its UTF-8 form.
pub open spec fn byte_len(label: Seq<char>) -> int {
    encode_utf8(label).len() as int
}

/// The greatest length in bytes among `labels`; 0 where there is none.
pub open spec fn longest_label(labels: Seq<Seq<char>>) -> int
    decreases labels.len(),
{
    if labels.len() == 0 {
        0
    } else {
        let before = longest_label(labels.drop_last());
        if byte_len(labels.last()) > before {
            byte_len(labels.last())
        } else {
            before
        }
    }
}

/// The width of the first column: the longest label and two more.
pub open spec fn label_column_width(labels: Seq<Seq<char>>) -> int {
    longest_label(labels) + 2
}

/// The day columns of the header: the indices from `range - 1` down to 0,
/// each followed by a space.
pub open spec fn header_cells(range: int) -> Seq<char>
    decreases range,
{
    if range <= 0 {
        Seq::empty()
    } else {
        seq![digit(range - 1), ' '] + header_cells(range - 1)
    }
}

/// The cell of one day: `"# "` where the label was used, two spaces where not.
pub open spec fn cell(used: bool) -> Seq<char> {
    if used {
        seq!['#', ' ']
    } else {
        seq![' ', ' ']
    }
}

/// The cells of a row, from the most distant day to the most recent.
pub open spec fn row_cells(days: Seq<bool>) -> Seq<char>
    decreases days.len(),
{
    if days.len() == 0 {
        Seq::empty()
    } else {
        cell(days.last()) + row_cells(days.drop_last())
    }
}

/// The header line of the table.
pub open spec fn header_line(width: int, range: int) -> Seq<char> {
    spaces(width) + header_cells(range) + seq!['\n']
}

/// The line of one label: the label, spaces up to `width` characters, the
/// cells of its days.
pub open spec fn row_line(label: Seq<char>, days: Seq<bool>, width: int) -> Seq<char> {
    label + spaces(width - label.len()) + row_cells(days) + seq!['\n']
}

/// The lines of the rows, in order.
pub open spec fn row_lines(labels: Seq<Seq<char>>, days: Seq<Seq<bool>>, width: int) -> Seq<char>
    decreases labels.len(),
{
    if labels.len() == 0 || days.len() == 0 {
        Seq::empty()
    } else {
        row_lines(labels.drop_last(), days.drop_last(), width) + row_line(
            labels.last(),
            days.last(),
            width,
        )
    }
}

/// The whole table as text: the header line, then one line for each row.
pub open spec fn table_text(labels: Seq<Seq<char>>, days: Seq<Seq<bool>>, range: int) -> Seq<char> {
    header_line(label_column_width(labels), range) + row_lines(
        labels,
        days,
        label_column_width(labels),
    )
}

/// The streak report over the `range` days that end with the day of `now`:
/// the table of the labels that `source` lists, or nothing where it lists none.
pub open spec fn streak_report(now: Instant, range: int, source: Seq<Reading>) -> Option<Seq<char>> {
    let labels = listed_labels(now, range, source);
    if labels.len() == 0 {
        None
    } else {
        Some(table_text(labels, marked_days(now, range, source, labels), range))
    }
}

/// A text is never longer in characters than in bytes.
proof fn lemma_chars_within_bytes(text: Seq<char>)
    ensures
        text.len() <= byte_len(text),
    decreases text.len(),
{
    if text.len() > 0 {
        lemma_chars_within_bytes(text.drop_first());
    }
}

proof fn lemma_longest_bounds(labels: Seq<Seq<char>>, r: int)
    requires
        0 <= r < labels.len(),
    ensures
        byte_len(labels[r]) <= longest_label(labels),
    decreases labels.len(),
{
    if r < labels.len() - 1 {
        lemma_longest_bounds(labels.drop_last(), r);
    }
}

/// Appends `n` spaces to `out`.
fn push_spaces(out: &mut Vec<char>, n: usize)
    ensures
        final(out)@ == old(out)@ + spaces(n as int),
{
    let mut i: usize = 0;
    assert(out@ =~= old(out)@ + spaces(0));
    while i < n
        invariant
            i <= n,
            out@ == old(out)@ + spaces(i as int),
        decreases n - i,
    {
        out.push(' ');
        i += 1;
        assert(out@ =~= old(out)@ + spaces(i as int));
    }
}

/// The length of `label` in bytes.
fn label_bytes(label: &String) -> (n: usize)
    ensures
        n == byte_len(label@),
{
    label.as_str().as_bytes().len()
}

/// Renders the streak table as text, or nothing where the table has no row.
///
/// The first line names the days of the window by how many days ago they
/// were, from the most distant down to 0 for today. Each further line holds
/// a label, padded to the width of the longest label and two more, and a `#`
/// under each day on which the label was used.
pub fn format_streaks_into_table(labels_and_bools: &StreakTable) -> (table: Option<String>)
    requires
        labels_and_bools.range() <= 10,
    ensures
        table is None <==> labels_and_bools.labels().len() == 0,
        table matches Some(text) ==> text@ == table_text(
            labels_and_bools.labels(),
            labels_and_bools.days(),
            labels_and_bools.range(),
        ),
{
    let rows = labels_and_bools.rows();
    let range_days = labels_and_bools.range_days();
    if rows.len() == 0 {
        return None;
    }
    let ghost labels = row_labels(rows@);
    let ghost days = row_days(rows@);
    let ghost range = range_days as int;

    let mut longest: usize = 0;
    let mut r: usize = 0;
    assert(labels.take(0) =~= Seq::<Seq<char>>::empty());
    while r < rows.len()
        invariant
            r <= rows.len(),
            labels == row_labels(rows@),
            longest == longest_label(labels.take(r as int)),
        decreases rows.len() - r,
    {
        proof {
            let next = labels.take(r + 1);
            assert(next.drop_last() =~= labels.take(r as int));
            assert(next.last() == rows@[r as int].label@);
        }
        let n = label_bytes(&rows[r].label);
        if n > longest {
            longest = n;
        }
        r += 1;
    }
    assert(labels.take(rows.len() as int) =~= labels);
    let ghost width = longest + 2;
    assert(width == label_column_width(labels));

    let mut out: Vec<char> = Vec::new();
    push_spaces(&mut out, longest);
    push_spaces(&mut out, 2);
    assert(out@ =~= spaces(width));
    let mut day: usize = range_days;
    assert(header_cells(range) =~= Seq::<char>::empty() + header_cells(range));
    while day > 0
        invariant
            day <= range_days <= 10,
            range == range_days as int,
            spaces(width) + header_cells(range) == out@ + header_cells(day as int),
        decreases day,
    {
        let ghost before = out@;
        day -= 1;
        out.push(digit_char(day as u64));
        out.push(' ');
        assert(before + header_cells(day + 1) =~= out@ + header_cells(day as int));
    }
    out.push('\n');
    assert(out@ =~= header_line(width, range) + row_lines(labels.take(0), days.take(0), width));

    let mut r: usize = 0;
    while r < rows.len()
        invariant
            r <= rows.len(),
            labels == row_labels(rows@),
            days == row_days(rows@),
            width == longest + 2,
            longest == longest_label(labels),
            out@ == header_line(width, range) + row_lines(
                labels.take(r as int),
                days.take(r as int),
                width,
            ),
        decreases rows.len() - r,
    {
        let ghost before = out@;
        let ghost label = rows@[r as int].label@;
        let ghost marks = rows@[r as int].days@;
        proof {
            assert(labels.take(r + 1).drop_last() =~= labels.take(r as int));
            assert(days.take(r + 1).drop_last() =~= days.take(r as int));
            assert(labels.take(r + 1).last() == label);
            assert(days.take(r + 1).last() == marks);
            lemma_chars_within_bytes(label);
            lemma_longest_bounds(labels, r as int);
        }
        let name = to_chars(rows[r].label.as_str());
        append_chars(&mut out, &name);
        push_spaces(&mut out, longest - name.len());
        push_spaces(&mut out, 2);
        assert(out@ =~= before + label + spaces(width - label.len()));
        let ghost named = out@;
        let row_days_ref = &rows[r].days;
        let mut k: usize = row_days_ref.len();
        assert(row_cells(marks) =~= Seq::<char>::empty() + row_cells(marks.take(k as int))) by {
            assert(marks.take(k as int) =~= marks);
        }
        while k > 0
            invariant
                k <= row_days_ref.len(),
                marks == row_days_ref@,
                named + row_cells(marks) == out@ + row_cells(marks.take(k as int)),
            decreases k,
        {
            let ghost so_far = out@;
            k -= 1;
            if row_days_ref[k] {
                out.push('#');
            } else {
                out.push(' ');
            }
            out.push(' ');
            proof {
                let upto = marks.take(k + 1);
                assert(upto.drop_last() =~= marks.take(k as int));
                assert(upto.last() == marks[k as int]);
                assert(so_far + row_cells(upto) =~= out@ + row_cells(marks.take(k as int)));
            }
        }
        out.push('\n');
        assert(marks.take(0) =~= Seq::<bool>::empty());
        assert(out@ =~= before + row_line(label, marks, width));
        r += 1;
    }
    assert(labels.take(rows.len() as int) =~= labels);
    assert(days.take(rows.len() as int) =~= days);
    Some(string_from_chars(&out))
}


} // verus!
