//! Daily contribution counts bucketed into ISO weeks, and their dense
//! week-by-weekday matrix.

use vstd::prelude::*;
use crate::calendar::{iso_week_of_day, iso_year_of_day, weekday_of_day, Date, DateRange};
use crate::github::fetch::FetchError;
use crate::matrix::{matrix_view, zero_row};
use crate::text::{push_signed_decimal, push_two_digit_decimal, signed_decimal, two_digit_decimal};

verus! {

/// An ISO 8601 week: the ISO year and the week's number in it.
#[derive(Clone, Copy, Debug, PartialEq, Eq, Structural, PartialOrd, Ord, Hash)]
pub struct YearWeek {
    pub year: i32,
    pub week: u32,
}

/// The ISO week that holds the day with the given number.
pub open spec fn year_week_of_day(day_number: int) -> YearWeek {
    YearWeek { year: iso_year_of_day(day_number) as i32, week: iso_week_of_day(day_number) as u32 }
}

/// A range is valid when both dates are well formed and the first is not
/// after the last.
pub open spec fn range_valid(range: DateRange) -> bool {
    range.0.wf() && range.1.wf() && range.0@ <= range.1@
}

/// Whether the day lies in the range, both ends included.
pub open spec fn in_range(range: DateRange, day_number: int) -> bool {
    range.0@ <= day_number <= range.1@
}

/// The number of days of the range, both ends included.
pub open spec fn inclusive_days(range: DateRange) -> int {
    range.1@ - range.0@ + 1
}

/// The number of weeks of the range: its days divided by seven, rounded up.
pub open spec fn weeks_in(range: DateRange) -> int {
    (inclusive_days(range) + 6) / 7
}

/// The day reached from the start of the range by `step` strides of a week.
pub open spec fn stride_day(range: DateRange, step: int) -> int {
    range.0@ + 7 * step
}

/// The ISO week of the day reached by `step` strides of a week.
pub open spec fn stride_week(range: DateRange, step: int) -> YearWeek {
    year_week_of_day(stride_day(range, step))
}

/// Whether one of the range's weekly strides falls into the given week.
pub open spec fn is_stride_week(range: DateRange, year_week: YearWeek) -> bool {
    exists|step: int| 0 <= step < weeks_in(range) && #[trigger] stride_week(range, step) == year_week
}

/// The counts of a week: its row in the map, or seven zeros where the week
/// has no entry.
pub open spec fn row_of(weeks: Map<YearWeek, Seq<u32>>, year_week: YearWeek) -> Seq<u32> {
    if weeks.dom().contains(year_week) {
        weeks[year_week]
    } else {
        zero_row(7)
    }
}

/// The sum of two counts, held at the largest count where it would pass it.
pub open spec fn saturating_sum(a: u32, b: u32) -> u32 {
    if a + b > u32::MAX {
        u32::MAX
    } else {
        (a + b) as u32
    }
}

/// The weeks of a range before anything is recorded: an entry of seven
/// zeros for the week of each weekly stride.
pub open spec fn initial_weeks(range: DateRange) -> Map<YearWeek, Seq<u32>> {
    Map::new(|year_week: YearWeek| is_stride_week(range, year_week), |year_week: YearWeek| zero_row(7))
}

/// The row with `count` added at the column of `weekday`.
pub open spec fn row_with(row: Seq<u32>, weekday: int, count: u32) -> Seq<u32> {
    Seq::new(
        row.len(),
        |column: int|
            if column == weekday {
                saturating_sum(row[column], count)
            } else {
                row[column]
            },
    )
}

/// The weeks after `count` was added to the cell of the given day.
pub open spec fn with_count(weeks: Map<YearWeek, Seq<u32>>, day_number: int, count: u32) -> Map<
    YearWeek,
    Seq<u32>,
> {
    let year_week = year_week_of_day(day_number);
    weeks.insert(year_week, row_with(row_of(weeks, year_week), weekday_of_day(day_number), count))
}

/// The dense matrix of a range: one row for each weekly stride, in order,
/// that holds the counts of the stride's ISO week from Monday to Sunday.
pub open spec fn dense_matrix(range: DateRange, weeks: Map<YearWeek, Seq<u32>>) -> Seq<Seq<u32>> {
    Seq::new(weeks_in(range) as nat, |row: int| row_of(weeks, stride_week(range, row)))
}

/// The ISO week of a date.
pub fn get_year_week(date: Date) -> (year_week: YearWeek)
    requires
        date.wf(),
    ensures
        year_week == year_week_of_day(date@),
{
    YearWeek { year: date.iso_year(), week: date.iso_week() }
}

/// The number of weeks of a range, or the domain error where the range ends
/// before it starts.
pub fn weeks_in_range(date_range: DateRange) -> (r: Result<usize, FetchError>)
    ensures
        r is Err <==> date_range.1@ < date_range.0@,
        r matches Err(e) ==> e == FetchError::Domain,
        r matches Ok(n) ==> n == weeks_in(date_range) && 7 * (n - 1) < inclusive_days(date_range)
            <= 7 * n,
{
    let start: i64 = date_range.0.day_number() as i64;
    let end: i64 = date_range.1.day_number() as i64;
    if end < start {
        Err(FetchError::Domain)
    } else {
        let days: i64 = end - start + 1;
        Ok(((days + 6) / 7) as usize)
    }
}

/// One week of an activity: the week and its seven counts, Monday first.
#[derive(Debug)]
struct WeekEntry {
    year_week: YearWeek,
    counts: Vec<u32>,
}

/// The week of the entry at `index`.
spec fn key_at(entries: Seq<WeekEntry>, index: int) -> YearWeek {
    entries[index].year_week
}

/// Whether an entry stands for the week.
spec fn has_key(entries: Seq<WeekEntry>, year_week: YearWeek) -> bool {
    exists|index: int| 0 <= index < entries.len() && #[trigger] key_at(entries, index) == year_week
}

/// The place of an entry that stands for the week.
spec fn index_of(entries: Seq<WeekEntry>, year_week: YearWeek) -> int {
    choose|index: int| 0 <= index < entries.len() && #[trigger] key_at(entries, index) == year_week
}

/// No two entries stand for one week.
spec fn distinct_keys(entries: Seq<WeekEntry>) -> bool {
    forall|i: int, j: int|
        0 <= i < j < entries.len() ==> #[trigger] key_at(entries, i) != #[trigger] key_at(
            entries,
            j,
        )
}

/// The entries as a map from each week to its counts.
spec fn entries_view(entries: Seq<WeekEntry>) -> Map<YearWeek, Seq<u32>> {
    Map::new(
        |year_week: YearWeek| has_key(entries, year_week),
        |year_week: YearWeek| entries[index_of(entries, year_week)].counts@,
    )
}

/// With distinct weeks, the map holds at each entry's week that entry's
/// counts.
proof fn lemma_view_at(entries: Seq<WeekEntry>, index: int)
    requires
        distinct_keys(entries),
        0 <= index < entries.len(),
    ensures
        has_key(entries, key_at(entries, index)),
        entries_view(entries).dom().contains(key_at(entries, index)),
        entries_view(entries)[key_at(entries, index)] == entries[index].counts@,
{
    let year_week = key_at(entries, index);
    let chosen = index_of(entries, year_week);
    assert(0 <= chosen < entries.len() && key_at(entries, chosen) == year_week);
    if chosen < index {
        assert(key_at(entries, chosen) != key_at(entries, index));
    } else if index < chosen {
        assert(key_at(entries, index) != key_at(entries, chosen));
    }
}

/// Replacing the counts of one entry replaces them in the map.
proof fn lemma_view_update(entries: Seq<WeekEntry>, index: int, entry: WeekEntry)
    requires
        distinct_keys(entries),
        0 <= index < entries.len(),
        entry.year_week == key_at(entries, index),
    ensures
        distinct_keys(entries.update(index, entry)),
        entries_view(entries.update(index, entry)) == entries_view(entries).insert(
            entry.year_week,
            entry.counts@,
        ),
{
    let after = entries.update(index, entry);
    assert forall|i: int| 0 <= i < entries.len() implies key_at(after, i) == key_at(
        entries,
        i,
    ) by {}
    assert(distinct_keys(after)) by {
        assert forall|i: int, j: int| 0 <= i < j < after.len() implies key_at(after, i) != key_at(
            after,
            j,
        ) by {
            assert(key_at(entries, i) != key_at(entries, j));
        }
    }
    let left = entries_view(after);
    let right = entries_view(entries).insert(entry.year_week, entry.counts@);
    assert forall|year_week: YearWeek| left.dom().contains(year_week) <==> right.dom().contains(
        year_week,
    ) by {
        if has_key(after, year_week) {
            let i = index_of(after, year_week);
            assert(key_at(entries, i) == year_week);
        }
        if has_key(entries, year_week) {
            let i = index_of(entries, year_week);
            assert(key_at(after, i) == year_week);
        }
        assert(key_at(after, index) == entry.year_week);
    }
    assert forall|year_week: YearWeek| left.dom().contains(year_week) implies left[year_week]
        == right[year_week] by {
        let i = index_of(after, year_week);
        assert(0 <= i < after.len() && key_at(after, i) == year_week);
        lemma_view_at(after, i);
        if i != index {
            assert(key_at(entries, i) == year_week);
            lemma_view_at(entries, i);
            if i < index {
                assert(key_at(entries, i) != key_at(entries, index));
            } else {
                assert(key_at(entries, index) != key_at(entries, i));
            }
        }
    }
    assert(left =~= right);
}

/// Appending an entry for a week that has none adds it to the map.
proof fn lemma_view_push(entries: Seq<WeekEntry>, entry: WeekEntry)
    requires
        distinct_keys(entries),
        !has_key(entries, entry.year_week),
    ensures
        distinct_keys(entries.push(entry)),
        entries_view(entries.push(entry)) == entries_view(entries).insert(
            entry.year_week,
            entry.counts@,
        ),
{
    let after = entries.push(entry);
    assert forall|i: int| 0 <= i < entries.len() implies key_at(after, i) == key_at(
        entries,
        i,
    ) by {}
    assert(key_at(after, entries.len() as int) == entry.year_week);
    assert(distinct_keys(after)) by {
        assert forall|i: int, j: int| 0 <= i < j < after.len() implies key_at(after, i) != key_at(
            after,
            j,
        ) by {
            if j < entries.len() {
                assert(key_at(entries, i) != key_at(entries, j));
            } else {
                assert(key_at(entries, i) != entry.year_week);
            }
        }
    }
    let left = entries_view(after);
    let right = entries_view(entries).insert(entry.year_week, entry.counts@);
    assert forall|year_week: YearWeek| left.dom().contains(year_week) <==> right.dom().contains(
        year_week,
    ) by {
        if has_key(after, year_week) {
            let i = index_of(after, year_week);
            if i < entries.len() {
                assert(key_at(entries, i) == year_week);
            }
        }
        if has_key(entries, year_week) {
            let i = index_of(entries, year_week);
            assert(key_at(after, i) == year_week);
        }
    }
    assert forall|year_week: YearWeek| left.dom().contains(year_week) implies left[year_week]
        == right[year_week] by {
        let i = index_of(after, year_week);
        assert(0 <= i < after.len() && key_at(after, i) == year_week);
        lemma_view_at(after, i);
        if i < entries.len() {
            assert(key_at(entries, i) == year_week);
            lemma_view_at(entries, i);
        }
    }
    assert(left =~= right);
}

/// The place of the entry for the week, if there is one.
fn find_week(weeks: &Vec<WeekEntry>, year_week: YearWeek) -> (r: Option<usize>)
    ensures
        r matches Some(index) ==> index < weeks.len() && key_at(weeks@, index as int) == year_week,
        r is None ==> !has_key(weeks@, year_week),
{
    let mut i: usize = 0;
    while i < weeks.len()
        invariant
            i <= weeks.len(),
            forall|j: int| 0 <= j < i ==> #[trigger] key_at(weeks@, j) != year_week,
        decreases weeks.len() - i,
    {
        if weeks[i].year_week.year == year_week.year && weeks[i].year_week.week == year_week.week {
            return Some(i);
        }
        i += 1;
    }
    None
}

/// Seven counts of zero.
fn zero_counts() -> (counts: Vec<u32>)
    ensures
        counts@ == zero_row(7),
{
    let mut counts: Vec<u32> = Vec::new();
    let mut i: usize = 0;
    while i < 7
        invariant
            i <= 7,
            counts@.len() == i,
            forall|j: int| 0 <= j < i ==> counts@[j] == 0,
        decreases 7 - i,
    {
        counts.push(0);
        i += 1;
    }
    assert(counts@ =~= zero_row(7));
    counts
}

/// A copy of the counts.
fn copy_counts(counts: &Vec<u32>) -> (copy: Vec<u32>)
    ensures
        copy@ == counts@,
{
    let mut copy: Vec<u32> = Vec::new();
    let mut i: usize = 0;
    while i < counts.len()
        invariant
            i <= counts.len(),
            copy@ == counts@.take(i as int),
        decreases counts.len() - i,
    {
        copy.push(counts[i]);
        assert(copy@ =~= counts@.take(i + 1));
        i += 1;
    }
    assert(counts@.take(counts.len() as int) =~= counts@);
    copy
}

/// The activity of one user over a date range: for each ISO week its seven
/// daily counts.
#[derive(Debug)]
pub struct Activity {
    date_range: DateRange,
    weeks: Vec<WeekEntry>,
}

impl View for Activity {
    type V = Map<YearWeek, Seq<u32>>;

    /// The recorded weeks, each with its counts from Monday to Sunday.
    closed spec fn view(&self) -> Map<YearWeek, Seq<u32>> {
        entries_view(self.weeks@)
    }
}

impl Activity {
    /// The date range that the activity covers.
    pub closed spec fn range(&self) -> DateRange {
        self.date_range
    }

    /// The entries are held once per week.
    pub closed spec fn held_once(&self) -> bool {
        distinct_keys(self.weeks@)
    }

    /// An activity is well formed when its range is valid, every week holds
    /// seven counts, the week of every weekly stride has an entry, and
    /// every entry is the week of some day of the range.
    pub open spec fn wf(&self) -> bool {
        &&& self.held_once()
        &&& range_valid(self.range())
        &&& forall|year_week: YearWeek| #[trigger]
            self@.dom().contains(year_week) ==> self@[year_week].len() == 7
        &&& forall|year_week: YearWeek|
            is_stride_week(self.range(), year_week) ==> #[trigger] self@.dom().contains(year_week)
        &&& forall|year_week: YearWeek| #[trigger]
            self@.dom().contains(year_week) ==> exists|day_number: int|
                in_range(self.range(), day_number) && #[trigger] year_week_of_day(day_number)
                    == year_week
    }

    /// The dense matrix of the activity.
    pub open spec fn matrix(&self) -> Seq<Seq<u32>> {
        dense_matrix(self.range(), self@)
    }

    /// The date range that the activity covers.
    pub fn date_range(&self) -> (range: DateRange)
        ensures
            range == self.range(),
    {
        self.date_range
    }

    /// The number of weeks of the range: its days, both ends included,
    /// divided by seven and rounded up.
    pub fn number_of_weeks(&self) -> (n: usize)
        requires
            self.wf(),
        ensures
            n == weeks_in(self.range()),
            7 * (n - 1) < inclusive_days(self.range()) <= 7 * n,
            n >= 1,
    {
        let start: i64 = self.date_range.0.day_number() as i64;
        let end: i64 = self.date_range.1.day_number() as i64;
        ((end - start + 7) / 7) as usize
    }

    /// The activity of a range before anything is recorded: an empty entry
    /// for the ISO week of each weekly stride from the start of the range.
    /// A range that ends before it starts is refused.
    pub fn new(date_range: DateRange) -> (r: Result<Activity, FetchError>)
        requires
            date_range.0.wf(),
            date_range.1.wf(),
        ensures
            r is Err <==> date_range.1@ < date_range.0@,
            r matches Err(e) ==> e == FetchError::Domain,
            r matches Ok(activity) ==> activity.wf() && activity.range() == date_range
                && activity@ == initial_weeks(date_range),
    {
        let start: i64 = date_range.0.day_number() as i64;
        let end: i64 = date_range.1.day_number() as i64;
        if end < start {
            return Err(FetchError::Domain);
        }
        let number_of_weeks: i64 = (end - start + 7) / 7;
        let mut weeks: Vec<WeekEntry> = Vec::new();
        let mut step: i64 = 0;
        while step < number_of_weeks
            invariant
                0 <= step <= number_of_weeks,
                number_of_weeks == weeks_in(date_range),
                start == date_range.0@,
                end == date_range.1@,
                range_valid(date_range),
                distinct_keys(weeks@),
                forall|i: int| 0 <= i < weeks@.len() ==> (#[trigger] weeks@[i]).counts@ == zero_row(7),
                forall|j: int|
                    0 <= j < step ==> has_key(weeks@, #[trigger] stride_week(date_range, j)),
                forall|i: int|
                    0 <= i < weeks@.len() ==> is_stride_week(
                        date_range,
                        #[trigger] key_at(weeks@, i),
                    ),
            decreases number_of_weeks - step,
        {
            let day_number: i64 = start + 7 * step;
            let date = Date::from_day_number(day_number as i32).unwrap();
            let year_week = get_year_week(date);
            assert(year_week == stride_week(date_range, step as int));
            let ghost before = weeks@;
            match find_week(&weeks, year_week) {
                Some(_) => {},
                None => {
                    let entry = WeekEntry { year_week, counts: zero_counts() };
                    proof {
                        lemma_view_push(before, entry);
                    }
                    weeks.push(entry);
                    proof {
                        assert(key_at(weeks@, before.len() as int) == year_week);
                        assert forall|i: int| 0 <= i < before.len() implies key_at(weeks@, i)
                            == key_at(before, i) by {}
                        assert(is_stride_week(date_range, year_week));
                        assert forall|i: int| 0 <= i < weeks@.len() implies is_stride_week(
                            date_range,
                            #[trigger] key_at(weeks@, i),
                        ) by {
                            if i < before.len() {
                                assert(key_at(weeks@, i) == key_at(before, i));
                            }
                        }
                        assert forall|j: int| 0 <= j < step implies has_key(
                            weeks@,
                            #[trigger] stride_week(date_range, j),
                        ) by {
                            let i = index_of(before, stride_week(date_range, j));
                            assert(key_at(weeks@, i) == stride_week(date_range, j));
                        }
                    }
                },
            }
            step += 1;
        }
        let activity = Activity { date_range, weeks };
        proof {
            let entries = activity.weeks@;
            assert forall|year_week: YearWeek| #[trigger]
                activity@.dom().contains(year_week) implies is_stride_week(date_range, year_week)
                && activity@[year_week] == zero_row(7) by {
                let i = index_of(entries, year_week);
                assert(key_at(entries, i) == year_week);
            }
            assert(activity@ =~= initial_weeks(date_range));
            assert forall|year_week: YearWeek| #[trigger]
                activity@.dom().contains(year_week) implies exists|day_number: int|
                in_range(date_range, day_number) && #[trigger] year_week_of_day(day_number)
                    == year_week by {
                let j = choose|j: int|
                    0 <= j < weeks_in(date_range) && #[trigger] stride_week(date_range, j)
                        == year_week;
                assert(in_range(date_range, stride_day(date_range, j)));
                assert(year_week_of_day(stride_day(date_range, j)) == year_week);
            }
        }
        Ok(activity)
    }

    /// Adds `count` to the cell of `date`, if the date lies in the range;
    /// the sum stays at the largest count where it would pass it. Says
    /// whether the date lay in the range.
    pub fn record(&mut self, date: Date, count: u32) -> (recorded: bool)
        requires
            old(self).wf(),
            date.wf(),
        ensures
            final(self).wf(),
            final(self).range() == old(self).range(),
            recorded == in_range(old(self).range(), date@),
            recorded ==> final(self)@ == with_count(old(self)@, date@, count),
            !recorded ==> final(self)@ == old(self)@,
    {
        let day_number = date.day_number();
        if day_number < self.date_range.0.day_number() || day_number
            > self.date_range.1.day_number() {
            return false;
        }
        let year_week = get_year_week(date);
        let weekday = date.weekday_index();
        let ghost before = self.weeks@;
        let ghost row = row_of(old(self)@, year_week);
        match find_week(&self.weeks, year_week) {
            Some(index) => {
                proof {
                    lemma_view_at(before, index as int);
                }
                let mut counts = copy_counts(&self.weeks[index].counts);
                let current: u32 = counts[weekday];
                let sum: u32 = if count > u32::MAX - current {
                    u32::MAX
                } else {
                    current + count
                };
                counts.set(weekday, sum);
                let entry = WeekEntry { year_week, counts };
                proof {
                    assert(entry.counts@ =~= row_with(row, weekday as int, count));
                    lemma_view_update(before, index as int, entry);
                }
                self.weeks.set(index, entry);
            },
            None => {
                let mut counts = zero_counts();
                counts.set(weekday, count);
                let entry = WeekEntry { year_week, counts };
                proof {
                    assert(entry.counts@ =~= row_with(row, weekday as int, count));
                    lemma_view_push(before, entry);
                }
                self.weeks.push(entry);
            },
        }
        proof {
            assert(self@ == with_count(old(self)@, date@, count));
            assert(in_range(self.range(), date@) && year_week_of_day(date@) == year_week);
            assert forall|other: YearWeek| #[trigger]
                self@.dom().contains(other) implies exists|day_number: int|
                in_range(self.range(), day_number) && #[trigger] year_week_of_day(day_number)
                    == other by {
                if other != year_week {
                    assert(old(self)@.dom().contains(other));
                }
            }
        }
        true
    }

    /// The counts of a week from Monday to Sunday, if the activity holds
    /// the week.
    pub fn week_counts(&self, year_week: YearWeek) -> (r: Option<Vec<u32>>)
        requires
            self.wf(),
        ensures
            r is Some <==> self@.dom().contains(year_week),
            r matches Some(counts) ==> counts@ == self@[year_week],
    {
        match find_week(&self.weeks, year_week) {
            Some(index) => {
                proof {
                    lemma_view_at(self.weeks@, index as int);
                }
                Some(copy_counts(&self.weeks[index].counts))
            },
            None => None,
        }
    }

    /// The weeks that the activity holds, each once.
    pub fn year_weeks(&self) -> (r: Vec<YearWeek>)
        requires
            self.wf(),
        ensures
            r@.no_duplicates(),
            forall|year_week: YearWeek| r@.contains(year_week) <==> self@.dom().contains(year_week),
    {
        let mut found: Vec<YearWeek> = Vec::new();
        let mut i: usize = 0;
        while i < self.weeks.len()
            invariant
                i <= self.weeks.len(),
                found@.len() == i,
                forall|k: int| 0 <= k < i ==> found@[k] == #[trigger] key_at(self.weeks@, k),
            decreases self.weeks.len() - i,
        {
            found.push(self.weeks[i].year_week);
            i += 1;
        }
        proof {
            let entries = self.weeks@;
            assert forall|a: int, b: int| 0 <= a < found@.len() && 0 <= b < found@.len() && a
                != b implies found@[a] != found@[b] by {
                assert(found@[a] == key_at(entries, a));
                assert(found@[b] == key_at(entries, b));
                if a < b {
                    assert(key_at(entries, a) != key_at(entries, b));
                } else {
                    assert(key_at(entries, b) != key_at(entries, a));
                }
            }
            assert forall|year_week: YearWeek| found@.contains(year_week) <==> self@.dom().contains(
                year_week,
            ) by {
                if found@.contains(year_week) {
                    let k = choose|k: int| 0 <= k < found@.len() && found@[k] == year_week;
                    assert(key_at(entries, k) == year_week);
                }
                if has_key(entries, year_week) {
                    let k = index_of(entries, year_week);
                    assert(found@[k] == key_at(entries, k));
                }
            }
        }
        found
    }

    /// The dense matrix: one row for each weekly stride from the start of
    /// the range, in order, and in each row the counts of the stride's ISO
    /// week from Monday to Sunday.
    pub fn as_matrix(&self) -> (matrix: Vec<Vec<u32>>)
        requires
            self.wf(),
        ensures
            matrix_view(matrix) == self.matrix(),
            matrix@.len() == weeks_in(self.range()),
            forall|row: int| 0 <= row < matrix@.len() ==> (#[trigger] matrix@[row])@.len() == 7,
    {
        let number_of_weeks = self.number_of_weeks();
        let start: i64 = self.date_range.0.day_number() as i64;
        let mut matrix: Vec<Vec<u32>> = Vec::new();
        let mut step: usize = 0;
        while step < number_of_weeks
            invariant
                step <= number_of_weeks,
                number_of_weeks == weeks_in(self.range()),
                start == self.range().0@,
                self.wf(),
                matrix@.len() == step,
                forall|row: int|
                    0 <= row < step ==> (#[trigger] matrix@[row])@ == row_of(
                        self@,
                        stride_week(self.range(), row),
                    ),
            decreases number_of_weeks - step,
        {
            let day_number: i64 = start + 7 * (step as i64);
            let date = Date::from_day_number(day_number as i32).unwrap();
            let year_week = get_year_week(date);
            let row = match find_week(&self.weeks, year_week) {
                Some(index) => {
                    proof {
                        lemma_view_at(self.weeks@, index as int);
                    }
                    copy_counts(&self.weeks[index].counts)
                },
                None => zero_counts(),
            };
            matrix.push(row);
            step += 1;
        }
        proof {
            assert(matrix_view(matrix) =~= self.matrix());
            assert forall|row: int| 0 <= row < matrix@.len() implies (#[trigger] matrix@[row])@.len()
                == 7 by {
                let year_week = stride_week(self.range(), row);
                if self@.dom().contains(year_week) {
                    assert(self@[year_week].len() == 7);
                }
            }
        }
        matrix
    }
}

impl YearWeek {
    /// The order of weeks: by year, and within a year by the week's number.
    pub open spec fn before(self, other: YearWeek) -> bool {
        self.year < other.year || (self.year == other.year && self.week < other.week)
    }

    /// Whether this week comes before the other.
    pub fn precedes(&self, other: &YearWeek) -> (r: bool)
        ensures
            r == self.before(*other),
    {
        self.year < other.year || (self.year == other.year && self.week < other.week)
    }

    /// The week as a key: the year, `-W`, and the week's number in two
    /// digits.
    pub open spec fn label_text(self) -> Seq<char> {
        signed_decimal(self.year as int) + "-W"@ + two_digit_decimal(self.week as nat)
    }

    /// The week as a key, such as `2024-W05`.
    pub fn label(&self) -> (text: String)
        ensures
            text@ == self.label_text(),
    {
        let mut text = String::new();
        push_signed_decimal(&mut text, self.year);
        text.push_str("-W");
        push_two_digit_decimal(&mut text, self.week);
        assert(text@ =~= self.label_text());
        text
    }
}

/// The order of weeks is total: of two different weeks exactly one comes
/// before the other, no week comes before itself, and the order is
/// transitive.
pub proof fn lemma_week_order_is_total(a: YearWeek, b: YearWeek, c: YearWeek)
    ensures
        !a.before(a),
        a != b ==> (a.before(b) <==> !b.before(a)),
        a == b ==> !a.before(b) && !b.before(a),
        a.before(b) && b.before(c) ==> a.before(c),
{
}

/// The number of weeks of a valid range is its number of days, both ends
/// included, divided by seven and rounded up: the least number of weeks
/// that hold that many days.
pub proof fn lemma_weeks_in_is_ceiling(range: DateRange)
    requires
        range_valid(range),
    ensures
        weeks_in(range) >= 1,
        7 * (weeks_in(range) - 1) < inclusive_days(range) <= 7 * weeks_in(range),
{
}

/// Every weekly stride of a valid range is a day of the range.
pub proof fn lemma_strides_in_range(range: DateRange, step: int)
    requires
        range_valid(range),
        0 <= step < weeks_in(range),
    ensures
        in_range(range, stride_day(range, step)),
{
}

/// The matrix of an activity in which nothing was recorded has one row of
/// seven cells for each week of the range, and every cell holds zero.
pub proof fn lemma_unrecorded_matrix_is_zero(activity: Activity)
    requires
        activity.wf(),
        forall|year_week: YearWeek| #[trigger]
            activity@.dom().contains(year_week) ==> activity@[year_week] == zero_row(7),
    ensures
        activity.matrix().len() == weeks_in(activity.range()),
        forall|row: int|
            0 <= row < weeks_in(activity.range()) ==> #[trigger] activity.matrix()[row]
                == zero_row(7),
        forall|row: int, column: int|
            0 <= row < weeks_in(activity.range()) && 0 <= column < 7
                ==> #[trigger] activity.matrix()[row][column] == 0,
{
}

/// The matrix is a projection of the activity alone: two matrices made from
/// one activity are equal, row by row and cell by cell.
pub proof fn lemma_as_matrix_repeatable(
    activity: Activity,
    first: Vec<Vec<u32>>,
    second: Vec<Vec<u32>>,
)
    requires
        matrix_view(first) == activity.matrix(),
        matrix_view(second) == activity.matrix(),
    ensures
        matrix_view(first) == matrix_view(second),
        first@.len() == second@.len(),
        forall|row: int| 0 <= row < first@.len() ==> (#[trigger] first@[row])@ == second@[row]@,
{
    assert(matrix_view(first).len() == first@.len());
    assert(matrix_view(second).len() == second@.len());
    assert forall|row: int| 0 <= row < first@.len() implies (#[trigger] first@[row])@
        == second@[row]@ by {
        assert(matrix_view(first)[row] == matrix_view(second)[row]);
    }
}

/// The positional rule of the rows: a count recorded for a day that lies
/// `step` whole weeks after the start of the range, and in the ISO week of
/// that stride, stands in row `step` at the column of the day's weekday,
/// whatever the number of that ISO week is.
pub proof fn lemma_recorded_cell(
    range: DateRange,
    weeks: Map<YearWeek, Seq<u32>>,
    day_number: int,
    count: u32,
    step: int,
)
    requires
        0 <= step < weeks_in(range),
        year_week_of_day(day_number) == stride_week(range, step),
        0 <= weekday_of_day(day_number) < 7,
        row_of(weeks, stride_week(range, step)).len() == 7,
    ensures
        dense_matrix(range, with_count(weeks, day_number, count))[step][weekday_of_day(day_number)]
            == saturating_sum(
            dense_matrix(range, weeks)[step][weekday_of_day(day_number)],
            count,
        ),
        forall|column: int|
            0 <= column < 7 && column != weekday_of_day(day_number) ==> dense_matrix(
                range,
                with_count(weeks, day_number, count),
            )[step][column] == dense_matrix(range, weeks)[step][column],
{
}

} // verus!
