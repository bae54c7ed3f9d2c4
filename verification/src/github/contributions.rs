//! The contribution calendar as the remote service reports it, and how its
//! days are taken into an activity.

use vstd::prelude::*;
use crate::calendar::{day_number_of_text, weekday_of_day, Date, DateRange};
use crate::github::activity::{
    dense_matrix, in_range, initial_weeks, is_stride_week, row_of, stride_week, weeks_in,
    with_count, year_week_of_day, Activity, YearWeek,
};
use crate::github::fetch::FetchError;
use crate::matrix::zero_row;

verus! {

/// One day of the contribution calendar as the remote service reports it:
/// the date as text and the day's count.
#[derive(Debug)]
pub struct ContributionDay {
    pub date: String,
    pub contribution_count: u32,
}

/// What became of one reported day.
#[derive(Clone, Copy, Debug, PartialEq, Eq, Structural)]
pub enum DayOutcome {
    /// Its count was added to the activity.
    Recorded,
    /// Its count is zero: there is nothing to add.
    NoContribution,
    /// Its date is not a date written as year, month and day.
    UnreadableDate,
    /// Its date lies outside the range of the activity.
    OutsideRange,
}

/// The format of a reported date: year, month and day, separated by hyphens.
pub open spec fn date_format() -> Seq<char> {
    "%Y-%m-%d"@
}

/// What becomes of a reported day under a range.
pub open spec fn day_outcome(range: DateRange, day: ContributionDay) -> DayOutcome {
    if day.contribution_count == 0 {
        DayOutcome::NoContribution
    } else {
        match day_number_of_text(day.date@, date_format()) {
            None => DayOutcome::UnreadableDate,
            Some(day_number) => if in_range(range, day_number) {
                DayOutcome::Recorded
            } else {
                DayOutcome::OutsideRange
            },
        }
    }
}

/// The weeks after one reported day: its count is added where the day is
/// recorded, and nothing changes where it is not.
pub open spec fn with_day(
    range: DateRange,
    weeks: Map<YearWeek, Seq<u32>>,
    day: ContributionDay,
) -> Map<YearWeek, Seq<u32>> {
    if day_outcome(range, day) == DayOutcome::Recorded {
        with_count(weeks, day_number_of_text(day.date@, date_format())->0, day.contribution_count)
    } else {
        weeks
    }
}

/// The weeks after the reported days, taken in order.
pub open spec fn with_days(
    range: DateRange,
    weeks: Map<YearWeek, Seq<u32>>,
    days: Seq<ContributionDay>,
) -> Map<YearWeek, Seq<u32>>
    decreases days.len(),
{
    if days.len() == 0 {
        weeks
    } else {
        with_day(range, with_days(range, weeks, days.drop_last()), days.last())
    }
}

/// The weeks after the reported calendar weeks, taken in order.
pub open spec fn with_calendar(
    range: DateRange,
    weeks: Map<YearWeek, Seq<u32>>,
    calendar: Seq<Vec<ContributionDay>>,
) -> Map<YearWeek, Seq<u32>>
    decreases calendar.len(),
{
    if calendar.len() == 0 {
        weeks
    } else {
        with_days(range, with_calendar(range, weeks, calendar.drop_last()), calendar.last()@)
    }
}

impl Activity {
    /// Takes in one reported day: a day with a count above zero, a readable
    /// date and a place in the range is recorded, any other is passed over.
    /// Says which of these it was.
    pub fn record_day(&mut self, day: &ContributionDay) -> (outcome: DayOutcome)
        requires
            old(self).wf(),
        ensures
            final(self).wf(),
            final(self).range() == old(self).range(),
            outcome == day_outcome(old(self).range(), *day),
            final(self)@ == with_day(old(self).range(), old(self)@, *day),
    {
        if day.contribution_count == 0 {
            return DayOutcome::NoContribution;
        }
        match Date::parse_from_str(day.date.as_str(), "%Y-%m-%d") {
            None => DayOutcome::UnreadableDate,
            Some(date) => {
                if self.record(date, day.contribution_count) {
                    DayOutcome::Recorded
                } else {
                    DayOutcome::OutsideRange
                }
            },
        }
    }

    /// Takes in the days of one reported calendar week, in order.
    pub fn record_days(&mut self, days: &Vec<ContributionDay>)
        requires
            old(self).wf(),
        ensures
            final(self).wf(),
            final(self).range() == old(self).range(),
            final(self)@ == with_days(old(self).range(), old(self)@, days@),
    {
        let mut i: usize = 0;
        while i < days.len()
            invariant
                i <= days.len(),
                self.wf(),
                self.range() == old(self).range(),
                self@ == with_days(old(self).range(), old(self)@, days@.take(i as int)),
            decreases days.len() - i,
        {
            self.record_day(&days[i]);
            proof {
                assert(days@.take(i + 1).drop_last() =~= days@.take(i as int));
            }
            i += 1;
        }
        proof {
            assert(days@.take(days.len() as int) =~= days@);
        }
    }
}

/// The activity over `date_range` that a reported calendar amounts to: the
/// weeks of the range, and in them the counts of the reported days that
/// have a count above zero, a readable date and a place in the range. A
/// range that ends before it starts is refused.
pub fn collect_activity(date_range: DateRange, calendar: &Vec<Vec<ContributionDay>>) -> (r: Result<
    Activity,
    FetchError,
>)
    requires
        date_range.0.wf(),
        date_range.1.wf(),
    ensures
        r is Err <==> date_range.1@ < date_range.0@,
        r matches Err(e) ==> e == FetchError::Domain,
        r matches Ok(activity) ==> activity.wf() && activity.range() == date_range && activity@
            == with_calendar(date_range, initial_weeks(date_range), calendar@),
{
    let mut activity = match Activity::new(date_range) {
        Ok(activity) => activity,
        Err(e) => {
            return Err(e);
        },
    };
    let mut i: usize = 0;
    while i < calendar.len()
        invariant
            i <= calendar.len(),
            activity.wf(),
            activity.range() == date_range,
            activity@ == with_calendar(
                date_range,
                initial_weeks(date_range),
                calendar@.take(i as int),
            ),
        decreases calendar.len() - i,
    {
        activity.record_days(&calendar[i]);
        proof {
            assert(calendar@.take(i + 1).drop_last() =~= calendar@.take(i as int));
        }
        i += 1;
    }
    proof {
        assert(calendar@.take(calendar.len() as int) =~= calendar@);
    }
    Ok(activity)
}

/// A calendar whose days all have a count of zero leaves the weeks as they
/// were.
pub proof fn lemma_zero_days_change_nothing(
    range: DateRange,
    weeks: Map<YearWeek, Seq<u32>>,
    days: Seq<ContributionDay>,
)
    requires
        forall|i: int| 0 <= i < days.len() ==> (#[trigger] days[i]).contribution_count == 0,
    ensures
        with_days(range, weeks, days) == weeks,
    decreases days.len(),
{
    if days.len() > 0 {
        lemma_zero_days_change_nothing(range, weeks, days.drop_last());
    }
}

/// Whether a reported day is passed over because its date cannot be read.
pub open spec fn is_unreadable(day: ContributionDay) -> bool {
    day.contribution_count > 0 && day_number_of_text(day.date@, date_format()) is None
}

/// The dates, as they were reported, of the days of a list that are passed
/// over because their date cannot be read, in order.
pub open spec fn unreadable_in_days(days: Seq<ContributionDay>) -> Seq<Seq<char>>
    decreases days.len(),
{
    if days.len() == 0 {
        Seq::empty()
    } else if is_unreadable(days.last()) {
        unreadable_in_days(days.drop_last()).push(days.last().date@)
    } else {
        unreadable_in_days(days.drop_last())
    }
}

/// The dates, as they were reported, of the days of a calendar that are
/// passed over because their date cannot be read, in order.
pub open spec fn unreadable_in_calendar(calendar: Seq<Vec<ContributionDay>>) -> Seq<Seq<char>>
    decreases calendar.len(),
{
    if calendar.len() == 0 {
        Seq::empty()
    } else {
        unreadable_in_calendar(calendar.drop_last()) + unreadable_in_days(calendar.last()@)
    }
}

/// The texts of a list of strings.
pub open spec fn texts(strings: Vec<String>) -> Seq<Seq<char>> {
    Seq::new(strings@.len(), |i: int| strings@[i]@)
}

/// The reported dates that `collect_activity` passes over because they
/// cannot be read, in the order of the calendar: what a caller needs to
/// tell the user that the activity is not complete.
pub fn unreadable_dates(calendar: &Vec<Vec<ContributionDay>>) -> (dates: Vec<String>)
    ensures
        texts(dates) == unreadable_in_calendar(calendar@),
{
    let mut dates: Vec<String> = Vec::new();
    let mut i: usize = 0;
    while i < calendar.len()
        invariant
            i <= calendar.len(),
            texts(dates) == unreadable_in_calendar(calendar@.take(i as int)),
        decreases calendar.len() - i,
    {
        let days = &calendar[i];
        let ghost before = texts(dates);
        let mut j: usize = 0;
        while j < days.len()
            invariant
                j <= days.len(),
                texts(dates) == before + unreadable_in_days(days@.take(j as int)),
            decreases days.len() - j,
        {
            let day = &days[j];
            let ghost so_far = texts(dates);
            proof {
                assert(days@.take(j + 1).drop_last() =~= days@.take(j as int));
            }
            if day.contribution_count > 0 {
                if Date::parse_from_str(day.date.as_str(), "%Y-%m-%d").is_none() {
                    dates.push(day.date.clone());
                    proof {
                        assert(texts(dates) =~= so_far.push(day.date@));
                    }
                }
            }
            proof {
                assert(texts(dates) =~= before + unreadable_in_days(days@.take(j + 1)));
            }
            j += 1;
        }
        proof {
            assert(days@.take(days.len() as int) =~= days@);
            assert(calendar@.take(i + 1).drop_last() =~= calendar@.take(i as int));
        }
        i += 1;
    }
    proof {
        assert(calendar@.take(calendar.len() as int) =~= calendar@);
    }
    dates
}

/// A total of counts as a cell holds it: the total, or the largest count
/// where the total passes it.
pub open spec fn capped(total: int) -> u32 {
    if total > u32::MAX {
        u32::MAX
    } else {
        total as u32
    }
}

/// What a reported day adds to the cell of a week and a weekday: its count
/// where the day is recorded and falls on that weekday of that week, else
/// nothing.
pub open spec fn day_share(
    range: DateRange,
    day: ContributionDay,
    year_week: YearWeek,
    weekday: int,
) -> nat {
    let day_number = day_number_of_text(day.date@, date_format())->0;
    if day_outcome(range, day) == DayOutcome::Recorded && year_week_of_day(day_number) == year_week
        && weekday_of_day(day_number) == weekday {
        day.contribution_count as nat
    } else {
        0
    }
}

/// What the reported days add to the cell of a week and a weekday.
pub open spec fn days_total(
    range: DateRange,
    days: Seq<ContributionDay>,
    year_week: YearWeek,
    weekday: int,
) -> nat
    decreases days.len(),
{
    if days.len() == 0 {
        0
    } else {
        days_total(range, days.drop_last(), year_week, weekday) + day_share(
            range,
            days.last(),
            year_week,
            weekday,
        )
    }
}

/// What the reported calendar adds to the cell of a week and a weekday.
pub open spec fn calendar_total(
    range: DateRange,
    calendar: Seq<Vec<ContributionDay>>,
    year_week: YearWeek,
    weekday: int,
) -> nat
    decreases calendar.len(),
{
    if calendar.len() == 0 {
        0
    } else {
        calendar_total(range, calendar.drop_last(), year_week, weekday) + days_total(
            range,
            calendar.last()@,
            year_week,
            weekday,
        )
    }
}

/// Accumulation is additive: after a list of reported days, a cell holds
/// what it held before plus the counts of the recorded days that fall on
/// it, capped at the largest count. Several reports of one day add up.
pub proof fn lemma_days_add_up(
    range: DateRange,
    weeks: Map<YearWeek, Seq<u32>>,
    days: Seq<ContributionDay>,
    year_week: YearWeek,
    weekday: int,
)
    requires
        0 <= weekday < row_of(weeks, year_week).len(),
    ensures
        row_of(with_days(range, weeks, days), year_week).len() == row_of(weeks, year_week).len(),
        row_of(with_days(range, weeks, days), year_week)[weekday] == capped(
            row_of(weeks, year_week)[weekday] + days_total(range, days, year_week, weekday),
        ),
    decreases days.len(),
{
    if days.len() > 0 {
        lemma_days_add_up(range, weeks, days.drop_last(), year_week, weekday);
    }
}

/// Accumulation is additive over a whole calendar, as over one list of
/// days.
pub proof fn lemma_calendar_adds_up(
    range: DateRange,
    weeks: Map<YearWeek, Seq<u32>>,
    calendar: Seq<Vec<ContributionDay>>,
    year_week: YearWeek,
    weekday: int,
)
    requires
        0 <= weekday < row_of(weeks, year_week).len(),
    ensures
        row_of(with_calendar(range, weeks, calendar), year_week).len() == row_of(
            weeks,
            year_week,
        ).len(),
        row_of(with_calendar(range, weeks, calendar), year_week)[weekday] == capped(
            row_of(weeks, year_week)[weekday] + calendar_total(
                range,
                calendar,
                year_week,
                weekday,
            ),
        ),
    decreases calendar.len(),
{
    if calendar.len() > 0 {
        lemma_calendar_adds_up(range, weeks, calendar.drop_last(), year_week, weekday);
        lemma_days_add_up(
            range,
            with_calendar(range, weeks, calendar.drop_last()),
            calendar.last()@,
            year_week,
            weekday,
        );
    }
}

/// The cell at a row and a column of the matrix of a collected activity
/// holds the capped total of the counts that the calendar reports for that
/// weekday of the ISO week of the row's stride.
pub proof fn lemma_collected_cell(
    range: DateRange,
    calendar: Seq<Vec<ContributionDay>>,
    row: int,
    column: int,
)
    requires
        0 <= row < weeks_in(range),
        0 <= column < 7,
    ensures
        dense_matrix(range, with_calendar(range, initial_weeks(range), calendar))[row][column]
            == capped(calendar_total(range, calendar, stride_week(range, row), column) as int),
{
    let year_week = stride_week(range, row);
    assert(is_stride_week(range, year_week));
    assert(row_of(initial_weeks(range), year_week) == zero_row(7));
    lemma_calendar_adds_up(range, initial_weeks(range), calendar, year_week, column);
}

} // verus!
