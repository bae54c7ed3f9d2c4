use gh_trophy::calendar::Date;
use gh_trophy::github::activity::{get_year_week, weeks_in_range, Activity, YearWeek};
use gh_trophy::github::contributions::{
    collect_activity, unreadable_dates, ContributionDay, DayOutcome,
};
use gh_trophy::github::fetch::FetchError;

fn date(year: i32, month: u32, day: u32) -> Date {
    Date::from_ymd_opt(year, month, day).unwrap()
}

fn reported(date: &str, contribution_count: u32) -> ContributionDay {
    ContributionDay { date: date.to_string(), contribution_count }
}

#[test]
fn test_year_week_serialization() {
    let year_week = YearWeek { year: 2024, week: 5 };
    let serialized = serde_json::to_string(&year_week.label()).unwrap();
    assert_eq!(serialized, "\"2024-W05\"");
}

#[test]
fn test_year_week_serialization_single_digit() {
    let year_week = YearWeek { year: 2023, week: 1 };
    let serialized = serde_json::to_string(&year_week.label()).unwrap();
    assert_eq!(serialized, "\"2023-W01\"");
}

#[test]
fn test_year_week_serialization_double_digit() {
    let year_week = YearWeek { year: 2024, week: 52 };
    let serialized = serde_json::to_string(&year_week.label()).unwrap();
    assert_eq!(serialized, "\"2024-W52\"");
}

#[test]
fn test_get_year_week() {
    let date = Date::from_ymd_opt(2024, 1, 15).unwrap();
    let year_week = get_year_week(date);
    assert_eq!(year_week.year, 2024);
    assert_eq!(year_week.week, 3);
}

#[test]
fn test_get_year_week_start_of_year() {
    let date = Date::from_ymd_opt(2024, 1, 1).unwrap();
    let year_week = get_year_week(date);
    assert_eq!(year_week.year, 2024);
    assert_eq!(year_week.week, 1);
}

#[test]
fn test_get_year_week_end_of_year() {
    let date = Date::from_ymd_opt(2024, 12, 30).unwrap();
    let year_week = get_year_week(date);
    assert_eq!(year_week.year, 2025);
    assert_eq!(year_week.week, 1);
}

#[test]
fn test_activity_number_of_weeks_exact() {
    let start = Date::from_ymd_opt(2024, 1, 1).unwrap();
    let end = Date::from_ymd_opt(2024, 1, 28).unwrap();
    let activity = Activity::new((start, end)).unwrap();
    assert_eq!(activity.number_of_weeks(), 4);
}

#[test]
fn test_activity_number_of_weeks_partial() {
    let start = Date::from_ymd_opt(2024, 1, 1).unwrap();
    let end = Date::from_ymd_opt(2024, 1, 30).unwrap();
    let activity = Activity::new((start, end)).unwrap();
    assert_eq!(activity.number_of_weeks(), 5);
}

#[test]
fn test_activity_number_of_weeks_one_week() {
    let start = Date::from_ymd_opt(2024, 1, 1).unwrap();
    let end = Date::from_ymd_opt(2024, 1, 7).unwrap();
    let activity = Activity::new((start, end)).unwrap();
    assert_eq!(activity.number_of_weeks(), 1);
}

#[test]
fn test_activity_as_matrix_empty() {
    let start = Date::from_ymd_opt(2024, 1, 1).unwrap();
    let end = Date::from_ymd_opt(2024, 1, 14).unwrap();
    let activity = Activity::new((start, end)).unwrap();
    let matrix = activity.as_matrix();
    assert_eq!(matrix.len(), 2);
    assert_eq!(matrix[0].len(), 7);
    assert_eq!(matrix[1].len(), 7);
    for row in matrix {
        for value in row {
            assert_eq!(value, 0);
        }
    }
}

#[test]
fn test_activity_as_matrix_with_contributions() {
    let start = Date::from_ymd_opt(2024, 1, 1).unwrap();
    let end = Date::from_ymd_opt(2024, 1, 14).unwrap();

    // Monday and Wednesday of week 1 of 2024
    let mut activity = Activity::new((start, end)).unwrap();
    assert!(activity.record(date(2024, 1, 1), 5));
    assert!(activity.record(date(2024, 1, 3), 3));

    let matrix = activity.as_matrix();
    assert_eq!(matrix.len(), 2);

    assert_eq!(matrix[0][0], 5);
    assert_eq!(matrix[0][2], 3);
    assert_eq!(matrix[0][1], 0);
    assert_eq!(matrix[0][3], 0);
    assert_eq!(matrix[0], vec![5, 0, 3, 0, 0, 0, 0]);
    assert_eq!(matrix[1], vec![0; 7]);
}

#[test]
fn test_activity_as_matrix_multiple_weeks() {
    let start = Date::from_ymd_opt(2024, 1, 1).unwrap();
    let end = Date::from_ymd_opt(2024, 1, 21).unwrap();

    // Monday of week 1, Friday of week 2
    let mut activity = Activity::new((start, end)).unwrap();
    assert!(activity.record(date(2024, 1, 1), 10));
    assert!(activity.record(date(2024, 1, 12), 7));

    let matrix = activity.as_matrix();
    assert_eq!(matrix.len(), 3);

    assert_eq!(matrix[0][0], 10);
    assert_eq!(matrix[1][4], 7);
}

#[test]
fn matrix_rows_are_positional_across_a_year_boundary() {
    // 2024-W52, 2025-W01, 2025-W02
    let mut activity = Activity::new((date(2024, 12, 23), date(2025, 1, 12))).unwrap();
    assert!(activity.record(date(2024, 12, 23), 10));
    assert!(activity.record(date(2025, 1, 3), 7));
    let matrix = activity.as_matrix();
    assert_eq!(
        matrix,
        vec![
            vec![10, 0, 0, 0, 0, 0, 0],
            vec![0, 0, 0, 0, 7, 0, 0],
            vec![0, 0, 0, 0, 0, 0, 0],
        ]
    );
}

#[test]
fn matrix_rows_are_positional_for_a_range_that_starts_late_in_the_year() {
    let mut activity = Activity::new((date(2024, 6, 3), date(2024, 6, 16))).unwrap();
    assert!(activity.record(date(2024, 6, 16), 4));
    assert_eq!(get_year_week(date(2024, 6, 3)), YearWeek { year: 2024, week: 23 });
    let matrix = activity.as_matrix();
    assert_eq!(matrix, vec![vec![0; 7], vec![0, 0, 0, 0, 0, 0, 4]]);
}

#[test]
fn number_of_weeks_rounds_the_inclusive_day_count_up() {
    let start = date(2024, 1, 1);
    assert_eq!(weeks_in_range((start, start)), Ok(1));
    assert_eq!(weeks_in_range((start, date(2024, 1, 7))), Ok(1));
    assert_eq!(weeks_in_range((start, date(2024, 1, 8))), Ok(2));
    assert_eq!(weeks_in_range((start, date(2024, 1, 28))), Ok(4));
    assert_eq!(weeks_in_range((start, date(2024, 1, 30))), Ok(5));
    assert_eq!(weeks_in_range((start, date(2024, 12, 30))), Ok(53));
    assert_eq!(Activity::new((start, date(2024, 1, 8))).unwrap().number_of_weeks(), 2);
    assert_eq!(Activity::new((start, start)).unwrap().as_matrix(), vec![vec![0; 7]]);
}

#[test]
fn range_that_ends_before_it_starts_is_a_domain_error() {
    let range = (date(2024, 1, 2), date(2024, 1, 1));
    assert_eq!(weeks_in_range(range), Err(FetchError::Domain));
    assert!(matches!(Activity::new(range), Err(FetchError::Domain)));
    assert!(matches!(collect_activity(range, &vec![]), Err(FetchError::Domain)));
}

#[test]
fn new_activity_holds_the_week_of_each_stride() {
    let activity = Activity::new((date(2024, 12, 23), date(2025, 1, 12))).unwrap();
    assert_eq!(activity.date_range(), (date(2024, 12, 23), date(2025, 1, 12)));
    let mut year_weeks = activity.year_weeks();
    year_weeks.sort();
    assert_eq!(
        year_weeks,
        vec![
            YearWeek { year: 2024, week: 52 },
            YearWeek { year: 2025, week: 1 },
            YearWeek { year: 2025, week: 2 },
        ]
    );
    assert_eq!(activity.week_counts(YearWeek { year: 2025, week: 1 }), Some(vec![0; 7]));
    assert_eq!(activity.week_counts(YearWeek { year: 2025, week: 3 }), None);
}

#[test]
fn record_adds_to_the_cell_and_saturates() {
    let mut activity = Activity::new((date(2024, 1, 1), date(2024, 1, 14))).unwrap();
    assert!(activity.record(date(2024, 1, 9), 5));
    assert!(activity.record(date(2024, 1, 9), 3));
    assert_eq!(activity.as_matrix()[1], vec![0, 8, 0, 0, 0, 0, 0]);
    assert!(activity.record(date(2024, 1, 9), u32::MAX - 8));
    assert_eq!(activity.as_matrix()[1][1], u32::MAX);
    assert!(activity.record(date(2024, 1, 9), 1));
    assert_eq!(activity.as_matrix()[1][1], u32::MAX);
    assert_eq!(activity.as_matrix()[0], vec![0; 7]);
}

#[test]
fn record_passes_over_a_date_outside_the_range() {
    let mut activity = Activity::new((date(2024, 1, 3), date(2024, 1, 16))).unwrap();
    assert!(!activity.record(date(2024, 1, 2), 9));
    assert!(!activity.record(date(2024, 1, 17), 9));
    assert_eq!(activity.as_matrix(), vec![vec![0; 7], vec![0; 7]]);
    assert_eq!(activity.year_weeks().len(), 2);
}

#[test]
fn week_beyond_the_last_stride_is_held_but_has_no_row() {
    // Wednesday to Tuesday: the strides fall into weeks 1 and 2, the last two days into week 3.
    let mut activity = Activity::new((date(2024, 1, 3), date(2024, 1, 16))).unwrap();
    assert!(activity.record(date(2024, 1, 4), 2));
    assert!(activity.record(date(2024, 1, 15), 6));
    assert_eq!(
        activity.as_matrix(),
        vec![vec![0, 0, 0, 2, 0, 0, 0], vec![0, 0, 0, 0, 0, 0, 0]]
    );
    assert_eq!(
        activity.week_counts(YearWeek { year: 2024, week: 3 }),
        Some(vec![6, 0, 0, 0, 0, 0, 0])
    );
}

#[test]
fn as_matrix_twice_gives_the_same_matrix() {
    let mut activity = Activity::new((date(2024, 1, 1), date(2024, 1, 21))).unwrap();
    activity.record(date(2024, 1, 1), 10);
    activity.record(date(2024, 1, 12), 7);
    let first = activity.as_matrix();
    let second = activity.as_matrix();
    assert_eq!(first, second);
    assert_eq!(activity.number_of_weeks(), 3);
}

#[test]
fn record_day_says_what_became_of_the_day() {
    let mut activity = Activity::new((date(2024, 1, 1), date(2024, 1, 14))).unwrap();
    assert_eq!(activity.record_day(&reported("2024-01-02", 4)), DayOutcome::Recorded);
    assert_eq!(activity.record_day(&reported("2024-01-03", 0)), DayOutcome::NoContribution);
    assert_eq!(activity.record_day(&reported("not-a-date", 0)), DayOutcome::NoContribution);
    assert_eq!(activity.record_day(&reported("not-a-date", 1)), DayOutcome::UnreadableDate);
    assert_eq!(activity.record_day(&reported("2024-02-30", 1)), DayOutcome::UnreadableDate);
    assert_eq!(activity.record_day(&reported("2024-01-15", 1)), DayOutcome::OutsideRange);
    assert_eq!(activity.record_day(&reported("2023-12-31", 1)), DayOutcome::OutsideRange);
    assert_eq!(activity.as_matrix(), vec![vec![0, 4, 0, 0, 0, 0, 0], vec![0; 7]]);
}

#[test]
fn collect_activity_adds_up_the_reported_days() {
    let calendar = vec![
        vec![reported("2023-12-31", 9), reported("2024-01-01", 5), reported("2024-01-02", 0)],
        vec![reported("2024-01-08", 1), reported("garbage", 3), reported("2024-01-14", 2)],
        vec![reported("2024-01-01", 6), reported("2024-01-15", 8)],
        vec![],
    ];
    let activity = collect_activity((date(2024, 1, 1), date(2024, 1, 14)), &calendar).unwrap();
    assert_eq!(activity.date_range(), (date(2024, 1, 1), date(2024, 1, 14)));
    assert_eq!(
        activity.as_matrix(),
        vec![vec![11, 0, 0, 0, 0, 0, 0], vec![1, 0, 0, 0, 0, 0, 2]]
    );
}

#[test]
fn collect_activity_of_an_empty_calendar_is_all_zero() {
    let activity = collect_activity((date(2024, 1, 1), date(2024, 1, 30)), &vec![]).unwrap();
    assert_eq!(activity.as_matrix(), vec![vec![0; 7]; 5]);
}

#[test]
fn year_week_label_of_a_year_before_the_common_era() {
    assert_eq!(YearWeek { year: -44, week: 7 }.label(), "-44-W07");
    assert_eq!(YearWeek { year: 0, week: 53 }.label(), "0-W53");
}

#[test]
fn year_weeks_order_by_year_then_week() {
    assert!(YearWeek { year: 2024, week: 52 } < YearWeek { year: 2025, week: 1 });
    assert!(YearWeek { year: 2024, week: 2 } < YearWeek { year: 2024, week: 10 });
    assert_eq!(YearWeek { year: 2024, week: 2 }, YearWeek { year: 2024, week: 2 });
    let weeks = [
        YearWeek { year: -1, week: 53 },
        YearWeek { year: 2024, week: 2 },
        YearWeek { year: 2024, week: 10 },
        YearWeek { year: 2024, week: 52 },
        YearWeek { year: 2025, week: 1 },
    ];
    for a in weeks.iter() {
        for b in weeks.iter() {
            assert_eq!(a.precedes(b), a < b);
        }
    }
}

#[test]
fn unreadable_dates_are_listed_in_order() {
    let calendar = vec![
        vec![reported("2024-01-01", 5), reported("garbage", 3), reported("", 0)],
        vec![],
        vec![reported("2024-13-01", 1), reported("nothing", 0), reported("01/02/2024", 2)],
    ];
    assert_eq!(unreadable_dates(&calendar), vec!["garbage", "2024-13-01", "01/02/2024"]);
    assert!(unreadable_dates(&vec![]).is_empty());
    assert!(unreadable_dates(&vec![vec![reported("1999-12-31", 1)]]).is_empty());
}

#[test]
fn counts_of_one_cell_add_up_to_the_capped_total() {
    let calendar = vec![
        vec![reported("2024-01-05", 4_000_000_000), reported("2024-01-05", 200_000_000)],
        vec![reported("2024-01-05", 94_967_295), reported("2024-01-06", 1)],
    ];
    let range = (date(2024, 1, 1), date(2024, 1, 7));
    let activity = collect_activity(range, &calendar).unwrap();
    assert_eq!(activity.as_matrix(), vec![vec![0, 0, 0, 0, u32::MAX, 1, 0]]);
    let more = vec![calendar[0].iter().map(|d| reported(&d.date, d.contribution_count)).collect(), vec![
        reported("2024-01-05", 94_967_296),
    ]];
    let activity = collect_activity(range, &more).unwrap();
    assert_eq!(activity.as_matrix()[0][4], u32::MAX);
    let less = vec![vec![reported("2024-01-05", 4_000_000_000), reported("2024-01-05", 294_967_294)]];
    let activity = collect_activity(range, &less).unwrap();
    assert_eq!(activity.as_matrix()[0][4], u32::MAX - 1);
}
