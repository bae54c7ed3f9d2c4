use gh_trophy::calendar::Date;
use gh_trophy::generators::{generate_openscad_source, span_label};
use gh_trophy::github::activity::Activity;
use gh_trophy::text::{push_decimal, push_signed_decimal, push_two_digit_decimal};

fn ymd(year: i32, month: u32, day: u32) -> Date {
    Date::from_ymd_opt(year, month, day).unwrap()
}

#[test]
fn span_label_names_year_and_month_of_both_ends() {
    assert_eq!(span_label(ymd(2023, 1, 15), ymd(2024, 1, 10)), "2023/1 - 2024/1");
    assert_eq!(span_label(ymd(2023, 12, 1), ymd(2023, 12, 31)), "2023/12 - 2023/12");
    assert_eq!(span_label(ymd(-5, 3, 1), ymd(12000, 10, 31)), "-5/3 - 12000/10");
}

#[test]
fn openscad_source_of_an_activity() {
    let mut activity = Activity::new((ymd(2024, 1, 1), ymd(2024, 1, 14))).unwrap();
    activity.record(ymd(2024, 1, 1), 5);
    activity.record(ymd(2024, 1, 10), 12);
    let data = "// To be used in other OpenScad source file with\n// include <activity-data.scad>\nrawActivity = [\n    [5, 0, 0, 0, 0, 0, 0],\n    [0, 0, 12, 0, 0, 0, 0],\n];\n\n\nghHandleTxt = \"octocat\";\nspanTxt = \"2024/1 - 2024/1\";\n";
    assert_eq!(generate_openscad_source("octocat".to_string(), &activity, None), data);
    assert_eq!(
        generate_openscad_source(
            "octocat".to_string(),
            &activity,
            Some("module trophy() {}\n".to_string())
        ),
        format!("{}module trophy() {{}}\n", data)
    );
}

#[test]
fn decimal_numerals() {
    let mut text = String::from(">");
    push_decimal(&mut text, 0);
    text.push(' ');
    push_decimal(&mut text, 7);
    text.push(' ');
    push_decimal(&mut text, 10);
    text.push(' ');
    push_decimal(&mut text, 1234567);
    text.push(' ');
    push_decimal(&mut text, u64::MAX);
    assert_eq!(text, ">0 7 10 1234567 18446744073709551615");
}

#[test]
fn signed_and_padded_numerals() {
    let mut text = String::new();
    push_signed_decimal(&mut text, -2147483648);
    text.push(' ');
    push_signed_decimal(&mut text, 2147483647);
    text.push(' ');
    push_signed_decimal(&mut text, 0);
    text.push(' ');
    push_two_digit_decimal(&mut text, 0);
    text.push(' ');
    push_two_digit_decimal(&mut text, 9);
    text.push(' ');
    push_two_digit_decimal(&mut text, 10);
    text.push(' ');
    push_two_digit_decimal(&mut text, 123);
    assert_eq!(text, "-2147483648 2147483647 0 00 09 10 123");
}
