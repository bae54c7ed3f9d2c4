//! The OpenSCAD source for the activity of one user.

use vstd::prelude::*;
use crate::calendar::{month_of_day, year_of_day, Date};
use crate::github::activity::Activity;
use crate::openscad::generators::{data_source_text, generate_data_source};
use crate::text::{decimal, push_decimal, push_signed_decimal, signed_decimal};

verus! {

/// The span between two days as a label: year and month of the first, a
/// hyphen between spaces, year and month of the last.
pub open spec fn span_text(start_day: int, end_day: int) -> Seq<char> {
    signed_decimal(year_of_day(start_day)) + "/"@ + decimal(month_of_day(start_day) as nat)
        + " - "@ + signed_decimal(year_of_day(end_day)) + "/"@ + decimal(
        month_of_day(end_day) as nat,
    )
}

/// The source for an activity: its data source under the user's handle and
/// the span's label, followed by the static code where there is some.
pub open spec fn openscad_text(
    user_handle: Seq<char>,
    activity: Activity,
    maybe_static_code: Option<String>,
) -> Seq<char> {
    let data = data_source_text(
        user_handle,
        span_text(activity.range().0@, activity.range().1@),
        activity.matrix(),
    );
    match maybe_static_code {
        Some(code) => data + code@,
        None => data,
    }
}

/// The label of the span from `start_date` to `end_date`, such as
/// `2023/1 - 2024/1`.
pub fn span_label(start_date: Date, end_date: Date) -> (label: String)
    requires
        start_date.wf(),
        end_date.wf(),
    ensures
        label@ == span_text(start_date@, end_date@),
{
    let mut label = String::new();
    push_signed_decimal(&mut label, start_date.year());
    label.push_str("/");
    push_decimal(&mut label, start_date.month() as u64);
    label.push_str(" - ");
    push_signed_decimal(&mut label, end_date.year());
    label.push_str("/");
    push_decimal(&mut label, end_date.month() as u64);
    assert(label@ =~= span_text(start_date@, end_date@));
    label
}

/// The OpenSCAD source for the activity of `user_handle`: the dense matrix
/// and the labels as a data source, followed by the static code where there
/// is some.
pub fn generate_openscad_source(
    user_handle: String,
    activity: &Activity,
    maybe_static_code: Option<String>,
) -> (source: String)
    requires
        activity.wf(),
    ensures
        source@ == openscad_text(user_handle@, *activity, maybe_static_code),
{
    let date_range = activity.date_range();
    let date_str = span_label(date_range.0, date_range.1);
    let mut source = generate_data_source(user_handle, date_str, activity.as_matrix());
    match maybe_static_code {
        Some(code) => {
            source.push_str(code.as_str());
        },
        None => {},
    }
    source
}

} // verus!
