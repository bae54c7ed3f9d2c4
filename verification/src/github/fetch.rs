//! The request for a user's contribution calendar, and what its answer
//! means.

use vstd::prelude::*;
use crate::calendar::{text_of_day, DateRange};
use crate::text::{decimal, push_decimal};

verus! {

/// Why no activity could be had.
#[derive(Debug, PartialEq, Eq)]
pub enum FetchError {
    /// The date range ends before it starts.
    Domain,
    /// The remote service answered with a status that is not a success.
    RemoteApi { status: u16, body: String },
    /// The request did not reach the service, or no answer came in time.
    Transport { detail: String },
    /// The answer is not the JSON document that was asked for.
    ResponseParse { detail: String },
}

/// The one request that fetches a contribution calendar: where it is posted,
/// its headers, and the GraphQL query with its three variables.
#[derive(Debug, PartialEq, Eq)]
pub struct ActivityRequest {
    pub url: String,
    pub user_agent: String,
    pub bearer_token: Option<String>,
    pub query: String,
    pub username: String,
    pub from: String,
    pub to: String,
}

/// The address of the GraphQL endpoint.
pub open spec fn endpoint_text() -> Seq<char> {
    "https://api.github.com/graphql"@
}

/// The name by which the client makes itself known.
pub open spec fn user_agent_text() -> Seq<char> {
    "gh-trophy"@
}

/// The GraphQL query for the contribution calendar of a user between two
/// moments.
pub open spec fn query_text() -> Seq<char> {
    "\n        query($username: String!, $from: DateTime!, $to: DateTime!) {\n            user(login: $username) {\n                contributionsCollection(from: $from, to: $to) {\n                    contributionCalendar {\n                        totalContributions\n                        weeks {\n                            contributionDays {\n                                date\n                                contributionCount\n                            }\n                        }\n                    }\n                }\n            }\n        }\n    "@
}

/// The first moment of the day, in UTC.
pub open spec fn day_start_text(day_number: int) -> Seq<char> {
    text_of_day(day_number) + "T00:00:00Z"@
}

/// The last second of the day, in UTC.
pub open spec fn day_end_text(day_number: int) -> Seq<char> {
    text_of_day(day_number) + "T23:59:59Z"@
}

/// Whether an HTTP status is a success: 200 to 299.
pub open spec fn is_success(status: u16) -> bool {
    200 <= status <= 299
}

/// The request for the activity of `user` over `date_range`, with the token
/// as bearer credential where one is given. A range that ends before it
/// starts is refused, so that nothing is sent for it.
pub fn prepare_request(user: &str, date_range: DateRange, maybe_token: Option<String>) -> (r:
    Result<ActivityRequest, FetchError>)
    requires
        date_range.0.wf(),
        date_range.1.wf(),
    ensures
        r is Err <==> date_range.1@ < date_range.0@,
        r matches Err(e) ==> e == FetchError::Domain,
        r matches Ok(request) ==> {
            &&& request.url@ == endpoint_text()
            &&& request.user_agent@ == user_agent_text()
            &&& request.bearer_token == maybe_token
            &&& request.query@ == query_text()
            &&& request.username@ == user@
            &&& request.from@ == day_start_text(date_range.0@)
            &&& request.to@ == day_end_text(date_range.1@)
        },
{
    if date_range.1.day_number() < date_range.0.day_number() {
        return Err(FetchError::Domain);
    }
    let mut from = date_range.0.to_text();
    from.push_str("T00:00:00Z");
    let mut to = date_range.1.to_text();
    to.push_str("T23:59:59Z");
    Ok(
        ActivityRequest {
            url: "https://api.github.com/graphql".to_owned(),
            user_agent: "gh-trophy".to_owned(),
            bearer_token: maybe_token,
            query: "\n        query($username: String!, $from: DateTime!, $to: DateTime!) {\n            user(login: $username) {\n                contributionsCollection(from: $from, to: $to) {\n                    contributionCalendar {\n                        totalContributions\n                        weeks {\n                            contributionDays {\n                                date\n                                contributionCount\n                            }\n                        }\n                    }\n                }\n            }\n        }\n    ".to_owned(),
            username: user.to_owned(),
            from,
            to,
        },
    )
}

/// What a response means: its body where the status is a success, else the
/// remote error with the status and the body as they came.
pub fn check_response(status: u16, body: String) -> (r: Result<String, FetchError>)
    ensures
        is_success(status) ==> r == Ok::<String, FetchError>(body),
        !is_success(status) ==> r == Err::<String, FetchError>(
            FetchError::RemoteApi { status, body },
        ),
{
    if 200 <= status && status <= 299 {
        Ok(body)
    } else {
        Err(FetchError::RemoteApi { status, body })
    }
}

impl FetchError {
    /// The error as one line of text.
    pub open spec fn message_text(self) -> Seq<char> {
        match self {
            FetchError::Domain => "Invalid date range: the end is before the start"@,
            FetchError::RemoteApi { status, body } => "GitHub API error "@ + decimal(status as nat)
                + ": "@ + body@,
            FetchError::Transport { detail } => "GitHub API request failed: "@ + detail@,
            FetchError::ResponseParse { detail } => "GitHub API response not understood: "@
                + detail@,
        }
    }

    /// The error as one line of text.
    pub fn message(&self) -> (text: String)
        ensures
            text@ == self.message_text(),
    {
        match self {
            FetchError::Domain => "Invalid date range: the end is before the start".to_owned(),
            FetchError::RemoteApi { status, body } => {
                let mut text = "GitHub API error ".to_owned();
                push_decimal(&mut text, *status as u64);
                text.push_str(": ");
                text.push_str(body.as_str());
                text
            },
            FetchError::Transport { detail } => {
                let mut text = "GitHub API request failed: ".to_owned();
                text.push_str(detail.as_str());
                text
            },
            FetchError::ResponseParse { detail } => {
                let mut text = "GitHub API response not understood: ".to_owned();
                text.push_str(detail.as_str());
                text
            },
        }
    }
}

} // verus!
