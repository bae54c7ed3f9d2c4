use gh_trophy::calendar::Date;
use gh_trophy::github::fetch::{check_response, prepare_request, FetchError};

fn day(year: i32, month: u32, day: u32) -> Date {
    Date::from_ymd_opt(year, month, day).unwrap()
}

#[test]
fn non_success_status_is_a_remote_error_with_status_and_body() {
    assert_eq!(
        check_response(404, "{\"message\":\"Not Found\"}".to_string()),
        Err(FetchError::RemoteApi { status: 404, body: "{\"message\":\"Not Found\"}".to_string() })
    );
    assert_eq!(
        check_response(199, String::new()),
        Err(FetchError::RemoteApi { status: 199, body: String::new() })
    );
    assert_eq!(
        check_response(300, "moved".to_string()),
        Err(FetchError::RemoteApi { status: 300, body: "moved".to_string() })
    );
    assert_eq!(
        check_response(500, "oops".to_string()),
        Err(FetchError::RemoteApi { status: 500, body: "oops".to_string() })
    );
}

#[test]
fn success_status_hands_the_body_on() {
    assert_eq!(check_response(200, "{}".to_string()), Ok("{}".to_string()));
    assert_eq!(check_response(299, "x".to_string()), Ok("x".to_string()));
    assert_eq!(check_response(204, String::new()), Ok(String::new()));
}

#[test]
fn request_for_a_range_that_ends_before_it_starts_is_refused() {
    let result = prepare_request("octocat", (day(2024, 1, 2), day(2024, 1, 1)), None);
    assert_eq!(result, Err(FetchError::Domain));
}

#[test]
fn request_without_a_token() {
    let request = prepare_request("octocat", (day(2024, 1, 1), day(2024, 1, 28)), None).unwrap();
    assert_eq!(request.url, "https://api.github.com/graphql");
    assert_eq!(request.user_agent, "gh-trophy");
    assert_eq!(request.bearer_token, None);
    assert_eq!(request.username, "octocat");
    assert_eq!(request.from, "2024-01-01T00:00:00Z");
    assert_eq!(request.to, "2024-01-28T23:59:59Z");
    assert!(request.query.contains("query($username: String!, $from: DateTime!, $to: DateTime!)"));
    assert!(request.query.contains("contributionsCollection(from: $from, to: $to)"));
    assert!(request.query.contains("contributionCount"));
}

#[test]
fn request_with_a_token_for_one_day() {
    let request =
        prepare_request("hubot", (day(2023, 12, 31), day(2023, 12, 31)), Some("t0k3n".to_string()))
            .unwrap();
    assert_eq!(request.bearer_token, Some("t0k3n".to_string()));
    assert_eq!(request.from, "2023-12-31T00:00:00Z");
    assert_eq!(request.to, "2023-12-31T23:59:59Z");
}

#[test]
fn errors_have_a_message() {
    assert_eq!(FetchError::Domain.message(), "Invalid date range: the end is before the start");
    assert_eq!(
        FetchError::RemoteApi { status: 403, body: "rate limit".to_string() }.message(),
        "GitHub API error 403: rate limit"
    );
    assert_eq!(
        FetchError::Transport { detail: "timed out".to_string() }.message(),
        "GitHub API request failed: timed out"
    );
    assert_eq!(
        FetchError::ResponseParse { detail: "missing field `data`".to_string() }.message(),
        "GitHub API response not understood: missing field `data`"
    );
}
