use wkfl::jira::{format_jira_date, JiraClient};

#[test]
fn test_format_jira_date_with_timezone_plus() {
    let input = "2023-10-15T14:30:25.123+0200";
    let expected = "2023-10-15 14:30:25";
    assert_eq!(format_jira_date(input), expected);
}

#[test]
fn test_format_jira_date_with_timezone_minus() {
    let input = "2023-10-15T14:30:25.456-0500";
    let expected = "2023-10-15 14:30:25";
    assert_eq!(format_jira_date(input), expected);
}

#[test]
fn test_format_jira_date_with_z_timezone() {
    let input = "2023-10-15T14:30:25.789Z";
    let expected = "2023-10-15 14:30:25";
    assert_eq!(format_jira_date(input), expected);
}

#[test]
fn test_format_jira_date_without_milliseconds() {
    let input = "2023-10-15T14:30:25+0000";
    let expected = "2023-10-15 14:30:25";
    assert_eq!(format_jira_date(input), expected);
}

#[test]
fn test_format_jira_date_without_timezone() {
    let input = "2023-10-15T14:30:25";
    let expected = "2023-10-15 14:30:25";
    assert_eq!(format_jira_date(input), expected);
}

#[test]
fn test_format_jira_date_without_t_separator() {
    let input = "2023-10-15 14:30:25";
    let expected = "2023-10-15 14:30:25";
    assert_eq!(format_jira_date(input), expected);
}

#[test]
fn test_format_jira_date_simple_date() {
    let input = "2023-10-15";
    let expected = "2023-10-15";
    assert_eq!(format_jira_date(input), expected);
}

#[test]
fn jira_client_normalizes_instance_url() {
    let client = JiraClient::new(
        "https://example.atlassian.net///".to_string(),
        "user@example.com".to_string(),
        "token".to_string(),
    );
    assert_eq!(client.api_base, "https://example.atlassian.net/rest/api/3");
    assert_eq!(client.email, "user@example.com");
    assert_eq!(client.api_token, "token");
}

#[test]
fn jira_auth_header_encodes_credentials() {
    let client = JiraClient::new(
        "https://example.atlassian.net".to_string(),
        "a".to_string(),
        "b".to_string(),
    );
    // base64 of "a:b"
    assert_eq!(client.auth_header(), "Basic YTpi");
}
