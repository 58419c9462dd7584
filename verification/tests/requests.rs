use slack_reader::auth::{cookie_string, extract_api_token, format_cookie, Auth, CookieAuth};
use slack_reader::errors::SlackError;
use slack_reader::pagination::{history_params, Continuation};
use slack_reader::slack::{self, channel_list_params, message_params, search_params};
use slack_reader::text::u32_to_string;

fn client() -> slack::Slack {
    slack::new(
        "myteam",
        Auth::Cookie(CookieAuth {
            cookie: "ck".to_string(),
            token: Some("tok".to_string()),
        }),
    )
}

#[test]
fn api_request_on_generic_host() {
    let s = client();
    let params = vec![("channel".to_string(), "C1".to_string())];
    let req = s
        .api_request("conversations.history", &params, false)
        .unwrap();
    assert_eq!(
        req.url,
        "https://slack.com/api/conversations.history?channel=C1"
    );
    assert_eq!(req.cookie_header, "d=ck");
    assert_eq!(req.authorization_header, "Bearer tok");
    assert_eq!(req.content_type_header, "application/json; charset=utf-8");
}

#[test]
fn api_request_on_team_host_percent_encodes() {
    let s = client();
    let params = vec![("query".to_string(), "two words".to_string())];
    let req = s.api_request("search.messages", &params, true).unwrap();
    assert_eq!(
        req.url,
        "https://myteam.slack.com/api/search.messages?query=two+words"
    );
}

#[test]
fn extract_api_token_finds_the_first_full_match() {
    let body = r#"<script>{"api_token":"xoxc-123-abc","other":1}</script>"#;
    assert_eq!(extract_api_token(body), Ok("xoxc-123-abc".to_string()));
}

#[test]
fn extract_api_token_skips_an_empty_token() {
    let body = r#"{"api_token":""}{"api_token":"real"}"#;
    assert_eq!(extract_api_token(body), Ok("real".to_string()));
}

#[test]
fn extract_api_token_missing_fails() {
    assert_eq!(
        extract_api_token("<html>no token here</html>"),
        Err(SlackError::TokenNotFound)
    );
}

#[test]
fn extract_api_token_unclosed_fails() {
    assert_eq!(
        extract_api_token(r#"{"api_token":"SECRET-REDACTED"#),
        Err(SlackError::TokenNotFound)
    );
}

#[test]
fn format_cookie_joins_key_and_value() {
    assert_eq!(format_cookie("d", "abc"), "d=abc");
}

#[test]
fn cookie_string_decodes_utf8() {
    let bytes = "xoxd-héllo".as_bytes().to_vec();
    assert_eq!(cookie_string(bytes), Ok("xoxd-héllo".to_string()));
}

#[test]
fn cookie_string_rejects_invalid_utf8() {
    assert_eq!(
        cookie_string(vec![0xff, 0xfe, 0xfd]),
        Err(SlackError::DecodeError)
    );
}

#[test]
fn history_params_by_cursor() {
    let params = history_params("C1", 10, &Continuation::ByCursor("cur".to_string()));
    assert_eq!(
        params,
        vec![
            ("channel".to_string(), "C1".to_string()),
            ("limit".to_string(), "10".to_string()),
            ("cursor".to_string(), "cur".to_string()),
        ]
    );
}

#[test]
fn history_params_by_oldest() {
    let params = history_params("C1", 200, &Continuation::ByOldest("17.5".to_string()));
    assert_eq!(
        params,
        vec![
            ("channel".to_string(), "C1".to_string()),
            ("oldest".to_string(), "17.5".to_string()),
            ("limit".to_string(), "200".to_string()),
        ]
    );
}

#[test]
fn listing_and_search_and_message_params() {
    assert_eq!(
        channel_list_params(),
        vec![
            (
                "types".to_string(),
                "public_channel,private_channel".to_string()
            ),
            ("limit".to_string(), "1000".to_string()),
        ]
    );
    assert_eq!(
        search_params("kw", 25),
        vec![
            ("query".to_string(), "kw".to_string()),
            ("count".to_string(), "25".to_string()),
        ]
    );
    assert_eq!(
        message_params("D1", "hello"),
        vec![
            ("channel".to_string(), "D1".to_string()),
            ("text".to_string(), "hello".to_string()),
        ]
    );
}

#[test]
fn u32_to_string_renders_decimal() {
    assert_eq!(u32_to_string(0), "0");
    assert_eq!(u32_to_string(7), "7");
    assert_eq!(u32_to_string(1000), "1000");
    assert_eq!(u32_to_string(u32::MAX), "4294967295");
}
