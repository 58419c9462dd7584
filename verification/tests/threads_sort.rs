use slack_reader::model::message::Message;
use slack_reader::model::search;
use slack_reader::sort::{order_messages, order_search_matches};
use slack_reader::threads::{build_threads, canonical_thread_ids, replies_params};

fn msg(ts: &str, text: &str, thread_ts: Option<&str>) -> Message {
    Message {
        user: "U1".to_string(),
        type_field: "message".to_string(),
        ts: ts.to_string(),
        client_msg_id: String::new(),
        text: text.to_string(),
        team: None,
        thread_ts: thread_ts.map(|t| t.to_string()),
    }
}

#[test]
fn canonical_ids_deduplicate_in_first_seen_order() {
    let messages = vec![
        msg("1.0", "root one", None),
        msg("2.0", "reply", Some("1.0")),
        msg("3.0", "root two", None),
        msg("4.0", "reply again", Some("1.0")),
    ];
    assert_eq!(canonical_thread_ids(&messages), vec!["1.0", "3.0"]);
}

#[test]
fn canonical_ids_skip_join_notices_and_empty_ts() {
    let messages = vec![
        msg("1.0", "ann has joined the channel", None),
        msg("", "no timestamp", None),
        msg("2.0", "real message", None),
    ];
    assert_eq!(canonical_thread_ids(&messages), vec!["2.0"]);
}

#[test]
fn join_notice_with_thread_ts_still_contributes_its_thread() {
    let messages = vec![msg("5.0", "bob has joined the channel", Some("4.0"))];
    assert_eq!(canonical_thread_ids(&messages), vec!["4.0"]);
}

#[test]
fn threads_of_length_one_are_excluded() {
    let lone = vec![msg("1.0", "root", None)];
    let real = vec![msg("2.0", "root", None), msg("3.0", "reply", Some("2.0"))];
    let longer = vec![
        msg("4.0", "root", None),
        msg("5.0", "reply", Some("4.0")),
        msg("6.0", "another", Some("4.0")),
    ];
    let kept = build_threads(vec![lone, real, longer]);
    assert_eq!(kept.len(), 2);
    assert_eq!(kept[0].len(), 2);
    assert_eq!(kept[0][0].ts, "2.0");
    assert_eq!(kept[1].len(), 3);
    assert_eq!(kept[1][0].ts, "4.0");
}

#[test]
fn empty_thread_list_is_excluded() {
    let kept = build_threads(vec![Vec::new()]);
    assert!(kept.is_empty());
}

#[test]
fn order_messages_sorts_ascending_and_drops_empty_text() {
    let messages = vec![
        msg("3.0", "three", None),
        msg("1.0", "", None),
        msg("2.0", "two", None),
        msg("1.5", "one and a half", None),
    ];
    let ordered = order_messages(messages);
    let ts: Vec<&str> = ordered.iter().map(|m| m.ts.as_str()).collect();
    assert_eq!(ts, vec!["1.5", "2.0", "3.0"]);
}

fn search_match(ts: &str, is_mpim: bool) -> search::Match {
    search::Match {
        channel: search::Channel {
            id: "C1".to_string(),
            is_ext_shared: false,
            is_mpim,
            is_org_shared: false,
            is_pending_ext_shared: false,
            is_private: false,
            is_shared: false,
            name: "general".to_string(),
        },
        iid: String::new(),
        permalink: String::new(),
        team: "t".to_string(),
        text: "hit".to_string(),
        ts: ts.to_string(),
        type_field: "message".to_string(),
        user: "U1".to_string(),
        username: "ann".to_string(),
    }
}

#[test]
fn order_search_matches_sorts_descending_and_drops_mpim() {
    let matches = vec![
        search_match("2.0", false),
        search_match("9.0", true),
        search_match("10.0", false),
        search_match("3.5", false),
    ];
    let ordered = order_search_matches(matches);
    let ts: Vec<&str> = ordered.iter().map(|m| m.ts.as_str()).collect();
    assert_eq!(ts, vec!["10.0", "3.5", "2.0"]);
}

#[test]
fn replies_params_match_the_endpoint() {
    let params = replies_params("C7", "111.222");
    assert_eq!(
        params,
        vec![
            ("channel".to_string(), "C7".to_string()),
            ("ts".to_string(), "111.222".to_string()),
            ("limit".to_string(), "100".to_string()),
            ("inclusive".to_string(), "true".to_string()),
        ]
    );
}
