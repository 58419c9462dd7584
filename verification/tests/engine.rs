use slack_reader::model::conversations::{ResponseMetadata, Root};
use slack_reader::model::message::Message;
use slack_reader::pagination::{get_max_ts, Continuation, EngineState, PaginationEngine};

fn msg(ts: &str) -> Message {
    Message {
        user: "U1".to_string(),
        type_field: "message".to_string(),
        ts: ts.to_string(),
        client_msg_id: String::new(),
        text: format!("text {ts}"),
        team: None,
        thread_ts: None,
    }
}

fn page(ts_values: &[&str], next_cursor: &str) -> Root {
    Root {
        ok: true,
        messages: ts_values.iter().map(|t| msg(t)).collect(),
        has_more: !next_cursor.is_empty(),
        pin_count: 0,
        channel_actions_count: 0,
        response_metadata: ResponseMetadata {
            next_cursor: next_cursor.to_string(),
        },
    }
}

#[test]
fn pagination_terminates_exhausted_with_all_messages() {
    let mut engine = PaginationEngine::new("C1", "0", 5);
    assert_eq!(engine.state(), EngineState::Init);

    match engine.next_request() {
        Some(Continuation::ByOldest(t)) => assert_eq!(t, "0"),
        other => panic!("expected an oldest-bound request, got {:?}", other.is_some()),
    }
    engine.apply_page(page(&["1.0", "2.0", "3.0", "4.0", "5.0"], "c1"));

    match engine.next_request() {
        Some(Continuation::ByCursor(c)) => assert_eq!(c, "c1"),
        other => panic!("expected a cursor request, got {:?}", other.is_some()),
    }
    engine.apply_page(page(&["6.0", "7.0", "8.0", "9.0", "10.0"], "c2"));

    match engine.next_request() {
        Some(Continuation::ByCursor(c)) => assert_eq!(c, "c2"),
        other => panic!("expected a cursor request, got {:?}", other.is_some()),
    }
    engine.apply_page(page(&[], ""));

    assert_eq!(engine.state(), EngineState::Exhausted);
    assert!(engine.next_request().is_none());

    let messages = engine.into_messages();
    assert_eq!(messages.len(), 10);
    let expected = [
        "1.0", "2.0", "3.0", "4.0", "5.0", "6.0", "7.0", "8.0", "9.0", "10.0",
    ];
    for (m, want) in messages.iter().zip(expected.iter()) {
        assert_eq!(&m.ts, want);
    }
}

#[test]
fn equal_max_ts_on_cursorless_page_converges() {
    let mut engine = PaginationEngine::new("C1", "0", 5);
    engine.apply_page(page(&["1.0", "2.0", "5.0"], "c1"));
    // A cursorless page whose maximum equals the accumulated maximum.
    engine.apply_page(page(&["5.0"], ""));
    assert_eq!(engine.state(), EngineState::Converged);
    assert!(engine.next_request().is_none());
    // The stalled page itself is still appended.
    assert_eq!(engine.into_messages().len(), 4);
}

#[test]
fn new_max_ts_on_cursorless_page_continues_by_oldest() {
    let mut engine = PaginationEngine::new("C1", "0", 5);
    engine.apply_page(page(&["1.0", "2.0", "5.0"], "c1"));
    // A cursorless page with a newer maximum advances the time bound.
    engine.apply_page(page(&["7.0"], ""));
    assert_eq!(engine.state(), EngineState::FetchingByOldest);
    match engine.next_request() {
        Some(Continuation::ByOldest(t)) => assert_eq!(t, "7.0"),
        other => panic!("expected an oldest-bound request, got {:?}", other.is_some()),
    }
}

#[test]
fn empty_first_page_is_exhausted_immediately() {
    let mut engine = PaginationEngine::new("C1", "123.456", 10);
    engine.apply_page(page(&[], "ignored"));
    assert_eq!(engine.state(), EngineState::Exhausted);
    assert!(engine.next_request().is_none());
    assert_eq!(engine.into_messages().len(), 0);
}

#[test]
fn get_max_ts_picks_numeric_maximum() {
    let messages: Vec<Message> = ["2.0", "10.0", "9.5"].iter().map(|t| msg(t)).collect();
    assert_eq!(get_max_ts(&messages), "10.0");
}

#[test]
fn get_max_ts_of_empty_list_is_empty() {
    assert_eq!(get_max_ts(&Vec::new()), "");
}

#[test]
fn get_max_ts_last_of_equal_maxima_wins() {
    // "1.50" and "1.5" have the same numeric value; the later one is kept.
    let messages: Vec<Message> = ["1.50", "1.5"].iter().map(|t| msg(t)).collect();
    assert_eq!(get_max_ts(&messages), "1.5");
}
