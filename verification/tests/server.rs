use serde_json::Value;
use vimscript_core::lsp::{
    diagnostics, highlight, route_notification, route_request, NotificationRoute, RequestRoute,
};
use vimscript_core::lexer::{SourcePosition, TokenPosition};
use vimscript_core::server::{decode, Counter, Id, Incoming};

fn json(text: &str) -> Value {
    serde_json::from_str(text).unwrap()
}

#[test]
fn server_receives_notifications() {
    match decode(r#"{"jsonrpc": "2.0", "method": "someMethod", "params": {"key": "value"}}"#) {
        Incoming::Notification { method, params } => {
            assert_eq!(method, "someMethod");
            assert_eq!(params, json(r#"{"key": "value"}"#));
        }
        _ => panic!("invalid message received, want notification"),
    }
}

#[test]
fn server_receives_requests() {
    match decode(
        r#"{"jsonrpc": "2.0", "id": 1, "method": "someMethod", "params": {"key": "value"}}"#,
    ) {
        Incoming::Request { method, id, params } => {
            assert_eq!(method, "someMethod");
            assert_eq!(id, Id::Number(1));
            assert_eq!(params, json(r#"{"key": "value"}"#));
        }
        _ => panic!("invalid message received, want request"),
    }
}

#[test]
fn decodes_a_request_with_a_text_identifier_and_no_parameters() {
    match decode(r#"{"jsonrpc": "2.0", "id": "a7", "method": "m"}"#) {
        Incoming::Request { method, id, params } => {
            assert_eq!(method, "m");
            assert_eq!(id, Id::String("a7".to_string()));
            assert_eq!(params, Value::Null);
        }
        _ => panic!("invalid message received, want request"),
    }
}

#[test]
fn decodes_a_response() {
    match decode(r#"{"jsonrpc": "2.0", "id": 1, "result": {"key1": "value1"}}"#) {
        Incoming::Response { id, result } => {
            assert_eq!(id, Id::Number(1));
            assert_eq!(result, json(r#"{"key1": "value1"}"#));
        }
        _ => panic!("invalid message received, want response"),
    }
}

#[test]
fn server_exits_after_exit_notification() {
    assert!(matches!(
        decode(r#"{"jsonrpc": "2.0", "method": "exit"}"#),
        Incoming::Stop
    ));
    assert!(matches!(
        decode(r#"{"jsonrpc": "2.0", "id": 3, "method": "exit"}"#),
        Incoming::Stop
    ));
}

#[test]
fn stops_at_what_is_no_message() {
    assert!(matches!(decode("{"), Incoming::Stop));
    assert!(matches!(decode("[1, 2]"), Incoming::Stop));
    assert!(matches!(decode(r#"{"jsonrpc": "2.0"}"#), Incoming::Stop));
    assert!(matches!(
        decode(r#"{"jsonrpc": "2.0", "result": 1}"#),
        Incoming::Stop
    ));
    assert!(matches!(
        decode(r#"{"jsonrpc": "2.0", "method": 5}"#),
        Incoming::Stop
    ));
}

#[test]
fn tells_an_unusable_identifier() {
    assert!(matches!(
        decode(r#"{"jsonrpc": "2.0", "id": 1.5, "method": "m"}"#),
        Incoming::BadId
    ));
    assert!(matches!(
        decode(r#"{"jsonrpc": "2.0", "id": null, "result": 1}"#),
        Incoming::BadId
    ));
}

#[test]
fn counter_counts_from_one() {
    let mut counter = Counter::new();
    assert_eq!(counter.next(), 1);
    assert_eq!(counter.next(), 2);
    assert_eq!(counter.next(), 3);
}

#[test]
fn routes_requests_and_notifications() {
    assert_eq!(route_request("initialize"), RequestRoute::Initialize);
    assert_eq!(route_request("textDocument/rename"), RequestRoute::Rename);
    assert_eq!(
        route_request("textDocument/documentHighlight"),
        RequestRoute::DocumentHighlight
    );
    assert_eq!(route_request("shutdown"), RequestRoute::Unrecognized);
    assert_eq!(route_notification("initialized"), NotificationRoute::Initialized);
    assert_eq!(
        route_notification("textDocument/didOpen"),
        NotificationRoute::DidOpen
    );
    assert_eq!(
        route_notification("textDocument/didChange"),
        NotificationRoute::DidChange
    );
    assert_eq!(
        route_notification("initialize"),
        NotificationRoute::Unrecognized
    );
}

#[test]
fn diagnostics_are_the_errors_of_the_text() {
    let errors = diagnostics("let myvar = 1\nlet myvar 2\n");
    assert_eq!(errors.len(), 1);
    assert_eq!(errors[0].message, "expected assign operator, found `2`");
    assert_eq!(errors[0].position.to_string(), "1:10-1:11");
    assert_eq!(diagnostics("let myvar = 1\nlet myvar = 2\n"), vec![]);
}

#[test]
fn highlight_covers_two_characters() {
    assert_eq!(
        highlight(SourcePosition {
            line: 0,
            character: 5
        }),
        TokenPosition {
            start: SourcePosition {
                line: 0,
                character: 5
            },
            end: SourcePosition {
                line: 0,
                character: 7
            },
        }
    );
}

#[test]
fn an_identifier_is_an_integer_in_range_or_a_text() {
    match decode(r#"{"jsonrpc": "2.0", "id": -9223372036854775808, "method": "m"}"#) {
        Incoming::Request { id, .. } => assert_eq!(id, Id::Number(i64::MIN)),
        _ => panic!("invalid message received, want request"),
    }
    match decode(r#"{"jsonrpc": "2.0", "id": 9223372036854775807, "result": null}"#) {
        Incoming::Response { id, result } => {
            assert_eq!(id, Id::Number(i64::MAX));
            assert_eq!(result, Value::Null);
        }
        _ => panic!("invalid message received, want response"),
    }
    assert!(matches!(
        decode(r#"{"jsonrpc": "2.0", "id": 9223372036854775808, "method": "m"}"#),
        Incoming::BadId
    ));
    assert!(matches!(
        decode(r#"{"jsonrpc": "2.0", "id": [1], "method": "m"}"#),
        Incoming::BadId
    ));
    assert!(matches!(
        decode(r#"{"jsonrpc": "2.0", "id": 1, "method": "exit"}"#),
        Incoming::Stop
    ));
}
