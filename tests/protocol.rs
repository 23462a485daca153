use remdit::json::{
    escape_json_string, parse_session_response, parse_websocket_message, serialize_result_message,
    ResultMessage,
};
use remdit::error::ClientError;
use remdit::router::{save_result_frame, step, Action, Inbound, RouterState};

#[test]
fn escape_writes_json_escapes() {
    assert_eq!(escape_json_string("a\"b\\c\nd\re\tf"), "a\\\"b\\\\c\\nd\\re\\tf");
    assert_eq!(escape_json_string("plain"), "plain");
    assert_eq!(escape_json_string(""), "");
}

#[test]
fn escape_writes_control_characters_as_json_does() {
    assert_eq!(escape_json_string("\u{8}\u{c}\u{1}\u{1f}"), "\\b\\f\\u0001\\u001f");
    assert_eq!(escape_json_string("café / 中"), "café / 中");
}

#[test]
fn standard_escapes_are_decoded() {
    let m = parse_websocket_message("{\"content\":\"\\b\\f\\/\\u00e9\\u00E9\\ud83d\\ude00\",\"type\":\"save\"}").unwrap();
    assert_eq!(m.msg_type, "save");
    assert_eq!(m.content, Some("\u{8}\u{c}/éé\u{1F600}".to_string()));
}

#[test]
fn escape_then_read_gives_back_the_text() {
    for text in ["", "hello", "ends with \\", "\"quoted\"", "line\nbreak\r\n\ttab", "\\\\n", "é ü 中 😀", "\u{0}\u{8}\u{1b}"] {
        let frame = format!("{{\"type\":\"save\",\"content\":\"{}\"}}", escape_json_string(text));
        assert_eq!(parse_websocket_message(&frame).unwrap().content, Some(text.to_string()));
    }
}

#[test]
fn malformed_json_is_refused() {
    for text in [
        "\"type\":\"x\"",
        "not json",
        "",
        "{\"type\":\"save\"",
        "{\"type\":\"save\"} x",
        "[{\"type\":\"save\"}]",
        "{\"type\":\"a\\qb\"}",
        "{\"type\":\"\\ud800\"}",
        "{\"type\":\"\\udc00\"}",
        "{\"type\":\"a\nb\"}",
        "{\"type\":01}",
        "{\"type\":\"s\",}",
        "{\"type\":tru}",
    ] {
        assert!(matches!(parse_websocket_message(text), Err(ClientError::InvalidMessage)), "{}", text);
    }
}

#[test]
fn other_members_of_any_kind_are_skipped() {
    let text = "{ \"n\": -1.5e+3, \"a\": [1, {\"type\": \"inner\"}, null, true, false], \"o\": {}, \"type\" : \"save\" , \"content\": \"x\" }";
    let m = parse_websocket_message(text).unwrap();
    assert_eq!(m.msg_type, "save");
    assert_eq!(m.content, Some("x".to_string()));
    let m = parse_websocket_message("{\"type\":\"save\",\"content\":12}").unwrap();
    assert_eq!(m.content, None);
    assert!(matches!(parse_websocket_message("{\"type\":5}"), Err(ClientError::InvalidMessage)));
}

#[test]
fn session_response_is_read() {
    let r = parse_session_response("{\"sessionid\":\"abc\",\"editurl\":\"https://x/e/abc\"}").unwrap();
    assert_eq!(r.sessionid, "abc");
    assert_eq!(r.editurl, "https://x/e/abc");
    let r = parse_session_response("{\n  \"editurl\" : \"u\",\n  \"sessionid\": \"s\"\n}").unwrap();
    assert_eq!(r.sessionid, "s");
    assert_eq!(r.editurl, "u");
    let r = parse_session_response("{\"sessionid\":\"abc\",\"editurl\":\"https:\\/\\/x\\/e\\/abc\"}").unwrap();
    assert_eq!(r.editurl, "https://x/e/abc");
}

#[test]
fn session_response_without_a_field_is_refused() {
    for body in [
        "{\"sessionid\":\"abc\"}",
        "{\"editurl\":\"u\"}",
        "{\"sessionid\":\"\",\"editurl\":\"u\"}",
        "not json",
        "{\"editurl\":\"u\",\"k\":\"sessionid\",\"v\":\"x\"}",
        "{\"sessionid\":1,\"editurl\":\"u\"}",
    ] {
        assert!(matches!(parse_session_response(body), Err(ClientError::InvalidSessionResponse)));
    }
}

#[test]
fn inbound_message_is_read() {
    let m = parse_websocket_message("{\"type\":\"save\",\"content\":\"hello\"}").unwrap();
    assert_eq!(m.msg_type, "save");
    assert_eq!(m.content, Some("hello".to_string()));
    let m = parse_websocket_message("{\"type\":\"ping\"}").unwrap();
    assert_eq!(m.msg_type, "ping");
    assert_eq!(m.content, None);
    assert!(matches!(parse_websocket_message("{\"content\":\"x\"}"), Err(ClientError::InvalidMessage)));
    assert!(matches!(parse_websocket_message("garbage"), Err(ClientError::InvalidMessage)));
    assert!(matches!(parse_websocket_message("\"type\":\"x\""), Err(ClientError::InvalidMessage)));
}

#[test]
fn result_message_is_written() {
    let m = ResultMessage { msg_type: "save_result".to_string(), success: true, reason: Some("ok \"x\"".to_string()) };
    assert_eq!(serialize_result_message(&m), "{\"type\":\"save_result\",\"success\":true,\"reason\":\"ok \\\"x\\\"\"}");
    let m = ResultMessage { msg_type: "save_result".to_string(), success: false, reason: None };
    assert_eq!(serialize_result_message(&m), "{\"type\":\"save_result\",\"success\":false}");
}

#[test]
fn save_results_are_exact() {
    assert_eq!(save_result_frame(true), "{\"type\":\"save_result\",\"success\":true,\"reason\":\"File saved successfully\"}");
    assert_eq!(save_result_frame(false), "{\"type\":\"save_result\",\"success\":false,\"reason\":\"Failed to save file\"}");
}

#[test]
fn save_message_is_written_then_acknowledged() {
    let (s, a) = step(RouterState::AwaitingMessage, &Inbound::Text("{\"type\":\"save\",\"content\":\"hello\"}".to_string()));
    assert_eq!(s, RouterState::Saving);
    assert_eq!(a, Action::WriteFile("hello".to_string()));
    let (s, a) = step(s, &Inbound::WriteDone(true));
    assert_eq!(s, RouterState::AwaitingMessage);
    assert_eq!(a, Action::Send("{\"type\":\"save_result\",\"success\":true,\"reason\":\"File saved successfully\"}".to_string()));
}

#[test]
fn failed_write_is_reported_and_the_loop_goes_on() {
    let (s, _) = step(RouterState::AwaitingMessage, &Inbound::Text("{\"type\":\"save\",\"content\":\"x\"}".to_string()));
    let (s, a) = step(s, &Inbound::WriteDone(false));
    assert_eq!(s, RouterState::AwaitingMessage);
    assert_eq!(a, Action::Send("{\"type\":\"save_result\",\"success\":false,\"reason\":\"Failed to save file\"}".to_string()));
    let (s, a) = step(s, &Inbound::Ping);
    assert_eq!(s, RouterState::AwaitingMessage);
    assert_eq!(a, Action::Nothing);
}

#[test]
fn save_content_round_trips_through_the_wire() {
    for content in ["", "hello", "a \"quote\" and a \\ backslash\n", "trailing \\", "multi\r\nline\ttext"] {
        let frame = format!("{{\"type\":\"save\",\"content\":\"{}\"}}", escape_json_string(content));
        let (_, a) = step(RouterState::AwaitingMessage, &Inbound::Text(frame));
        assert_eq!(a, Action::WriteFile(content.to_string()));
    }
}

#[test]
fn unknown_type_is_ignored() {
    let (s, a) = step(RouterState::AwaitingMessage, &Inbound::Text("{\"type\":\"cursor\",\"content\":\"x\"}".to_string()));
    assert_eq!(s, RouterState::AwaitingMessage);
    assert_eq!(a, Action::Nothing);
    let (s, a) = step(RouterState::AwaitingMessage, &Inbound::Text("{\"type\":\"save\"}".to_string()));
    assert_eq!(s, RouterState::AwaitingMessage);
    assert_eq!(a, Action::Nothing);
}

#[test]
fn malformed_frame_closes_with_going_away() {
    let (s, a) = step(RouterState::AwaitingMessage, &Inbound::Text("{}".to_string()));
    assert_eq!(s, RouterState::ClosedByError);
    assert_eq!(a, Action::Close(1001, "Invalid message: no type field".to_string()));
    let (s, a) = step(RouterState::AwaitingMessage, &Inbound::Failed("connection reset".to_string()));
    assert_eq!(s, RouterState::ClosedByError);
    assert_eq!(a, Action::Close(1001, "connection reset".to_string()));
}

#[test]
fn peer_close_closes_normally() {
    let (s, a) = step(RouterState::AwaitingMessage, &Inbound::Close);
    assert_eq!(s, RouterState::ClosedByPeer);
    assert_eq!(a, Action::Close(1000, String::new()));
    let (s, a) = step(RouterState::AwaitingMessage, &Inbound::Ended);
    assert_eq!(s, RouterState::ClosedByPeer);
    assert_eq!(a, Action::Close(1000, String::new()));
}

#[test]
fn interrupt_while_waiting_closes_normally() {
    let (s, a) = step(RouterState::AwaitingMessage, &Inbound::Interrupt);
    assert_eq!(s, RouterState::ClosedByCancellation);
    assert_eq!(a, Action::Close(1000, String::new()));
    let (s, a) = step(RouterState::Saving, &Inbound::Interrupt);
    assert_eq!(s, RouterState::ClosedByCancellation);
    assert_eq!(a, Action::Close(1000, String::new()));
}

#[test]
fn nothing_happens_after_the_close() {
    for state in [RouterState::ClosedByPeer, RouterState::ClosedByError, RouterState::ClosedByCancellation] {
        let (s, a) = step(state, &Inbound::Text("{\"type\":\"save\",\"content\":\"x\"}".to_string()));
        assert_eq!(s, state);
        assert_eq!(a, Action::Nothing);
    }
}
