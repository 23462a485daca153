use remdit::client::{multipart_body, multipart_boundary, multipart_content_type, Client};
use remdit::config::Server;
use remdit::error::ClientError;
use remdit::router::{step, Action, Inbound, RouterState};

fn server(addr: &str) -> Server {
    Server { addr: addr.to_string(), key: None }
}

fn client(addr: &str) -> Client {
    Client::new(server(addr), "/tmp/notes.txt".to_string()).unwrap()
}

#[test]
fn new_client_has_no_session() {
    let c = client("example.com");
    assert_eq!(c.server.addr, "example.com");
    assert_eq!(c.file_path, "/tmp/notes.txt");
    assert_eq!(c.get_edit_url(), "");
    assert!(matches!(c.ws_url(), Err(ClientError::NoSession)));
}

#[test]
fn connection_url_needs_only_the_session_id() {
    let mut c = client("http://h");
    c.session_id = Some("s1".to_string());
    assert_eq!(c.ws_url().unwrap(), "ws://h/api/session/s1");
}

#[test]
fn session_url_defaults_to_https() {
    assert_eq!(client("example.com").session_url(), "https://example.com/api/session");
    assert_eq!(client("http://h:8080").session_url(), "http://h:8080/api/session");
    assert_eq!(client("https://h").session_url(), "https://h/api/session");
}

#[test]
fn negotiated_session_gives_urls() {
    let mut c = client("https://x");
    let body = "{\"sessionid\":\"abc\",\"editurl\":\"https://x/e/abc\"}";
    assert!(c.accept_session_response(200, "application/json; charset=utf-8", body).is_ok());
    assert_eq!(c.get_edit_url(), "https://x/e/abc");
    assert_eq!(c.ws_url().unwrap(), "wss://x/api/session/abc");
    let mut c = client("http://x:1");
    assert!(c.accept_session_response(201, "application/json", body).is_ok());
    assert_eq!(c.ws_url().unwrap(), "ws://x:1/api/session/abc");
    let mut c = client("x");
    assert!(c.accept_session_response(299, "application/json", body).is_ok());
    assert_eq!(c.ws_url().unwrap(), "wss://x/api/session/abc");
}

#[test]
fn unauthorized_fails_before_any_connection() {
    let mut c = client("x");
    let r = c.accept_session_response(401, "application/json", "{\"sessionid\":\"a\",\"editurl\":\"b\"}");
    assert_eq!(r, Err(ClientError::Unauthorized));
    assert_eq!(r.unwrap_err().message(), "Unauthorized: check your API key");
    assert!(matches!(c.ws_url(), Err(ClientError::NoSession)));
}

#[test]
fn other_failures_are_told_apart() {
    let body = "{\"sessionid\":\"a\",\"editurl\":\"b\"}";
    let mut c = client("x");
    let r = c.accept_session_response(500, "application/json", body);
    assert_eq!(r, Err(ClientError::BadStatus(500)));
    assert_eq!(r.unwrap_err().message(), "Request failed with status: 500");
    assert_eq!(c.accept_session_response(199, "application/json", body), Err(ClientError::BadStatus(199)));
    let r = c.accept_session_response(200, "text/html", body);
    assert_eq!(r, Err(ClientError::UnexpectedContentType("text/html".to_string())));
    assert_eq!(r.unwrap_err().message(), "Unexpected content-type: text/html");
    assert_eq!(c.accept_session_response(200, "application/json", "{}"), Err(ClientError::InvalidSessionResponse));
    assert_eq!(c.get_edit_url(), "");
}

#[test]
fn upload_body_has_one_document_part() {
    assert_eq!(multipart_boundary(42), "----WebKitFormBoundary42");
    assert_eq!(multipart_content_type("B"), "multipart/form-data; boundary=B");
    let body = multipart_body("B", "notes.txt", &[1u8, 2, 3]);
    let mut expected = b"--B\r\nContent-Disposition: form-data; name=\"document\"; filename=\"notes.txt\"\r\nContent-Type: application/octet-stream\r\n\r\n".to_vec();
    expected.extend_from_slice(&[1, 2, 3]);
    expected.extend_from_slice(b"\r\n--B--\r\n");
    assert_eq!(body, expected);
}

#[test]
fn error_messages_are_exact() {
    assert_eq!(ClientError::NoServers.message(), "No servers configured");
    assert_eq!(ClientError::NoValidServers.message(), "No valid servers found");
    assert_eq!(ClientError::NoSession.message(), "No session ID available");
    assert_eq!(ClientError::Transport("gone".to_string()).message(), "gone");
}

#[test]
fn negotiate_connect_save_and_acknowledge() {
    let mut c = client("https://x");
    c.accept_session_response(200, "application/json", "{\"sessionid\":\"abc\",\"editurl\":\"https://x/e/abc\"}").unwrap();
    assert_eq!(c.get_edit_url(), "https://x/e/abc");
    assert_eq!(c.ws_url().unwrap(), "wss://x/api/session/abc");
    let (s, a) = step(RouterState::AwaitingMessage, &Inbound::Text("{\"type\":\"save\",\"content\":\"hello\"}".to_string()));
    assert_eq!(a, Action::WriteFile("hello".to_string()));
    let (s, a) = step(s, &Inbound::WriteDone(true));
    assert_eq!(a, Action::Send("{\"type\":\"save_result\",\"success\":true,\"reason\":\"File saved successfully\"}".to_string()));
    let (s, a) = step(s, &Inbound::Interrupt);
    assert_eq!(s, RouterState::ClosedByCancellation);
    assert_eq!(a, Action::Close(1000, String::new()));
}
