use lunash::clipboard;
use lunash::http::HttpError;
use lunash::http::HttpSession;

#[test]
fn missing_client_is_a_setup_error_not_a_crash() {
    let s = HttpSession::without_client();
    match s.get("http://localhost/") {
        Err(HttpError::Unavailable) => {}
        _ => panic!("a session without a client reports it unavailable"),
    }
    match s.post("http://localhost/", "body".to_string()) {
        Err(HttpError::Unavailable) => {}
        _ => panic!("a session without a client reports it unavailable"),
    }
}

#[test]
fn sequential_calls_on_one_session_both_complete() {
    let s = HttpSession::without_client();
    let first = s.get("http://localhost/");
    let second = s.get("http://localhost/");
    assert!(first.is_err());
    assert!(second.is_err());
}

#[test]
fn transport_failure_is_a_request_error() {
    let s = match HttpSession::create() {
        Ok(s) => s,
        Err(_) => return,
    };
    match s.get("http://127.0.0.1:9/") {
        Err(HttpError::Request(message)) => assert!(!message.is_empty()),
        Err(_) => panic!("an unreachable host is a request error"),
        Ok(_) => panic!("nothing is listening on the discard port"),
    }
}

#[test]
fn error_messages_name_the_failure() {
    assert_eq!(
        HttpError::Unavailable.message(),
        "HTTP client not available".to_string()
    );
    assert_eq!(
        HttpError::Poisoned.message(),
        "HTTP client lock poisoned".to_string()
    );
    assert_eq!(
        HttpError::Request("connection refused".to_string()).message(),
        "connection refused".to_string()
    );
    assert_eq!(
        HttpError::Decode("invalid utf-8".to_string()).message(),
        "invalid utf-8".to_string()
    );
}

#[test]
fn clipboard_operations_report_rather_than_crash() {
    match clipboard::set_text("lunash".to_string()) {
        Ok(()) => match clipboard::get_text() {
            Ok(text) => assert_eq!(text, "lunash".to_string()),
            Err(message) => assert!(!message.is_empty()),
        },
        Err(message) => assert!(!message.is_empty()),
    }
}
