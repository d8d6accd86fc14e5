use lexicons::atp::{is_request, xrpc_url, ApiError, NotificationReason, SessionResponse, XrpcAuth};

#[test]
fn url_of_method() {
    assert_eq!(
        xrpc_url("https://bsky.social", "com.atproto.server.createSession"),
        "https://bsky.social/xrpc/com.atproto.server.createSession"
    );
}

#[test]
fn api_error_text() {
    let e = ApiError { error: "ExpiredToken".to_string(), message: Some("gone".to_string()) };
    assert_eq!(e.describe(), "Error: ExpiredToken\nMessage: gone\n");
    let e = ApiError { error: "Bad".to_string(), message: None };
    assert_eq!(e.describe(), "Error: Bad\nMessage: \n");
}

#[test]
fn refresh_only_on_expired_token() {
    let e = ApiError { error: "ExpiredToken".to_string(), message: None };
    assert!(e.should_refresh(true, true));
    assert!(!e.should_refresh(false, true));
    assert!(!e.should_refresh(true, false));
    let e = ApiError { error: "InvalidToken".to_string(), message: None };
    assert!(!e.should_refresh(true, true));
}

#[test]
fn unread_mentions_are_requests() {
    assert!(is_request(NotificationReason::Mention, false));
    assert!(!is_request(NotificationReason::Mention, true));
    assert!(!is_request(NotificationReason::Like, false));
}

#[test]
fn session_becomes_auth() {
    let s = SessionResponse {
        access_jwt: "a".to_string(),
        refresh_jwt: "r".to_string(),
        handle: "h".to_string(),
        did: "d".to_string(),
        email: None,
    };
    let auth = XrpcAuth::from_session(s);
    assert_eq!(auth.access_token, "a");
    assert_eq!(auth.refresh_token, "r");
    assert_eq!(auth.did, "d");
}
