use canvas_tui::error::{check_status, parse_retry_after, CanvasError};

#[test]
fn status_401_is_unauthorized() {
    let r = check_status(401, None, String::new());
    assert!(matches!(r, Err(CanvasError::Unauthorized)));
}

#[test]
fn status_403_is_forbidden() {
    let r = check_status(403, None, String::new());
    assert!(matches!(r, Err(CanvasError::Forbidden)));
}

#[test]
fn status_429_with_retry_after_carries_the_wait() {
    let r = check_status(429, Some("2.5"), String::new());
    match r {
        Err(CanvasError::RateLimited { retry_after_millis }) => {
            assert_eq!(retry_after_millis, 2500);
        }
        other => panic!("expected RateLimited, got {:?}", other),
    }
}

#[test]
fn status_429_without_header_defaults_to_one_second() {
    let r = check_status(429, None, String::new());
    match r {
        Err(CanvasError::RateLimited { retry_after_millis }) => {
            assert_eq!(retry_after_millis, 1000);
        }
        other => panic!("expected RateLimited, got {:?}", other),
    }
}

#[test]
fn status_429_with_unparsable_header_defaults_to_one_second() {
    let r = check_status(429, Some("soon"), String::new());
    match r {
        Err(CanvasError::RateLimited { retry_after_millis }) => {
            assert_eq!(retry_after_millis, 1000);
        }
        other => panic!("expected RateLimited, got {:?}", other),
    }
}

#[test]
fn other_client_error_carries_status_and_body() {
    let r = check_status(404, None, String::from("not found"));
    match r {
        Err(CanvasError::Api { status, message }) => {
            assert_eq!(status, 404);
            assert_eq!(message, "not found");
        }
        other => panic!("expected Api, got {:?}", other),
    }
}

#[test]
fn server_error_carries_status_and_body() {
    let r = check_status(503, None, String::from("down"));
    assert!(matches!(r, Err(CanvasError::Api { status: 503, .. })));
}

#[test]
fn success_and_redirect_statuses_pass() {
    assert!(check_status(200, None, String::new()).is_ok());
    assert!(check_status(201, None, String::new()).is_ok());
    assert!(check_status(302, None, String::new()).is_ok());
}

#[test]
fn retry_after_parses_plain_integers() {
    assert_eq!(parse_retry_after("2"), Some(2000));
    assert_eq!(parse_retry_after("0"), Some(0));
    assert_eq!(parse_retry_after("120"), Some(120000));
}

#[test]
fn retry_after_parses_decimals() {
    assert_eq!(parse_retry_after("2.5"), Some(2500));
    assert_eq!(parse_retry_after("0.1"), Some(100));
    assert_eq!(parse_retry_after("1.25"), Some(1250));
    // places past the third are truncated
    assert_eq!(parse_retry_after("2.1239"), Some(2123));
    // a bare trailing dot is a decimal with an empty fraction
    assert_eq!(parse_retry_after("2."), Some(2000));
}

#[test]
fn retry_after_rejects_malformed_values() {
    assert_eq!(parse_retry_after(""), None);
    assert_eq!(parse_retry_after(".5"), None);
    assert_eq!(parse_retry_after("-1"), None);
    assert_eq!(parse_retry_after("1e3"), None);
    assert_eq!(parse_retry_after("2.5s"), None);
    assert_eq!(parse_retry_after("1.2.3"), None);
}

#[test]
fn describe_spells_each_variant() {
    assert_eq!(
        CanvasError::Unauthorized.describe(),
        "Unauthorized - check your API token"
    );
    assert_eq!(
        CanvasError::Forbidden.describe(),
        "Forbidden - insufficient permissions"
    );
    assert_eq!(
        CanvasError::RateLimited { retry_after_millis: 2500 }.describe(),
        "Rate limited - retry after 2.5s"
    );
    assert_eq!(
        CanvasError::Api { status: 404, message: String::from("missing") }.describe(),
        "HTTP 404: missing"
    );
    assert_eq!(
        CanvasError::Network { message: String::from("refused") }.describe(),
        "Network error: refused"
    );
    assert_eq!(
        CanvasError::Other { message: String::from("oops") }.describe(),
        "oops"
    );
}
