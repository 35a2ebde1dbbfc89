use kagi_mcp::api::error::{ErrorDetail, KagiError, KagiErrorResponse};

fn make_error_response(message: Option<&str>) -> KagiErrorResponse {
    KagiErrorResponse {
        meta: serde_json::Value::Object(Default::default()),
        data: None,
        error: vec![ErrorDetail {
            code: String::new(),
            url: String::new(),
            message: message.map(String::from),
            location: None,
        }],
    }
}

#[test]
fn when_http_400_then_invalid_request_should_return() {
    let body = make_error_response(Some("invalid parameter"));
    let err = KagiError::from_http_status(400, Some(body));
    assert!(
        matches!(err, KagiError::InvalidRequest { .. }),
        "expected InvalidRequest, got {err:?}"
    );
    assert_eq!(err.message(), "invalid request: invalid parameter");
}

#[test]
fn when_http_401_then_unauthorized_should_return() {
    let err = KagiError::from_http_status(401, None);
    assert!(matches!(err, KagiError::Unauthorized), "expected Unauthorized, got {err:?}");
}

#[test]
fn when_http_403_then_forbidden_should_return() {
    let err = KagiError::from_http_status(403, None);
    assert!(matches!(err, KagiError::Forbidden), "expected Forbidden, got {err:?}");
}

#[test]
fn when_http_429_then_rate_limited_should_return() {
    let err = KagiError::from_http_status(429, None);
    assert!(matches!(err, KagiError::RateLimited), "expected RateLimited, got {err:?}");
}

#[test]
fn when_http_500_then_server_error_should_return() {
    let err = KagiError::from_http_status(500, None);
    assert!(matches!(err, KagiError::ServerError), "expected ServerError, got {err:?}");
}

#[test]
fn when_http_418_then_api_variant_should_return() {
    let err = KagiError::from_http_status(418, None);
    assert!(matches!(err, KagiError::Api { status: 418, .. }), "expected Api(418), got {err:?}");
}

#[test]
fn when_error_body_has_several_messages_then_they_should_be_joined() {
    let body = KagiErrorResponse {
        meta: serde_json::Value::Null,
        data: None,
        error: vec![
            ErrorDetail {
                code: "a".to_owned(),
                url: String::new(),
                message: Some("first".to_owned()),
                location: None,
            },
            ErrorDetail {
                code: "b".to_owned(),
                url: String::new(),
                message: None,
                location: None,
            },
            ErrorDetail {
                code: "c".to_owned(),
                url: String::new(),
                message: Some("second".to_owned()),
                location: Some("query".to_owned()),
            },
        ],
    };
    assert_eq!(body.format_message(), "first; second");
    let err = KagiError::from_http_status(502, Some(body));
    assert_eq!(err.message(), "API error (HTTP 502): first; second");
}

#[test]
fn when_error_body_has_no_message_then_api_message_should_be_empty() {
    let err = KagiError::from_http_status(404, Some(make_error_response(None)));
    assert_eq!(err.message(), "API error (HTTP 404): ");
    let err = KagiError::from_http_status(400, None);
    assert_eq!(err.message(), "invalid request: ");
}

#[test]
fn when_fixed_variants_displayed_then_messages_should_match() {
    assert_eq!(KagiError::Unauthorized.message(), "unauthorized: invalid or missing API key");
    assert_eq!(KagiError::Forbidden.message(), "forbidden: API key lacks permission");
    assert_eq!(KagiError::RateLimited.message(), "rate limited: too many requests");
    assert_eq!(KagiError::ServerError.message(), "server error");
}
