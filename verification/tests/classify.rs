use bitget_client::client::RequestOutcome;
use bitget_client::client::check_status;
use bitget_client::client::classify_response;
use bitget_client::exceptions::BitgetError;
use bitget_client::exceptions::parse_error_response;

#[test]
fn success_envelope_classifies_as_success() {
    let body = "{\"code\":\"00000\",\"data\":{\"x\":1}}";
    assert!(parse_error_response(body).is_none());
    match classify_response(200, body.to_string()) {
        RequestOutcome::Succeeded(p) => assert_eq!(p, body),
        _ => panic!("expected success"),
    }
}

#[test]
fn error_envelope_classifies_as_exchange_error() {
    let body = "{\"code\":\"40001\",\"msg\":\"bad sign\"}";
    let err = parse_error_response(body).unwrap();
    assert_eq!(err.code, "40001");
    assert_eq!(err.msg, "bad sign");
    assert_eq!(err.request_id, "");
    match classify_response(200, body.to_string()) {
        RequestOutcome::ExchangeRejected(e) => {
            assert_eq!(e.code, "40001");
            assert_eq!(e.msg, "bad sign");
        },
        _ => panic!("expected exchange rejection"),
    }
}

#[test]
fn request_id_is_carried_verbatim() {
    let body = "{\"code\":\"40001\",\"msg\":\"bad sign\",\"requestId\":\"abc-123\"}";
    let err = parse_error_response(body).unwrap();
    assert_eq!(err.request_id, "abc-123");
}

#[test]
fn non_json_success_body_passes_through() {
    let body = "plain text, not json";
    assert!(parse_error_response(body).is_none());
    match classify_response(200, body.to_string()) {
        RequestOutcome::Succeeded(p) => assert_eq!(p, body),
        _ => panic!("expected opaque success"),
    }
}

#[test]
fn envelope_without_msg_is_not_an_error() {
    assert!(parse_error_response("{\"code\":\"40001\"}").is_none());
    assert!(parse_error_response("{\"msg\":\"no code\"}").is_none());
    assert!(parse_error_response("{\"code\":40001,\"msg\":\"numeric\"}").is_none());
}

#[test]
fn http_500_is_transport_not_exchange_error() {
    let body = "{\"code\":\"40001\",\"msg\":\"bad sign\"}";
    match classify_response(500, body.to_string()) {
        RequestOutcome::TransportFailed { status, body: b } => {
            assert_eq!(status, 500);
            assert_eq!(b, body);
        },
        _ => panic!("expected transport failure"),
    }
}

#[test]
fn check_status_gates_on_2xx() {
    assert_eq!(check_status(200, "ok".to_string()).unwrap(), "ok");
    assert_eq!(check_status(204, "".to_string()).unwrap(), "");
    match check_status(404, "missing".to_string()) {
        Err(BitgetError::Transport { status, body }) => {
            assert_eq!(status, 404);
            assert_eq!(body, "missing");
        },
        _ => panic!("expected transport error"),
    }
}

#[test]
fn outcomes_collapse_into_disjoint_error_classes() {
    let ok = classify_response(200, "payload".to_string()).into_result();
    assert_eq!(ok.unwrap(), "payload");
    let rejected = classify_response(200, "{\"code\":\"40001\",\"msg\":\"bad sign\"}".to_string())
        .into_result();
    match rejected {
        Err(BitgetError::Exchange(e)) => assert_eq!(e.code, "40001"),
        _ => panic!("expected an exchange error"),
    }
    let failed = classify_response(500, "oops".to_string()).into_result();
    match failed {
        Err(BitgetError::Transport { status, body }) => {
            assert_eq!(status, 500);
            assert_eq!(body, "oops");
        },
        _ => panic!("expected a transport error"),
    }
}

#[test]
fn describe_names_code_and_message() {
    let err = parse_error_response("{\"code\":\"40001\",\"msg\":\"bad sign\"}").unwrap();
    assert_eq!(err.describe(), "Bitget API error - code: 40001, message: bad sign");
}
