use warp_ai::json::{from_value, Json};
use warp_ai::oauth::{
    check_device_code, check_device_code_status, check_token_status, check_tokens,
    device_code_request, exchange_form, is_success, poll_needs_body, poll_outcome, poll_request,
    refresh_form, CodeSuccessResponse, DeviceCodeResponse, Grant, PollBody, PollOutcome,
    TokenResponse, CLIENT_ID,
};
use warp_ai::time::Span;

fn device_code(interval: Option<Json>) -> DeviceCodeResponse {
    DeviceCodeResponse {
        device_auth_id: "id".to_string(),
        user_code: "CODE".to_string(),
        verification_uri: None,
        interval,
        expires_in: None,
    }
}

fn authorized(code: &str) -> CodeSuccessResponse {
    CodeSuccessResponse {
        authorization_code: code.to_string(),
        code_verifier: "v".to_string(),
        code_challenge: None,
    }
}

fn body(text: &str, parsed: Result<CodeSuccessResponse, String>) -> Result<PollBody, String> {
    Ok(PollBody { text: text.to_string(), parsed })
}

#[test]
fn the_verification_url_has_a_default() {
    let mut response = device_code(None);
    assert_eq!(response.verification_url(), "https://auth.openai.com/codex/device");
    response.verification_uri = Some("https://x".to_string());
    assert_eq!(response.verification_url(), "https://x");
}

#[test]
fn the_poll_interval_is_a_number_or_a_text() {
    let secs = |interval| device_code(interval).poll_interval();
    assert_eq!(secs(None), Span::from_secs(5));
    assert_eq!(secs(Some(from_value(serde_json::Value::from(7)))), Span::from_secs(7));
    assert_eq!(secs(Some(from_value(serde_json::Value::from(-7)))), Span::from_secs(5));
    assert_eq!(secs(Some(from_value(serde_json::Value::from(1.5)))), Span::from_secs(5));
    assert_eq!(secs(Some(Json::Text("12".to_string()))), Span::from_secs(12));
    assert_eq!(secs(Some(Json::Text("+12".to_string()))), Span::from_secs(12));
    assert_eq!(secs(Some(Json::Text(" 12".to_string()))), Span::from_secs(5));
    assert_eq!(secs(Some(Json::Text("18446744073709551615".to_string()))), Span::from_secs(u64::MAX));
    assert_eq!(secs(Some(Json::Text("18446744073709551616".to_string()))), Span::from_secs(5));
    assert_eq!(secs(Some(Json::Null)), Span::from_secs(5));
}

#[test]
fn device_code_requests_are_judged() {
    assert!(check_device_code_status(200, "200 OK", "").is_ok());
    let disabled = check_device_code_status(404, "404 Not Found", "x").unwrap_err();
    assert_eq!(
        disabled.message,
        "ChatGPT device code login is not enabled. Go to https://chatgpt.com/settings/security \
         and enable 'Device code authorization' first."
    );
    let failed = check_device_code_status(500, "500 Internal Server Error", "boom").unwrap_err();
    assert_eq!(
        failed.message,
        "ChatGPT device-code request failed (500 Internal Server Error): boom"
    );
    assert!(check_device_code(device_code(None)).is_ok());
    let mut empty = device_code(None);
    empty.user_code = String::new();
    assert_eq!(
        check_device_code(empty).unwrap_err().message,
        "ChatGPT device-code response was missing required fields (device_auth_id or user_code)"
    );
    let mut anonymous = device_code(None);
    anonymous.device_auth_id = String::new();
    assert!(check_device_code(anonymous).is_err());
}

#[test]
fn polls_are_pending_until_authorized() {
    for code in [403, 404] {
        assert!(!poll_needs_body(code));
        let outcome = poll_outcome(code, "", Err("unread".to_string()));
        assert_eq!(outcome, PollOutcome::Pending);
    }
    assert!(poll_needs_body(200));
    assert_eq!(
        poll_outcome(200, "200 OK", body("{}", Ok(authorized("c")))),
        PollOutcome::Authorized(authorized("c"))
    );
    assert_eq!(
        poll_outcome(200, "200 OK", body("{}", Ok(authorized("")))),
        PollOutcome::Pending
    );
    assert_eq!(
        poll_outcome(400, "400 Bad Request", body("x authorization_pending y", Ok(authorized("c")))),
        PollOutcome::Pending
    );
}

#[test]
fn polls_fail_with_their_reason() {
    let error = |outcome| match outcome {
        PollOutcome::Error(failure) => (failure.message, failure.cause),
        _ => panic!("no error"),
    };
    assert_eq!(
        error(poll_outcome(400, "400 Bad Request", body("denied", Err("e".to_string())))),
        ("ChatGPT device-auth poll failed (400 Bad Request): denied".to_string(), None)
    );
    assert_eq!(
        error(poll_outcome(200, "200 OK", body("<html>", Err("not JSON".to_string())))),
        (
            "failed to parse ChatGPT poll response: <html>".to_string(),
            Some("not JSON".to_string())
        )
    );
    assert_eq!(
        error(poll_outcome(200, "200 OK", Err("reset".to_string()))),
        (
            "failed to read ChatGPT poll response body".to_string(),
            Some("reset".to_string())
        )
    );
}

#[test]
fn request_bodies_name_the_client() {
    assert_eq!(
        device_code_request(),
        Json::Object(vec![("client_id".to_string(), Json::Text(CLIENT_ID.to_string()))])
    );
    assert_eq!(
        poll_request("d", "u"),
        Json::Object(vec![
            ("device_auth_id".to_string(), Json::Text("d".to_string())),
            ("user_code".to_string(), Json::Text("u".to_string())),
        ])
    );
}

#[test]
fn forms_name_their_grant() {
    let form = exchange_form("code", "verifier");
    let fields: Vec<(&str, &str)> = form.iter().map(|(k, v)| (*k, v.as_str())).collect();
    assert_eq!(
        fields,
        vec![
            ("grant_type", "authorization_code"),
            ("client_id", CLIENT_ID),
            ("code", "code"),
            ("code_verifier", "verifier"),
            ("redirect_uri", "https://auth.openai.com/deviceauth/callback"),
        ]
    );
    let form = refresh_form("r");
    let fields: Vec<(&str, &str)> = form.iter().map(|(k, v)| (*k, v.as_str())).collect();
    assert_eq!(
        fields,
        vec![("grant_type", "refresh_token"), ("refresh_token", "r"), ("client_id", CLIENT_ID)]
    );
}

#[test]
fn token_responses_are_judged() {
    assert!(is_success(200) && is_success(299) && !is_success(199) && !is_success(300));
    assert!(check_token_status(Grant::Exchange, 201, "", "").is_ok());
    assert_eq!(
        check_token_status(Grant::Exchange, 400, "400 Bad Request", "no").unwrap_err().message,
        "ChatGPT token exchange failed (400 Bad Request): no"
    );
    assert_eq!(
        check_token_status(Grant::Refresh, 401, "401 Unauthorized", "no").unwrap_err().message,
        "ChatGPT token refresh failed (401 Unauthorized): no"
    );
    let tokens = |access: &str| TokenResponse {
        access_token: access.to_string(),
        refresh_token: None,
        expires_in: Some(1),
    };
    assert_eq!(check_tokens(Grant::Refresh, tokens("a")).unwrap(), tokens("a"));
    assert_eq!(
        check_tokens(Grant::Exchange, tokens("")).unwrap_err().message,
        "ChatGPT token exchange did not return an access token"
    );
    assert_eq!(
        check_tokens(Grant::Refresh, tokens("")).unwrap_err().message,
        "ChatGPT token refresh did not return an access token"
    );
}
