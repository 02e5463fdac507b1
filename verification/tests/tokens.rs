use warp_ai::chatgpt::{chatgpt_tokens_at, chatgpt_tokens_from_response, plan_refresh};
use warp_ai::oauth::TokenResponse;
use warp_ai::time::{span_of, time_of, Span, Timestamp, EARLIEST_NANOS, LATEST_NANOS};
use warp_ai::tokens::{ChatGptTokens, GrokTokens};

const SEC: i128 = 1_000_000_000;

fn at(secs: i128) -> Timestamp {
    Timestamp { nanos: secs * SEC }
}

fn grok(token: &str, expires_at: Option<Timestamp>) -> GrokTokens {
    GrokTokens { access_token: token.to_string(), expires_at, ..Default::default() }
}

fn chatgpt(refresh: Option<&str>, expires_at: Option<Timestamp>) -> ChatGptTokens {
    ChatGptTokens {
        access_token: "old".to_string(),
        refresh_token: refresh.map(str::to_string),
        expires_at,
        connected_at: Some(at(1)),
    }
}

fn response(refresh: Option<&str>, expires_in: Option<i64>) -> TokenResponse {
    TokenResponse {
        access_token: "new".to_string(),
        refresh_token: refresh.map(str::to_string),
        expires_in,
    }
}

#[test]
fn blank_tokens_are_not_sent() {
    assert_eq!(grok("t", None).access_token_for_request(), Some("t"));
    assert_eq!(grok(" t ", None).access_token_for_request(), Some(" t "));
    assert_eq!(grok(" \n", None).access_token_for_request(), None);
    assert_eq!(chatgpt(None, None).access_token_for_request(), Some("old"));
}

#[test]
fn refresh_is_due_within_the_lead_time() {
    let tokens = grok("t", Some(at(100)));
    assert!(!tokens.needs_refresh_at(at(94), Span::from_secs(5)));
    assert!(tokens.needs_refresh_at(at(95), Span::from_secs(5)));
    assert!(tokens.needs_refresh_at(at(200), Span::from_secs(0)));
    assert!(!grok("t", None).needs_refresh_at(at(200), Span::from_secs(5)));
    // Far beyond what a clock can show.
    assert!(tokens.needs_refresh_at(at(0), Span { nanos: u128::MAX }));
}

#[test]
fn expiry_goes_by_the_clock() {
    assert!(grok("t", Some(at(1))).is_expired());
    assert!(!grok("t", Some(Timestamp { nanos: LATEST_NANOS })).is_expired());
    assert!(!grok("t", None).is_expired());
    assert!(grok("t", Some(Timestamp { nanos: LATEST_NANOS })).needs_refresh(Span { nanos: u128::MAX }));
    assert!(chatgpt(None, Some(at(1))).is_expired());
    assert!(!chatgpt(None, Some(Timestamp { nanos: LATEST_NANOS })).is_expired());
    assert!(chatgpt(None, Some(at(7))).is_expired_at(at(7)));
    assert!(!chatgpt(None, Some(at(7))).is_expired_at(at(6)));
}

#[test]
fn responses_become_tokens() {
    let previous = chatgpt(Some("r1"), Some(at(50)));
    let tokens = chatgpt_tokens_at(response(None, Some(60)), Some(&previous), at(100));
    assert_eq!(tokens.access_token, "new");
    assert_eq!(tokens.refresh_token.as_deref(), Some("r1"));
    assert_eq!(tokens.expires_at, Some(at(160)));
    assert_eq!(tokens.connected_at, Some(at(1)));

    let tokens = chatgpt_tokens_at(response(Some("r2"), Some(-1)), Some(&previous), at(100));
    assert_eq!(tokens.refresh_token.as_deref(), Some("r2"));
    assert_eq!(tokens.expires_at, None);

    let tokens = chatgpt_tokens_at(response(None, None), None, at(100));
    assert_eq!(tokens.refresh_token, None);
    assert_eq!(tokens.expires_at, None);
    assert_eq!(tokens.connected_at, Some(at(100)));

    let tokens = chatgpt_tokens_at(
        response(None, Some(1)),
        None,
        Timestamp { nanos: LATEST_NANOS },
    );
    assert_eq!(tokens.expires_at, None);
}

#[test]
fn responses_are_dated_by_the_clock() {
    let tokens = chatgpt_tokens_from_response(response(Some("r"), Some(3600)), None);
    let connected = tokens.connected_at.unwrap();
    assert_eq!(tokens.expires_at.unwrap().nanos, connected.nanos + 3600 * SEC);
    // The clock shows a time after 2020.
    assert!(connected.nanos > 1_577_836_800 * SEC);
}

#[test]
fn refreshes_are_planned_ahead_of_expiry() {
    let tokens = chatgpt(Some("r"), Some(at(1000)));
    let plan = plan_refresh(true, Some(&tokens), at(100)).unwrap();
    assert_eq!(plan.delay, Span::from_secs(600));
    assert_eq!(plan.refresh_token, "r");
    assert_eq!(plan_refresh(true, Some(&tokens), at(800)).unwrap().delay, Span::from_secs(0));
    assert!(plan_refresh(false, Some(&tokens), at(100)).is_none());
    assert!(plan_refresh(true, None, at(100)).is_none());
    assert!(plan_refresh(true, Some(&chatgpt(None, Some(at(1)))), at(100)).is_none());
    assert!(plan_refresh(true, Some(&chatgpt(Some("r"), None)), at(100)).is_none());
    let ancient = chatgpt(Some("r"), Some(Timestamp { nanos: EARLIEST_NANOS }));
    assert_eq!(plan_refresh(true, Some(&ancient), at(5)).unwrap().delay, Span::from_secs(0));
}

#[test]
fn clock_readings_become_times() {
    assert_eq!(time_of(Ok((2, 5))), Timestamp { nanos: 2_000_000_005 });
    assert_eq!(time_of(Err((2, 5))), Timestamp { nanos: -2_000_000_005 });
    assert_eq!(span_of(2, 5), Span { nanos: 2_000_000_005 });
    assert_eq!(span_of(u64::MAX, 0), Span::from_secs(u64::MAX));
}

#[test]
fn times_saturate() {
    let latest = Timestamp { nanos: i128::MAX };
    let earliest = Timestamp { nanos: i128::MIN };
    assert_eq!(latest.saturating_since(earliest), Span { nanos: u128::MAX });
    assert_eq!(earliest.saturating_since(latest), Span { nanos: 0 });
    assert_eq!(at(5).saturating_since(at(3)), Span::from_secs(2));
    assert_eq!(latest.checked_add(Span { nanos: 1 }), None);
    assert_eq!(at(5).checked_sub(Span::from_secs(7)), Some(at(-2)));
    assert_eq!(earliest.checked_sub(Span { nanos: 1 }), None);
}

#[test]
fn tokens_are_compared_by_what_they_say() {
    let a = grok("t", Some(at(1)));
    assert!(a.same(&grok("t", Some(at(1)))));
    assert!(!a.same(&grok("t", Some(at(2)))));
    assert!(!a.same(&grok("u", Some(at(1)))));
    assert!(!chatgpt(Some("r"), None).same(&chatgpt(None, None)));
}
