use warp_ai::credentials::{
    AwsCredentials, AwsCredentialsRefreshStrategy, AwsCredentialsState, GeapCredentials,
    GeapCredentialsState, GeapMintBinding,
};
use warp_ai::direct::is_direct_endpoint;
use warp_ai::endpoint::{CustomEndpointSchema, EndpointKind};
use warp_ai::keys::{ApiKeys, CustomEndpointParams};
use warp_ai::manager::{
    ApiKeyManager, ApiKeyManagerEvent, Effects, StorageCommand, StorageEntry, StorageError,
};
use warp_ai::oauth::TokenResponse;
use warp_ai::time::{Span, Timestamp};
use warp_ai::tokens::{ChatGptTokens, GrokTokens};

const SEC: i128 = 1_000_000_000;

fn at(secs: i128) -> Timestamp {
    Timestamp { nanos: secs * SEC }
}

fn manager() -> ApiKeyManager {
    ApiKeyManager::new(ApiKeys::default(), None, None)
}

fn saved(entry: StorageEntry) -> Effects {
    Effects { event: Some(ApiKeyManagerEvent::KeysUpdated), persist: Some(entry) }
}

fn announced() -> Effects {
    Effects { event: Some(ApiKeyManagerEvent::KeysUpdated), persist: None }
}

fn nothing() -> Effects {
    Effects { event: None, persist: None }
}

fn params(url: &str, models: &[(&str, &str)]) -> CustomEndpointParams {
    CustomEndpointParams {
        name: "n".to_string(),
        url: url.to_string(),
        api_key: "key".to_string(),
        models: models
            .iter()
            .map(|(name, key)| (name.to_string(), None, Some(key.to_string())))
            .collect(),
        schema: CustomEndpointSchema::OpenaiChatCompletions,
        endpoint_kind: EndpointKind::Auto,
        provider_type: String::new(),
    }
}

fn grok(token: &str) -> GrokTokens {
    GrokTokens { access_token: token.to_string(), ..Default::default() }
}

fn chatgpt(token: &str, refresh: &str, expires_at: Option<Timestamp>) -> ChatGptTokens {
    ChatGptTokens {
        access_token: token.to_string(),
        refresh_token: Some(refresh.to_string()),
        expires_at,
        connected_at: Some(at(1)),
    }
}

fn response(token: &str, refresh: Option<&str>, expires_in: Option<i64>) -> TokenResponse {
    TokenResponse {
        access_token: token.to_string(),
        refresh_token: refresh.map(str::to_string),
        expires_in,
    }
}

fn binding(user: &str) -> GeapMintBinding {
    GeapMintBinding {
        user: user.to_string(),
        audience: "a".to_string(),
        service_account: "s".to_string(),
    }
}

fn geap(token: Option<&str>) -> GeapCredentials {
    GeapCredentials { access_token: token.map(str::to_string) }
}

#[test]
fn keys_are_set_announced_and_saved() {
    let mut m = manager();
    assert!(!m.has_any_key());
    assert_eq!(m.set_google_key(Some("g".to_string())), saved(StorageEntry::Keys));
    assert_eq!(m.set_anthropic_key(Some("a".to_string())), saved(StorageEntry::Keys));
    assert_eq!(m.set_openai_key(Some("o".to_string())), saved(StorageEntry::Keys));
    assert_eq!(m.set_open_router_key(Some("r".to_string())), saved(StorageEntry::Keys));
    assert!(m.has_any_key());
    assert_eq!(m.keys().google.as_deref(), Some("g"));
    assert_eq!(m.keys().anthropic.as_deref(), Some("a"));
    assert_eq!(m.keys().openai.as_deref(), Some("o"));
    assert_eq!(m.keys().open_router.as_deref(), Some("r"));
    // Setting the same key again is a change all the same.
    assert_eq!(m.set_google_key(None), saved(StorageEntry::Keys));
    assert_eq!(m.set_google_key(None), saved(StorageEntry::Keys));
}

#[test]
fn unchanged_tokens_are_left_alone() {
    let mut m = manager();
    assert!(!m.has_grok_subscription());
    assert_eq!(m.set_grok_tokens(None), nothing());
    assert_eq!(m.set_grok_tokens(Some(grok("t"))), saved(StorageEntry::GrokTokens));
    assert_eq!(m.set_grok_tokens(Some(grok("t"))), nothing());
    assert!(m.has_grok_subscription() && m.has_any_key());
    assert_eq!(m.grok_tokens(), Some(&grok("t")));
    assert_eq!(m.set_grok_tokens(Some(grok("  "))), saved(StorageEntry::GrokTokens));
    assert!(!m.has_grok_subscription());
    assert_eq!(m.set_grok_tokens(None), saved(StorageEntry::GrokTokens));

    assert_eq!(m.set_chatgpt_tokens(Some(chatgpt("c", "r", None))), saved(StorageEntry::ChatGptTokens));
    assert_eq!(m.set_chatgpt_tokens(Some(chatgpt("c", "r", None))), nothing());
    assert!(m.has_chatgpt_subscription() && m.has_any_key());
    assert_eq!(m.chatgpt_tokens(), Some(&chatgpt("c", "r", None)));
    assert_eq!(m.set_chatgpt_tokens(None), saved(StorageEntry::ChatGptTokens));
    assert!(!m.has_chatgpt_subscription() && !m.has_any_key());
}

#[test]
fn custom_endpoints_are_edited_in_place() {
    let mut m = manager();
    assert_eq!(m.clear_custom_endpoints(), nothing());
    assert_eq!(m.add_custom_endpoint(params("https://a", &[("x", "kx")])), saved(StorageEntry::Keys));
    assert_eq!(m.add_custom_endpoint(params("https://b", &[("y", "")])), saved(StorageEntry::Keys));
    assert_eq!(m.keys().custom_endpoints[0].models[0].config_key, "kx");
    assert_eq!(m.keys().custom_endpoints[1].models[0].config_key.len(), 36);
    assert_eq!(m.save_custom_endpoint(2, params("https://c", &[])), nothing());
    assert_eq!(m.save_custom_endpoint(0, params("https://c", &[])), saved(StorageEntry::Keys));
    let urls = |m: &ApiKeyManager| -> Vec<String> {
        m.keys().custom_endpoints.iter().map(|e| e.url.clone()).collect()
    };
    assert_eq!(urls(&m), vec!["https://c", "https://b"]);
    assert_eq!(m.remove_custom_endpoint(5), nothing());
    assert_eq!(m.remove_custom_endpoint(0), saved(StorageEntry::Keys));
    assert_eq!(urls(&m), vec!["https://b"]);
    assert_eq!(m.clear_custom_endpoints(), saved(StorageEntry::Keys));
    assert!(m.keys().custom_endpoints.is_empty());
}

#[test]
fn stale_writes_are_skipped() {
    let mut m = manager();
    assert_eq!(m.write_version(StorageEntry::Keys), 0);
    let first = m.begin_write(StorageEntry::Keys);
    let second = m.begin_write(StorageEntry::Keys);
    let other = m.begin_write(StorageEntry::GrokTokens);
    assert_eq!(m.write_version(StorageEntry::Keys), 2);
    assert_eq!(m.commit_write(first, Some("old".to_string())), None);
    assert_eq!(
        m.commit_write(second, Some("new".to_string())),
        Some(StorageCommand::Write { key: "AiApiKeys", value: "new".to_string() })
    );
    assert_eq!(
        m.commit_write(other, None),
        Some(StorageCommand::Remove { key: "GrokOAuthTokens" })
    );
    let chatgpt = m.begin_write(StorageEntry::ChatGptTokens);
    assert_eq!(
        m.commit_write(chatgpt, None),
        Some(StorageCommand::Remove { key: "ChatGptOAuthTokens" })
    );
    assert!(!StorageError::NotFound.should_report());
    assert!(StorageError::Other("locked".to_string()).should_report());
    assert!(StorageEntry::Keys.reports_failed_write(&StorageError::NotFound));
    assert!(!StorageEntry::GrokTokens.reports_failed_write(&StorageError::NotFound));
    let locked = StorageError::Other("locked".to_string());
    assert!(StorageEntry::ChatGptTokens.reports_failed_write(&locked));
}

#[test]
fn credential_states_are_announced() {
    let mut m = manager();
    assert_eq!(m.aws_credentials_state(), &AwsCredentialsState::Missing);
    assert_eq!(m.set_aws_credentials_state(AwsCredentialsState::Missing), announced());
    assert_eq!(m.geap_credentials_state(), &GeapCredentialsState::Missing);
    assert_eq!(m.set_geap_credentials_state(GeapCredentialsState::Missing), nothing());
    let failed = || GeapCredentialsState::Failed { message: "no".to_string() };
    assert_eq!(m.set_geap_credentials_state(failed()), announced());
    assert_eq!(m.set_geap_credentials_state(failed()), nothing());
    assert_eq!(m.geap_credentials_state(), &failed());
    assert_eq!(m.aws_credentials_refresh_strategy(), AwsCredentialsRefreshStrategy::LocalChain);
    let managed = || AwsCredentialsRefreshStrategy::OidcManaged {
        task_id: None,
        role_arn: "r".to_string(),
        region: "us".to_string(),
    };
    m.set_aws_credentials_refresh_strategy(managed());
    assert_eq!(m.aws_credentials_refresh_strategy(), managed());
}

#[test]
fn providers_are_registered_for_a_request() {
    let mut m = manager();
    assert!(m.custom_model_providers_for_request(true).is_none());
    m.add_custom_endpoint(params("http://localhost:1", &[("local", "k1")]));
    m.add_custom_endpoint(params("  ", &[("blank", "k2")]));
    m.add_custom_endpoint(params("https://none", &[(" ", "k3")]));
    assert!(m.custom_model_providers_for_request(true).is_none());
    m.add_custom_endpoint(params(" https://ok ", &[("a", "k4"), ("", "k5"), ("b", "k6")]));
    m.add_custom_endpoint(params("https://chatgpt.com/backend-api/codex", &[("gpt", "k7")]));
    m.add_custom_endpoint(params("ftp://odd", &[("odd", "k8")]));

    let providers = m.custom_model_providers_for_request(true).unwrap();
    let urls: Vec<&str> = providers.iter().map(|p| p.base_url.as_str()).collect();
    assert_eq!(urls, vec![" https://ok ", "https://chatgpt.com/backend-api/codex", "ftp://odd"]);
    let slugs: Vec<(&str, &str)> = providers[0]
        .models
        .iter()
        .map(|m| (m.slug.as_str(), m.config_key.as_str()))
        .collect();
    assert_eq!(slugs, vec![("a", "k4"), ("b", "k6")]);
    assert_eq!(providers[1].api_key, "key");

    // Without custom models the ChatGPT subscription is still sent, with its access token.
    m.set_chatgpt_tokens(Some(chatgpt("access", "r", None)));
    let providers = m.custom_model_providers_for_request(false).unwrap();
    assert_eq!(providers.len(), 1);
    assert_eq!(providers[0].api_key, "access");
    assert_eq!(m.custom_model_providers_for_request(true).unwrap()[0].api_key, "key");

    assert!(m.is_chatgpt_subscription_model("k7"));
    assert!(!m.is_chatgpt_subscription_model("k4"));
    assert!(m.is_direct_custom_model("k1"));
    assert!(m.is_direct_custom_model("k7"));
    assert!(!m.is_direct_custom_model("k4"));
    assert!(!m.is_direct_custom_model("unknown"));
}

#[test]
fn direct_models_are_those_of_direct_endpoints() {
    let cases = [
        ("http://192.168.1.5:8080/v1", true),
        ("http://10.0.0.7:8080/v1", true),
        (" http://localhost:8080/v1 ", true),
        ("https://opencode.ai/zen/v1", true),
        ("https://opencode.ai/zen/", false),
        ("https://chatgpt.com/backend-api/codex", true),
        ("https://chatgpt.com/backend-api/codexx", false),
        ("https://example.com/v1", false),
    ];
    for (url, direct) in cases {
        let mut m = manager();
        m.add_custom_endpoint(params(url, &[("model", "key")]));
        assert_eq!(m.is_direct_custom_model("key"), direct, "{url}");
        assert_eq!(is_direct_endpoint(url.trim()), direct, "{url}");
    }
}

#[test]
fn of_many_writes_the_last_is_committed() {
    for entry in [StorageEntry::Keys, StorageEntry::GrokTokens, StorageEntry::ChatGptTokens] {
        let mut m = manager();
        let tickets: Vec<_> = (0..5).map(|_| m.begin_write(entry)).collect();
        let committed: Vec<bool> = tickets
            .into_iter()
            .map(|ticket| m.commit_write(ticket, Some("value".to_string())).is_some())
            .collect();
        assert_eq!(committed, vec![false, false, false, false, true]);
    }
}

#[test]
fn request_keys_respect_their_gates() {
    let mut m = manager();
    assert!(m.api_keys_for_request(true, true, None).is_none());
    m.set_openai_key(Some("o".to_string()));
    m.set_grok_tokens(Some(grok("g")));
    assert!(m.api_keys_for_request(false, true, None).is_none());
    let sent = m.api_keys_for_request(true, false, None).unwrap();
    assert_eq!(sent.openai, "o");
    assert_eq!(sent.anthropic, "");
    assert_eq!(sent.grok_oauth_access_token, "g");
    assert!(!sent.allow_use_of_warp_credits);

    let credentials = AwsCredentials {
        access_key_id: "id".to_string(),
        secret_access_key: "s".to_string(),
        session_token: None,
    };
    m.set_aws_credentials_state(AwsCredentialsState::Loaded { credentials: credentials.clone() });
    assert!(m.api_keys_for_request(false, false, None).is_none());
    let sent = m.api_keys_for_request(false, true, None).unwrap();
    assert_eq!(sent.aws_credentials, Some(credentials.clone()));
    assert_eq!(sent.openai, "");
    m.set_aws_credentials_refresh_strategy(AwsCredentialsRefreshStrategy::OidcManaged {
        task_id: Some("t".to_string()),
        role_arn: "r".to_string(),
        region: "us".to_string(),
    });
    let sent = m.api_keys_for_request(false, false, None).unwrap();
    assert_eq!(sent.aws_credentials, Some(credentials));
    m.set_aws_credentials_state(AwsCredentialsState::Refreshing);
    assert!(m.api_keys_for_request(false, true, None).is_none());
}

#[test]
fn geap_tokens_go_to_their_binding_alone() {
    let mut m = manager();
    let sent = |m: &ApiKeyManager, user: &str| {
        m.api_keys_for_request(false, false, Some(binding(user)))
            .and_then(|keys| keys.google_cloud_credentials)
    };
    m.set_geap_credentials_state(GeapCredentialsState::Loaded {
        credentials: geap(Some("t")),
        minted_for: binding("u"),
    });
    assert_eq!(sent(&m, "u"), Some(geap(Some("t"))));
    assert_eq!(sent(&m, "v"), None);
    assert!(m.api_keys_for_request(false, false, None).is_none());
    m.set_geap_credentials_state(GeapCredentialsState::Refreshing {
        previous: Some((geap(Some("p")), binding("u"))),
    });
    assert_eq!(sent(&m, "u"), Some(geap(Some("p"))));
    assert_eq!(sent(&m, "v"), None);
    m.set_geap_credentials_state(GeapCredentialsState::Refreshing { previous: None });
    assert_eq!(sent(&m, "u"), None);
    m.set_geap_credentials_state(GeapCredentialsState::Loaded {
        credentials: geap(None),
        minted_for: binding("u"),
    });
    assert_eq!(sent(&m, "u"), None);
}

#[test]
fn refreshes_run_one_at_a_time() {
    let mut m = manager();
    let update = m.store_chatgpt_tokens_at(response("a", Some("r1"), Some(1000)), at(100));
    assert_eq!(update.effects, saved(StorageEntry::ChatGptTokens));
    assert_eq!(update.refresh, None);
    assert!(!m.start_chatgpt_refresh("r1"));

    let plan = m.set_chatgpt_refresh_allowed_at(true, at(100)).unwrap();
    assert_eq!(plan.delay, Span::from_secs(700));
    assert_eq!(plan.refresh_token, "r1");
    assert_eq!(m.set_chatgpt_refresh_allowed_at(true, at(100)), None);
    assert!(!m.start_chatgpt_refresh("replaced"));
    assert!(m.start_chatgpt_refresh("r1"));
    assert!(!m.start_chatgpt_refresh("r1"));

    let failed = m.finish_chatgpt_refresh_at(None, at(200));
    assert_eq!(failed.effects, nothing());
    assert_eq!(failed.refresh, None);
    assert_eq!(m.chatgpt_tokens().unwrap().access_token, "a");
    assert!(m.start_chatgpt_refresh("r1"));
    let update = m.finish_chatgpt_refresh_at(Some(response("b", None, Some(400))), at(200));
    assert_eq!(update.effects, saved(StorageEntry::ChatGptTokens));
    assert_eq!(update.refresh.unwrap().delay, Span::from_secs(100));
    let tokens = m.chatgpt_tokens().unwrap();
    assert_eq!(tokens.access_token, "b");
    assert_eq!(tokens.refresh_token.as_deref(), Some("r1"));
    assert_eq!(tokens.connected_at, Some(at(100)));
    assert_eq!(m.set_chatgpt_refresh_allowed_at(false, at(100)), None);
    assert!(!m.start_chatgpt_refresh("r1"));
}

#[test]
fn the_clock_dates_stored_tokens() {
    let mut m = manager();
    assert_eq!(m.set_chatgpt_refresh_allowed(true), None);
    let update = m.store_chatgpt_tokens(response("a", Some("r"), Some(3600)));
    let plan = update.refresh.unwrap();
    assert_eq!(plan.delay, Span::from_secs(3300));
    assert!(m.start_chatgpt_refresh("r"));
    let update = m.finish_chatgpt_refresh(Some(response("b", None, Some(10))));
    assert_eq!(update.refresh.unwrap().delay, Span::from_secs(0));
    assert!(!m.chatgpt_tokens().unwrap().is_expired());
}
