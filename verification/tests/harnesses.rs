use warp_ai::availability::{
    remove_deleted_auth_secret_entry, AuthSecretEntry, AuthSecretFetchState,
    HarnessAvailabilityEvent, HarnessAvailabilityModel, ManagedSecret, OutsideEvent, SecretOwner,
    Space, SpaceType,
};
use warp_ai::harness::{
    agy_models, claude_known_models, codex_known_models, default_harnesses,
    harness_to_graphql_harness, inject_local_harnesses, join_words, make_display_name,
    models_in_listing, same_harnesses, word_from, AgentHarness, Harness, HarnessAvailability,
    HarnessModelInfo, ProductName,
};
use warp_ai::time::Span;

fn product() -> ProductName {
    ProductName { id: "poet".to_string(), name: "Poet".to_string() }
}

fn model(id: &str, name: &str) -> HarnessModelInfo {
    HarnessModelInfo {
        id: id.to_string(),
        display_name: name.to_string(),
        reasoning_level: None,
    }
}

fn entry(harness: Harness, enabled: bool, models: Vec<HarnessModelInfo>) -> HarnessAvailability {
    HarnessAvailability {
        harness,
        display_name: format!("{harness:?} of the server"),
        enabled,
        available_models: models,
    }
}

fn secret(name: &str, team: Option<&str>) -> ManagedSecret {
    ManagedSecret {
        name: name.to_string(),
        owner: match team {
            Some(uid) => Space { type_: SpaceType::Team, uid: uid.to_string() },
            None => Space { type_: SpaceType::User, uid: "ignored".to_string() },
        },
    }
}

fn owned(name: &str, team: Option<&str>) -> AuthSecretEntry {
    AuthSecretEntry { name: name.to_string(), owner: owner(team) }
}

fn owner(team: Option<&str>) -> SecretOwner {
    match team {
        Some(uid) => SecretOwner::Team { team_uid: uid.to_string() },
        None => SecretOwner::CurrentUser,
    }
}

#[test]
fn model_ids_become_names() {
    assert_eq!(make_display_name("poet-sonnet-4-6"), "Poet Sonnet 4.6");
    assert_eq!(make_display_name("gpt-4o-mini"), "Gpt 4o Mini");
    assert_eq!(make_display_name("gemini-2.5-pro"), "Gemini 2.5 Pro");
    assert_eq!(make_display_name("a--b"), "A  B");
    assert_eq!(make_display_name("1-2-3-x-4"), "1.2.3 X 4");
    assert_eq!(make_display_name("éclair-ßa"), "Éclair SSa");
    assert_eq!(make_display_name(""), "");
    let words = |list: &[&str]| join_words(&list.iter().map(|w| w.to_string()).collect());
    assert_eq!(words(&["V", "4", "6"]), "V 4.6");
    assert_eq!(words(&[]), "");
    assert_eq!(word_from("abc", true, "X"), "Xbc");
    assert_eq!(word_from("abc", false, "X"), "abc");
    assert_eq!(word_from("", true, "X"), "");
}

#[test]
fn model_lists_have_one_model_per_line() {
    let models = models_in_listing("  gpt-5 \n\n\r\n \t\no3\r\n");
    assert_eq!(models, vec![model("gpt-5", "Gpt 5"), model("o3", "O3")]);
    assert!(models_in_listing("").is_empty());
    assert_eq!(agy_models(true, b"a\xff-1\n"), vec![model("a\u{fffd}-1", "A\u{fffd} 1")]);
    assert!(agy_models(false, b"a\n").is_empty());
}

#[test]
fn known_models_are_listed() {
    assert_eq!(
        codex_known_models(),
        vec![
            model("o3", "o3"),
            model("o4-mini", "o4-mini"),
            model("codex-mini-latest", "Codex Mini"),
            model("gpt-4o", "GPT-4o"),
        ]
    );
    assert_eq!(
        claude_known_models(&product()),
        vec![
            model("poet-opus-4-5", "Poet Opus 4.5"),
            model("poet-sonnet-4-5", "Poet Sonnet 4.5"),
            model("poet-haiku-4-5", "Poet Haiku 4.5"),
            model("poet-opus-4", "Poet Opus 4"),
            model("poet-sonnet-4", "Poet Sonnet 4"),
            model("poet-haiku-4", "Poet Haiku 4"),
            model("fable", "Poet Fable (latest)"),
            model("opus", "Poet Opus (latest)"),
            model("sonnet", "Poet Sonnet (latest)"),
        ]
    );
}

#[test]
fn the_server_knows_some_harnesses() {
    assert_eq!(harness_to_graphql_harness(Harness::Oz), Some(AgentHarness::Oz));
    assert_eq!(harness_to_graphql_harness(Harness::Claude), Some(AgentHarness::ClaudeCode));
    assert_eq!(harness_to_graphql_harness(Harness::Gemini), Some(AgentHarness::Gemini));
    assert_eq!(harness_to_graphql_harness(Harness::Codex), Some(AgentHarness::Codex));
    for harness in [Harness::OpenCode, Harness::Agy, Harness::Unknown] {
        assert_eq!(harness_to_graphql_harness(harness), None);
    }
}

#[test]
fn local_harnesses_are_injected() {
    let mut list = vec![
        entry(Harness::Oz, true, vec![]),
        entry(Harness::Codex, false, vec![]),
        entry(Harness::Claude, true, vec![model("own", "Own")]),
        entry(Harness::Codex, true, vec![]),
    ];
    inject_local_harnesses(&mut list, vec![model("agy-1", "Agy 1")], &product());
    assert_eq!(list.len(), 5);
    assert_eq!(list[0], entry(Harness::Oz, true, vec![]));
    assert_eq!(list[1], entry(Harness::Codex, false, codex_known_models()));
    assert_eq!(list[2], entry(Harness::Claude, true, vec![model("own", "Own")]));
    assert_eq!(list[3], entry(Harness::Codex, true, vec![]));
    assert_eq!(list[4].harness, Harness::Agy);
    assert_eq!(list[4].display_name, "Agy");
    assert!(list[4].enabled);
    assert_eq!(list[4].available_models, vec![model("agy-1", "Agy 1")]);

    let mut again = vec![];
    inject_local_harnesses(&mut again, vec![], &product());
    let names: Vec<&str> = again.iter().map(|h| h.display_name.as_str()).collect();
    assert_eq!(names, vec!["Agy", "Codex (ChatGPT)", "Poet Code"]);
    let mut twice = vec![];
    inject_local_harnesses(&mut twice, vec![], &product());
    inject_local_harnesses(&mut twice, vec![], &product());
    assert!(same_harnesses(&again, &twice));
    twice[2].available_models[0].reasoning_level = Some("high".to_string());
    assert!(!same_harnesses(&again, &twice));
}

#[test]
fn a_model_starts_with_the_cache_or_the_default() {
    let m = HarnessAvailabilityModel::new(None);
    assert_eq!(m.available_harnesses(), default_harnesses().as_slice());
    assert_eq!(m.display_name_for(Harness::Oz, "general"), "Warp");
    assert_eq!(m.display_name_for(Harness::Codex, "general"), "general");
    assert!(m.has_any_enabled_harness());
    assert!(!m.should_show_harness_selector(true));
    let m = HarnessAvailabilityModel::new(Some(vec![
        entry(Harness::Oz, false, vec![]),
        entry(Harness::Gemini, false, vec![model("g", "G")]),
    ]));
    assert!(!m.has_any_enabled_harness());
    assert!(!m.is_harness_enabled(Harness::Oz));
    assert!(m.should_show_harness_selector(true));
    assert!(!m.should_show_harness_selector(false));
    assert_eq!(m.models_for(Harness::Oz), None);
    assert_eq!(m.models_for(Harness::Gemini), Some([model("g", "G")].as_slice()));
    assert_eq!(m.models_for(Harness::Agy), None);
    assert!(!HarnessAvailabilityModel::new(Some(vec![])).has_any_enabled_harness());
}

#[test]
fn secrets_are_fetched_once() {
    let mut m = HarnessAvailabilityModel::new(None);
    assert_eq!(m.auth_secrets_for(Harness::Claude), &AuthSecretFetchState::NotFetched);
    assert_eq!(m.ensure_auth_secrets_fetched(Harness::Claude, false), None);
    assert_eq!(m.ensure_auth_secrets_fetched(Harness::Agy, true), None);
    assert_eq!(
        m.ensure_auth_secrets_fetched(Harness::Claude, true),
        Some(AgentHarness::ClaudeCode)
    );
    assert_eq!(m.auth_secrets_for(Harness::Claude), &AuthSecretFetchState::Loading);
    assert_eq!(m.ensure_auth_secrets_fetched(Harness::Claude, true), None);
    assert_eq!(
        m.auth_secrets_fetched(Harness::Claude, vec![secret("a", Some("t")), secret("b", None)]),
        HarnessAvailabilityEvent::AuthSecretsLoaded
    );
    assert_eq!(
        m.auth_secrets_for(Harness::Claude),
        &AuthSecretFetchState::Loaded(vec![owned("a", Some("t")), owned("b", None)])
    );
    assert_eq!(m.ensure_auth_secrets_fetched(Harness::Claude, true), None);
    m.invalidate_auth_secrets(Harness::Claude);
    assert_eq!(m.auth_secrets_for(Harness::Claude), &AuthSecretFetchState::NotFetched);
}

#[test]
fn failed_fetches_cool_down() {
    let mut m = HarnessAvailabilityModel::new(None);
    let at = Span::from_secs;
    assert_eq!(
        m.auth_secrets_fetch_failed_at(Harness::Oz, "down".to_string(), at(100)),
        HarnessAvailabilityEvent::AuthSecretsFetchFailed
    );
    assert_eq!(m.auth_secrets_for(Harness::Oz), &AuthSecretFetchState::Failed("down".to_string()));
    assert_eq!(m.ensure_auth_secrets_fetched_at(Harness::Oz, true, at(99)), None);
    assert_eq!(m.ensure_auth_secrets_fetched_at(Harness::Oz, true, at(159)), None);
    assert_eq!(
        m.ensure_auth_secrets_fetched_at(Harness::Codex, true, at(101)),
        Some(AgentHarness::Codex)
    );
    assert_eq!(
        m.ensure_auth_secrets_fetched_at(Harness::Oz, true, at(160)),
        Some(AgentHarness::Oz)
    );
    // By the clock, hardly any time passes between two calls.
    m.auth_secrets_fetch_failed(Harness::Oz, "down".to_string());
    assert_eq!(m.ensure_auth_secrets_fetched(Harness::Oz, true), None);
    m.invalidate_auth_secrets(Harness::Oz);
    assert_eq!(m.ensure_auth_secrets_fetched(Harness::Oz, true), Some(AgentHarness::Oz));
}

#[test]
fn secrets_are_created_and_deleted() {
    let mut m = HarnessAvailabilityModel::new(None);
    assert_eq!(
        m.create_auth_secret(Harness::Oz, Err("no".to_string())),
        HarnessAvailabilityEvent::AuthSecretCreationFailed { error: "no".to_string() }
    );
    assert_eq!(m.auth_secrets_for(Harness::Oz), &AuthSecretFetchState::NotFetched);
    for (name, team) in [("a", None), ("b", Some("t")), ("a", Some("t"))] {
        assert_eq!(
            m.create_auth_secret(Harness::Oz, Ok(secret(name, team))),
            HarnessAvailabilityEvent::AuthSecretCreated {
                harness: Harness::Oz,
                name: name.to_string(),
            }
        );
    }
    assert_eq!(
        m.delete_auth_secret(Harness::Oz, "a".to_string(), owner(Some("t")), Err("no".to_string())),
        HarnessAvailabilityEvent::AuthSecretDeletionFailed {
            harness: Harness::Oz,
            name: "a".to_string(),
            owner: owner(Some("t")),
            error: "no".to_string(),
        }
    );
    assert_eq!(
        m.delete_auth_secret(Harness::Oz, "a".to_string(), owner(Some("t")), Ok(())),
        HarnessAvailabilityEvent::AuthSecretDeleted {
            harness: Harness::Oz,
            name: "a".to_string(),
            owner: owner(Some("t")),
        }
    );
    assert_eq!(
        m.auth_secrets_for(Harness::Oz),
        &AuthSecretFetchState::Loaded(vec![owned("a", None), owned("b", Some("t"))])
    );
    // Nothing is loaded for another harness, so there is nothing to drop.
    m.delete_auth_secret(Harness::Codex, "a".to_string(), owner(None), Ok(()));
    assert_eq!(m.auth_secrets_for(Harness::Codex), &AuthSecretFetchState::NotFetched);
    m.ensure_auth_secrets_fetched(Harness::Codex, true);
    m.delete_auth_secret(Harness::Codex, "a".to_string(), owner(None), Ok(()));
    assert_eq!(m.auth_secrets_for(Harness::Codex), &AuthSecretFetchState::Loading);

    let mut entries = vec![owned("a", None), owned("b", None), owned("a", None)];
    remove_deleted_auth_secret_entry(&mut entries, "a", &owner(None));
    assert_eq!(entries, vec![owned("b", None)]);
}

#[test]
fn a_refresh_reports_changes() {
    let mut m = HarnessAvailabilityModel::new(None);
    m.ensure_auth_secrets_fetched(Harness::Oz, true);
    let listed = || vec![entry(Harness::Oz, true, vec![])];
    assert_eq!(
        m.refresh(listed(), vec![], &product()),
        Some(HarnessAvailabilityEvent::Changed)
    );
    let known: Vec<Harness> = m.available_harnesses().iter().map(|h| h.harness).collect();
    assert_eq!(known, vec![Harness::Oz, Harness::Agy, Harness::Codex, Harness::Claude]);
    assert_eq!(m.auth_secrets_for(Harness::Oz), &AuthSecretFetchState::NotFetched);
    m.ensure_auth_secrets_fetched(Harness::Oz, true);
    assert_eq!(m.refresh(listed(), vec![], &product()), None);
    assert_eq!(m.auth_secrets_for(Harness::Oz), &AuthSecretFetchState::Loading);
}

#[test]
fn a_login_forgets_secrets() {
    let mut m = HarnessAvailabilityModel::new(None);
    m.ensure_auth_secrets_fetched(Harness::Oz, true);
    assert!(m.on_outside_event(OutsideEvent::NetworkOnline, true));
    assert!(!m.on_outside_event(OutsideEvent::TeamsChanged, false));
    assert_eq!(m.auth_secrets_for(Harness::Oz), &AuthSecretFetchState::Loading);
    assert!(m.on_outside_event(OutsideEvent::AuthComplete, true));
    assert_eq!(m.auth_secrets_for(Harness::Oz), &AuthSecretFetchState::NotFetched);
}
