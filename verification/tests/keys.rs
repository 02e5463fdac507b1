use warp_ai::endpoint::{CustomEndpointSchema, EndpointKind};
use warp_ai::keys::{
    build_endpoint, config_key_or, ApiKeys, CustomEndpoint, CustomEndpointModel,
    CustomEndpointParams,
};

fn model(name: &str, alias: Option<&str>) -> CustomEndpointModel {
    CustomEndpointModel {
        name: name.to_string(),
        alias: alias.map(str::to_string),
        config_key: "k".to_string(),
    }
}

fn is_uuid_v4(s: &str) -> bool {
    let bytes = s.as_bytes();
    bytes.len() == 36
        && bytes.iter().enumerate().all(|(i, b)| {
            if [8, 13, 18, 23].contains(&i) {
                *b == b'-'
            } else {
                b.is_ascii_digit() || (b'a'..=b'f').contains(b)
            }
        })
        && bytes[14] == b'4'
        && [b'8', b'9', b'a', b'b'].contains(&bytes[19])
}

#[test]
fn labels_prefer_the_alias() {
    assert_eq!(model("gpt", Some("My GPT")).display_label(), "My GPT");
    assert_eq!(model("gpt", Some("  \u{3000}")).display_label(), "gpt");
    assert_eq!(model("gpt", Some("")).display_label(), "gpt");
    assert_eq!(model("gpt", None).display_label(), "gpt");
    assert_eq!(model("gpt", Some(" x ")).display_label(), " x ");
}

#[test]
fn keys_are_counted() {
    let mut keys = ApiKeys::default();
    assert!(!keys.has_any_key());
    assert_eq!(keys.provider_key_count(), 0);
    keys.google = Some("  ".to_string());
    // A blank key is there, but it does not count.
    assert!(keys.has_any_key());
    assert_eq!(keys.provider_key_count(), 0);
    keys.openai = Some("sk".to_string());
    keys.anthropic = Some("a".to_string());
    keys.open_router = Some("r".to_string());
    assert_eq!(keys.provider_key_count(), 3);
}

#[test]
fn a_custom_endpoint_key_is_a_key() {
    let mut keys = ApiKeys::default();
    keys.custom_endpoints.push(CustomEndpoint::default());
    assert!(!keys.has_any_key());
    keys.custom_endpoints.push(CustomEndpoint { api_key: "k".to_string(), ..Default::default() });
    assert!(keys.has_any_key());
    assert_eq!(keys.provider_key_count(), 0);
}

#[test]
fn entered_endpoints_get_config_keys() {
    let endpoint = build_endpoint(CustomEndpointParams {
        name: "Local".to_string(),
        url: "http://localhost".to_string(),
        api_key: "secret".to_string(),
        models: vec![
            ("a".to_string(), Some("A".to_string()), Some("fixed".to_string())),
            ("b".to_string(), None, Some(String::new())),
            ("c".to_string(), None, None),
        ],
        schema: CustomEndpointSchema::OpenaiResponses,
        endpoint_kind: EndpointKind::Local,
        provider_type: "openai".to_string(),
    });
    assert_eq!(endpoint.name, "Local");
    assert_eq!(endpoint.url, "http://localhost");
    assert_eq!(endpoint.api_key, "secret");
    assert_eq!(endpoint.schema, CustomEndpointSchema::OpenaiResponses);
    assert_eq!(endpoint.endpoint_kind, EndpointKind::Local);
    assert_eq!(endpoint.provider_type, "openai");
    assert_eq!(endpoint.models[0].name, "a");
    assert_eq!(endpoint.models[0].alias.as_deref(), Some("A"));
    assert_eq!(endpoint.models[0].config_key, "fixed");
    assert!(is_uuid_v4(&endpoint.models[1].config_key));
    assert!(is_uuid_v4(&endpoint.models[2].config_key));
    assert_ne!(endpoint.models[1].config_key, endpoint.models[2].config_key);
    assert!(endpoint.has_model("fixed"));
    assert!(!endpoint.has_model("a"));
}

#[test]
fn an_entered_config_key_stays() {
    assert_eq!(config_key_or(Some("k".to_string()), "fresh".to_string()), "k");
    assert_eq!(config_key_or(Some(String::new()), "fresh".to_string()), "fresh");
    assert_eq!(config_key_or(None, "fresh".to_string()), "fresh");
}
