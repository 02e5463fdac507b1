//! What of the stored keys and credentials goes out with a request.
use crate::credentials::{
    AwsCredentials, AwsCredentialsRefreshStrategy, AwsCredentialsState, GeapCredentials,
    GeapCredentialsState, GeapMintBinding,
};
use crate::endpoint::CustomEndpointSchema;
use crate::keys::{ApiKeys, CustomEndpoint, CustomEndpointModel};
use crate::oauth::is_chatgpt_subscription_base;
use crate::text::{is_blank, starts_with, trim};
use crate::tokens::GrokTokens;
use vstd::prelude::*;

verus! {

/// A model that a request registers.
#[derive(Debug, Clone, PartialEq, Eq)]
pub struct CustomModel {
    pub slug: String,
    pub config_key: String,
}

/// An endpoint that a request registers, with its models.
#[derive(Debug, Clone, PartialEq, Eq)]
pub struct CustomModelProvider {
    pub base_url: String,
    pub api_key: String,
    pub schema: CustomEndpointSchema,
    pub models: Vec<CustomModel>,
}

pub ghost struct CustomModelView {
    pub slug: Seq<char>,
    pub config_key: Seq<char>,
}

pub ghost struct ProviderView {
    pub base_url: Seq<char>,
    pub api_key: Seq<char>,
    pub schema: CustomEndpointSchema,
    pub models: Seq<CustomModelView>,
}

impl View for CustomModel {
    type V = CustomModelView;

    open spec fn view(&self) -> CustomModelView {
        CustomModelView { slug: self.slug@, config_key: self.config_key@ }
    }
}

pub open spec fn custom_models(models: Seq<CustomModel>) -> Seq<CustomModelView> {
    models.map_values(|model: CustomModel| model@)
}

impl View for CustomModelProvider {
    type V = ProviderView;

    open spec fn view(&self) -> ProviderView {
        ProviderView {
            base_url: self.base_url@,
            api_key: self.api_key@,
            schema: self.schema,
            models: custom_models(self.models@),
        }
    }
}

pub open spec fn provider_views(providers: Seq<CustomModelProvider>) -> Seq<ProviderView> {
    providers.map_values(|provider: CustomModelProvider| provider@)
}

/// How a stored model is registered: not at all without a name or a config key.
pub open spec fn registered_model(model: crate::keys::ModelView) -> Option<CustomModelView> {
    if !crate::text::blank(model.name) && model.config_key.len() > 0 {
        Some(CustomModelView { slug: model.name, config_key: model.config_key })
    } else {
        None
    }
}

/// How the models of an endpoint are registered.
pub open spec fn registered_models(models: Seq<crate::keys::ModelView>) -> Seq<CustomModelView> {
    models.filter_map(|model: crate::keys::ModelView| registered_model(model))
}

/// `url` may go to the server, which rejects plain HTTP.
pub open spec fn sendable_url(url: Seq<char>) -> bool {
    let trimmed = crate::text::trimmed(url);
    "https://"@.is_prefix_of(trimmed) || !"http://"@.is_prefix_of(trimmed)
}

/// How an endpoint is registered, if it is.
///
/// The ChatGPT subscription is a first-party integration: it does not depend on custom models
/// being included, and its access token takes the place of the stored key.
pub open spec fn registered_endpoint(
    endpoint: crate::keys::EndpointView,
    subscription: bool,
    include_custom_models: bool,
    access_token: Option<Seq<char>>,
) -> Option<ProviderView> {
    let models = registered_models(endpoint.models);
    if (include_custom_models || subscription) && !crate::text::blank(endpoint.url)
        && endpoint.api_key.len() > 0 && sendable_url(endpoint.url) && models.len() > 0 {
        Some(
            ProviderView {
                base_url: endpoint.url,
                api_key: match access_token {
                    Some(token) => if subscription {
                        token
                    } else {
                        endpoint.api_key
                    },
                    None => endpoint.api_key,
                },
                schema: endpoint.schema,
                models,
            },
        )
    } else {
        None
    }
}

/// How the stored endpoints are registered, in their order.
pub open spec fn registered_endpoints(
    endpoints: Seq<crate::keys::EndpointView>,
    include_custom_models: bool,
    access_token: Option<Seq<char>>,
) -> Seq<ProviderView> {
    endpoints.filter_map(
        |endpoint: crate::keys::EndpointView|
            registered_endpoint(
                endpoint,
                crate::oauth::chatgpt_subscription_base(endpoint.url),
                include_custom_models,
                access_token,
            ),
    )
}

fn register_models(models: &Vec<CustomEndpointModel>) -> (res: Vec<CustomModel>)
    ensures
        custom_models(res@) == registered_models(crate::keys::model_views(models@)),
{
    let mut registered: Vec<CustomModel> = Vec::new();
    let ghost all = crate::keys::model_views(models@);
    let ghost pick = |model: crate::keys::ModelView| registered_model(model);
    let n: usize = models.len();
    let mut i: usize = 0;
    assert(custom_models(registered@) =~= all.take(0).filter_map(pick));
    while i < n
        invariant
            i <= n == models@.len(),
            all == crate::keys::model_views(models@),
            pick == (|model: crate::keys::ModelView| registered_model(model)),
            custom_models(registered@) == all.take(i as int).filter_map(pick),
        decreases n - i,
    {
        proof {
            all.lemma_filter_map_take_succ(pick, i as int);
        }
        let model = &models[i];
        if !is_blank(model.name.as_str()) && !model.config_key.as_str().is_empty() {
            registered.push(
                CustomModel { slug: model.name.clone(), config_key: model.config_key.clone() },
            );
        }
        assert(custom_models(registered@) =~= all.take(i + 1).filter_map(pick));
        i += 1;
    }
    assert(all.take(n as int) =~= all);
    registered
}

/// Registers an endpoint, if it is to be registered.
pub fn register_endpoint(
    endpoint: &CustomEndpoint,
    subscription: bool,
    include_custom_models: bool,
    access_token: Option<&str>,
) -> (res: Option<CustomModelProvider>)
    ensures
        (match res {
            Some(provider) => Some(provider@),
            None => None,
        }) == registered_endpoint(
            endpoint@,
            subscription,
            include_custom_models,
            crate::json::seen_text(access_token),
        ),
{
    if !(include_custom_models || subscription) {
        return None;
    }
    if is_blank(endpoint.url.as_str()) || endpoint.api_key.as_str().is_empty() {
        return None;
    }
    // Only send HTTPS endpoints to the server — HTTP localhost endpoints
    // are called directly by the client (server rejects plain HTTP URLs).
    let url = trim(endpoint.url.as_str());
    if !(starts_with(url, "https://") || !starts_with(url, "http://")) {
        return None;
    }
    let models = register_models(&endpoint.models);
    assert(custom_models(models@).len() == models@.len());
    if models.len() == 0 {
        return None;
    }
    let api_key = match access_token {
        Some(token) => if subscription {
            token.to_owned()
        } else {
            endpoint.api_key.clone()
        },
        None => endpoint.api_key.clone(),
    };
    Some(
        CustomModelProvider {
            base_url: endpoint.url.clone(),
            api_key,
            schema: endpoint.schema,
            models,
        },
    )
}

/// Registers the stored endpoints: nothing when none of them is to be registered.
pub fn register_endpoints(
    endpoints: &Vec<CustomEndpoint>,
    include_custom_models: bool,
    access_token: Option<&str>,
) -> (res: Option<Vec<CustomModelProvider>>)
    ensures
        res is Some <==> registered_endpoints(
            crate::keys::endpoint_views(endpoints@),
            include_custom_models,
            crate::json::seen_text(access_token),
        ).len() > 0,
        res matches Some(providers) ==> provider_views(providers@) == registered_endpoints(
            crate::keys::endpoint_views(endpoints@),
            include_custom_models,
            crate::json::seen_text(access_token),
        ),
{
    let mut providers: Vec<CustomModelProvider> = Vec::new();
    let ghost all = crate::keys::endpoint_views(endpoints@);
    let ghost token = crate::json::seen_text(access_token);
    let ghost pick = |endpoint: crate::keys::EndpointView|
        registered_endpoint(
            endpoint,
            crate::oauth::chatgpt_subscription_base(endpoint.url),
            include_custom_models,
            token,
        );
    let n: usize = endpoints.len();
    let mut i: usize = 0;
    assert(provider_views(providers@) =~= all.take(0).filter_map(pick));
    while i < n
        invariant
            i <= n == endpoints@.len(),
            all == crate::keys::endpoint_views(endpoints@),
            token == crate::json::seen_text(access_token),
            pick == (|endpoint: crate::keys::EndpointView|
                registered_endpoint(
                    endpoint,
                    crate::oauth::chatgpt_subscription_base(endpoint.url),
                    include_custom_models,
                    token,
                )),
            provider_views(providers@) == all.take(i as int).filter_map(pick),
        decreases n - i,
    {
        proof {
            all.lemma_filter_map_take_succ(pick, i as int);
        }
        let endpoint = &endpoints[i];
        let subscription = is_chatgpt_subscription_base(endpoint.url.as_str());
        assert(all[i as int] == endpoint@);
        match register_endpoint(endpoint, subscription, include_custom_models, access_token) {
            Some(provider) => {
                providers.push(provider);
            },
            None => {},
        }
        assert(provider_views(providers@) =~= all.take(i + 1).filter_map(pick));
        i += 1;
    }
    assert(all.take(n as int) =~= all);
    assert(provider_views(providers@).len() == providers@.len());
    if providers.len() == 0 {
        None
    } else {
        Some(providers)
    }
}

/// The keys and credentials that a request carries; an empty text stands for a key that is not
/// sent.
#[derive(Debug, Clone, PartialEq, Eq)]
pub struct RequestApiKeys {
    pub anthropic: String,
    pub openai: String,
    pub google: String,
    pub open_router: String,
    pub grok_oauth_access_token: String,
    pub allow_use_of_warp_credits: bool,
    pub aws_credentials: Option<AwsCredentials>,
    pub google_cloud_credentials: Option<GeapCredentials>,
}

pub ghost struct RequestKeysView {
    pub anthropic: Seq<char>,
    pub openai: Seq<char>,
    pub google: Seq<char>,
    pub open_router: Seq<char>,
    pub grok_oauth_access_token: Seq<char>,
    pub allow_use_of_warp_credits: bool,
    pub aws_credentials: Option<crate::credentials::AwsCredentialsView>,
    pub google_cloud_credentials: Option<Option<Seq<char>>>,
}

impl View for RequestApiKeys {
    type V = RequestKeysView;

    open spec fn view(&self) -> RequestKeysView {
        RequestKeysView {
            anthropic: self.anthropic@,
            openai: self.openai@,
            google: self.google@,
            open_router: self.open_router@,
            grok_oauth_access_token: self.grok_oauth_access_token@,
            allow_use_of_warp_credits: self.allow_use_of_warp_credits,
            aws_credentials: match self.aws_credentials {
                Some(credentials) => Some(credentials@),
                None => None,
            },
            google_cloud_credentials: match self.google_cloud_credentials {
                Some(credentials) => Some(credentials@),
                None => None,
            },
        }
    }
}

/// `key` when keys of the user's own are included, else the empty text.
pub open spec fn included_key(include_byo_keys: bool, key: Option<Seq<char>>) -> Seq<char> {
    match key {
        Some(text) => if include_byo_keys {
            text
        } else {
            Seq::empty()
        },
        None => Seq::empty(),
    }
}

/// Everything that could go out with a request, included or not.
pub ghost struct StoredCredentials {
    pub keys: crate::keys::ApiKeysView,
    pub grok_tokens: Option<crate::tokens::TokensView>,
    pub aws_credentials: Option<crate::credentials::AwsCredentialsView>,
    pub aws_managed: bool,
    pub geap: crate::credentials::GeapStateView,
}

/// What is sent of the stored credentials.
///
/// The Grok access token is user-provided, so it respects the same gate as a pasted key. AWS
/// credentials go out when the caller asks for them or when they are managed via OIDC. The Gemini
/// Enterprise token goes out only for the binding that it was minted for.
pub open spec fn request_keys(
    stored: StoredCredentials,
    include_byo_keys: bool,
    include_aws_bedrock_credentials: bool,
    geap_binding: Option<crate::credentials::BindingView>,
) -> RequestKeysView {
    RequestKeysView {
        anthropic: included_key(include_byo_keys, stored.keys.anthropic),
        openai: included_key(include_byo_keys, stored.keys.openai),
        google: included_key(include_byo_keys, stored.keys.google),
        open_router: included_key(include_byo_keys, stored.keys.open_router),
        grok_oauth_access_token: included_key(
            include_byo_keys,
            match stored.grok_tokens {
                Some(tokens) => tokens.token_for_request(),
                None => None,
            },
        ),
        allow_use_of_warp_credits: false,
        aws_credentials: if include_aws_bedrock_credentials || stored.aws_managed {
            stored.aws_credentials
        } else {
            None
        },
        google_cloud_credentials: match geap_binding {
            Some(binding) => match stored.geap.token_for(binding) {
                Some(token) => Some(Some(token)),
                None => None,
            },
            None => None,
        },
    }
}

impl RequestKeysView {
    /// There is nothing to send.
    pub open spec fn is_empty(self) -> bool {
        &&& self.anthropic.len() == 0
        &&& self.openai.len() == 0
        &&& self.google.len() == 0
        &&& self.open_router.len() == 0
        &&& self.grok_oauth_access_token.len() == 0
        &&& self.aws_credentials is None
        &&& self.google_cloud_credentials is None
    }
}

fn include_key(include_byo_keys: bool, key: &Option<String>) -> (res: String)
    ensures
        res@ == included_key(include_byo_keys, crate::text::opt_text(*key)),
{
    match key {
        Some(text) => if include_byo_keys {
            text.clone()
        } else {
            String::new()
        },
        None => String::new(),
    }
}

pub open spec fn seen_grok(tokens: Option<&GrokTokens>) -> Option<crate::tokens::TokensView> {
    match tokens {
        Some(tokens) => Some(tokens@),
        None => None,
    }
}

/// Collects what goes out with a request: nothing when there is nothing to send.
pub fn collect_request_keys(
    keys: &ApiKeys,
    grok_tokens: Option<&GrokTokens>,
    aws_state: &AwsCredentialsState,
    aws_strategy: &AwsCredentialsRefreshStrategy,
    geap_state: &GeapCredentialsState,
    include_byo_keys: bool,
    include_aws_bedrock_credentials: bool,
    geap_binding: Option<&GeapMintBinding>,
) -> (res: Option<RequestApiKeys>)
    ensures
        ({
            let sent = request_keys(
                StoredCredentials {
                    keys: keys@,
                    grok_tokens: seen_grok(grok_tokens),
                    aws_credentials: aws_state.loaded(),
                    aws_managed: aws_strategy@ is OidcManaged,
                    geap: geap_state@,
                },
                include_byo_keys,
                include_aws_bedrock_credentials,
                match geap_binding {
                    Some(binding) => Some(binding@),
                    None => None,
                },
            );
            &&& res is None <==> sent.is_empty()
            &&& res matches Some(request) ==> request@ == sent
        }),
{
    let anthropic = include_key(include_byo_keys, &keys.anthropic);
    let openai = include_key(include_byo_keys, &keys.openai);
    let google = include_key(include_byo_keys, &keys.google);
    let open_router = include_key(include_byo_keys, &keys.open_router);
    let grok_oauth_access_token = match grok_tokens {
        Some(tokens) => match tokens.access_token_for_request() {
            Some(token) => if include_byo_keys {
                token.to_owned()
            } else {
                String::new()
            },
            None => String::new(),
        },
        None => String::new(),
    };
    let managed = match aws_strategy {
        AwsCredentialsRefreshStrategy::OidcManaged { .. } => true,
        AwsCredentialsRefreshStrategy::LocalChain => false,
    };
    let aws_credentials = if include_aws_bedrock_credentials || managed {
        match aws_state {
            AwsCredentialsState::Loaded { credentials } => Some(credentials.clone()),
            _ => None,
        }
    } else {
        None
    };
    let google_cloud_credentials = match geap_binding {
        Some(binding) => geap_state.credentials_for(binding),
        None => None,
    };
    if anthropic.as_str().is_empty() && openai.as_str().is_empty() && google.as_str().is_empty()
        && open_router.as_str().is_empty() && grok_oauth_access_token.as_str().is_empty()
        && aws_credentials.is_none() && google_cloud_credentials.is_none() {
        None
    } else {
        Some(
            RequestApiKeys {
                anthropic,
                openai,
                google,
                open_router,
                grok_oauth_access_token,
                allow_use_of_warp_credits: false,
                aws_credentials,
                google_cloud_credentials,
            },
        )
    }
}

/// What a request registers can be used: every provider has a URL that the server accepts, and at
/// least one model.
pub proof fn law_registered_endpoints_are_usable(
    endpoints: Seq<crate::keys::EndpointView>,
    include_custom_models: bool,
    access_token: Option<Seq<char>>,
    i: int,
)
    requires
        0 <= i < registered_endpoints(endpoints, include_custom_models, access_token).len(),
    ensures
        ({
            let provider = registered_endpoints(endpoints, include_custom_models, access_token)[i];
            &&& sendable_url(provider.base_url)
            &&& !crate::text::blank(provider.base_url)
            &&& provider.models.len() > 0
        }),
{
    let endpoint = lemma_registered_from(endpoints, include_custom_models, access_token, i);
}

/// While custom models are excluded, nothing but the ChatGPT subscription is registered.
pub proof fn law_excluded_endpoints_are_not_sent(
    endpoints: Seq<crate::keys::EndpointView>,
    access_token: Option<Seq<char>>,
    i: int,
)
    requires
        0 <= i < registered_endpoints(endpoints, false, access_token).len(),
    ensures
        crate::oauth::chatgpt_subscription_base(
            registered_endpoints(endpoints, false, access_token)[i].base_url,
        ),
{
    let endpoint = lemma_registered_from(endpoints, false, access_token, i);
}

/// The access token of the ChatGPT subscription goes to ChatGPT alone: any other provider gets the
/// key that is stored with it.
pub proof fn law_access_token_goes_to_chatgpt_alone(
    endpoints: Seq<crate::keys::EndpointView>,
    include_custom_models: bool,
    access_token: Option<Seq<char>>,
    i: int,
)
    requires
        0 <= i < registered_endpoints(endpoints, include_custom_models, access_token).len(),
        !crate::oauth::chatgpt_subscription_base(
            registered_endpoints(endpoints, include_custom_models, access_token)[i].base_url,
        ),
    ensures
        exists|j: int|
            0 <= j < endpoints.len() && (#[trigger] endpoints[j]).url == registered_endpoints(
                endpoints,
                include_custom_models,
                access_token,
            )[i].base_url && endpoints[j].api_key == registered_endpoints(
                endpoints,
                include_custom_models,
                access_token,
            )[i].api_key,
{
    let endpoint = lemma_registered_from(endpoints, include_custom_models, access_token, i);
    let j = choose|j: int| 0 <= j < endpoints.len() && endpoints[j] == endpoint;
    assert(endpoints[j].url == endpoint.url);
}

/// The stored endpoint that a registered provider comes from.
proof fn lemma_registered_from(
    endpoints: Seq<crate::keys::EndpointView>,
    include_custom_models: bool,
    access_token: Option<Seq<char>>,
    i: int,
) -> (endpoint: crate::keys::EndpointView)
    requires
        0 <= i < registered_endpoints(endpoints, include_custom_models, access_token).len(),
    ensures
        endpoints.contains(endpoint),
        registered_endpoint(
            endpoint,
            crate::oauth::chatgpt_subscription_base(endpoint.url),
            include_custom_models,
            access_token,
        ) == Some(registered_endpoints(endpoints, include_custom_models, access_token)[i]),
{
    let pick = |endpoint: crate::keys::EndpointView|
        registered_endpoint(
            endpoint,
            crate::oauth::chatgpt_subscription_base(endpoint.url),
            include_custom_models,
            access_token,
        );
    let provider = registered_endpoints(endpoints, include_custom_models, access_token)[i];
    assert(endpoints.filter_map(pick).contains(provider));
    endpoints.lemma_filter_map_contains(pick, provider);
    choose|endpoint: crate::keys::EndpointView| #[trigger]
        endpoints.contains(endpoint) && pick(endpoint) == Some(provider)
}

/// A model is registered under the config key under which it is stored.
pub proof fn law_config_keys_are_kept(models: Seq<crate::keys::ModelView>, i: int)
    requires
        0 <= i < registered_models(models).len(),
    ensures
        exists|j: int|
            0 <= j < models.len() && (#[trigger] models[j]).config_key == registered_models(
                models,
            )[i].config_key && models[j].name == registered_models(models)[i].slug,
{
    let pick = |model: crate::keys::ModelView| registered_model(model);
    let model = registered_models(models)[i];
    assert(models.filter_map(pick).contains(model));
    models.lemma_filter_map_contains(pick, model);
    let stored = choose|stored: crate::keys::ModelView| #[trigger]
        models.contains(stored) && pick(stored) == Some(model);
    let j = choose|j: int| 0 <= j < models.len() && models[j] == stored;
    assert(models[j].config_key == model.config_key);
}

/// While keys of the user's own are disabled, none is sent, and neither is the Grok access token.
pub proof fn law_disabled_keys_are_not_sent(
    stored: StoredCredentials,
    include_aws_bedrock_credentials: bool,
    geap_binding: Option<crate::credentials::BindingView>,
)
    ensures
        ({
            let sent = request_keys(stored, false, include_aws_bedrock_credentials, geap_binding);
            &&& sent.anthropic.len() == 0
            &&& sent.openai.len() == 0
            &&& sent.google.len() == 0
            &&& sent.open_router.len() == 0
            &&& sent.grok_oauth_access_token.len() == 0
        }),
{
}

/// A Gemini Enterprise token is sent only for a binding, and only the one that was minted for it.
pub proof fn law_geap_tokens_stay_bound(
    stored: StoredCredentials,
    include_byo_keys: bool,
    include_aws_bedrock_credentials: bool,
    geap_binding: Option<crate::credentials::BindingView>,
)
    requires
        request_keys(
            stored,
            include_byo_keys,
            include_aws_bedrock_credentials,
            geap_binding,
        ).google_cloud_credentials is Some,
    ensures
        geap_binding matches Some(binding) && (match stored.geap {
            crate::credentials::GeapStateView::Loaded { credentials, minted_for } => {
                minted_for == binding
            },
            crate::credentials::GeapStateView::Refreshing {
                previous: Some((credentials, minted_for)),
            } => minted_for == binding,
            _ => false,
        }),
{
}

/// AWS credentials are sent only when they are asked for or managed via OIDC, and only those that
/// are loaded.
pub proof fn law_aws_credentials_are_gated(
    stored: StoredCredentials,
    include_byo_keys: bool,
    include_aws_bedrock_credentials: bool,
    geap_binding: Option<crate::credentials::BindingView>,
)
    ensures
        ({
            let sent = request_keys(
                stored,
                include_byo_keys,
                include_aws_bedrock_credentials,
                geap_binding,
            );
            sent.aws_credentials is Some <==> (include_aws_bedrock_credentials
                || stored.aws_managed) && stored.aws_credentials is Some
        }),
{
}

/// A registered provider is the stored endpoint that it comes from: it has its URL, the schema
/// that the user chose for it, its models, and its key unless the subscription's token takes the
/// place of that.
pub proof fn law_providers_are_their_endpoints(
    endpoints: Seq<crate::keys::EndpointView>,
    include_custom_models: bool,
    access_token: Option<Seq<char>>,
    i: int,
)
    requires
        0 <= i < registered_endpoints(endpoints, include_custom_models, access_token).len(),
    ensures
        ({
            let provider = registered_endpoints(endpoints, include_custom_models, access_token)[i];
            exists|j: int|
                0 <= j < endpoints.len() && (#[trigger] endpoints[j]).url == provider.base_url
                    && endpoints[j].schema == provider.schema && provider.models
                    == registered_models(endpoints[j].models) && (provider.api_key
                    == endpoints[j].api_key || (crate::oauth::chatgpt_subscription_base(
                    provider.base_url,
                ) && access_token == Some(provider.api_key)))
        }),
{
    let provider = registered_endpoints(endpoints, include_custom_models, access_token)[i];
    let endpoint = lemma_registered_from(endpoints, include_custom_models, access_token, i);
    let j = choose|j: int| 0 <= j < endpoints.len() && endpoints[j] == endpoint;
    assert(endpoints[j].url == provider.base_url);
}

/// An endpoint that can be used is registered: one with a key, a URL that is not over plain HTTP and
/// a model with a name and a config key, where custom models are included or it is the ChatGPT
/// subscription.
pub proof fn law_usable_endpoints_are_registered(
    endpoints: Seq<crate::keys::EndpointView>,
    include_custom_models: bool,
    access_token: Option<Seq<char>>,
    j: int,
    model: int,
)
    requires
        0 <= j < endpoints.len(),
        0 <= model < endpoints[j].models.len(),
        !crate::text::blank(endpoints[j].models[model].name),
        endpoints[j].models[model].config_key.len() > 0,
        endpoints[j].api_key.len() > 0,
        !crate::text::blank(endpoints[j].url),
        !"http://"@.is_prefix_of(crate::text::trimmed(endpoints[j].url)),
        include_custom_models || crate::oauth::chatgpt_subscription_base(endpoints[j].url),
    ensures
        exists|i: int|
            0 <= i < registered_endpoints(endpoints, include_custom_models, access_token).len() && (
            #[trigger] registered_endpoints(
                endpoints,
                include_custom_models,
                access_token,
            )[i]).base_url == endpoints[j].url && registered_endpoints(
                endpoints,
                include_custom_models,
                access_token,
            )[i].schema == endpoints[j].schema && registered_endpoints(
                endpoints,
                include_custom_models,
                access_token,
            )[i].models == registered_models(endpoints[j].models),
{
    let pick = |endpoint: crate::keys::EndpointView|
        registered_endpoint(
            endpoint,
            crate::oauth::chatgpt_subscription_base(endpoint.url),
            include_custom_models,
            access_token,
        );
    let endpoint = endpoints[j];
    let all = registered_endpoints(endpoints, include_custom_models, access_token);
    let keep = |model: crate::keys::ModelView| registered_model(model);
    crate::lists::lemma_picked_is_found(endpoint.models, keep, model);
    assert(registered_models(endpoint.models).len() > 0);
    crate::lists::lemma_picked_is_found(endpoints, pick, j);
    let provider = pick(endpoint)->0;
    let i = choose|i: int| 0 <= i < all.len() && all[i] == provider;
    assert(all[i].base_url == endpoint.url);
}

/// An endpoint that the server would reject, or that has no URL, no key or no model, is not
/// registered; the others keep their order.
pub proof fn law_unusable_endpoints_are_passed_over(
    front: Seq<crate::keys::EndpointView>,
    endpoint: crate::keys::EndpointView,
    back: Seq<crate::keys::EndpointView>,
    include_custom_models: bool,
    access_token: Option<Seq<char>>,
)
    requires
        crate::text::blank(endpoint.url) || endpoint.api_key.len() == 0 || endpoint.models.len()
            == 0 || "http://"@.is_prefix_of(crate::text::trimmed(endpoint.url)) || (
        !include_custom_models && !crate::oauth::chatgpt_subscription_base(endpoint.url)),
    ensures
        registered_endpoints(front + seq![endpoint] + back, include_custom_models, access_token)
            == registered_endpoints(front, include_custom_models, access_token)
            + registered_endpoints(back, include_custom_models, access_token),
{
    let pick = |endpoint: crate::keys::EndpointView|
        registered_endpoint(
            endpoint,
            crate::oauth::chatgpt_subscription_base(endpoint.url),
            include_custom_models,
            access_token,
        );
    reveal_strlit("http://");
    reveal_strlit("https://");
    let trimmed = crate::text::trimmed(endpoint.url);
    if "http://"@.is_prefix_of(trimmed) && "https://"@.is_prefix_of(trimmed) {
        assert(trimmed.take(7)[4] == trimmed.take(8)[4]);
    }
    if endpoint.models.len() == 0 {
        assert(registered_models(endpoint.models) =~= Seq::<CustomModelView>::empty());
    }
    crate::lists::lemma_picked_in_a_row(front + seq![endpoint], back, pick);
    crate::lists::lemma_picked_in_a_row(front, seq![endpoint], pick);
    Seq::<crate::keys::EndpointView>::lemma_filter_map_singleton(endpoint, pick);
    assert(front.filter_map(pick) + Seq::<ProviderView>::empty() =~= front.filter_map(pick));
}

/// What is registered for the ChatGPT subscription carries its access token where there is one,
/// and the stored key otherwise.
pub proof fn law_the_subscription_uses_its_token(
    endpoint: crate::keys::EndpointView,
    include_custom_models: bool,
    token: Seq<char>,
)
    ensures
        registered_endpoint(endpoint, true, include_custom_models, Some(token)) matches Some(
            provider,
        ) ==> provider.api_key == token,
        registered_endpoint(endpoint, true, include_custom_models, None) matches Some(provider)
            ==> provider.api_key == endpoint.api_key,
        registered_endpoint(endpoint, false, include_custom_models, Some(token)) matches Some(
            provider,
        ) ==> provider.api_key == endpoint.api_key,
{
}

/// Every model with a name and a config key is registered under both, in its place; one without
/// either is left out.
pub proof fn law_models_are_registered_in_order(
    front: Seq<crate::keys::ModelView>,
    model: crate::keys::ModelView,
    back: Seq<crate::keys::ModelView>,
)
    ensures
        !crate::text::blank(model.name) && model.config_key.len() > 0 ==> registered_models(
            front + seq![model] + back,
        ) == registered_models(front) + seq![
            CustomModelView { slug: model.name, config_key: model.config_key },
        ] + registered_models(back),
        crate::text::blank(model.name) || model.config_key.len() == 0 ==> registered_models(
            front + seq![model] + back,
        ) == registered_models(front) + registered_models(back),
        registered_models(Seq::empty()) == Seq::<CustomModelView>::empty(),
{
    let pick = |model: crate::keys::ModelView| registered_model(model);
    crate::lists::lemma_picked_in_a_row(front + seq![model], back, pick);
    crate::lists::lemma_picked_in_a_row(front, seq![model], pick);
    Seq::<crate::keys::ModelView>::lemma_filter_map_singleton(model, pick);
    assert(registered_models(front) + Seq::<CustomModelView>::empty() =~= registered_models(front));
    assert(registered_models(Seq::empty()) =~= Seq::<CustomModelView>::empty());
}

/// `sent` is the stored key: empty for none.
pub open spec fn sent_as_stored(sent: Seq<char>, stored: Option<Seq<char>>) -> bool {
    match stored {
        Some(key) => sent == key,
        None => sent.len() == 0,
    }
}

/// Each key that is sent is the stored one of the same provider, and the Grok token is the
/// stored one unless that is blank.
pub proof fn law_each_provider_gets_its_own_key(
    stored: StoredCredentials,
    include_aws_bedrock_credentials: bool,
    geap_binding: Option<crate::credentials::BindingView>,
)
    ensures
        ({
            let sent = request_keys(stored, true, include_aws_bedrock_credentials, geap_binding);
            &&& sent_as_stored(sent.anthropic, stored.keys.anthropic)
            &&& sent_as_stored(sent.openai, stored.keys.openai)
            &&& sent_as_stored(sent.google, stored.keys.google)
            &&& sent_as_stored(sent.open_router, stored.keys.open_router)
            &&& stored.grok_tokens is None ==> sent.grok_oauth_access_token.len() == 0
            &&& stored.grok_tokens matches Some(tokens) ==> {
                &&& !crate::text::blank(tokens.access_token) ==> sent.grok_oauth_access_token
                    == tokens.access_token
                &&& crate::text::blank(tokens.access_token) ==> sent.grok_oauth_access_token.len()
                    == 0
            }
        }),
{
}

/// A key that changes changes what is sent of its provider and nothing else.
pub proof fn law_keys_do_not_mix(
    stored: StoredCredentials,
    key: Option<Seq<char>>,
    include_byo_keys: bool,
    include_aws_bedrock_credentials: bool,
    geap_binding: Option<crate::credentials::BindingView>,
)
    ensures
        ({
            let keys = stored.keys;
            let sent = request_keys(
                stored,
                include_byo_keys,
                include_aws_bedrock_credentials,
                geap_binding,
            );
            let changed = |keys: crate::keys::ApiKeysView|
                request_keys(
                    StoredCredentials { keys, ..stored },
                    include_byo_keys,
                    include_aws_bedrock_credentials,
                    geap_binding,
                );
            let anthropic = changed(crate::keys::ApiKeysView { anthropic: key, ..keys });
            let openai = changed(crate::keys::ApiKeysView { openai: key, ..keys });
            let google = changed(crate::keys::ApiKeysView { google: key, ..keys });
            let open_router = changed(crate::keys::ApiKeysView { open_router: key, ..keys });
            &&& anthropic == RequestKeysView { anthropic: anthropic.anthropic, ..sent }
            &&& openai == RequestKeysView { openai: openai.openai, ..sent }
            &&& google == RequestKeysView { google: google.google, ..sent }
            &&& open_router == RequestKeysView { open_router: open_router.open_router, ..sent }
        }),
{
}

/// Credentials of AWS and of Gemini Enterprise are sent as they are stored, where they are sent;
/// credits are never allowed to be used.
pub proof fn law_cloud_credentials_are_sent_as_stored(
    stored: StoredCredentials,
    include_byo_keys: bool,
    include_aws_bedrock_credentials: bool,
    geap_binding: Option<crate::credentials::BindingView>,
)
    ensures
        ({
            let sent = request_keys(
                stored,
                include_byo_keys,
                include_aws_bedrock_credentials,
                geap_binding,
            );
            &&& include_aws_bedrock_credentials || stored.aws_managed ==> sent.aws_credentials
                == stored.aws_credentials
            &&& !include_aws_bedrock_credentials && !stored.aws_managed ==> sent.aws_credentials
                is None
            &&& geap_binding is None ==> sent.google_cloud_credentials is None
            &&& !sent.allow_use_of_warp_credits
            &&& stored.geap matches crate::credentials::GeapStateView::Loaded {
                credentials: Some(token),
                minted_for,
            } ==> (geap_binding == Some(minted_for) ==> sent.google_cloud_credentials == Some(
                Some(token),
            ))
            &&& stored.geap matches crate::credentials::GeapStateView::Refreshing {
                previous: Some((Some(token), minted_for)),
            } ==> (geap_binding == Some(minted_for) ==> sent.google_cloud_credentials == Some(
                Some(token),
            ))
        }),
{
}

/// There is nothing to send exactly where every part is empty.
pub proof fn law_any_credential_is_worth_sending(sent: RequestKeysView)
    ensures
        !sent.is_empty() <==> sent.anthropic.len() + sent.openai.len() + sent.google.len()
            + sent.open_router.len() + sent.grok_oauth_access_token.len() > 0
            || sent.aws_credentials is Some || sent.google_cloud_credentials is Some,
{
}

} // verus!
