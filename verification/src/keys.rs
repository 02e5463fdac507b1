//! User-provided API keys and custom endpoints.
use crate::endpoint::{CustomEndpointSchema, EndpointKind};
use crate::ids::new_uuid;
use crate::text::{is_blank, same_text};
use vstd::prelude::*;

verus! {

/// User-provided API keys for AI providers.
///
/// These are used for "Bring Your Own API Key" functionality, allowing
/// users to use their own API keys instead of Warp's.
#[derive(Debug, Clone, PartialEq, Eq, Default)]
pub struct ApiKeys {
    pub google: Option<String>,
    pub anthropic: Option<String>,
    pub openai: Option<String>,
    pub open_router: Option<String>,
    pub custom_endpoints: Vec<CustomEndpoint>,
}

#[derive(Debug, Clone, PartialEq, Eq, Default)]
pub struct CustomEndpoint {
    pub name: String,
    pub url: String,
    pub api_key: String,
    pub models: Vec<CustomEndpointModel>,
    pub schema: CustomEndpointSchema,
    /// Whether this is a local server, cloud API, or proxy aggregator.
    pub endpoint_kind: EndpointKind,
    /// Auto-detected provider type from the URL (e.g. "ollama", "anthropic", "groq").
    pub provider_type: String,
}

#[derive(Debug, Clone, PartialEq, Eq, Default)]
pub struct CustomEndpointModel {
    pub name: String,
    pub alias: Option<String>,
    /// Stable identifier of the model, under which a request selects it.
    /// Generated as a UUIDv4 at model creation.
    pub config_key: String,
}

/// What the user enters for a custom endpoint; a model is its name, its alias and its config key.
pub struct CustomEndpointParams {
    pub name: String,
    pub url: String,
    pub api_key: String,
    pub models: Vec<(String, Option<String>, Option<String>)>,
    pub schema: CustomEndpointSchema,
    pub endpoint_kind: EndpointKind,
    pub provider_type: String,
}

pub ghost struct ApiKeysView {
    pub google: Option<Seq<char>>,
    pub anthropic: Option<Seq<char>>,
    pub openai: Option<Seq<char>>,
    pub open_router: Option<Seq<char>>,
    pub custom_endpoints: Seq<EndpointView>,
}

pub ghost struct EndpointView {
    pub name: Seq<char>,
    pub url: Seq<char>,
    pub api_key: Seq<char>,
    pub models: Seq<ModelView>,
    pub schema: CustomEndpointSchema,
    pub endpoint_kind: EndpointKind,
    pub provider_type: Seq<char>,
}

pub ghost struct ModelView {
    pub name: Seq<char>,
    pub alias: Option<Seq<char>>,
    pub config_key: Seq<char>,
}

impl View for CustomEndpointModel {
    type V = ModelView;

    open spec fn view(&self) -> ModelView {
        ModelView {
            name: self.name@,
            alias: crate::text::opt_text(self.alias),
            config_key: self.config_key@,
        }
    }
}

pub open spec fn model_views(models: Seq<CustomEndpointModel>) -> Seq<ModelView> {
    models.map_values(|model: CustomEndpointModel| model@)
}

impl View for CustomEndpoint {
    type V = EndpointView;

    open spec fn view(&self) -> EndpointView {
        EndpointView {
            name: self.name@,
            url: self.url@,
            api_key: self.api_key@,
            models: model_views(self.models@),
            schema: self.schema,
            endpoint_kind: self.endpoint_kind,
            provider_type: self.provider_type@,
        }
    }
}

pub open spec fn endpoint_views(endpoints: Seq<CustomEndpoint>) -> Seq<EndpointView> {
    endpoints.map_values(|endpoint: CustomEndpoint| endpoint@)
}

impl View for ApiKeys {
    type V = ApiKeysView;

    open spec fn view(&self) -> ApiKeysView {
        ApiKeysView {
            google: crate::text::opt_text(self.google),
            anthropic: crate::text::opt_text(self.anthropic),
            openai: crate::text::opt_text(self.openai),
            open_router: crate::text::opt_text(self.open_router),
            custom_endpoints: endpoint_views(self.custom_endpoints@),
        }
    }
}

impl CustomEndpointModel {
    /// Picker label: prefer the user-provided alias; fall back to the raw model name
    /// so a row is never blank.
    pub fn display_label(&self) -> (res: &str)
        ensures
            res@ == self@.label(),
    {
        match &self.alias {
            Some(alias) => if !is_blank(alias.as_str()) {
                alias.as_str()
            } else {
                self.name.as_str()
            },
            None => self.name.as_str(),
        }
    }
}

impl ModelView {
    /// The alias unless there is none or it is blank; the name then.
    pub open spec fn label(self) -> Seq<char> {
        match self.alias {
            Some(alias) => if crate::text::blank(alias) {
                self.name
            } else {
                alias
            },
            None => self.name,
        }
    }
}

/// A model with a name has a label that is not blank.
pub proof fn law_label_is_never_blank(model: ModelView)
    requires
        !crate::text::blank(model.name),
    ensures
        !crate::text::blank(model.label()),
{
}

impl ApiKeysView {
    pub open spec fn has_any_key(self) -> bool {
        ||| self.openai is Some
        ||| self.anthropic is Some
        ||| self.google is Some
        ||| self.open_router is Some
        ||| exists|i: int|
            0 <= i < self.custom_endpoints.len() && !crate::text::blank(
                #[trigger] self.custom_endpoints[i].api_key,
            )
    }

    pub open spec fn provider_key_count(self) -> int {
        configured(self.openai) + configured(self.anthropic) + configured(self.google)
            + configured(self.open_router)
    }
}

/// 1 for a key that is there and not blank, else 0.
pub open spec fn configured(key: Option<Seq<char>>) -> int {
    match key {
        Some(text) => if crate::text::blank(text) {
            0
        } else {
            1
        },
        None => 0,
    }
}

fn count_key(key: &Option<String>) -> (res: usize)
    ensures
        res == configured(crate::text::opt_text(*key)),
{
    match key {
        Some(text) => if is_blank(text.as_str()) {
            0
        } else {
            1
        },
        None => 0,
    }
}

impl ApiKeys {
    pub fn has_any_key(&self) -> (res: bool)
        ensures
            res == self@.has_any_key(),
    {
        if self.openai.is_some() || self.anthropic.is_some() || self.google.is_some()
            || self.open_router.is_some() {
            return true;
        }
        let n: usize = self.custom_endpoints.len();
        let mut i: usize = 0;
        while i < n
            invariant
                i <= n == self.custom_endpoints@.len(),
                forall|j: int|
                    0 <= j < i ==> crate::text::blank(#[trigger] self@.custom_endpoints[j].api_key),
            decreases n - i,
        {
            if !is_blank(self.custom_endpoints[i].api_key.as_str()) {
                assert(!crate::text::blank(self@.custom_endpoints[i as int].api_key));
                return true;
            }
            i += 1;
        }
        false
    }

    /// Number of single-provider API keys currently configured (OpenAI,
    /// Anthropic, Google, OpenRouter). Custom endpoints are counted separately
    /// via `custom_endpoints`.
    pub fn provider_key_count(&self) -> (res: usize)
        ensures
            res == self@.provider_key_count(),
    {
        count_key(&self.openai) + count_key(&self.anthropic) + count_key(&self.google) + count_key(
            &self.open_router,
        )
    }
}

/// `key` is the config key of a model for which `given` was entered: what was entered, or a fresh
/// UUID when nothing was.
pub open spec fn config_key_for(given: Option<Seq<char>>, key: Seq<char>) -> bool {
    match given {
        Some(entered) => if entered.len() > 0 {
            key == entered
        } else {
            crate::ids::is_uuid_v4(key)
        },
        None => crate::ids::is_uuid_v4(key),
    }
}

/// `model` is the model that was entered as `params`.
pub open spec fn model_from(
    params: (String, Option<String>, Option<String>),
    model: ModelView,
) -> bool {
    &&& model.name == params.0@
    &&& model.alias == crate::text::opt_text(params.1)
    &&& config_key_for(crate::text::opt_text(params.2), model.config_key)
}

/// `endpoint` is the endpoint that was entered as `params`.
pub open spec fn endpoint_from(params: CustomEndpointParams, endpoint: EndpointView) -> bool {
    &&& endpoint.name == params.name@
    &&& endpoint.url == params.url@
    &&& endpoint.api_key == params.api_key@
    &&& endpoint.schema == params.schema
    &&& endpoint.endpoint_kind == params.endpoint_kind
    &&& endpoint.provider_type == params.provider_type@
    &&& endpoint.models.len() == params.models@.len()
    &&& forall|i: int|
        0 <= i < params.models@.len() ==> model_from(
            #[trigger] params.models@[i],
            endpoint.models[i],
        )
}

/// The config key for a model: the entered one unless it is missing or empty.
pub fn config_key_or(given: Option<String>, fresh: String) -> (res: String)
    ensures
        res == match given {
            Some(entered) => if entered@.len() > 0 {
                entered
            } else {
                fresh
            },
            None => fresh,
        },
{
    match given {
        Some(entered) => if entered.as_str().is_empty() {
            fresh
        } else {
            entered
        },
        None => fresh,
    }
}

/// Builds the endpoint that was entered; models without a config key get a fresh one.
pub fn build_endpoint(params: CustomEndpointParams) -> (res: CustomEndpoint)
    ensures
        endpoint_from(params, res@),
{
    let mut models: Vec<CustomEndpointModel> = Vec::new();
    let entered = params.models;
    for row in it: entered
        invariant
            it.seq() == entered@,
            models@.len() == it.index(),
            forall|i: int|
                0 <= i < models@.len() ==> model_from(#[trigger] entered@[i], models@[i]@),
    {
        let ghost earlier = models@;
        let (name, alias, config_key) = row;
        let has_key = match &config_key {
            Some(key) => !key.as_str().is_empty(),
            None => false,
        };
        let config_key = if has_key {
            config_key_or(config_key, String::new())
        } else {
            config_key_or(config_key, new_uuid())
        };
        models.push(CustomEndpointModel { name, alias, config_key });
        assert forall|i: int| 0 <= i < models@.len() implies model_from(
            #[trigger] entered@[i],
            models@[i]@,
        ) by {
            if i < earlier.len() {
                assert(models@[i] == earlier[i]);
            }
        }
    }
    CustomEndpoint {
        name: params.name,
        url: params.url,
        api_key: params.api_key,
        models,
        schema: params.schema,
        endpoint_kind: params.endpoint_kind,
        provider_type: params.provider_type,
    }
}

/// Every model of an endpoint that was entered has a config key, so none of them is left out of a
/// request for want of one.
pub proof fn law_built_models_have_config_keys(params: CustomEndpointParams, endpoint: EndpointView)
    requires
        endpoint_from(params, endpoint),
    ensures
        forall|i: int|
            0 <= i < endpoint.models.len() ==> (#[trigger] endpoint.models[i]).config_key.len() > 0,
{
    assert forall|i: int| 0 <= i < endpoint.models.len() implies (
    #[trigger] endpoint.models[i]).config_key.len() > 0 by {
        assert(model_from(params.models@[i], endpoint.models[i]));
    }
}

impl EndpointView {
    /// One of the endpoint's models has the config key `model`.
    pub open spec fn has_model(self, model: Seq<char>) -> bool {
        exists|i: int| 0 <= i < self.models.len() && (#[trigger] self.models[i]).config_key == model
    }
}

impl CustomEndpoint {
    /// Whether one of the endpoint's models has the config key `model`.
    pub fn has_model(&self, model: &str) -> (res: bool)
        ensures
            res == self@.has_model(model@),
    {
        let n: usize = self.models.len();
        let mut i: usize = 0;
        while i < n
            invariant
                i <= n == self.models@.len(),
                forall|j: int| 0 <= j < i ==> (#[trigger] self@.models[j]).config_key != model@,
            decreases n - i,
        {
            if same_text(self.models[i].config_key.as_str(), model) {
                assert(self@.models[i as int].config_key == model@);
                return true;
            }
            i += 1;
        }
        false
    }
}

/// A model goes by its alias where it has one that can be read, and by its name otherwise.
pub proof fn law_models_go_by_their_alias(name: Seq<char>, alias: Seq<char>, config_key: Seq<char>)
    ensures
        !crate::text::blank(alias) ==> (ModelView {
            name,
            alias: Some(alias),
            config_key,
        }).label() == alias,
        crate::text::blank(alias) ==> (ModelView {
            name,
            alias: Some(alias),
            config_key,
        }).label() == name,
        (ModelView { name, alias: None, config_key }).label() == name,
{
}

/// Any key of the user's own counts, and so does an endpoint with a key that can be read; nothing
/// else does.
pub proof fn law_any_key_counts(keys: ApiKeysView, i: int)
    ensures
        keys.openai is Some || keys.anthropic is Some || keys.google is Some || keys.open_router
            is Some ==> keys.has_any_key(),
        0 <= i < keys.custom_endpoints.len() && !crate::text::blank(
            keys.custom_endpoints[i].api_key,
        ) ==> keys.has_any_key(),
        keys.openai is None && keys.anthropic is None && keys.google is None && keys.open_router
            is None && keys.custom_endpoints.len() == 0 ==> !keys.has_any_key(),
        keys.has_any_key() ==> keys.openai is Some || keys.anthropic is Some || keys.google is Some
            || keys.open_router is Some || exists|j: int|
            0 <= j < keys.custom_endpoints.len() && !crate::text::blank(
                (#[trigger] keys.custom_endpoints[j]).api_key,
            ),
{
    if 0 <= i < keys.custom_endpoints.len() && !crate::text::blank(
        keys.custom_endpoints[i].api_key,
    ) {
        assert(!crate::text::blank(keys.custom_endpoints[i].api_key));
    }
    if keys.has_any_key() && keys.openai is None && keys.anthropic is None && keys.google is None
        && keys.open_router is None {
        let j = choose|j: int|
            0 <= j < keys.custom_endpoints.len() && !crate::text::blank(
                #[trigger] keys.custom_endpoints[j].api_key,
            );
        assert(!crate::text::blank(keys.custom_endpoints[j].api_key));
    }
}

/// The keys are counted one by one: one that can be read counts one, any other nothing.
pub proof fn law_keys_are_counted(keys: ApiKeysView, key: Seq<char>)
    ensures
        0 <= keys.provider_key_count() <= 4,
        (ApiKeysView {
            openai: None,
            anthropic: None,
            google: None,
            open_router: None,
            ..keys
        }).provider_key_count() == 0,
        !crate::text::blank(key) ==> {
            &&& (ApiKeysView { openai: Some(key), ..keys }).provider_key_count() == (ApiKeysView {
                openai: None,
                ..keys
            }).provider_key_count() + 1
            &&& (ApiKeysView { anthropic: Some(key), ..keys }).provider_key_count()
                == (ApiKeysView { anthropic: None, ..keys }).provider_key_count() + 1
            &&& (ApiKeysView { google: Some(key), ..keys }).provider_key_count() == (ApiKeysView {
                google: None,
                ..keys
            }).provider_key_count() + 1
            &&& (ApiKeysView { open_router: Some(key), ..keys }).provider_key_count()
                == (ApiKeysView { open_router: None, ..keys }).provider_key_count() + 1
        },
        crate::text::blank(key) ==> {
            &&& (ApiKeysView { openai: Some(key), ..keys }).provider_key_count() == (ApiKeysView {
                openai: None,
                ..keys
            }).provider_key_count()
            &&& (ApiKeysView { anthropic: Some(key), ..keys }).provider_key_count()
                == (ApiKeysView { anthropic: None, ..keys }).provider_key_count()
            &&& (ApiKeysView { google: Some(key), ..keys }).provider_key_count() == (ApiKeysView {
                google: None,
                ..keys
            }).provider_key_count()
            &&& (ApiKeysView { open_router: Some(key), ..keys }).provider_key_count()
                == (ApiKeysView { open_router: None, ..keys }).provider_key_count()
        },
{
}

/// An endpoint is stored as it was entered, model by model; a config key that was entered is kept,
/// so that saving an endpoint again leaves its models selected.
pub proof fn law_endpoints_are_stored_as_entered(
    params: CustomEndpointParams,
    endpoint: EndpointView,
    i: int,
    key: String,
)
    requires
        endpoint_from(params, endpoint),
        0 <= i < params.models@.len(),
    ensures
        endpoint.url == params.url@ && endpoint.name == params.name@ && endpoint.api_key
            == params.api_key@ && endpoint.schema == params.schema && endpoint.endpoint_kind
            == params.endpoint_kind && endpoint.provider_type == params.provider_type@,
        endpoint.models.len() == params.models@.len(),
        endpoint.models[i].name == params.models@[i].0@,
        params.models@[i].1 is None ==> endpoint.models[i].alias is None,
        params.models@[i].1 matches Some(alias) ==> endpoint.models[i].alias == Some(alias@),
        params.models@[i].2 == Some(key) && key@.len() > 0 ==> endpoint.models[i].config_key == key@
            && endpoint.has_model(key@),
{
    assert(model_from(params.models@[i], endpoint.models[i]));
    assert(endpoint.models[i].config_key == endpoint.models[i].config_key);
}

/// An endpoint has the models that are stored with it: a further one adds its own config key.
pub proof fn law_models_are_known_by_their_config_key(
    endpoint: EndpointView,
    model: ModelView,
    key: Seq<char>,
)
    ensures
        !(EndpointView { models: Seq::empty(), ..endpoint }).has_model(key),
        (EndpointView { models: endpoint.models.push(model), ..endpoint }).has_model(key)
            <==> endpoint.has_model(key) || model.config_key == key,
{
    let all = endpoint.models.push(model);
    let more = EndpointView { models: all, ..endpoint };
    let n = endpoint.models.len() as int;
    assert(more.models[n] == model);
    if endpoint.has_model(key) {
        let i = choose|i: int| 0 <= i < n && (#[trigger] endpoint.models[i]).config_key == key;
        assert(more.models[i] == endpoint.models[i]);
    }
    if more.has_model(key) {
        let i = choose|i: int| 0 <= i < all.len() && (#[trigger] more.models[i]).config_key == key;
        if i < n {
            assert(more.models[i] == endpoint.models[i]);
        }
    }
}

} // verus!
