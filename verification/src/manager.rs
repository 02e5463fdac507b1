//! The manager of the user's keys, tokens and credentials.
//!
//! The manager changes its state at once and says what is left to do: which event to emit, which
//! entry of the secure storage to write, and which token refresh to start after a while.
use crate::chatgpt::{chatgpt_tokens_at, plan_refresh, RefreshPlan};
use crate::credentials::{
    AwsCredentialsRefreshStrategy, AwsCredentialsState, GeapCredentialsState, GeapMintBinding,
};
use crate::direct::is_direct_endpoint;
use crate::keys::{build_endpoint, ApiKeys, CustomEndpointParams};
use crate::oauth::{is_chatgpt_subscription_base, TokenResponse};
use crate::request::{
    collect_request_keys, register_endpoints, CustomModelProvider, RequestApiKeys,
};
use crate::text::{same_text, trim};
use crate::time::{now, Timestamp};
use crate::tokens::{ChatGptTokens, GrokTokens};
use vstd::prelude::*;

verus! {

/// Emitted when user-provided API keys are updated in-memory.
#[derive(Debug, Clone, Copy, PartialEq, Eq, Structural)]
pub enum ApiKeyManagerEvent {
    KeysUpdated,
}

/// An entry of the secure storage.
#[derive(Debug, Clone, Copy, PartialEq, Eq, Structural)]
pub enum StorageEntry {
    /// The user's API keys.
    Keys,
    /// The connected xAI/Grok subscription's OAuth tokens. Kept separate from the keys because
    /// these are OAuth tokens with a refresh lifecycle, not a user-pasted static key.
    GrokTokens,
    /// The connected ChatGPT subscription's OAuth tokens.
    ChatGptTokens,
}

impl StorageEntry {
    pub open spec fn key_view(self) -> Seq<char> {
        match self {
            StorageEntry::Keys => "AiApiKeys"@,
            StorageEntry::GrokTokens => "GrokOAuthTokens"@,
            StorageEntry::ChatGptTokens => "ChatGptOAuthTokens"@,
        }
    }

    /// The key under which the entry is stored.
    pub fn key(self) -> (res: &'static str)
        ensures
            res@ == self.key_view(),
    {
        match self {
            StorageEntry::Keys => "AiApiKeys",
            StorageEntry::GrokTokens => "GrokOAuthTokens",
            StorageEntry::ChatGptTokens => "ChatGptOAuthTokens",
        }
    }
}

/// Different entries are stored under different keys.
pub proof fn law_storage_keys_differ(a: StorageEntry, b: StorageEntry)
    requires
        a.key_view() == b.key_view(),
    ensures
        a == b,
{
    reveal_strlit("AiApiKeys");
    reveal_strlit("GrokOAuthTokens");
    reveal_strlit("ChatGptOAuthTokens");
    assert("AiApiKeys"@.len() == 9);
    assert("GrokOAuthTokens"@.len() == 15);
    assert("ChatGptOAuthTokens"@.len() == 18);
}

/// What a change of the manager leaves to do.
#[derive(Debug, Clone, Copy, PartialEq, Eq, Structural)]
pub struct Effects {
    /// The event to emit.
    pub event: Option<ApiKeyManagerEvent>,
    /// The entry of the secure storage to write.
    pub persist: Option<StorageEntry>,
}

/// Nothing is left to do.
pub open spec fn no_effects() -> Effects {
    Effects { event: None, persist: None }
}

/// The update is announced and `persist` is written.
pub open spec fn updated(persist: Option<StorageEntry>) -> Effects {
    Effects { event: Some(ApiKeyManagerEvent::KeysUpdated), persist }
}

/// A write that was begun: it counts only as long as no later write of the entry is begun.
#[derive(Debug, Clone, Copy, PartialEq, Eq, Structural)]
pub struct WriteTicket {
    pub entry: StorageEntry,
    pub version: u64,
}

/// What to do with the secure storage.
#[derive(Debug, Clone, PartialEq, Eq)]
pub enum StorageCommand {
    Write { key: &'static str, value: String },
    Remove { key: &'static str },
}

/// The key that a command goes to, and the text that it writes there, if it writes one.
pub open spec fn seen_command(command: Option<StorageCommand>) -> Option<
    (Seq<char>, Option<Seq<char>>),
> {
    match command {
        Some(StorageCommand::Write { key, value }) => Some((key@, Some(value@))),
        Some(StorageCommand::Remove { key }) => Some((key@, None)),
        None => None,
    }
}

/// Why the secure storage did not serve.
#[derive(Debug, Clone, PartialEq, Eq)]
pub enum StorageError {
    NotFound,
    Other(String),
}

impl StorageError {
    /// More is wrong than that an entry is not there.
    pub open spec fn is_serious(self) -> bool {
        !(self is NotFound)
    }

    /// Whether a failure to read an entry is worth a report: that it is missing is not.
    pub fn should_report(&self) -> (res: bool)
        ensures
            res == self.is_serious(),
    {
        match self {
            StorageError::NotFound => false,
            StorageError::Other(_) => true,
        }
    }
}

impl StorageEntry {
    /// That the entry could not be written or removed matters.
    pub open spec fn is_missed(self, error: StorageError) -> bool {
        self is Keys || !(error is NotFound)
    }

    /// Whether a failure to write the entry, or to remove it, is worth a report: tokens that are
    /// not there need not be removed.
    pub fn reports_failed_write(self, error: &StorageError) -> (res: bool)
        ensures
            res == self.is_missed(*error),
    {
        match self {
            StorageEntry::Keys => true,
            StorageEntry::GrokTokens | StorageEntry::ChatGptTokens => error.should_report(),
        }
    }
}

/// What is left to do after tokens were stored.
#[derive(Debug, PartialEq, Eq)]
pub struct TokenUpdate {
    pub effects: Effects,
    /// The refresh to start after a while.
    pub refresh: Option<RefreshPlan>,
}

/// A structure that manages API keys for AI providers.
pub struct ApiKeyManager {
    keys: ApiKeys,
    /// OAuth tokens for a connected xAI/Grok subscription, if any.
    grok_tokens: Option<GrokTokens>,
    /// OAuth tokens for a connected ChatGPT Plus/Pro/Team subscription, if any.
    chatgpt_tokens: Option<ChatGptTokens>,
    chatgpt_refresh_allowed: bool,
    chatgpt_refresh_in_flight: bool,
    aws_credentials_state: AwsCredentialsState,
    aws_credentials_refresh_strategy: AwsCredentialsRefreshStrategy,
    geap_credentials_state: GeapCredentialsState,
    keys_write_version: u64,
    grok_write_version: u64,
    chatgpt_write_version: u64,
}

pub ghost struct ManagerView {
    pub keys: crate::keys::ApiKeysView,
    pub grok_tokens: Option<crate::tokens::TokensView>,
    pub chatgpt_tokens: Option<crate::tokens::TokensView>,
    pub chatgpt_refresh_allowed: bool,
    pub chatgpt_refresh_in_flight: bool,
    pub aws_credentials_state: AwsCredentialsState,
    pub aws_credentials_refresh_strategy: crate::credentials::StrategyView,
    pub geap_credentials_state: crate::credentials::GeapStateView,
    pub keys_write_version: u64,
    pub grok_write_version: u64,
    pub chatgpt_write_version: u64,
}

pub open spec fn opt_grok(tokens: Option<GrokTokens>) -> Option<crate::tokens::TokensView> {
    match tokens {
        Some(tokens) => Some(tokens@),
        None => None,
    }
}

pub open spec fn opt_chatgpt(tokens: Option<ChatGptTokens>) -> Option<crate::tokens::TokensView> {
    match tokens {
        Some(tokens) => Some(tokens@),
        None => None,
    }
}

impl View for ApiKeyManager {
    type V = ManagerView;

    closed spec fn view(&self) -> ManagerView {
        ManagerView {
            keys: self.keys@,
            grok_tokens: opt_grok(self.grok_tokens),
            chatgpt_tokens: opt_chatgpt(self.chatgpt_tokens),
            chatgpt_refresh_allowed: self.chatgpt_refresh_allowed,
            chatgpt_refresh_in_flight: self.chatgpt_refresh_in_flight,
            aws_credentials_state: self.aws_credentials_state,
            aws_credentials_refresh_strategy: self.aws_credentials_refresh_strategy@,
            geap_credentials_state: self.geap_credentials_state@,
            keys_write_version: self.keys_write_version,
            grok_write_version: self.grok_write_version,
            chatgpt_write_version: self.chatgpt_write_version,
        }
    }
}

/// The access token of a subscription that can be sent.
pub open spec fn usable(tokens: Option<crate::tokens::TokensView>) -> Option<Seq<char>> {
    match tokens {
        Some(tokens) => tokens.token_for_request(),
        None => None,
    }
}

/// The direct-provider bridge takes `url`, whatever whitespace surrounds it.
pub open spec fn called_directly(url: Seq<char>) -> bool {
    crate::direct::direct_endpoint(crate::text::trimmed(url))
}

impl ManagerView {
    /// The number of writes of an entry that were begun.
    pub open spec fn write_version(self, entry: StorageEntry) -> u64 {
        match entry {
            StorageEntry::Keys => self.keys_write_version,
            StorageEntry::GrokTokens => self.grok_write_version,
            StorageEntry::ChatGptTokens => self.chatgpt_write_version,
        }
    }

    /// The state after a write of an entry was begun.
    pub open spec fn after_begin_write(self, entry: StorageEntry) -> ManagerView {
        let next = (self.write_version(entry) + 1) as u64;
        match entry {
            StorageEntry::Keys => ManagerView { keys_write_version: next, ..self },
            StorageEntry::GrokTokens => ManagerView { grok_write_version: next, ..self },
            StorageEntry::ChatGptTokens => ManagerView { chatgpt_write_version: next, ..self },
        }
    }

    /// The write still counts.
    pub open spec fn is_current(self, ticket: WriteTicket) -> bool {
        ticket.version == self.write_version(ticket.entry)
    }

    /// What a write that comes up does to the storage: nothing if it is stale, else the key it goes
    /// to, and the text to write there or nothing where the entry is to be removed.
    pub open spec fn committed(
        self,
        ticket: WriteTicket,
        payload: Option<Seq<char>>,
    ) -> Option<(Seq<char>, Option<Seq<char>>)> {
        if self.is_current(ticket) {
            Some((ticket.entry.key_view(), payload))
        } else {
            None
        }
    }

    /// The user has any usable credential of their own.
    pub open spec fn has_any_key(self) -> bool {
        self.keys.has_any_key() || usable(self.grok_tokens) is Some || usable(self.chatgpt_tokens)
            is Some
    }

    /// What could go out with a request.
    pub open spec fn stored_credentials(self) -> crate::request::StoredCredentials {
        crate::request::StoredCredentials {
            keys: self.keys,
            grok_tokens: self.grok_tokens,
            aws_credentials: self.aws_credentials_state.loaded(),
            aws_managed: self.aws_credentials_refresh_strategy is OidcManaged,
            geap: self.geap_credentials_state,
        }
    }

    /// The state with another key for Google.
    pub open spec fn with_google_key(self, key: Option<Seq<char>>) -> ManagerView {
        ManagerView { keys: crate::keys::ApiKeysView { google: key, ..self.keys }, ..self }
    }

    /// The state with another key for Anthropic.
    pub open spec fn with_anthropic_key(self, key: Option<Seq<char>>) -> ManagerView {
        ManagerView { keys: crate::keys::ApiKeysView { anthropic: key, ..self.keys }, ..self }
    }

    /// The state with another key for OpenAI.
    pub open spec fn with_openai_key(self, key: Option<Seq<char>>) -> ManagerView {
        ManagerView { keys: crate::keys::ApiKeysView { openai: key, ..self.keys }, ..self }
    }

    /// The state with another key for OpenRouter.
    pub open spec fn with_open_router_key(self, key: Option<Seq<char>>) -> ManagerView {
        ManagerView { keys: crate::keys::ApiKeysView { open_router: key, ..self.keys }, ..self }
    }

    /// The state with other tokens of the Grok subscription.
    pub open spec fn with_grok_tokens(
        self,
        tokens: Option<crate::tokens::TokensView>,
    ) -> ManagerView {
        ManagerView { grok_tokens: tokens, ..self }
    }

    /// The state with other tokens of the ChatGPT subscription.
    pub open spec fn with_chatgpt_tokens(
        self,
        tokens: Option<crate::tokens::TokensView>,
    ) -> ManagerView {
        ManagerView { chatgpt_tokens: tokens, ..self }
    }

    /// The state with other AWS credentials.
    pub open spec fn with_aws_state(self, state: AwsCredentialsState) -> ManagerView {
        ManagerView { aws_credentials_state: state, ..self }
    }

    /// The state with another way to refresh AWS credentials.
    pub open spec fn with_aws_strategy(
        self,
        strategy: crate::credentials::StrategyView,
    ) -> ManagerView {
        ManagerView { aws_credentials_refresh_strategy: strategy, ..self }
    }

    /// The state with other Gemini Enterprise credentials.
    pub open spec fn with_geap_state(
        self,
        state: crate::credentials::GeapStateView,
    ) -> ManagerView {
        ManagerView { geap_credentials_state: state, ..self }
    }

    /// The providers that a request registers.
    pub open spec fn registered_providers(self, include_custom_models: bool) -> Seq<
        crate::request::ProviderView,
    > {
        crate::request::registered_endpoints(
            self.keys.custom_endpoints,
            include_custom_models,
            usable(self.chatgpt_tokens),
        )
    }

    /// The keys and credentials that a request carries.
    pub open spec fn sent_keys(
        self,
        include_byo_keys: bool,
        include_aws_bedrock_credentials: bool,
        geap_binding: Option<crate::credentials::BindingView>,
    ) -> crate::request::RequestKeysView {
        crate::request::request_keys(
            self.stored_credentials(),
            include_byo_keys,
            include_aws_bedrock_credentials,
            geap_binding,
        )
    }

    /// The refresh to start when it is set at `now` whether refreshing is allowed.
    pub open spec fn plan_when_set(
        self,
        allowed: bool,
        now: Timestamp,
    ) -> Option<crate::chatgpt::PlanView> {
        if self.chatgpt_refresh_allowed == allowed {
            None
        } else {
            (ManagerView { chatgpt_refresh_allowed: allowed, ..self }).next_refresh(now)
        }
    }

    /// The state after a refresh with `refresh_token` was to start.
    pub open spec fn after_start(self, refresh_token: Seq<char>) -> ManagerView {
        ManagerView {
            chatgpt_refresh_in_flight: self.chatgpt_refresh_in_flight || self.refresh_is_due(
                refresh_token,
            ),
            ..self
        }
    }

    /// A model with the config key `model` is one of the ChatGPT subscription.
    pub open spec fn has_subscription_model(self, model: Seq<char>) -> bool {
        exists|i: int|
            0 <= i < self.keys.custom_endpoints.len() && crate::oauth::chatgpt_subscription_base(
                (#[trigger] self.keys.custom_endpoints[i]).url,
            ) && self.keys.custom_endpoints[i].has_model(model)
    }

    /// A model with the config key `model` is one that the client calls itself.
    pub open spec fn has_direct_model(self, model: Seq<char>) -> bool {
        exists|i: int|
            0 <= i < self.keys.custom_endpoints.len() && called_directly(
                (#[trigger] self.keys.custom_endpoints[i]).url,
            ) && self.keys.custom_endpoints[i].has_model(model)
    }

    /// The state with other custom endpoints.
    pub open spec fn with_endpoints(self, endpoints: Seq<crate::keys::EndpointView>) -> ManagerView {
        ManagerView {
            keys: crate::keys::ApiKeysView { custom_endpoints: endpoints, ..self.keys },
            ..self
        }
    }

    /// The state after ChatGPT tokens were stored that a response received at `now` leads to.
    pub open spec fn after_response(
        self,
        response: crate::chatgpt::ResponseView,
        now: Timestamp,
    ) -> ManagerView {
        ManagerView {
            chatgpt_tokens: Some(
                crate::chatgpt::tokens_from(response, self.chatgpt_tokens, now),
            ),
            ..self
        }
    }

    /// The next refresh of the ChatGPT tokens as of `now`.
    pub open spec fn next_refresh(self, now: Timestamp) -> Option<crate::chatgpt::PlanView> {
        crate::chatgpt::refresh_plan(self.chatgpt_refresh_allowed, self.chatgpt_tokens, now)
    }

    /// A refresh with `refresh_token` is to start: it is allowed, the token is still the stored
    /// one, and no other refresh runs.
    pub open spec fn refresh_is_due(self, refresh_token: Seq<char>) -> bool {
        &&& self.chatgpt_refresh_allowed
        &&& !self.chatgpt_refresh_in_flight
        &&& self.chatgpt_tokens matches Some(tokens) && tokens.refresh_token == Some(refresh_token)
    }
}

/// `after` and `update` are what a response received at `now` makes of `before`.
pub open spec fn stored_at(
    before: ManagerView,
    response: crate::chatgpt::ResponseView,
    now: Timestamp,
    after: ManagerView,
    update: TokenUpdate,
) -> bool {
    &&& after == before.after_response(response, now)
    &&& update.effects == if before.chatgpt_tokens == after.chatgpt_tokens {
        no_effects()
    } else {
        updated(Some(StorageEntry::ChatGptTokens))
    }
    &&& crate::chatgpt::seen_plan(update.refresh) == after.next_refresh(now)
}

/// `after` and `update` are what the end of a refresh at `now` makes of `before`: without a
/// response the tokens stay as they are.
pub open spec fn refreshed_at(
    before: ManagerView,
    response: Option<crate::chatgpt::ResponseView>,
    now: Timestamp,
    after: ManagerView,
    update: TokenUpdate,
) -> bool {
    let landed = ManagerView { chatgpt_refresh_in_flight: false, ..before };
    match response {
        Some(response) => stored_at(landed, response, now, after, update),
        None => after == landed && update.effects == no_effects() && update.refresh is None,
    }
}

pub open spec fn opt_response(
    response: Option<TokenResponse>,
) -> Option<crate::chatgpt::ResponseView> {
    match response {
        Some(response) => Some(response@),
        None => None,
    }
}

impl ApiKeyManager {
    /// A manager for what the secure storage held.
    pub fn new(
        keys: ApiKeys,
        grok_tokens: Option<GrokTokens>,
        chatgpt_tokens: Option<ChatGptTokens>,
    ) -> (res: Self)
        ensures
            res@ == (ManagerView {
                keys: keys@,
                grok_tokens: opt_grok(grok_tokens),
                chatgpt_tokens: opt_chatgpt(chatgpt_tokens),
                chatgpt_refresh_allowed: false,
                chatgpt_refresh_in_flight: false,
                aws_credentials_state: AwsCredentialsState::Missing,
                aws_credentials_refresh_strategy: crate::credentials::StrategyView::LocalChain,
                geap_credentials_state: crate::credentials::GeapStateView::Missing,
                keys_write_version: 0,
                grok_write_version: 0,
                chatgpt_write_version: 0,
            }),
    {
        ApiKeyManager {
            keys,
            grok_tokens,
            chatgpt_tokens,
            chatgpt_refresh_allowed: false,
            chatgpt_refresh_in_flight: false,
            aws_credentials_state: AwsCredentialsState::Missing,
            aws_credentials_refresh_strategy: AwsCredentialsRefreshStrategy::LocalChain,
            geap_credentials_state: GeapCredentialsState::Missing,
            keys_write_version: 0,
            grok_write_version: 0,
            chatgpt_write_version: 0,
        }
    }

    pub fn keys(&self) -> (res: &ApiKeys)
        ensures
            res@ == self@.keys,
    {
        &self.keys
    }

    /// The currently stored xAI/Grok OAuth tokens, if the user has connected a
    /// Grok subscription.
    pub fn grok_tokens(&self) -> (res: Option<&GrokTokens>)
        ensures
            crate::request::seen_grok(res) == self@.grok_tokens,
    {
        match &self.grok_tokens {
            Some(tokens) => Some(tokens),
            None => None,
        }
    }

    /// Returns `true` when a Grok subscription is connected with a usable OAuth
    /// access token.
    pub fn has_grok_subscription(&self) -> (res: bool)
        ensures
            res == (usable(self@.grok_tokens) is Some),
    {
        match &self.grok_tokens {
            Some(tokens) => tokens.access_token_for_request().is_some(),
            None => false,
        }
    }

    /// The currently stored ChatGPT OAuth tokens, if the user has connected a
    /// ChatGPT Plus/Pro/Team subscription.
    pub fn chatgpt_tokens(&self) -> (res: Option<&ChatGptTokens>)
        ensures
            crate::chatgpt::seen_tokens(res) == self@.chatgpt_tokens,
    {
        match &self.chatgpt_tokens {
            Some(tokens) => Some(tokens),
            None => None,
        }
    }

    /// Returns `true` when a ChatGPT subscription is connected with a usable
    /// OAuth access token.
    pub fn has_chatgpt_subscription(&self) -> (res: bool)
        ensures
            res == (usable(self@.chatgpt_tokens) is Some),
    {
        match &self.chatgpt_tokens {
            Some(tokens) => tokens.access_token_for_request().is_some(),
            None => false,
        }
    }

    /// Returns `true` when the user has any usable BYO credential: a pasted
    /// provider or custom-endpoint key, or a connected subscription.
    pub fn has_any_key(&self) -> (res: bool)
        ensures
            res == self@.has_any_key(),
    {
        self.keys.has_any_key() || self.has_grok_subscription() || self.has_chatgpt_subscription()
    }

    /// Stores (or clears) the ChatGPT OAuth tokens. No-op when the value is unchanged.
    pub fn set_chatgpt_tokens(&mut self, tokens: Option<ChatGptTokens>) -> (res: Effects)
        ensures
            final(self)@ == old(self)@.with_chatgpt_tokens(opt_chatgpt(tokens)),
            res == if old(self)@.chatgpt_tokens == opt_chatgpt(tokens) {
                no_effects()
            } else {
                updated(Some(StorageEntry::ChatGptTokens))
            },
    {
        let unchanged = match (&self.chatgpt_tokens, &tokens) {
            (Some(stored), Some(given)) => stored.same(given),
            (None, None) => true,
            _ => false,
        };
        if unchanged {
            return Effects { event: None, persist: None };
        }
        self.chatgpt_tokens = tokens;
        Effects {
            event: Some(ApiKeyManagerEvent::KeysUpdated),
            persist: Some(StorageEntry::ChatGptTokens),
        }
    }

    /// Stores (or clears, with `None`) the xAI/Grok OAuth tokens. No-op when the value is
    /// unchanged so we don't emit spurious events or schedule redundant keychain writes.
    pub fn set_grok_tokens(&mut self, tokens: Option<GrokTokens>) -> (res: Effects)
        ensures
            final(self)@ == old(self)@.with_grok_tokens(opt_grok(tokens)),
            res == if old(self)@.grok_tokens == opt_grok(tokens) {
                no_effects()
            } else {
                updated(Some(StorageEntry::GrokTokens))
            },
    {
        let unchanged = match (&self.grok_tokens, &tokens) {
            (Some(stored), Some(given)) => stored.same(given),
            (None, None) => true,
            _ => false,
        };
        if unchanged {
            return Effects { event: None, persist: None };
        }
        self.grok_tokens = tokens;
        Effects {
            event: Some(ApiKeyManagerEvent::KeysUpdated),
            persist: Some(StorageEntry::GrokTokens),
        }
    }

    pub fn set_google_key(&mut self, key: Option<String>) -> (res: Effects)
        ensures
            final(self)@ == old(self)@.with_google_key(crate::text::opt_text(key)),
            res == updated(Some(StorageEntry::Keys)),
    {
        self.keys.google = key;
        Effects {
            event: Some(ApiKeyManagerEvent::KeysUpdated),
            persist: Some(StorageEntry::Keys),
        }
    }

    pub fn set_anthropic_key(&mut self, key: Option<String>) -> (res: Effects)
        ensures
            final(self)@ == old(self)@.with_anthropic_key(crate::text::opt_text(key)),
            res == updated(Some(StorageEntry::Keys)),
    {
        self.keys.anthropic = key;
        Effects {
            event: Some(ApiKeyManagerEvent::KeysUpdated),
            persist: Some(StorageEntry::Keys),
        }
    }

    pub fn set_openai_key(&mut self, key: Option<String>) -> (res: Effects)
        ensures
            final(self)@ == old(self)@.with_openai_key(crate::text::opt_text(key)),
            res == updated(Some(StorageEntry::Keys)),
    {
        self.keys.openai = key;
        Effects {
            event: Some(ApiKeyManagerEvent::KeysUpdated),
            persist: Some(StorageEntry::Keys),
        }
    }

    pub fn set_open_router_key(&mut self, key: Option<String>) -> (res: Effects)
        ensures
            final(self)@ == old(self)@.with_open_router_key(crate::text::opt_text(key)),
            res == updated(Some(StorageEntry::Keys)),
    {
        self.keys.open_router = key;
        Effects {
            event: Some(ApiKeyManagerEvent::KeysUpdated),
            persist: Some(StorageEntry::Keys),
        }
    }

    /// Adds a custom endpoint behind those that are there.
    pub fn add_custom_endpoint(&mut self, params: CustomEndpointParams) -> (res: Effects)
        ensures
            final(self)@ == old(self)@.with_endpoints(final(self)@.keys.custom_endpoints),
            final(self)@.keys.custom_endpoints.len() == old(self)@.keys.custom_endpoints.len() + 1,
            final(self)@.keys.custom_endpoints.drop_last() == old(self)@.keys.custom_endpoints,
            crate::keys::endpoint_from(params, final(self)@.keys.custom_endpoints.last()),
            res == updated(Some(StorageEntry::Keys)),
    {
        let ghost earlier = self.keys.custom_endpoints@;
        let endpoint = build_endpoint(params);
        self.keys.custom_endpoints.push(endpoint);
        assert(self@.keys.custom_endpoints =~= crate::keys::endpoint_views(earlier).push(
            endpoint@,
        ));
        assert(self@.keys.custom_endpoints.drop_last() =~= crate::keys::endpoint_views(earlier));
        Effects {
            event: Some(ApiKeyManagerEvent::KeysUpdated),
            persist: Some(StorageEntry::Keys),
        }
    }

    /// Replaces the custom endpoint at `index`. No-op when there is none.
    pub fn save_custom_endpoint(&mut self, index: usize, params: CustomEndpointParams) -> (res:
        Effects)
        ensures
            index >= old(self)@.keys.custom_endpoints.len() ==> final(self)@ == old(self)@ && res
                == no_effects(),
            index < old(self)@.keys.custom_endpoints.len() ==> {
                &&& final(self)@ == old(self)@.with_endpoints(
                    old(self)@.keys.custom_endpoints.update(
                        index as int,
                        final(self)@.keys.custom_endpoints[index as int],
                    ),
                )
                &&& crate::keys::endpoint_from(
                    params,
                    final(self)@.keys.custom_endpoints[index as int],
                )
                &&& res == updated(Some(StorageEntry::Keys))
            },
    {
        if index >= self.keys.custom_endpoints.len() {
            return Effects { event: None, persist: None };
        }
        let ghost earlier = self.keys.custom_endpoints@;
        let endpoint = build_endpoint(params);
        self.keys.custom_endpoints.set(index, endpoint);
        assert(self@.keys.custom_endpoints =~= crate::keys::endpoint_views(earlier).update(
            index as int,
            endpoint@,
        ));
        Effects {
            event: Some(ApiKeyManagerEvent::KeysUpdated),
            persist: Some(StorageEntry::Keys),
        }
    }

    /// Removes the custom endpoint at `index`. No-op when there is none.
    pub fn remove_custom_endpoint(&mut self, index: usize) -> (res: Effects)
        ensures
            index >= old(self)@.keys.custom_endpoints.len() ==> final(self)@ == old(self)@ && res
                == no_effects(),
            index < old(self)@.keys.custom_endpoints.len() ==> final(self)@
                == old(self)@.with_endpoints(
                old(self)@.keys.custom_endpoints.remove(index as int),
            ) && res == updated(Some(StorageEntry::Keys)),
    {
        if index >= self.keys.custom_endpoints.len() {
            return Effects { event: None, persist: None };
        }
        let ghost earlier = self.keys.custom_endpoints@;
        self.keys.custom_endpoints.remove(index);
        assert(self@.keys.custom_endpoints =~= crate::keys::endpoint_views(earlier).remove(
            index as int,
        ));
        Effects {
            event: Some(ApiKeyManagerEvent::KeysUpdated),
            persist: Some(StorageEntry::Keys),
        }
    }

    /// Removes all custom endpoints. No-op when there is none.
    pub fn clear_custom_endpoints(&mut self) -> (res: Effects)
        ensures
            final(self)@ == old(self)@.with_endpoints(Seq::empty()),
            res == if old(self)@.keys.custom_endpoints.len() == 0 {
                no_effects()
            } else {
                updated(Some(StorageEntry::Keys))
            },
    {
        assert(self@.keys.custom_endpoints.len() == self.keys.custom_endpoints@.len());
        if self.keys.custom_endpoints.len() == 0 {
            assert(self@.keys.custom_endpoints =~= Seq::empty());
            return Effects { event: None, persist: None };
        }
        self.keys.custom_endpoints.clear();
        assert(self@.keys.custom_endpoints =~= Seq::empty());
        Effects {
            event: Some(ApiKeyManagerEvent::KeysUpdated),
            persist: Some(StorageEntry::Keys),
        }
    }

    pub fn set_aws_credentials_state(&mut self, state: AwsCredentialsState) -> (res: Effects)
        ensures
            final(self)@ == old(self)@.with_aws_state(state),
            res == updated(None),
    {
        self.aws_credentials_state = state;
        Effects { event: Some(ApiKeyManagerEvent::KeysUpdated), persist: None }
    }

    pub fn aws_credentials_state(&self) -> (res: &AwsCredentialsState)
        ensures
            *res == self@.aws_credentials_state,
    {
        &self.aws_credentials_state
    }

    /// Stores where the Gemini Enterprise credentials stand. No-op when nothing changes.
    pub fn set_geap_credentials_state(&mut self, state: GeapCredentialsState) -> (res: Effects)
        ensures
            final(self)@ == old(self)@.with_geap_state(state@),
            res == if old(self)@.geap_credentials_state == state@ {
                no_effects()
            } else {
                updated(None)
            },
    {
        if self.geap_credentials_state.same(&state) {
            return Effects { event: None, persist: None };
        }
        self.geap_credentials_state = state;
        Effects { event: Some(ApiKeyManagerEvent::KeysUpdated), persist: None }
    }

    pub fn geap_credentials_state(&self) -> (res: &GeapCredentialsState)
        ensures
            res@ == self@.geap_credentials_state,
    {
        &self.geap_credentials_state
    }

    pub fn aws_credentials_refresh_strategy(&self) -> (res: AwsCredentialsRefreshStrategy)
        ensures
            res@ == self@.aws_credentials_refresh_strategy,
    {
        self.aws_credentials_refresh_strategy.clone()
    }

    pub fn set_aws_credentials_refresh_strategy(&mut self, strategy: AwsCredentialsRefreshStrategy)
        ensures
            final(self)@ == old(self)@.with_aws_strategy(strategy@),
    {
        self.aws_credentials_refresh_strategy = strategy;
    }

    /// Builds the registry of custom models that ships with every agent request.
    ///
    /// Emits one provider per configured endpoint that can be sent, each populated with its
    /// models. The per-model `config_key` is what the server uses to map a model selection back to
    /// a user-provided endpoint, so it is the key that is stored.
    ///
    /// Returns `None` when no endpoint is to be sent.
    pub fn custom_model_providers_for_request(&self, include_custom_models: bool) -> (res: Option<
        Vec<CustomModelProvider>,
    >)
        ensures
            res is Some <==> self@.registered_providers(include_custom_models).len() > 0,
            res matches Some(providers) ==> crate::request::provider_views(providers@)
                == self@.registered_providers(include_custom_models),
    {
        let access_token = match &self.chatgpt_tokens {
            Some(tokens) => tokens.access_token_for_request(),
            None => None,
        };
        register_endpoints(&self.keys.custom_endpoints, include_custom_models, access_token)
    }

    /// Returns whether a model config key belongs to the ChatGPT subscription
    /// endpoint. This is used by the client to keep local provider task state
    /// separate from Warp-server conversations.
    pub fn is_chatgpt_subscription_model(&self, model: &str) -> (res: bool)
        ensures
            res == self@.has_subscription_model(model@),
    {
        let n: usize = self.keys.custom_endpoints.len();
        let mut i: usize = 0;
        while i < n
            invariant
                i <= n == self.keys.custom_endpoints@.len(),
                forall|j: int|
                    0 <= j < i ==> !(crate::oauth::chatgpt_subscription_base(
                        (#[trigger] self@.keys.custom_endpoints[j]).url,
                    ) && self@.keys.custom_endpoints[j].has_model(model@)),
            decreases n - i,
        {
            let endpoint = &self.keys.custom_endpoints[i];
            assert(self@.keys.custom_endpoints[i as int] == endpoint@);
            if is_chatgpt_subscription_base(endpoint.url.as_str()) && endpoint.has_model(model) {
                return true;
            }
            i += 1;
        }
        false
    }

    /// Returns whether a model is handled by the client-side direct-provider
    /// bridge rather than Warp's cloud agent server.
    pub fn is_direct_custom_model(&self, model: &str) -> (res: bool)
        ensures
            res == self@.has_direct_model(model@),
    {
        let n: usize = self.keys.custom_endpoints.len();
        let mut i: usize = 0;
        while i < n
            invariant
                i <= n == self.keys.custom_endpoints@.len(),
                forall|j: int|
                    0 <= j < i ==> !(called_directly(
                        (#[trigger] self@.keys.custom_endpoints[j]).url,
                    ) && self@.keys.custom_endpoints[j].has_model(model@)),
            decreases n - i,
        {
            let endpoint = &self.keys.custom_endpoints[i];
            assert(self@.keys.custom_endpoints[i as int] == endpoint@);
            let direct = is_direct_endpoint(trim(endpoint.url.as_str()));
            if direct && endpoint.has_model(model) {
                return true;
            }
            i += 1;
        }
        false
    }

    /// The keys and credentials that a request carries: `None` when there is nothing to send.
    pub fn api_keys_for_request(
        &self,
        include_byo_keys: bool,
        include_aws_bedrock_credentials: bool,
        geap_binding: Option<GeapMintBinding>,
    ) -> (res: Option<RequestApiKeys>)
        ensures
            ({
                let sent = self@.sent_keys(
                    include_byo_keys,
                    include_aws_bedrock_credentials,
                    match geap_binding {
                        Some(binding) => Some(binding@),
                        None => None,
                    },
                );
                &&& res is None <==> sent.is_empty()
                &&& res matches Some(request) ==> request@ == sent
            }),
    {
        collect_request_keys(
            &self.keys,
            self.grok_tokens(),
            &self.aws_credentials_state,
            &self.aws_credentials_refresh_strategy,
            &self.geap_credentials_state,
            include_byo_keys,
            include_aws_bedrock_credentials,
            geap_binding.as_ref(),
        )
    }

    /// The number of writes of `entry` that were begun.
    pub fn write_version(&self, entry: StorageEntry) -> (res: u64)
        ensures
            res == self@.write_version(entry),
    {
        match entry {
            StorageEntry::Keys => self.keys_write_version,
            StorageEntry::GrokTokens => self.grok_write_version,
            StorageEntry::ChatGptTokens => self.chatgpt_write_version,
        }
    }

    /// Begins a write of `entry` to the secure storage.
    ///
    /// The write itself is deferred so that it does not block; it is committed with the ticket.
    pub fn begin_write(&mut self, entry: StorageEntry) -> (res: WriteTicket)
        requires
            old(self)@.write_version(entry) < u64::MAX,
        ensures
            final(self)@ == old(self)@.after_begin_write(entry),
            res.entry == entry,
            final(self)@.is_current(res),
    {
        let version: u64 = match entry {
            StorageEntry::Keys => {
                self.keys_write_version += 1;
                self.keys_write_version
            },
            StorageEntry::GrokTokens => {
                self.grok_write_version += 1;
                self.grok_write_version
            },
            StorageEntry::ChatGptTokens => {
                self.chatgpt_write_version += 1;
                self.chatgpt_write_version
            },
        };
        WriteTicket { entry, version }
    }

    /// What to do with the secure storage when a deferred write comes up: write the payload, or
    /// remove the entry when there is none. Stale writes are skipped so that an older write cannot
    /// complete after a newer one and overwrite it.
    pub fn commit_write(&self, ticket: WriteTicket, payload: Option<String>) -> (res: Option<
        StorageCommand,
    >)
        ensures
            seen_command(res) == self@.committed(ticket, crate::text::opt_text(payload)),
    {
        if ticket.version != self.write_version(ticket.entry) {
            return None;
        }
        match payload {
            Some(value) => Some(StorageCommand::Write { key: ticket.entry.key(), value }),
            None => Some(StorageCommand::Remove { key: ticket.entry.key() }),
        }
    }

    /// Stores tokens that were obtained at `now` and plans the next proactive refresh.
    pub fn store_chatgpt_tokens_at(&mut self, response: TokenResponse, now: Timestamp) -> (res:
        TokenUpdate)
        ensures
            stored_at(old(self)@, response@, now, final(self)@, res),
    {
        let tokens = chatgpt_tokens_at(response, self.chatgpt_tokens(), now);
        let effects = self.set_chatgpt_tokens(Some(tokens));
        let refresh = plan_refresh(self.chatgpt_refresh_allowed, self.chatgpt_tokens(), now);
        TokenUpdate { effects, refresh }
    }

    /// Stores freshly obtained tokens and plans the next proactive refresh.
    pub fn store_chatgpt_tokens(&mut self, response: TokenResponse) -> (res: TokenUpdate)
        ensures
            exists|now: Timestamp|
                now.on_a_clock() && #[trigger] stored_at(
                    old(self)@,
                    response@,
                    now,
                    final(self)@,
                    res,
                ),
    {
        let now = now();
        self.store_chatgpt_tokens_at(response, now)
    }

    /// Updates, at `now`, whether background refresh of the stored ChatGPT tokens is allowed.
    pub fn set_chatgpt_refresh_allowed_at(&mut self, allowed: bool, now: Timestamp) -> (res: Option<
        RefreshPlan,
    >)
        ensures
            final(self)@ == (ManagerView { chatgpt_refresh_allowed: allowed, ..old(self)@ }),
            crate::chatgpt::seen_plan(res) == old(self)@.plan_when_set(allowed, now),
    {
        if self.chatgpt_refresh_allowed == allowed {
            return None;
        }
        self.chatgpt_refresh_allowed = allowed;
        plan_refresh(self.chatgpt_refresh_allowed, self.chatgpt_tokens(), now)
    }

    /// Updates whether background refresh of the stored ChatGPT tokens is
    /// allowed. Mirrors the BYO API key policy gate.
    pub fn set_chatgpt_refresh_allowed(&mut self, allowed: bool) -> (res: Option<RefreshPlan>)
        ensures
            final(self)@ == (ManagerView { chatgpt_refresh_allowed: allowed, ..old(self)@ }),
            !allowed || old(self)@.chatgpt_refresh_allowed ==> res is None,
            !old(self)@.chatgpt_refresh_allowed ==> exists|now: Timestamp|
                now.on_a_clock() && crate::chatgpt::seen_plan(res)
                    == #[trigger] final(self)@.next_refresh(now),
    {
        let now = now();
        self.set_chatgpt_refresh_allowed_at(allowed, now)
    }

    /// Decides, when a planned refresh comes up, whether it is to start; if so, it counts as
    /// running from then on.
    pub fn start_chatgpt_refresh(&mut self, refresh_token: &str) -> (res: bool)
        ensures
            res == old(self)@.refresh_is_due(refresh_token@),
            final(self)@ == old(self)@.after_start(refresh_token@),
    {
        if !self.chatgpt_refresh_allowed {
            return false;
        }
        let still_current = match &self.chatgpt_tokens {
            Some(tokens) => match &tokens.refresh_token {
                Some(stored) => same_text(stored.as_str(), refresh_token),
                None => false,
            },
            None => false,
        };
        if !still_current || self.chatgpt_refresh_in_flight {
            return false;
        }
        self.chatgpt_refresh_in_flight = true;
        true
    }

    /// Takes the result of a refresh that ended at `now`.
    pub fn finish_chatgpt_refresh_at(
        &mut self,
        response: Option<TokenResponse>,
        now: Timestamp,
    ) -> (res: TokenUpdate)
        ensures
            refreshed_at(old(self)@, opt_response(response), now, final(self)@, res),
    {
        self.chatgpt_refresh_in_flight = false;
        match response {
            Some(response) => self.store_chatgpt_tokens_at(response, now),
            None => TokenUpdate {
                effects: Effects { event: None, persist: None },
                refresh: None,
            },
        }
    }

    /// Takes the result of a refresh: the new tokens, or nothing when it failed.
    pub fn finish_chatgpt_refresh(&mut self, response: Option<TokenResponse>) -> (res: TokenUpdate)
        ensures
            exists|now: Timestamp|
                now.on_a_clock() && #[trigger] refreshed_at(
                    old(self)@,
                    opt_response(response),
                    now,
                    final(self)@,
                    res,
                ),
    {
        let now = now();
        self.finish_chatgpt_refresh_at(response, now)
    }
}

/// A write that was begun before another one of the same entry is stale and will never be
/// committed, so an older write cannot complete after a newer one and overwrite it.
pub proof fn law_older_writes_are_stale(manager: ManagerView, ticket: WriteTicket)
    requires
        ticket.version <= manager.write_version(ticket.entry) < u64::MAX,
    ensures
        !manager.after_begin_write(ticket.entry).is_current(ticket),
        ticket.version <= manager.after_begin_write(ticket.entry).write_version(ticket.entry),
{
}

/// Writes of different entries do not get in each other's way.
pub proof fn law_writes_are_independent(
    manager: ManagerView,
    ticket: WriteTicket,
    other: StorageEntry,
)
    requires
        other != ticket.entry,
    ensures
        manager.after_begin_write(other).is_current(ticket) == manager.is_current(ticket),
{
}

/// No refresh starts while another one runs, while refreshing is not allowed, or with a token that
/// has been replaced.
pub proof fn law_refreshes_do_not_race(manager: ManagerView, refresh_token: Seq<char>)
    requires
        manager.refresh_is_due(refresh_token),
    ensures
        manager.chatgpt_refresh_allowed,
        manager.chatgpt_tokens matches Some(tokens) && tokens.refresh_token == Some(refresh_token),
        forall|other: Seq<char>|
            !(#[trigger] (ManagerView {
                chatgpt_refresh_in_flight: true,
                ..manager
            }).refresh_is_due(other)),
{
}

/// A planned refresh is due when its time comes, provided that nothing has changed since.
pub proof fn law_planned_refreshes_are_due(manager: ManagerView, now: Timestamp)
    requires
        !manager.chatgpt_refresh_in_flight,
        manager.next_refresh(now) is Some,
    ensures
        manager.next_refresh(now) matches Some(plan) && manager.refresh_is_due(plan.refresh_token),
{
}

/// A key or token that a request carries on the user's behalf is one that the manager says the user
/// has.
pub proof fn law_sent_keys_belong_to_the_user(
    manager: ManagerView,
    include_byo_keys: bool,
    include_aws_bedrock_credentials: bool,
    geap_binding: Option<crate::credentials::BindingView>,
)
    ensures
        ({
            let sent = crate::request::request_keys(
                manager.stored_credentials(),
                include_byo_keys,
                include_aws_bedrock_credentials,
                geap_binding,
            );
            sent.anthropic.len() > 0 || sent.openai.len() > 0 || sent.google.len() > 0
                || sent.open_router.len() > 0 || sent.grok_oauth_access_token.len() > 0
                ==> manager.has_any_key()
        }),
{
}

/// A model is direct exactly where the bridge takes it: of a request that registers the endpoint
/// and selects the model, the bridge says so too.
pub proof fn law_bridge_takes_direct_models(
    endpoint: crate::keys::EndpointView,
    request: crate::direct::Request,
    i: int,
)
    requires
        0 <= i < crate::direct::providers_of(request).len(),
        crate::direct::providers_of(request)[i].base_url == endpoint.url,
        crate::direct::serves(
            crate::direct::providers_of(request)[i],
            crate::direct::selection_of(request),
        ),
    ensures
        called_directly(endpoint.url) ==> crate::direct::uses_direct_endpoint(request),
        crate::direct::providers_of(request).len() == 1 ==> crate::direct::uses_direct_endpoint(
            request,
        ) == called_directly(endpoint.url),
{
    let provider = crate::direct::providers_of(request)[i];
    assert(crate::direct::direct_endpoint(crate::text::trimmed(provider.base_url))
        == called_directly(endpoint.url));
}

impl ManagerView {
    /// The state after `n` writes of an entry were begun.
    pub open spec fn after_writes(self, entry: StorageEntry, n: nat) -> ManagerView
        decreases n,
    {
        if n == 0 {
            self
        } else {
            self.after_writes(entry, (n - 1) as nat).after_begin_write(entry)
        }
    }

    /// The ticket of the `k`th of the writes that are begun from here on.
    pub open spec fn ticket(self, entry: StorageEntry, k: nat) -> WriteTicket {
        WriteTicket { entry, version: (self.write_version(entry) + k) as u64 }
    }
}

/// Of the writes of an entry that were begun one after the other, only the last touches the
/// storage, in whatever order they come up: it writes its payload under the key of the entry, or
/// removes the entry if there is none.
pub proof fn law_only_the_last_write_counts(
    manager: ManagerView,
    entry: StorageEntry,
    n: nat,
    k: nat,
    payload: Option<Seq<char>>,
)
    requires
        1 <= k <= n,
        manager.write_version(entry) + n <= u64::MAX,
    ensures
        manager.after_writes(entry, k).is_current(manager.ticket(entry, k)),
        manager.after_writes(entry, n).committed(manager.ticket(entry, k), payload) == if k == n {
            Some((entry.key_view(), payload))
        } else {
            None
        },
{
    lemma_writes_are_counted(manager, entry, k);
    lemma_writes_are_counted(manager, entry, n);
}

proof fn lemma_writes_are_counted(manager: ManagerView, entry: StorageEntry, n: nat)
    requires
        manager.write_version(entry) + n <= u64::MAX,
    ensures
        manager.after_writes(entry, n).write_version(entry) == manager.write_version(entry) + n,
    decreases n,
{
    if n > 0 {
        lemma_writes_are_counted(manager, entry, (n - 1) as nat);
    }
}

/// A request carries the user's own keys, each for its provider, and the credentials that are
/// loaded.
pub proof fn law_requests_carry_the_stored_keys(
    manager: ManagerView,
    include_aws_bedrock_credentials: bool,
    geap_binding: Option<crate::credentials::BindingView>,
)
    ensures
        ({
            let sent = manager.sent_keys(true, include_aws_bedrock_credentials, geap_binding);
            &&& crate::request::sent_as_stored(sent.anthropic, manager.keys.anthropic)
            &&& crate::request::sent_as_stored(sent.openai, manager.keys.openai)
            &&& crate::request::sent_as_stored(sent.google, manager.keys.google)
            &&& crate::request::sent_as_stored(sent.open_router, manager.keys.open_router)
            &&& crate::request::sent_as_stored(
                sent.grok_oauth_access_token,
                usable(manager.grok_tokens),
            )
            &&& manager.aws_credentials_state matches AwsCredentialsState::Loaded { credentials }
                ==> (include_aws_bedrock_credentials ==> sent.aws_credentials == Some(credentials@))
            &&& !(manager.aws_credentials_state is Loaded) ==> sent.aws_credentials is None
            &&& manager.aws_credentials_refresh_strategy is LocalChain
                && !include_aws_bedrock_credentials ==> sent.aws_credentials is None
            &&& (manager.aws_credentials_refresh_strategy is OidcManaged ==> (
            manager.aws_credentials_state matches AwsCredentialsState::Loaded { credentials }
                ==> sent.aws_credentials == Some(credentials@)))
        }),
{
}

/// The tokens of a subscription can be used exactly where there are some that are not blank.
pub proof fn law_blank_tokens_are_of_no_use(tokens: crate::tokens::TokensView)
    ensures
        usable(None) is None,
        crate::text::blank(tokens.access_token) ==> usable(Some(tokens)) is None,
        !crate::text::blank(tokens.access_token) ==> usable(Some(tokens)) == Some(
            tokens.access_token,
        ),
{
}

/// A subscription that can be used counts as a key beside the user's own; without one only those
/// count.
pub proof fn law_subscriptions_count_as_keys(
    manager: ManagerView,
    tokens: crate::tokens::TokensView,
)
    ensures
        manager.keys.has_any_key() ==> manager.has_any_key(),
        !crate::text::blank(tokens.access_token) ==> (ManagerView {
            grok_tokens: Some(tokens),
            ..manager
        }).has_any_key() && (ManagerView { chatgpt_tokens: Some(tokens), ..manager }).has_any_key(),
        (ManagerView { grok_tokens: None, chatgpt_tokens: None, ..manager }).has_any_key()
            == manager.keys.has_any_key(),
{
}

/// A refresh that fails changes nothing but that it is over, and nothing is stored or announced.
pub proof fn law_failed_refreshes_change_nothing(
    before: ManagerView,
    now: Timestamp,
    after: ManagerView,
    update: TokenUpdate,
)
    requires
        refreshed_at(before, None, now, after, update),
    ensures
        after.chatgpt_tokens == before.chatgpt_tokens,
        after.keys == before.keys,
        after.grok_tokens == before.grok_tokens,
        !after.chatgpt_refresh_in_flight,
        update.effects.event is None,
        update.effects.persist is None,
        update.refresh is None,
{
}

/// New tokens are kept and stored, the refresh that brought them is over, and the next one is
/// planned; nothing else changes.
pub proof fn law_refreshed_tokens_are_stored(
    before: ManagerView,
    response: crate::chatgpt::ResponseView,
    now: Timestamp,
    after: ManagerView,
    update: TokenUpdate,
)
    requires
        refreshed_at(before, Some(response), now, after, update),
    ensures
        after.chatgpt_tokens matches Some(tokens) && tokens.access_token == response.access_token,
        after.keys == before.keys,
        after.grok_tokens == before.grok_tokens,
        after.chatgpt_refresh_allowed == before.chatgpt_refresh_allowed,
        !after.chatgpt_refresh_in_flight,
        after.chatgpt_tokens != before.chatgpt_tokens ==> update.effects.persist == Some(
            StorageEntry::ChatGptTokens,
        ) && update.effects.event is Some,
        after.chatgpt_tokens == before.chatgpt_tokens ==> update.effects.persist is None
            && update.effects.event is None,
        !before.chatgpt_refresh_allowed ==> update.refresh is None,
        update.refresh matches Some(plan) ==> (after.chatgpt_tokens matches Some(tokens)
            && tokens.refresh_token == Some(plan.refresh_token@)),
{
}

/// A write that is current is carried out with what it was to write, under the key of its entry:
/// a value is written, nothing is removed. Beginning a write of an entry changes nothing but the
/// count of its writes.
pub proof fn law_current_writes_are_carried_out(
    manager: ManagerView,
    ticket: WriteTicket,
    payload: Option<Seq<char>>,
)
    ensures
        ticket.version == manager.write_version(ticket.entry) ==> manager.committed(ticket, payload)
            == Some((ticket.entry.key_view(), payload)),
        ticket.version != manager.write_version(ticket.entry) ==> manager.committed(ticket, payload)
            is None,
        manager.after_begin_write(ticket.entry).keys == manager.keys,
        manager.after_begin_write(ticket.entry).grok_tokens == manager.grok_tokens,
        manager.after_begin_write(ticket.entry).chatgpt_tokens == manager.chatgpt_tokens,
        manager.write_version(ticket.entry) < u64::MAX ==> manager.after_begin_write(
            ticket.entry,
        ).write_version(ticket.entry) == manager.write_version(ticket.entry) + 1,
{
}

/// A key that the user sets is the one that is sent, and the other keys are sent as before.
pub proof fn law_set_keys_are_sent(
    manager: ManagerView,
    key: Option<Seq<char>>,
    include_aws_bedrock_credentials: bool,
    geap_binding: Option<crate::credentials::BindingView>,
)
    ensures
        ({
            let sent = |manager: ManagerView|
                manager.sent_keys(true, include_aws_bedrock_credentials, geap_binding);
            let before = sent(manager);
            let google = sent(manager.with_google_key(key));
            let anthropic = sent(manager.with_anthropic_key(key));
            let openai = sent(manager.with_openai_key(key));
            let open_router = sent(manager.with_open_router_key(key));
            &&& crate::request::sent_as_stored(google.google, key)
            &&& crate::request::sent_as_stored(anthropic.anthropic, key)
            &&& crate::request::sent_as_stored(openai.openai, key)
            &&& crate::request::sent_as_stored(open_router.open_router, key)
            &&& google == crate::request::RequestKeysView { google: google.google, ..before }
            &&& anthropic == crate::request::RequestKeysView {
                anthropic: anthropic.anthropic,
                ..before
            }
            &&& openai == crate::request::RequestKeysView { openai: openai.openai, ..before }
            &&& open_router == crate::request::RequestKeysView {
                open_router: open_router.open_router,
                ..before
            }
        }),
{
}

/// The tokens that are set are the ones that are used, each for its own subscription, and the keys
/// stay as they are.
pub proof fn law_set_tokens_are_used(
    manager: ManagerView,
    tokens: Option<crate::tokens::TokensView>,
    include_aws_bedrock_credentials: bool,
    geap_binding: Option<crate::credentials::BindingView>,
)
    ensures
        crate::request::sent_as_stored(
            manager.with_grok_tokens(tokens).sent_keys(
                true,
                include_aws_bedrock_credentials,
                geap_binding,
            ).grok_oauth_access_token,
            usable(tokens),
        ),
        usable(manager.with_chatgpt_tokens(tokens).chatgpt_tokens) == usable(tokens),
        manager.with_grok_tokens(tokens).chatgpt_tokens == manager.chatgpt_tokens,
        manager.with_chatgpt_tokens(tokens).grok_tokens == manager.grok_tokens,
        manager.with_grok_tokens(tokens).keys == manager.keys,
        manager.with_chatgpt_tokens(tokens).keys == manager.keys,
{
}

/// A model belongs to the subscription, or is called directly, through an endpoint that holds it:
/// a further endpoint adds its own models and takes none away.
pub proof fn law_endpoints_bring_their_models(
    manager: ManagerView,
    endpoint: crate::keys::EndpointView,
    model: Seq<char>,
)
    ensures
        ({
            let more = manager.with_endpoints(manager.keys.custom_endpoints.push(endpoint));
            &&& more.has_direct_model(model) <==> manager.has_direct_model(model) || (
            crate::direct::direct_endpoint(crate::text::trimmed(endpoint.url))
                && endpoint.has_model(model))
            &&& more.has_subscription_model(model) <==> manager.has_subscription_model(model) || (
            crate::oauth::chatgpt_subscription_base(endpoint.url) && endpoint.has_model(model))
            &&& !manager.with_endpoints(Seq::empty()).has_direct_model(model)
            &&& !manager.with_endpoints(Seq::empty()).has_subscription_model(model)
        }),
{
    let endpoints = manager.keys.custom_endpoints;
    let all = endpoints.push(endpoint);
    let more = manager.with_endpoints(all);
    assert(all[endpoints.len() as int] == endpoint);
    assert(forall|i: int| 0 <= i < endpoints.len() ==> #[trigger] all[i] == endpoints[i]);
    if manager.has_direct_model(model) {
        let i = choose|i: int|
            0 <= i < endpoints.len() && called_directly((#[trigger] endpoints[i]).url)
                && endpoints[i].has_model(model);
        assert(more.keys.custom_endpoints[i] == endpoints[i]);
    }
    if manager.has_subscription_model(model) {
        let i = choose|i: int|
            0 <= i < endpoints.len() && crate::oauth::chatgpt_subscription_base(
                (#[trigger] endpoints[i]).url,
            ) && endpoints[i].has_model(model);
        assert(more.keys.custom_endpoints[i] == endpoints[i]);
    }
    assert(more.keys.custom_endpoints[endpoints.len() as int] == endpoint);
}

/// A refresh that starts keeps every other one from starting, and changes nothing else.
pub proof fn law_one_refresh_runs_at_a_time(
    manager: ManagerView,
    refresh_token: Seq<char>,
    other: Seq<char>,
)
    ensures
        manager.refresh_is_due(refresh_token) ==> !manager.after_start(
            refresh_token,
        ).refresh_is_due(other) && manager.after_start(refresh_token).chatgpt_refresh_in_flight,
        !manager.refresh_is_due(refresh_token) ==> manager.after_start(refresh_token) == manager,
        manager.after_start(refresh_token).chatgpt_tokens == manager.chatgpt_tokens,
        manager.after_start(refresh_token).keys == manager.keys,
{
}

/// What is registered are the stored endpoints, with the token of the ChatGPT subscription for the
/// one that belongs to it; no other token goes there.
pub proof fn law_registered_providers_are_the_stored_ones(
    manager: ManagerView,
    include_custom_models: bool,
    i: int,
)
    requires
        0 <= i < manager.registered_providers(include_custom_models).len(),
    ensures
        ({
            let provider = manager.registered_providers(include_custom_models)[i];
            exists|j: int|
                0 <= j < manager.keys.custom_endpoints.len() && (
                #[trigger] manager.keys.custom_endpoints[j]).url == provider.base_url
                    && manager.keys.custom_endpoints[j].schema == provider.schema && (
                provider.api_key == manager.keys.custom_endpoints[j].api_key || (
                crate::oauth::chatgpt_subscription_base(provider.base_url) && (
                manager.chatgpt_tokens matches Some(tokens) && tokens.access_token
                    == provider.api_key)))
        }),
{
    let token = usable(manager.chatgpt_tokens);
    let endpoints = manager.keys.custom_endpoints;
    let provider = manager.registered_providers(include_custom_models)[i];
    crate::request::law_providers_are_their_endpoints(endpoints, include_custom_models, token, i);
    let j = choose|j: int|
        0 <= j < endpoints.len() && (#[trigger] endpoints[j]).url == provider.base_url
            && endpoints[j].schema == provider.schema && provider.models
            == crate::request::registered_models(endpoints[j].models) && (provider.api_key
            == endpoints[j].api_key || (crate::oauth::chatgpt_subscription_base(provider.base_url)
            && token == Some(provider.api_key)));
    assert(manager.keys.custom_endpoints[j].url == provider.base_url);
}

/// Cloud credentials that are set are the ones that are sent where they are asked for, and nothing
/// that is set of them touches the keys.
pub proof fn law_set_credentials_are_sent(
    manager: ManagerView,
    state: AwsCredentialsState,
    geap: crate::credentials::GeapStateView,
    strategy: crate::credentials::StrategyView,
    binding: crate::credentials::BindingView,
    include_byo_keys: bool,
)
    ensures
        manager.with_aws_state(state).sent_keys(include_byo_keys, true, None).aws_credentials
            == match state {
            AwsCredentialsState::Loaded { credentials } => Some(credentials@),
            _ => None,
        },
        manager.with_geap_state(geap).sent_keys(
            include_byo_keys,
            false,
            Some(binding),
        ).google_cloud_credentials is Some <==> geap.token_for(binding) is Some,
        manager.with_aws_strategy(crate::credentials::StrategyView::LocalChain).sent_keys(
            include_byo_keys,
            false,
            None,
        ).aws_credentials is None,
        manager.with_aws_state(state).keys == manager.keys,
        manager.with_geap_state(geap).keys == manager.keys,
        manager.with_aws_strategy(strategy).keys == manager.keys,
        manager.with_aws_state(state).geap_credentials_state == manager.geap_credentials_state,
        manager.with_geap_state(geap).aws_credentials_state == manager.aws_credentials_state,
        manager.with_aws_strategy(strategy).aws_credentials_state == manager.aws_credentials_state,
{
}

/// Allowing refreshes plans the next one; forbidding them, or setting what is set already, plans
/// none.
pub proof fn law_allowed_refreshes_are_planned(manager: ManagerView, now: Timestamp)
    ensures
        manager.plan_when_set(false, now) is None,
        manager.chatgpt_refresh_allowed ==> manager.plan_when_set(true, now) is None,
        !manager.chatgpt_refresh_allowed && (manager.chatgpt_tokens matches Some(tokens)
            && tokens.refresh_token is Some && tokens.expires_at is Some) ==> (
        manager.plan_when_set(true, now) matches Some(plan) && (
        manager.chatgpt_tokens matches Some(tokens) && tokens.refresh_token == Some(
            plan.refresh_token,
        ))),
{
}

/// Every serious failure is reported; that something is not there is reported only of the keys, when
/// they are written.
pub proof fn law_serious_failures_are_reported(entry: StorageEntry, error: StorageError)
    ensures
        error.is_serious() ==> entry.is_missed(error),
        error is NotFound ==> !error.is_serious() && (entry.is_missed(error) <==> entry is Keys),
        error is Other ==> error.is_serious(),
{
}

} // verus!
