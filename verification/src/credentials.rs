//! Credentials that are loaded from outside and attached to requests.
use crate::text::{same_opt_text, same_text};
use vstd::prelude::*;

verus! {

/// AWS credentials for Bedrock inference.
#[derive(Debug, PartialEq, Eq)]
pub struct AwsCredentials {
    pub access_key_id: String,
    pub secret_access_key: String,
    pub session_token: Option<String>,
}

pub ghost struct AwsCredentialsView {
    pub access_key_id: Seq<char>,
    pub secret_access_key: Seq<char>,
    pub session_token: Option<Seq<char>>,
}

impl View for AwsCredentials {
    type V = AwsCredentialsView;

    open spec fn view(&self) -> AwsCredentialsView {
        AwsCredentialsView {
            access_key_id: self.access_key_id@,
            secret_access_key: self.secret_access_key@,
            session_token: crate::text::opt_text(self.session_token),
        }
    }
}

impl Clone for AwsCredentials {
    fn clone(&self) -> (res: Self)
        ensures
            res@ == self@,
    {
        AwsCredentials {
            access_key_id: self.access_key_id.clone(),
            secret_access_key: self.secret_access_key.clone(),
            session_token: crate::text::copy_opt_text(&self.session_token),
        }
    }
}

/// Where the AWS credentials stand.
#[derive(Debug, Clone, PartialEq, Eq)]
pub enum AwsCredentialsState {
    Missing,
    Refreshing,
    Loaded { credentials: AwsCredentials },
    Failed { message: String },
}

impl AwsCredentialsState {
    /// The credentials that can be sent, if there are any.
    pub open spec fn loaded(self) -> Option<AwsCredentialsView> {
        match self {
            AwsCredentialsState::Loaded { credentials } => Some(credentials@),
            _ => None,
        }
    }
}

/// Controls how AWS credentials are refreshed.
#[derive(Debug, PartialEq, Eq, Default)]
pub enum AwsCredentialsRefreshStrategy {
    /// Load credentials from the local AWS credential chain (~/.aws). This is the default.
    #[default]
    LocalChain,
    /// Credentials are managed externally via OIDC/STS.
    /// The task ID is used to scope the STS AssumeRoleWithWebIdentity session.
    /// The role ARN + region are the info used to assume the IAM role via STS.
    OidcManaged { task_id: Option<String>, role_arn: String, region: String },
}

pub ghost enum StrategyView {
    LocalChain,
    OidcManaged { task_id: Option<Seq<char>>, role_arn: Seq<char>, region: Seq<char> },
}

impl View for AwsCredentialsRefreshStrategy {
    type V = StrategyView;

    open spec fn view(&self) -> StrategyView {
        match self {
            AwsCredentialsRefreshStrategy::LocalChain => StrategyView::LocalChain,
            AwsCredentialsRefreshStrategy::OidcManaged { task_id, role_arn, region } =>
                StrategyView::OidcManaged {
                task_id: crate::text::opt_text(*task_id),
                role_arn: role_arn@,
                region: region@,
            },
        }
    }
}

impl Clone for AwsCredentialsRefreshStrategy {
    fn clone(&self) -> (res: Self)
        ensures
            res@ == self@,
    {
        match self {
            AwsCredentialsRefreshStrategy::LocalChain => AwsCredentialsRefreshStrategy::LocalChain,
            AwsCredentialsRefreshStrategy::OidcManaged { task_id, role_arn, region } =>
                AwsCredentialsRefreshStrategy::OidcManaged {
                task_id: crate::text::copy_opt_text(task_id),
                role_arn: role_arn.clone(),
                region: region.clone(),
            },
        }
    }
}

/// Gemini Enterprise credentials: the access token that may be sent, if there is one.
#[derive(Debug, PartialEq, Eq)]
pub struct GeapCredentials {
    pub access_token: Option<String>,
}

impl GeapCredentials {
    /// The access token to send.
    pub fn access_token_for_request(&self) -> (res: Option<&str>)
        ensures
            crate::json::seen_text(res) == self@,
    {
        match &self.access_token {
            Some(token) => Some(token.as_str()),
            None => None,
        }
    }
}

impl View for GeapCredentials {
    type V = Option<Seq<char>>;

    open spec fn view(&self) -> Option<Seq<char>> {
        crate::text::opt_text(self.access_token)
    }
}

impl Clone for GeapCredentials {
    fn clone(&self) -> (res: Self)
        ensures
            res@ == self@,
    {
        GeapCredentials { access_token: crate::text::copy_opt_text(&self.access_token) }
    }
}

/// Whom a Gemini Enterprise token was minted for.
#[derive(Debug, Clone, PartialEq, Eq)]
pub struct GeapMintBinding {
    pub user: String,
    pub audience: String,
    pub service_account: String,
}

pub ghost struct BindingView {
    pub user: Seq<char>,
    pub audience: Seq<char>,
    pub service_account: Seq<char>,
}

impl View for GeapMintBinding {
    type V = BindingView;

    open spec fn view(&self) -> BindingView {
        BindingView {
            user: self.user@,
            audience: self.audience@,
            service_account: self.service_account@,
        }
    }
}

impl GeapMintBinding {
    pub fn same(&self, other: &GeapMintBinding) -> (res: bool)
        ensures
            res == (self@ == other@),
    {
        same_text(self.user.as_str(), other.user.as_str()) && same_text(
            self.audience.as_str(),
            other.audience.as_str(),
        ) && same_text(self.service_account.as_str(), other.service_account.as_str())
    }
}

/// Where the Gemini Enterprise credentials stand.
#[derive(Debug, Clone, PartialEq, Eq)]
pub enum GeapCredentialsState {
    Missing,
    /// A refresh runs; the credentials from before it stay usable meanwhile.
    Refreshing { previous: Option<(GeapCredentials, GeapMintBinding)> },
    Loaded { credentials: GeapCredentials, minted_for: GeapMintBinding },
    Failed { message: String },
}

pub ghost enum GeapStateView {
    Missing,
    Refreshing { previous: Option<(Option<Seq<char>>, BindingView)> },
    Loaded { credentials: Option<Seq<char>>, minted_for: BindingView },
    Failed { message: Seq<char> },
}

impl View for GeapCredentialsState {
    type V = GeapStateView;

    open spec fn view(&self) -> GeapStateView {
        match self {
            GeapCredentialsState::Missing => GeapStateView::Missing,
            GeapCredentialsState::Refreshing { previous } => GeapStateView::Refreshing {
                previous: match previous {
                    Some((credentials, minted_for)) => Some((credentials@, minted_for@)),
                    None => None,
                },
            },
            GeapCredentialsState::Loaded { credentials, minted_for } => GeapStateView::Loaded {
                credentials: credentials@,
                minted_for: minted_for@,
            },
            GeapCredentialsState::Failed { message } => GeapStateView::Failed { message: message@ },
        }
    }
}

impl GeapStateView {
    /// The token that may be sent for `binding`: the one at hand, provided that it was minted for
    /// that same binding.
    pub open spec fn token_for(self, binding: BindingView) -> Option<Seq<char>> {
        match self {
            GeapStateView::Loaded { credentials, minted_for } => if minted_for == binding {
                credentials
            } else {
                None
            },
            GeapStateView::Refreshing { previous: Some((credentials, minted_for)) } => if minted_for
                == binding {
                credentials
            } else {
                None
            },
            _ => None,
        }
    }
}

impl GeapCredentialsState {
    pub fn same(&self, other: &GeapCredentialsState) -> (res: bool)
        ensures
            res == (self@ == other@),
    {
        match (self, other) {
            (GeapCredentialsState::Missing, GeapCredentialsState::Missing) => true,
            (
                GeapCredentialsState::Refreshing { previous: a },
                GeapCredentialsState::Refreshing { previous: b },
            ) => match (a, b) {
                (Some(a), Some(b)) => same_opt_text(&a.0.access_token, &b.0.access_token)
                    && a.1.same(&b.1),
                (None, None) => true,
                _ => false,
            },
            (
                GeapCredentialsState::Loaded { credentials: a, minted_for: a_for },
                GeapCredentialsState::Loaded { credentials: b, minted_for: b_for },
            ) => same_opt_text(&a.access_token, &b.access_token) && a_for.same(b_for),
            (
                GeapCredentialsState::Failed { message: a },
                GeapCredentialsState::Failed { message: b },
            ) => same_text(a.as_str(), b.as_str()),
            _ => false,
        }
    }

    /// The credentials that may be sent for `binding`.
    pub fn credentials_for(&self, binding: &GeapMintBinding) -> (res: Option<GeapCredentials>)
        ensures
            res matches Some(credentials) ==> credentials@ is Some && credentials@
                == self@.token_for(binding@),
            res is None <==> self@.token_for(binding@) is None,
    {
        match self {
            GeapCredentialsState::Loaded { credentials, minted_for } => {
                if minted_for.same(binding) && credentials.access_token_for_request().is_some() {
                    Some(credentials.clone())
                } else {
                    None
                }
            },
            GeapCredentialsState::Refreshing { previous: Some(held) } => {
                if held.1.same(binding) && held.0.access_token_for_request().is_some() {
                    Some(held.0.clone())
                } else {
                    None
                }
            },
            _ => None,
        }
    }
}

/// A token is handed out for the binding that it was minted for, while it is loaded and while the
/// next one is being fetched, and for no other binding and in no other state.
pub proof fn law_tokens_keep_to_their_binding(
    token: Seq<char>,
    minted_for: BindingView,
    binding: BindingView,
    message: Seq<char>,
)
    ensures
        ({
            let loaded = GeapStateView::Loaded { credentials: Some(token), minted_for };
            let refreshing = GeapStateView::Refreshing {
                previous: Some((Some(token), minted_for)),
            };
            &&& loaded.token_for(minted_for) == Some(token)
            &&& refreshing.token_for(minted_for) == Some(token)
            &&& binding != minted_for ==> loaded.token_for(binding) is None
                && refreshing.token_for(binding) is None
            &&& GeapStateView::Missing.token_for(binding) is None
            &&& (GeapStateView::Failed { message }).token_for(binding) is None
            &&& (GeapStateView::Refreshing { previous: None }).token_for(binding) is None
        }),
{
}

} // verus!
