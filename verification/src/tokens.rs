//! OAuth tokens of connected subscriptions.
use crate::text::{is_blank, same_opt_text, same_text};
use crate::time::{now, Span, Timestamp};
use vstd::prelude::*;

verus! {

/// OAuth tokens for a connected xAI / Grok subscription (e.g. SuperGrok).
#[derive(Debug, Clone, PartialEq, Eq, Default)]
pub struct GrokTokens {
    pub access_token: String,
    pub refresh_token: Option<String>,
    /// Absolute time at which `access_token` expires, if the provider told us.
    pub expires_at: Option<Timestamp>,
    /// When the user originally connected the subscription. Carried over across token refreshes so
    /// it keeps reflecting the initial connection, not the latest refresh.
    pub connected_at: Option<Timestamp>,
}

/// OAuth tokens for a connected ChatGPT Plus/Pro/Team subscription.
#[derive(Debug, Clone, PartialEq, Eq, Default)]
pub struct ChatGptTokens {
    pub access_token: String,
    pub refresh_token: Option<String>,
    /// Absolute time at which `access_token` expires, if known.
    pub expires_at: Option<Timestamp>,
    /// When the user originally connected the subscription.
    pub connected_at: Option<Timestamp>,
}

/// What the tokens of a subscription say.
pub ghost struct TokensView {
    pub access_token: Seq<char>,
    pub refresh_token: Option<Seq<char>>,
    pub expires_at: Option<Timestamp>,
    pub connected_at: Option<Timestamp>,
}

impl View for GrokTokens {
    type V = TokensView;

    open spec fn view(&self) -> TokensView {
        TokensView {
            access_token: self.access_token@,
            refresh_token: crate::text::opt_text(self.refresh_token),
            expires_at: self.expires_at,
            connected_at: self.connected_at,
        }
    }
}

impl View for ChatGptTokens {
    type V = TokensView;

    open spec fn view(&self) -> TokensView {
        TokensView {
            access_token: self.access_token@,
            refresh_token: crate::text::opt_text(self.refresh_token),
            expires_at: self.expires_at,
            connected_at: self.connected_at,
        }
    }
}

impl TokensView {
    /// The access token to send: none when it is blank, and whether or not it has expired.
    pub open spec fn token_for_request(self) -> Option<Seq<char>> {
        if crate::text::blank(self.access_token) {
            None
        } else {
            Some(self.access_token)
        }
    }

    /// The token is known to expire no later than `lead_time` after `now`.
    pub open spec fn expires_within(self, now: Timestamp, lead_time: Span) -> bool {
        match self.expires_at {
            Some(expires_at) => expires_at.nanos <= now.nanos + lead_time.nanos,
            None => false,
        }
    }
}

fn same_time(a: &Option<Timestamp>, b: &Option<Timestamp>) -> (res: bool)
    ensures
        res == (*a == *b),
{
    match (a, b) {
        (Some(a), Some(b)) => a.nanos == b.nanos,
        (None, None) => true,
        _ => false,
    }
}

fn usable_token(token: &String) -> (res: Option<&str>)
    ensures
        crate::json::seen_text(res) == if crate::text::blank(token@) {
            None
        } else {
            Some(token@)
        },
{
    if is_blank(token.as_str()) {
        None
    } else {
        Some(token.as_str())
    }
}

fn is_due(expires_at: Option<Timestamp>, now: Timestamp, lead_time: Span) -> (res: bool)
    ensures
        res == match expires_at {
            Some(at) => at.nanos <= now.nanos + lead_time.nanos,
            None => false,
        },
{
    match expires_at {
        Some(at) => at.is_within(now, lead_time),
        None => false,
    }
}

impl GrokTokens {
    /// Returns the access token whenever it is non-empty, regardless of
    /// expiry. Possibly-expired tokens are still sent so the server stays the
    /// final authority on token validity.
    pub fn access_token_for_request(&self) -> (res: Option<&str>)
        ensures
            crate::json::seen_text(res) == self@.token_for_request(),
    {
        usable_token(&self.access_token)
    }

    /// Whether the token is known to expire within `lead_time` of `now`.
    pub fn needs_refresh_at(&self, now: Timestamp, lead_time: Span) -> (res: bool)
        ensures
            res == self@.expires_within(now, lead_time),
    {
        is_due(self.expires_at, now, lead_time)
    }

    /// Returns `true` when the token is known to expire within `lead_time` and
    /// should be proactively refreshed. Tokens with an unknown expiry never
    /// report as needing a refresh (there's no expiry signal to act on).
    pub fn needs_refresh(&self, lead_time: Span) -> (res: bool)
        ensures
            self@.expires_at is None ==> !res,
            exists|now: Timestamp|
                now.on_a_clock() && res == #[trigger] self@.expires_within(now, lead_time),
    {
        let now = now();
        self.needs_refresh_at(now, lead_time)
    }

    /// Returns `true` when the token is known to be at or past its hard expiry.
    /// Unlike [`Self::needs_refresh`] there is no lead time: a token expiring
    /// soon but still valid reports `false`. Tokens with an unknown expiry are
    /// never considered expired.
    pub fn is_expired(&self) -> (res: bool)
        ensures
            self@.expires_at is None ==> !res,
            exists|now: Timestamp|
                now.on_a_clock() && res == #[trigger] self@.expires_within(
                    now,
                    (Span { nanos: 0 }),
                ),
    {
        self.needs_refresh(Span { nanos: 0 })
    }

    pub fn same(&self, other: &GrokTokens) -> (res: bool)
        ensures
            res == (self@ == other@),
    {
        same_text(self.access_token.as_str(), other.access_token.as_str()) && same_opt_text(
            &self.refresh_token,
            &other.refresh_token,
        ) && same_time(&self.expires_at, &other.expires_at) && same_time(
            &self.connected_at,
            &other.connected_at,
        )
    }
}

impl ChatGptTokens {
    /// Returns the access token whenever it is non-empty, regardless of expiry.
    pub fn access_token_for_request(&self) -> (res: Option<&str>)
        ensures
            crate::json::seen_text(res) == self@.token_for_request(),
    {
        usable_token(&self.access_token)
    }

    /// Whether the token is known to be at or past its hard expiry at `now`.
    pub fn is_expired_at(&self, now: Timestamp) -> (res: bool)
        ensures
            res == self@.expires_within(now, (Span { nanos: 0 })),
    {
        is_due(self.expires_at, now, Span { nanos: 0 })
    }

    /// Returns `true` when the token is known to be at or past its hard expiry.
    pub fn is_expired(&self) -> (res: bool)
        ensures
            self@.expires_at is None ==> !res,
            exists|now: Timestamp|
                now.on_a_clock() && res == #[trigger] self@.expires_within(
                    now,
                    (Span { nanos: 0 }),
                ),
    {
        let now = now();
        self.is_expired_at(now)
    }

    pub fn same(&self, other: &ChatGptTokens) -> (res: bool)
        ensures
            res == (self@ == other@),
    {
        same_text(self.access_token.as_str(), other.access_token.as_str()) && same_opt_text(
            &self.refresh_token,
            &other.refresh_token,
        ) && same_time(&self.expires_at, &other.expires_at) && same_time(
            &self.connected_at,
            &other.connected_at,
        )
    }
}

/// A token that has expired is due for refresh with every lead time, and one that is due stays due
/// as time passes and with longer lead times.
pub proof fn law_refresh_is_due_before_expiry(
    tokens: TokensView,
    now: Timestamp,
    later: Timestamp,
    lead_time: Span,
    longer: Span,
)
    requires
        now.nanos <= later.nanos,
        lead_time.nanos <= longer.nanos,
    ensures
        tokens.expires_within(now, Span { nanos: 0 }) ==> tokens.expires_within(now, lead_time),
        tokens.expires_within(now, lead_time) ==> tokens.expires_within(later, longer),
{
}

/// Outcome of a Grok OAuth token refresh, delivered to each request blocked
/// waiting on it so the request can either send with the freshly refreshed
/// token or surface the failure instead of sending an expired one.
#[derive(Clone, Copy, Debug, PartialEq, Eq)]
pub enum GrokRefreshOutcome {
    /// The token was refreshed and the new value stored.
    Refreshed,
    /// The refresh failed; the stored token is unchanged (still expired).
    Failed,
}

/// Outcome of a ChatGPT OAuth token refresh.
#[derive(Clone, Copy, Debug, PartialEq, Eq)]
pub enum ChatGptRefreshOutcome {
    Refreshed,
    Failed,
}

/// A token is due where it expires no later than the lead time from now; one whose expiry is not
/// known never is.
pub proof fn law_expiry_is_counted_from_now(
    tokens: TokensView,
    expires_at: Timestamp,
    now: Timestamp,
    lead_time: Span,
)
    ensures
        tokens.expires_at == Some(expires_at) ==> (tokens.expires_within(now, lead_time)
            <==> expires_at.nanos - now.nanos <= lead_time.nanos),
        tokens.expires_at is None ==> !tokens.expires_within(now, lead_time),
{
}

/// A token is sent as it is stored, unless there is nothing in it to be read.
pub proof fn law_tokens_are_sent_as_stored(tokens: TokensView)
    ensures
        tokens.token_for_request() is None <==> crate::text::trimmed(tokens.access_token).len() == 0,
        tokens.token_for_request() matches Some(token) ==> token == tokens.access_token,
{
    crate::text::law_blank_means_trimmed_empty(tokens.access_token);
}

} // verus!
