//! Refresh orchestration for a connected ChatGPT Plus/Pro/Team subscription: what a token response
//! makes of the stored tokens, and when they are to be refreshed next.
use crate::oauth::TokenResponse;
use crate::text::copy_opt_text;
use crate::time::{now, Span, Timestamp};
use crate::tokens::ChatGptTokens;
use vstd::prelude::*;

verus! {

/// Refresh this far before the hard expiry to avoid racing expiration at request time.
pub const REFRESH_LEAD_NANOS: u128 = 300_000_000_000;

/// What a token response says.
pub ghost struct ResponseView {
    pub access_token: Seq<char>,
    pub refresh_token: Option<Seq<char>>,
    pub expires_in: Option<i64>,
}

impl View for TokenResponse {
    type V = ResponseView;

    open spec fn view(&self) -> ResponseView {
        ResponseView {
            access_token: self.access_token@,
            refresh_token: crate::text::opt_text(self.refresh_token),
            expires_in: self.expires_in,
        }
    }
}

/// The tokens that a response received at `now` leads to: a response that names no refresh token
/// keeps the previous one, and the time of the first connection stays.
pub open spec fn tokens_from(
    response: ResponseView,
    previous: Option<crate::tokens::TokensView>,
    now: Timestamp,
) -> crate::tokens::TokensView {
    crate::tokens::TokensView {
        access_token: response.access_token,
        refresh_token: match (response.refresh_token, previous) {
            (Some(token), _) => Some(token),
            (None, Some(tokens)) => tokens.refresh_token,
            (None, None) => None,
        },
        expires_at: match response.expires_in {
            Some(secs) => if secs >= 0 {
                now.plus(Span { nanos: (secs * crate::time::NANOS_PER_SEC) as u128 })
            } else {
                None
            },
            None => None,
        },
        connected_at: match previous {
            Some(tokens) => match tokens.connected_at {
                Some(at) => Some(at),
                None => Some(now),
            },
            None => Some(now),
        },
    }
}

pub open spec fn seen_tokens(tokens: Option<&ChatGptTokens>) -> Option<crate::tokens::TokensView> {
    match tokens {
        Some(tokens) => Some(tokens@),
        None => None,
    }
}

/// Builds [`ChatGptTokens`] from a [`TokenResponse`] received at `now`.
pub fn chatgpt_tokens_at(
    response: TokenResponse,
    previous: Option<&ChatGptTokens>,
    now: Timestamp,
) -> (res: ChatGptTokens)
    ensures
        res@ == tokens_from(response@, seen_tokens(previous), now),
{
    let expires_at = match response.expires_in {
        Some(secs) => if secs >= 0 {
            now.checked_add(Span::from_secs(secs as u64))
        } else {
            None
        },
        None => None,
    };
    let refresh_token = match response.refresh_token {
        Some(token) => Some(token),
        None => match previous {
            Some(tokens) => copy_opt_text(&tokens.refresh_token),
            None => None,
        },
    };
    let connected_at = match previous {
        Some(tokens) => match tokens.connected_at {
            Some(at) => Some(at),
            None => Some(now),
        },
        None => Some(now),
    };
    ChatGptTokens { access_token: response.access_token, refresh_token, expires_at, connected_at }
}

/// Builds [`ChatGptTokens`] from a token-endpoint [`TokenResponse`].
pub fn chatgpt_tokens_from_response(
    response: TokenResponse,
    previous: Option<&ChatGptTokens>,
) -> (res: ChatGptTokens)
    ensures
        exists|now: Timestamp|
            now.on_a_clock() && res@ == #[trigger] tokens_from(
                response@,
                seen_tokens(previous),
                now,
            ),
        res@.access_token == response@.access_token,
        response@.refresh_token is Some ==> res@.refresh_token == response@.refresh_token,
        response@.refresh_token is None ==> res@.refresh_token == match previous {
            Some(tokens) => tokens@.refresh_token,
            None => None,
        },
        res@.connected_at is Some,
        (match response@.expires_in {
            Some(secs) => secs < 0,
            None => true,
        }) ==> res@.expires_at is None,
{
    let now = now();
    chatgpt_tokens_at(response, previous, now)
}

/// A refresh keeps what the response does not replace: the first connection and, unless the
/// response names another, the refresh token.
pub proof fn law_refresh_keeps_the_connection(
    response: ResponseView,
    previous: crate::tokens::TokensView,
    now: Timestamp,
)
    ensures
        previous.connected_at is Some ==> tokens_from(response, Some(previous), now).connected_at
            == previous.connected_at,
        response.refresh_token is None ==> tokens_from(response, Some(previous), now).refresh_token
            == previous.refresh_token,
        tokens_from(response, Some(previous), now).access_token == response.access_token,
{
}

/// A proactive refresh: after `delay`, the tokens are refreshed with `refresh_token`.
#[derive(Debug, PartialEq, Eq)]
pub struct RefreshPlan {
    pub delay: Span,
    pub refresh_token: String,
}

pub ghost struct PlanView {
    pub delay: Span,
    pub refresh_token: Seq<char>,
}

impl View for RefreshPlan {
    type V = PlanView;

    open spec fn view(&self) -> PlanView {
        PlanView { delay: self.delay, refresh_token: self.refresh_token@ }
    }
}

pub open spec fn seen_plan(plan: Option<RefreshPlan>) -> Option<PlanView> {
    match plan {
        Some(plan) => Some(plan@),
        None => None,
    }
}

/// The next refresh of the stored tokens as of `now`, provided that refreshing is allowed, that
/// there is a refresh token and that the expiry is known.
pub open spec fn refresh_plan(
    allowed: bool,
    tokens: Option<crate::tokens::TokensView>,
    now: Timestamp,
) -> Option<PlanView> {
    match tokens {
        Some(tokens) => match (tokens.refresh_token, tokens.expires_at) {
            (Some(refresh_token), Some(expires_at)) => if allowed {
                let fire_at = match expires_at.minus(Span { nanos: REFRESH_LEAD_NANOS }) {
                    Some(at) => at,
                    None => now,
                };
                Some(PlanView { delay: fire_at.since(now), refresh_token })
            } else {
                None
            },
            _ => None,
        },
        None => None,
    }
}

/// Plans the next refresh as of `now`.
pub fn plan_refresh(allowed: bool, tokens: Option<&ChatGptTokens>, now: Timestamp) -> (res: Option<
    RefreshPlan,
>)
    ensures
        seen_plan(res) == refresh_plan(allowed, seen_tokens(tokens), now),
{
    if !allowed {
        return None;
    }
    match tokens {
        Some(tokens) => match (&tokens.refresh_token, tokens.expires_at) {
            (Some(refresh_token), Some(expires_at)) => {
                let fire_at = match expires_at.checked_sub(Span { nanos: REFRESH_LEAD_NANOS }) {
                    Some(at) => at,
                    None => now,
                };
                Some(
                    RefreshPlan {
                        delay: fire_at.saturating_since(now),
                        refresh_token: refresh_token.clone(),
                    },
                )
            },
            _ => None,
        },
        None => None,
    }
}

/// A refresh that is planned fires no later than the lead time before the expiry, or at once when
/// that moment has passed.
pub proof fn law_refresh_precedes_expiry(
    tokens: crate::tokens::TokensView,
    now: Timestamp,
    expires_at: Timestamp,
)
    requires
        tokens.expires_at == Some(expires_at),
    ensures
        refresh_plan(true, Some(tokens), now) matches Some(plan) ==> plan.delay.nanos == 0
            || now.nanos + plan.delay.nanos + REFRESH_LEAD_NANOS == expires_at.nanos,
        expires_at.nanos - REFRESH_LEAD_NANOS <= now.nanos ==> (refresh_plan(
            true,
            Some(tokens),
            now,
        ) matches Some(plan) ==> plan.delay.nanos == 0),
{
}

/// New tokens expire as many seconds from now as the server says; a time that it does not say, or
/// that is past, or that no clock can show, is not known.
pub proof fn law_tokens_expire_when_the_server_says(
    response: ResponseView,
    previous: Option<crate::tokens::TokensView>,
    now: Timestamp,
    secs: i64,
)
    requires
        response.expires_in == Some(secs),
    ensures
        tokens_from(response, previous, now).expires_at matches Some(at) ==> secs >= 0 && at.nanos
            == now.nanos + secs * 1_000_000_000,
        secs >= 0 && now.nanos + secs * 1_000_000_000 <= crate::time::LATEST_NANOS ==> tokens_from(
            response,
            previous,
            now,
        ).expires_at is Some,
        tokens_from(
            ResponseView { expires_in: None, ..response },
            previous,
            now,
        ).expires_at is None,
{
}

/// A refresh token that the server sends takes the place of the one before, which stays otherwise;
/// a first connection begins now.
pub proof fn law_new_refresh_tokens_replace_old_ones(
    response: ResponseView,
    previous: Option<crate::tokens::TokensView>,
    now: Timestamp,
)
    ensures
        response.refresh_token is Some ==> tokens_from(response, previous, now).refresh_token
            == response.refresh_token,
        response.refresh_token is None && previous is None ==> tokens_from(
            response,
            previous,
            now,
        ).refresh_token is None,
        previous is None || previous->0.connected_at is None ==> tokens_from(
            response,
            previous,
            now,
        ).connected_at == Some(now),
        tokens_from(response, previous, now).access_token == response.access_token,
{
}

/// A refresh is planned exactly where it is allowed, there is a token to refresh with and the
/// expiry is known; it uses the stored token, and comes five minutes before the expiry, or at once
/// where that is past.
pub proof fn law_refreshes_are_planned(
    tokens: crate::tokens::TokensView,
    refresh_token: Seq<char>,
    expires_at: Timestamp,
    now: Timestamp,
)
    requires
        tokens.refresh_token == Some(refresh_token),
        tokens.expires_at == Some(expires_at),
        crate::time::EARLIEST_NANOS + 300_000_000_000 <= expires_at.nanos,
    ensures
        refresh_plan(true, Some(tokens), now) matches Some(plan) && plan.refresh_token
            == refresh_token && plan.delay.nanos == if expires_at.nanos - now.nanos
            > 300_000_000_000 {
            expires_at.nanos - now.nanos - 300_000_000_000
        } else {
            0
        },
        refresh_plan(false, Some(tokens), now) is None,
        refresh_plan(true, None, now) is None,
        refresh_plan(
            true,
            Some(crate::tokens::TokensView { refresh_token: None, ..tokens }),
            now,
        ) is None,
        refresh_plan(true, Some(crate::tokens::TokensView { expires_at: None, ..tokens }), now)
            is None,
{
}

} // verus!
