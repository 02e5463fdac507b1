//! The decisions of the OAuth device-authorization flow that connects a ChatGPT Plus/Pro/Team
//! subscription.
//!
//! OpenAI uses a **device authorization grant**:
//! 1. Request a device code from OpenAI's auth server.
//! 2. Display a short user-code and verification URL to the user.
//! 3. Open the URL in the browser.
//! 4. Poll until the user completes authorization.
//! 5. Receive an access + refresh token pair.
//!
//! Requests are sent to `chatgpt.com/backend-api/codex`, not `api.openai.com`; this is the same
//! backend that ChatGPT's own Codex feature uses.
use crate::json::{entry, object, text_json, Json};
use crate::text::{
    contains, parse_u64, same_text, split_first, starts_with, strip_prefixes, trim,
};
use crate::time::Span;
use vstd::prelude::*;

verus! {

/// OpenAI OAuth client ID used by the ChatGPT desktop / Codex client.
pub const CLIENT_ID: &'static str = "app_EMoamEEZ73f0CkXaXp7hrann";

/// Device-code request endpoint.
pub const DEVICE_CODE_URL: &'static str = "https://auth.openai.com/api/accounts/deviceauth/usercode";

/// Device-code poll endpoint.
pub const DEVICE_POLL_URL: &'static str = "https://auth.openai.com/api/accounts/deviceauth/token";

/// Token endpoint (for exchange and refresh grants).
pub const TOKEN_URL: &'static str = "https://auth.openai.com/oauth/token";

/// Verification URL shown to the user (where they enter the code).
pub const VERIFICATION_URL: &'static str = "https://auth.openai.com/codex/device";

/// Base URL for ChatGPT's Codex inference backend.
pub const CHATGPT_BACKEND_BASE: &'static str = "https://chatgpt.com/backend-api/codex";

/// Default polling interval (seconds) between token poll requests.
pub const DEFAULT_POLL_INTERVAL_SECS: u64 = 5;

/// Response from the device-code request endpoint.
#[derive(Debug, Clone)]
pub struct DeviceCodeResponse {
    pub device_auth_id: String,
    /// The short code to show the user.
    pub user_code: String,
    pub verification_uri: Option<String>,
    pub interval: Option<Json>,
    pub expires_in: Option<u64>,
}

/// The URL to open for a response that names `uri`.
pub open spec fn verification_url_view(uri: Option<Seq<char>>) -> Seq<char> {
    match uri {
        Some(text) => text,
        None => VERIFICATION_URL@,
    }
}

/// The seconds between polls for a response that names `interval`: a number, or a text that
/// writes one, or else the default.
pub open spec fn poll_secs(interval: Option<crate::json::JsonView>) -> u64 {
    let named = match interval {
        Some(crate::json::JsonView::Number { unsigned, signed }) => unsigned,
        Some(crate::json::JsonView::Text(text)) => crate::text::number_in(text),
        _ => None,
    };
    match named {
        Some(secs) => secs,
        None => DEFAULT_POLL_INTERVAL_SECS,
    }
}

pub open spec fn opt_document(document: Option<Json>) -> Option<crate::json::JsonView> {
    match document {
        Some(json) => Some(json@),
        None => None,
    }
}

impl DeviceCodeResponse {
    /// The URL the user should open in their browser.
    pub fn verification_url(&self) -> (res: &str)
        ensures
            res@ == verification_url_view(crate::text::opt_text(self.verification_uri)),
    {
        match &self.verification_uri {
            Some(uri) => uri.as_str(),
            None => VERIFICATION_URL,
        }
    }

    /// The time to wait between poll requests.
    pub fn poll_interval(&self) -> (res: Span)
        ensures
            res.nanos == poll_secs(opt_document(self.interval)) * crate::time::NANOS_PER_SEC,
    {
        let named: Option<u64> = match &self.interval {
            Some(Json::Number { unsigned, signed }) => *unsigned,
            Some(Json::Text(text)) => parse_u64(text.as_str()),
            _ => None,
        };
        let secs: u64 = match named {
            Some(secs) => secs,
            None => DEFAULT_POLL_INTERVAL_SECS,
        };
        Span::from_secs(secs)
    }
}

/// Response from the device-code poll endpoint (authorization pending → success).
#[derive(Debug, Clone, PartialEq, Eq)]
pub struct CodeSuccessResponse {
    pub authorization_code: String,
    pub code_verifier: String,
    pub code_challenge: Option<String>,
}

/// Token response from the token exchange endpoint.
#[derive(Debug, Clone, PartialEq, Eq)]
pub struct TokenResponse {
    pub access_token: String,
    pub refresh_token: Option<String>,
    pub expires_in: Option<i64>,
}

/// What went wrong, and what caused it.
#[derive(Debug, Clone, PartialEq, Eq)]
pub struct Failure {
    pub message: String,
    pub cause: Option<String>,
}

pub ghost struct FailureView {
    pub message: Seq<char>,
    pub cause: Option<Seq<char>>,
}

impl View for Failure {
    type V = FailureView;

    open spec fn view(&self) -> FailureView {
        FailureView { message: self.message@, cause: crate::text::opt_text(self.cause) }
    }
}

/// Outcome of a device-auth poll.
#[derive(Debug, Clone, PartialEq, Eq)]
pub enum PollOutcome {
    /// User has not yet authorized — keep polling.
    Pending,
    /// Authorization complete; authorization_code + verifier are ready to exchange.
    Authorized(CodeSuccessResponse),
    /// Terminal error (expired, denied, etc.).
    Error(Failure),
}

pub ghost enum PollView {
    Pending,
    Authorized(CodeSuccessResponse),
    Error(FailureView),
}

impl View for PollOutcome {
    type V = PollView;

    open spec fn view(&self) -> PollView {
        match self {
            PollOutcome::Pending => PollView::Pending,
            PollOutcome::Authorized(code) => PollView::Authorized(*code),
            PollOutcome::Error(failure) => PollView::Error(failure@),
        }
    }
}

/// The status codes of success.
pub open spec fn success(code: u16) -> bool {
    200 <= code <= 299
}

pub fn is_success(code: u16) -> (res: bool)
    ensures
        res == success(code),
{
    200 <= code && code <= 299
}

/// `intro`, the status in brackets, and the body.
pub open spec fn rejection_text(
    intro: Seq<char>,
    status: Seq<char>,
    body: Seq<char>,
) -> Seq<char> {
    intro + " ("@ + status + "): "@ + body
}

/// Words what a server answered.
pub fn rejection_message(intro: &str, status: &str, body: &str) -> (res: String)
    ensures
        res@ == rejection_text(intro@, status@, body@),
{
    let mut message = intro.to_owned();
    message.append(" (");
    message.append(status);
    message.append("): ");
    message.append(body);
    message
}

/// The error for a device-code request that was answered with the given status and body; nothing
/// for a success.
pub open spec fn device_code_error(
    code: u16,
    status: Seq<char>,
    body: Seq<char>,
) -> Option<Seq<char>> {
    if success(code) {
        None
    } else if code == 404 {
        Some(
            "ChatGPT device code login is not enabled. Go to https://chatgpt.com/settings/security and enable 'Device code authorization' first."@,
        )
    } else {
        Some(rejection_text("ChatGPT device-code request failed"@, status, body))
    }
}

/// The body of a device-code request.
pub fn device_code_request() -> (res: Json)
    ensures
        res@ == crate::json::JsonView::Object(
            seq![("client_id"@, crate::json::JsonView::Text(CLIENT_ID@))],
        ),
{
    let members = vec![entry("client_id", text_json(CLIENT_ID))];
    assert(crate::json::members_of(members@) =~= seq![
        ("client_id"@, crate::json::JsonView::Text(CLIENT_ID@)),
    ]);
    object(members)
}

/// The body of a poll request.
pub open spec fn poll_body(device_auth_id: Seq<char>, user_code: Seq<char>) -> crate::json::JsonView {
    crate::json::JsonView::Object(
        seq![
            ("device_auth_id"@, crate::json::JsonView::Text(device_auth_id)),
            ("user_code"@, crate::json::JsonView::Text(user_code)),
        ],
    )
}

/// The body of a poll request.
pub fn poll_request(device_auth_id: &str, user_code: &str) -> (res: Json)
    ensures
        res@ == poll_body(device_auth_id@, user_code@),
{
    let members = vec![
        entry("device_auth_id", text_json(device_auth_id)),
        entry("user_code", text_json(user_code)),
    ];
    assert(crate::json::members_of(members@) =~= seq![
        ("device_auth_id"@, crate::json::JsonView::Text(device_auth_id@)),
        ("user_code"@, crate::json::JsonView::Text(user_code@)),
    ]);
    object(members)
}

/// Judges the status of a device-code request.
pub fn check_device_code_status(code: u16, status: &str, body: &str) -> (res: Result<(), Failure>)
    ensures
        res is Ok <==> device_code_error(code, status@, body@) is None,
        res matches Err(failure) ==> failure.cause is None && Some(failure.message@)
            == device_code_error(code, status@, body@),
{
    if is_success(code) {
        return Ok(());
    }
    if code == 404 {
        return Err(
            Failure {
                message:
                    "ChatGPT device code login is not enabled. Go to https://chatgpt.com/settings/security and enable 'Device code authorization' first.".to_owned(),
                cause: None,
            },
        );
    }
    Err(
        Failure {
            message: rejection_message("ChatGPT device-code request failed", status, body),
            cause: None,
        },
    )
}

/// A device-code response has its required fields.
pub open spec fn has_required_fields(data: DeviceCodeResponse) -> bool {
    data.device_auth_id@.len() > 0 && data.user_code@.len() > 0
}

/// Lets a device-code response through that has its required fields.
pub fn check_device_code(data: DeviceCodeResponse) -> (res: Result<DeviceCodeResponse, Failure>)
    ensures
        res is Ok <==> has_required_fields(data),
        res matches Ok(same) ==> same == data,
        res matches Err(failure) ==> failure.cause is None && failure.message@
            == "ChatGPT device-code response was missing required fields (device_auth_id or user_code)"@,
{
    if data.device_auth_id.as_str().is_empty() || data.user_code.as_str().is_empty() {
        Err(
            Failure {
                message:
                    "ChatGPT device-code response was missing required fields (device_auth_id or user_code)".to_owned(),
                cause: None,
            },
        )
    } else {
        Ok(data)
    }
}

/// The body of a poll response: its text, and what it says when it is read as a success.
pub struct PollBody {
    pub text: String,
    pub parsed: Result<CodeSuccessResponse, String>,
}

/// The outcome of a poll with the given status and body; a body that could not be read is the
/// reason for that.
pub open spec fn poll_view(
    code: u16,
    status: Seq<char>,
    body: Result<PollBody, String>,
) -> PollView {
    if code == 403 || code == 404 {
        PollView::Pending
    } else {
        match body {
            Err(reason) => PollView::Error(
                FailureView {
                    message: "failed to read ChatGPT poll response body"@,
                    cause: Some(reason@),
                },
            ),
            Ok(body) => if !success(code) {
                if crate::text::position_of(body.text@, "authorization_pending"@) is Some {
                    PollView::Pending
                } else {
                    PollView::Error(
                        FailureView {
                            message: rejection_text(
                                "ChatGPT device-auth poll failed"@,
                                status,
                                body.text@,
                            ),
                            cause: None,
                        },
                    )
                }
            } else {
                match body.parsed {
                    Ok(authorized) => if authorized.authorization_code@.len() > 0 {
                        PollView::Authorized(authorized)
                    } else {
                        PollView::Pending
                    },
                    Err(reason) => PollView::Error(
                        FailureView {
                            message: "failed to parse ChatGPT poll response: "@ + body.text@,
                            cause: Some(reason@),
                        },
                    ),
                }
            },
        }
    }
}

/// The outcome of a poll with this status depends on the body of the response.
pub open spec fn needs_body(code: u16) -> bool {
    code != 403 && code != 404
}

/// Whether the body of a poll response with this status has to be read.
pub fn poll_needs_body(code: u16) -> (res: bool)
    ensures
        res == needs_body(code),
{
    code != 403 && code != 404
}

/// The outcome of a poll: pending when the user hasn't acted yet, authorized when approved.
pub fn poll_outcome(code: u16, status: &str, body: Result<PollBody, String>) -> (res: PollOutcome)
    ensures
        res@ == poll_view(code, status@, body),
{
    // 403/404 means "authorization_pending" — not yet approved.
    if code == 403 || code == 404 {
        return PollOutcome::Pending;
    }
    let body = match body {
        Ok(body) => body,
        Err(reason) => {
            return PollOutcome::Error(
                Failure {
                    message: "failed to read ChatGPT poll response body".to_owned(),
                    cause: Some(reason),
                },
            );
        },
    };
    if !is_success(code) {
        if contains(body.text.as_str(), "authorization_pending") {
            return PollOutcome::Pending;
        }
        return PollOutcome::Error(
            Failure {
                message: rejection_message(
                    "ChatGPT device-auth poll failed",
                    status,
                    body.text.as_str(),
                ),
                cause: None,
            },
        );
    }
    // Success — response contains authorization_code + code_verifier.
    match body.parsed {
        Ok(authorized) => if authorized.authorization_code.as_str().is_empty() {
            PollOutcome::Pending
        } else {
            PollOutcome::Authorized(authorized)
        },
        Err(reason) => {
            let mut message = "failed to parse ChatGPT poll response: ".to_owned();
            message.append(body.text.as_str());
            PollOutcome::Error(Failure { message, cause: Some(reason) })
        },
    }
}

/// A poll that gives an authorization was answered with a success and holds an authorization code.
pub proof fn law_authorized_polls_hold_a_code(
    code: u16,
    status: Seq<char>,
    body: Result<PollBody, String>,
)
    ensures
        poll_view(code, status, body) matches PollView::Authorized(authorized) ==> success(code)
            && authorized.authorization_code@.len() > 0,
{
}

/// How tokens are asked for.
#[derive(Debug, Clone, Copy, PartialEq, Eq, Structural)]
pub enum Grant {
    /// An authorization code is exchanged for tokens.
    Exchange,
    /// A refresh token is exchanged for new tokens.
    Refresh,
}

impl Grant {
    pub open spec fn rejection_intro(self) -> Seq<char> {
        match self {
            Grant::Exchange => "ChatGPT token exchange failed"@,
            Grant::Refresh => "ChatGPT token refresh failed"@,
        }
    }

    pub open spec fn missing_token_text(self) -> Seq<char> {
        match self {
            Grant::Exchange => "ChatGPT token exchange did not return an access token"@,
            Grant::Refresh => "ChatGPT token refresh did not return an access token"@,
        }
    }
}

/// The fields of a form.
pub open spec fn form_texts(form: Seq<(&'static str, String)>) -> Seq<(Seq<char>, Seq<char>)> {
    form.map_values(|field: (&'static str, String)| (field.0@, field.1@))
}

/// The fields of the form that exchanges an authorization code.
pub open spec fn exchange_fields(
    authorization_code: Seq<char>,
    code_verifier: Seq<char>,
) -> Seq<(Seq<char>, Seq<char>)> {
    seq![
        ("grant_type"@, "authorization_code"@),
        ("client_id"@, CLIENT_ID@),
        ("code"@, authorization_code),
        ("code_verifier"@, code_verifier),
        ("redirect_uri"@, "https://auth.openai.com/deviceauth/callback"@),
    ]
}

/// The fields of the form that exchanges a refresh token.
pub open spec fn refresh_fields(refresh_token: Seq<char>) -> Seq<(Seq<char>, Seq<char>)> {
    seq![
        ("grant_type"@, "refresh_token"@),
        ("refresh_token"@, refresh_token),
        ("client_id"@, CLIENT_ID@),
    ]
}

/// The form that exchanges an authorization code for access + refresh tokens.
pub fn exchange_form(authorization_code: &str, code_verifier: &str) -> (res: Vec<
    (&'static str, String),
>)
    ensures
        form_texts(res@) == exchange_fields(authorization_code@, code_verifier@),
{
    let form: Vec<(&'static str, String)> = vec![
        ("grant_type", "authorization_code".to_owned()),
        ("client_id", CLIENT_ID.to_owned()),
        ("code", authorization_code.to_owned()),
        ("code_verifier", code_verifier.to_owned()),
        ("redirect_uri", "https://auth.openai.com/deviceauth/callback".to_owned()),
    ];
    assert(form_texts(form@) =~= exchange_fields(authorization_code@, code_verifier@));
    form
}

/// The form that exchanges a refresh token for new tokens.
pub fn refresh_form(refresh_token: &str) -> (res: Vec<(&'static str, String)>)
    ensures
        form_texts(res@) == refresh_fields(refresh_token@),
{
    let form: Vec<(&'static str, String)> = vec![
        ("grant_type", "refresh_token".to_owned()),
        ("refresh_token", refresh_token.to_owned()),
        ("client_id", CLIENT_ID.to_owned()),
    ];
    assert(form_texts(form@) =~= refresh_fields(refresh_token@));
    form
}

/// Judges the status of a token request.
pub fn check_token_status(grant: Grant, code: u16, status: &str, body: &str) -> (res: Result<
    (),
    Failure,
>)
    ensures
        res is Ok <==> success(code),
        res matches Err(failure) ==> failure.cause is None && failure.message@ == rejection_text(
            grant.rejection_intro(),
            status@,
            body@,
        ),
{
    if is_success(code) {
        return Ok(());
    }
    let intro = match grant {
        Grant::Exchange => "ChatGPT token exchange failed",
        Grant::Refresh => "ChatGPT token refresh failed",
    };
    Err(Failure { message: rejection_message(intro, status, body), cause: None })
}

/// A token response holds an access token.
pub open spec fn holds_a_token(tokens: TokenResponse) -> bool {
    tokens.access_token@.len() > 0
}

/// Lets a token response through that holds an access token.
pub fn check_tokens(grant: Grant, tokens: TokenResponse) -> (res: Result<TokenResponse, Failure>)
    ensures
        res is Ok <==> holds_a_token(tokens),
        res matches Ok(same) ==> same == tokens,
        res matches Err(failure) ==> failure.cause is None && failure.message@
            == grant.missing_token_text(),
{
    if tokens.access_token.as_str().is_empty() {
        let message = match grant {
            Grant::Exchange => "ChatGPT token exchange did not return an access token",
            Grant::Refresh => "ChatGPT token refresh did not return an access token",
        };
        Err(Failure { message: message.to_owned(), cause: None })
    } else {
        Ok(tokens)
    }
}

/// `host`, in lower case, and `path` are those of the ChatGPT Codex backend.
pub open spec fn codex_backend(host: Seq<char>, path: Seq<char>) -> bool {
    &&& host == "chatgpt.com"@
    &&& (path == "/backend-api/codex"@ || "/backend-api/codex/"@.is_prefix_of(path))
}

/// The host and path of `url` without scheme and query.
pub open spec fn host_and_path(url: Seq<char>) -> Seq<char> {
    crate::text::before_first(crate::endpoint::schemeless(url), '?')
}

/// The path of `url` without its query: empty, or starting with a slash.
pub open spec fn queryless_path(url: Seq<char>) -> Seq<char> {
    match crate::text::after_first(host_and_path(url), '/') {
        Some(rest) => "/"@ + rest,
        None => Seq::empty(),
    }
}

/// `url` is the ChatGPT Codex backend.
pub open spec fn chatgpt_subscription_base(url: Seq<char>) -> bool {
    codex_backend(
        crate::unicode::lowered(crate::text::before_first(host_and_path(url), '/')),
        queryless_path(url),
    )
}

/// Whether `host`, in lower case, and `path` are those of the ChatGPT Codex backend.
pub fn is_codex_backend(host: &str, path: &str) -> (res: bool)
    ensures
        res == codex_backend(host@, path@),
{
    same_text(host, "chatgpt.com") && (same_text(path, "/backend-api/codex") || starts_with(
        path,
        "/backend-api/codex/",
    ))
}

/// Returns true if the given URL is the ChatGPT Codex backend.
pub fn is_chatgpt_subscription_base(url: &str) -> (res: bool)
    ensures
        res == chatgpt_subscription_base(url@),
{
    let stripped = strip_prefixes(strip_prefixes(trim(url), "https://"), "http://");
    let (location, _) = split_first(stripped, '?');
    let (host, rest) = split_first(location, '/');
    let mut path = String::new();
    match rest {
        Some(rest) => {
            path.append("/");
            path.append(rest);
        },
        None => {},
    }
    assert(path@ =~= queryless_path(url@));
    let host = host.to_lowercase();
    is_codex_backend(host.as_str(), path.as_str())
}

/// The interval between two polls is the number of seconds that the server names, as a number or
/// as text, and five seconds where it names none.
pub proof fn law_poll_interval_is_the_servers(
    secs: u64,
    signed: Option<i64>,
    document: crate::json::JsonView,
)
    ensures
        poll_secs(Some(crate::json::JsonView::Number { unsigned: Some(secs), signed })) == secs,
        poll_secs(Some(crate::json::JsonView::Text(crate::text::decimal(secs as nat)))) == secs,
        poll_secs(None) == 5,
        !(document is Number) && !(document is Text) ==> poll_secs(Some(document)) == 5,
        document matches crate::json::JsonView::Text(text) ==> (crate::text::number_in(text) is None
            ==> poll_secs(Some(document)) == 5),
        document matches crate::json::JsonView::Number { unsigned, signed } ==> (unsigned is None
            ==> poll_secs(Some(document)) == 5),
{
    crate::text::law_written_numbers_are_read(secs as nat);
}

/// The page to open is the one that the server names, and the known one otherwise.
pub proof fn law_the_servers_page_is_opened(uri: Seq<char>)
    ensures
        verification_url_view(Some(uri)) == uri,
        verification_url_view(None) == "https://auth.openai.com/codex/device"@,
{
}

/// The status codes of success are those from 200 to 299.
pub proof fn law_success_is_in_the_two_hundreds(code: u16)
    ensures
        success(code) <==> code / 100 == 2,
{
}

/// A rejected call is told with what was called, the status and the answer.
pub proof fn law_rejections_tell_everything(
    intro: Seq<char>,
    status: Seq<char>,
    body: Seq<char>,
    code: u16,
)
    ensures
        intro.is_prefix_of(rejection_text(intro, status, body)),
        body.is_suffix_of(rejection_text(intro, status, body)),
        rejection_text(intro, status, body).len() == intro.len() + status.len() + body.len() + 5,
        rejection_text(intro, status, body).subrange(
            intro.len() as int + 2,
            (intro.len() + 2 + status.len()) as int,
        ) == status,
        device_code_error(code, status, body) is None <==> code / 100 == 2,
        code != 404 ==> (device_code_error(code, status, body) matches Some(message)
            ==> body.is_suffix_of(message)),
{
    reveal_strlit(" (");
    reveal_strlit("): ");
    lemma_rejection(intro, status, body);
    lemma_rejection("ChatGPT device-code request failed"@, status, body);
}

proof fn lemma_rejection(intro: Seq<char>, status: Seq<char>, body: Seq<char>)
    ensures
        intro.is_prefix_of(rejection_text(intro, status, body)),
        body.is_suffix_of(rejection_text(intro, status, body)),
        rejection_text(intro, status, body).len() == intro.len() + status.len() + body.len() + 5,
        rejection_text(intro, status, body).subrange(
            intro.len() as int + 2,
            (intro.len() + 2 + status.len()) as int,
        ) == status,
{
    reveal_strlit(" (");
    reveal_strlit("): ");
    let text = rejection_text(intro, status, body);
    assert(text.subrange(0, intro.len() as int) =~= intro);
    assert(text.subrange(text.len() - body.len(), text.len() as int) =~= body);
    assert(text.subrange(intro.len() as int + 2, (intro.len() + 2 + status.len()) as int) =~= status);
}

/// While the user has not decided, polling goes on: the server says so by the status, in words or
/// with an answer that holds no code. An answer with a code ends it with that code, and anything
/// else with an error.
pub proof fn law_polls_wait_for_the_user(
    code: u16,
    status: Seq<char>,
    body: PollBody,
    reason: String,
)
    ensures
        code == 403 || code == 404 ==> poll_view(code, status, Ok(body)) is Pending && poll_view(
            code,
            status,
            Err(reason),
        ) is Pending,
        code != 403 && code != 404 ==> (poll_view(code, status, Err(reason)) matches PollView::Error(
            failure,
        ) && failure.cause == Some(reason@)),
        code / 100 == 2 ==> (body.parsed matches Ok(authorized) ==> {
            &&& authorized.authorization_code@.len() > 0 ==> poll_view(code, status, Ok(body))
                == PollView::Authorized(authorized)
            &&& authorized.authorization_code@.len() == 0 ==> poll_view(code, status, Ok(body))
                is Pending
        }),
        code / 100 == 2 ==> (body.parsed matches Err(cause) ==> (poll_view(
            code,
            status,
            Ok(body),
        ) matches PollView::Error(failure) && failure.cause == Some(cause@)
            && body.text@.is_suffix_of(failure.message))),
        code / 100 != 2 && code != 403 && code != 404 ==> {
            &&& crate::text::position_of(body.text@, "authorization_pending"@) is Some ==> poll_view(
                code,
                status,
                Ok(body),
            ) is Pending
            &&& crate::text::position_of(body.text@, "authorization_pending"@) is None ==> (
            poll_view(code, status, Ok(body)) matches PollView::Error(failure)
                && failure.cause is None && body.text@.is_suffix_of(failure.message))
        },
{
    lemma_rejection("ChatGPT device-auth poll failed"@, status, body.text@);
    let message = "failed to parse ChatGPT poll response: "@ + body.text@;
    assert(message.subrange(message.len() - body.text@.len(), message.len() as int)
        =~= body.text@);
}

/// The Codex backend is recognised with or without a scheme, a path below it or a query behind it;
/// a longer name in its place is not.
pub proof fn law_the_codex_backend_is_recognised(scheme_text: Seq<char>, tail: Seq<char>)
    requires
        crate::endpoint::scheme(scheme_text),
        tail.len() > 0 ==> !crate::text::whitespace(tail.last()),
    ensures
        chatgpt_subscription_base(
            scheme_text + "chatgpt.com"@ + Seq::empty() + ("/backend-api/codex"@ + tail),
        ) <==> tail.len() == 0 || tail[0] == '/' || tail[0] == '?',
{
    reveal_strlit("chatgpt.com");
    reveal_strlit("/backend-api/codex");
    reveal_strlit("/backend-api/codex/");
    reveal_strlit("/");
    let name = "chatgpt.com"@;
    let path = "/backend-api/codex"@;
    let nothing = Seq::<char>::empty();
    let whole = path + tail;
    assert(whole[0] == '/');
    crate::endpoint::lemma_written_host(scheme_text, name, nothing, whole);
    assert(whole.last() == if tail.len() > 0 {
        tail.last()
    } else {
        'x'
    });
    assert(crate::text::trimmed_end(whole) == whole);
    let url = scheme_text + name + nothing + whole;
    let location = crate::endpoint::schemeless(url);
    assert(location =~= name + path + tail);
    let at = crate::text::first_of(tail, '?');
    crate::text::lemma_first_of(tail, '?');
    let n = (name + path).len() as int;
    assert forall|i: int| 0 <= i < n + at implies location[i] != '?' by {
        if i >= n {
            assert(location[i] == tail[i - n]);
        } else {
            assert(location[i] == (name + path)[i]);
        }
    }
    if at < tail.len() {
        assert(location[n + at] == tail[at]);
    }
    crate::text::lemma_first_of_unique(location, '?', n + at);
    let front = host_and_path(url);
    assert(front =~= name + path + tail.take(at));
    assert forall|i: int| 0 <= i < 11 implies front[i] != '/' by {
        assert(front[i] == name[i]);
    }
    assert(front[11] == path[0]);
    crate::text::lemma_first_of_unique(front, '/', 11);
    assert(crate::text::before_first(front, '/') =~= name);
    assert(crate::unicode::ascii(name));
    assert(crate::unicode::lowered(name) =~= name);
    let rest = front.skip(12);
    assert("/"@ + rest =~= path + tail.take(at));
    let found = queryless_path(url);
    assert(found == path + tail.take(at));
    if at == 0 {
        assert(found =~= path);
    } else if tail[0] == '/' {
        assert(found.take(19) =~= "/backend-api/codex/"@);
    } else {
        assert(found[18] == tail[0]);
        assert(found.len() > path.len());
        if "/backend-api/codex/"@.is_prefix_of(found) {
            assert(found.take(19)[18] == found[18]);
        }
    }
}

/// No other host is the Codex backend, whatever stands behind it.
pub proof fn law_other_hosts_are_not_the_codex_backend(
    scheme_text: Seq<char>,
    name: Seq<char>,
    tail: Seq<char>,
)
    requires
        crate::endpoint::scheme(scheme_text),
        crate::endpoint::host_name(name),
        crate::unicode::ascii(name),
        crate::endpoint::in_lower_case(name) != "chatgpt.com"@,
        crate::endpoint::url_tail(tail),
        tail.len() > 0 ==> tail[0] != '#',
    ensures
        !chatgpt_subscription_base(scheme_text + name + Seq::empty() + tail),
{
    let nothing = Seq::<char>::empty();
    let url = scheme_text + name + nothing + tail;
    crate::endpoint::lemma_written_host(scheme_text, name, nothing, tail);
    let kept = crate::text::trimmed_end(tail);
    crate::text::lemma_trimmed_end_keeps_first(tail);
    let location = crate::endpoint::schemeless(url);
    assert(location =~= name + kept);
    let n = name.len() as int;
    let front = host_and_path(url);
    crate::text::lemma_first_of(location, '?');
    assert(crate::text::first_of(location, '?') >= n) by {
        let at = crate::text::first_of(location, '?');
        if at < n {
            assert(location[at] == name[at]);
        }
    }
    assert forall|i: int| 0 <= i < n implies front[i] != '/' by {
        assert(front[i] == name[i]);
    }
    if front.len() > n {
        assert(front[n] == kept[0]);
        if kept[0] == '?' {
            assert(location[n] == '?');
        }
        assert(front[n] == '/');
    }
    crate::text::lemma_first_of_unique(front, '/', n);
    assert(crate::text::before_first(front, '/') =~= name);
    assert(crate::unicode::lowered(name) == crate::endpoint::in_lower_case(name));
}

/// What the form sends is what was handed in: each value stands in its own field, and only there.
pub proof fn law_forms_carry_what_they_exchange(
    authorization_code: Seq<char>,
    code_verifier: Seq<char>,
    refresh_token: Seq<char>,
)
    ensures
        exchange_fields(authorization_code, code_verifier).contains(("code"@, authorization_code)),
        exchange_fields(authorization_code, code_verifier).contains(
            ("code_verifier"@, code_verifier),
        ),
        exchange_fields(authorization_code, code_verifier).contains(
            ("grant_type"@, "authorization_code"@),
        ),
        exchange_fields(authorization_code, code_verifier).contains(("client_id"@, CLIENT_ID@)),
        exchange_fields(authorization_code, code_verifier).contains(
            ("redirect_uri"@, "https://auth.openai.com/deviceauth/callback"@),
        ),
        exchange_fields(authorization_code, code_verifier).len() == 5,
        refresh_fields(refresh_token).contains(("refresh_token"@, refresh_token)),
        refresh_fields(refresh_token).contains(("grant_type"@, "refresh_token"@)),
        refresh_fields(refresh_token).contains(("client_id"@, CLIENT_ID@)),
        refresh_fields(refresh_token).len() == 3,
{
    let exchange = exchange_fields(authorization_code, code_verifier);
    let refresh = refresh_fields(refresh_token);
    assert(exchange[0] == ("grant_type"@, "authorization_code"@));
    assert(exchange[1] == ("client_id"@, CLIENT_ID@));
    assert(exchange[2] == ("code"@, authorization_code));
    assert(exchange[3] == ("code_verifier"@, code_verifier));
    assert(exchange[4] == ("redirect_uri"@, "https://auth.openai.com/deviceauth/callback"@));
    assert(refresh[0] == ("grant_type"@, "refresh_token"@));
    assert(refresh[1] == ("refresh_token"@, refresh_token));
    assert(refresh[2] == ("client_id"@, CLIENT_ID@));
}

/// A poll names the device and the code that the user was shown.
pub proof fn law_polls_name_device_and_code(device_auth_id: Seq<char>, user_code: Seq<char>)
    ensures
        crate::json::member_view(Some(poll_body(device_auth_id, user_code)), "device_auth_id"@)
            == Some(crate::json::JsonView::Text(device_auth_id)),
        crate::json::member_view(Some(poll_body(device_auth_id, user_code)), "user_code"@) == Some(
            crate::json::JsonView::Text(user_code),
        ),
{
    reveal_strlit("device_auth_id");
    reveal_strlit("user_code");
    assert("device_auth_id"@.len() == 14 && "user_code"@.len() == 9);
    let members = seq![
        ("device_auth_id"@, crate::json::JsonView::Text(device_auth_id)),
        ("user_code"@, crate::json::JsonView::Text(user_code)),
    ];
    crate::json::law_first_member_counts(members, "device_auth_id"@, 0);
    crate::json::law_first_member_counts(members, "user_code"@, 1);
}

/// A body that need not be read makes no difference, and one that has to be read does: that it could
/// not be read is an error.
pub proof fn law_unread_bodies_make_no_difference(
    code: u16,
    status: Seq<char>,
    a: Result<PollBody, String>,
    b: Result<PollBody, String>,
)
    ensures
        !needs_body(code) ==> poll_view(code, status, a) == poll_view(code, status, b),
        needs_body(code) && a is Err ==> poll_view(code, status, a) is Error,
{
}

/// A response is let through with all its required fields and not without one of them.
pub proof fn law_required_fields_are_required(data: DeviceCodeResponse, tokens: TokenResponse)
    ensures
        data.device_auth_id@.len() == 0 ==> !has_required_fields(data),
        data.user_code@.len() == 0 ==> !has_required_fields(data),
        data.device_auth_id@.len() > 0 && data.user_code@.len() > 0 ==> has_required_fields(data),
        tokens.access_token@.len() == 0 <==> !holds_a_token(tokens),
{
}

/// What is told of a failed exchange cannot be taken for a failed refresh.
pub proof fn law_grants_are_told_apart(a: Grant, b: Grant)
    requires
        a.rejection_intro() == b.rejection_intro() || a.missing_token_text()
            == b.missing_token_text(),
    ensures
        a == b,
{
    reveal_strlit("ChatGPT token exchange failed");
    reveal_strlit("ChatGPT token refresh failed");
    reveal_strlit("ChatGPT token exchange did not return an access token");
    reveal_strlit("ChatGPT token refresh did not return an access token");
    assert((Grant::Exchange).rejection_intro().len() == (Grant::Refresh).rejection_intro().len()
        + 1);
    assert((Grant::Exchange).missing_token_text().len() == (
    Grant::Refresh).missing_token_text().len() + 1);
}

} // verus!
