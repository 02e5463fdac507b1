//! Custom inference endpoints: what their URLs say about them.
use crate::text::{
    ends_with, parse_u64, same_text, split, split_first, starts_with, strip_prefix,
    strip_prefixes, strip_to_last, strip_trailing, trim,
};
use vstd::prelude::*;

verus! {

/// Whether an endpoint is a local server, cloud API, or proxy aggregator.
#[derive(Debug, Clone, Copy, PartialEq, Eq, Structural, Default)]
pub enum EndpointKind {
    /// Auto-detect from URL (default).
    #[default]
    Auto,
    /// Local inference server (Ollama, llama.cpp, LM Studio, vLLM).
    Local,
    /// Cloud API provider (OpenAI, Anthropic, Google, Groq, etc.).
    Api,
    /// Proxy or aggregator (OpenRouter, LiteLLM, etc.).
    Proxy,
}

impl EndpointKind {
    pub open spec fn display_name_view(self) -> Seq<char> {
        match self {
            EndpointKind::Auto => "Auto"@,
            EndpointKind::Local => "Local"@,
            EndpointKind::Api => "API"@,
            EndpointKind::Proxy => "Proxy"@,
        }
    }

    pub fn display_name(self) -> (res: &'static str)
        ensures
            res@ == self.display_name_view(),
    {
        match self {
            EndpointKind::Auto => "Auto",
            EndpointKind::Local => "Local",
            EndpointKind::Api => "API",
            EndpointKind::Proxy => "Proxy",
        }
    }

    /// The kind with the given display name.
    pub fn from_display_name(name: &str) -> (res: Option<Self>)
        ensures
            res matches Some(kind) ==> kind.display_name_view() == name@,
            res is None ==> forall|kind: EndpointKind| kind.display_name_view() != name@,
    {
        if same_text(name, "Auto") {
            Some(EndpointKind::Auto)
        } else if same_text(name, "Local") {
            Some(EndpointKind::Local)
        } else if same_text(name, "API") {
            Some(EndpointKind::Api)
        } else if same_text(name, "Proxy") {
            Some(EndpointKind::Proxy)
        } else {
            None
        }
    }

    /// All variants for display in a dropdown.
    pub fn all() -> (res: &'static [Self])
        ensures
            res@ == seq![
                EndpointKind::Auto,
                EndpointKind::Local,
                EndpointKind::Api,
                EndpointKind::Proxy,
            ],
    {
        &[EndpointKind::Auto, EndpointKind::Local, EndpointKind::Api, EndpointKind::Proxy]
    }
}

/// Kinds with the same display name are the same kind, so a display name can be read back.
pub proof fn law_endpoint_kind_names_differ(a: EndpointKind, b: EndpointKind)
    requires
        a.display_name_view() == b.display_name_view(),
    ensures
        a == b,
{
    reveal_strlit("Auto");
    reveal_strlit("Local");
    reveal_strlit("API");
    reveal_strlit("Proxy");
    let auto = "Auto"@;
    let local = "Local"@;
    let api = "API"@;
    let proxy = "Proxy"@;
    assert(auto.len() == 4 && local.len() == 5 && api.len() == 3 && proxy.len() == 5);
    assert(local[0] == 'L' && proxy[0] == 'P');
}

/// The request/response protocol used by a custom inference endpoint.
#[derive(Debug, Clone, Copy, PartialEq, Eq, Structural, Default)]
pub enum CustomEndpointSchema {
    /// OpenAI Chat Completions, retained as the legacy/default protocol.
    #[default]
    OpenaiChatCompletions,
    /// OpenAI Responses.
    OpenaiResponses,
    /// Anthropic Messages.
    AnthropicMessages,
}

impl CustomEndpointSchema {
    pub open spec fn display_name_view(self) -> Seq<char> {
        match self {
            CustomEndpointSchema::OpenaiChatCompletions => "OpenAI Chat Completions"@,
            CustomEndpointSchema::OpenaiResponses => "OpenAI Responses"@,
            CustomEndpointSchema::AnthropicMessages => "Anthropic Messages"@,
        }
    }

    pub fn display_name(self) -> (res: &'static str)
        ensures
            res@ == self.display_name_view(),
    {
        match self {
            CustomEndpointSchema::OpenaiChatCompletions => "OpenAI Chat Completions",
            CustomEndpointSchema::OpenaiResponses => "OpenAI Responses",
            CustomEndpointSchema::AnthropicMessages => "Anthropic Messages",
        }
    }

    /// The schema with the given display name.
    pub fn from_display_name(name: &str) -> (res: Option<Self>)
        ensures
            res matches Some(schema) ==> schema.display_name_view() == name@,
            res is None ==> forall|schema: CustomEndpointSchema|
                schema.display_name_view() != name@,
    {
        if same_text(name, "OpenAI Chat Completions") {
            Some(CustomEndpointSchema::OpenaiChatCompletions)
        } else if same_text(name, "OpenAI Responses") {
            Some(CustomEndpointSchema::OpenaiResponses)
        } else if same_text(name, "Anthropic Messages") {
            Some(CustomEndpointSchema::AnthropicMessages)
        } else {
            None
        }
    }
}

/// Schemas with the same display name are the same schema, so a display name can be read back.
pub proof fn law_schema_names_differ(a: CustomEndpointSchema, b: CustomEndpointSchema)
    requires
        a.display_name_view() == b.display_name_view(),
    ensures
        a == b,
{
    reveal_strlit("OpenAI Chat Completions");
    reveal_strlit("OpenAI Responses");
    reveal_strlit("Anthropic Messages");
    let chat = "OpenAI Chat Completions"@;
    let responses = "OpenAI Responses"@;
    let messages = "Anthropic Messages"@;
    assert(chat.len() == 23 && responses.len() == 16 && messages.len() == 18);
}

/// `url` without surrounding whitespace and without its scheme.
pub open spec fn schemeless(url: Seq<char>) -> Seq<char> {
    crate::text::without_prefixes(
        crate::text::without_prefixes(crate::text::trimmed(url), "https://"@),
        "http://"@,
    )
}

/// What of a URL without its scheme names the server: all before the path, the query or the
/// fragment.
pub open spec fn authority_of(location: Seq<char>) -> Seq<char> {
    crate::text::before_first(
        crate::text::before_first(crate::text::before_first(location, '/'), '?'),
        '#',
    )
}

/// The host that an authority names, and the port if it names one; who logs in does not matter.
/// A host in square brackets may hold colons.
pub open spec fn host_and_port(authority: Seq<char>) -> (Seq<char>, Option<Seq<char>>) {
    let named = crate::text::after_last(authority, '@');
    let inside = named.drop_first();
    match crate::text::after_first(inside, ']') {
        Some(behind) if named.len() > 0 && named[0] == '[' => (
            crate::text::before_first(inside, ']'),
            if behind.len() > 0 && behind[0] == ':' {
                Some(behind.drop_first())
            } else {
                None
            },
        ),
        _ => (crate::text::before_first(named, ':'), crate::text::after_first(named, ':')),
    }
}

/// The host of `url` as it is written.
pub open spec fn written_host(url: Seq<char>) -> Seq<char> {
    host_and_port(authority_of(schemeless(url))).0
}

/// The port that `url` names, if it names one.
pub open spec fn port_of(url: Seq<char>) -> Option<Seq<char>> {
    host_and_port(authority_of(schemeless(url))).1
}

/// The host of `url` in lower case.
pub open spec fn host_of(url: Seq<char>) -> Seq<char> {
    crate::unicode::lowered(written_host(url))
}

/// The path of `url` as it is written, with what stands behind it: it starts with a slash.
pub open spec fn written_path(url: Seq<char>) -> Seq<char> {
    let behind = schemeless(url).skip(authority_of(schemeless(url)).len() as int);
    if behind.len() > 0 && behind[0] == '/' {
        behind
    } else {
        "/"@
    }
}

/// The path of `url` in lower case.
pub open spec fn path_of(url: Seq<char>) -> Seq<char> {
    crate::unicode::lowered(written_path(url))
}

/// `host` is `domain` or one of its subdomains.
pub open spec fn in_domain(host: Seq<char>, domain: Seq<char>) -> bool {
    host == domain || ("."@ + domain).is_suffix_of(host)
}

/// `part` is one of the numbers of an IPv4 address: decimal digits for a number up to 255.
pub open spec fn is_octet(part: Seq<char>) -> bool {
    part.len() > 0 && crate::text::all_digits(part) && crate::text::digits_value(part) <= 255
}

/// `host` is an IPv4 address and no name: four numbers with dots between them.
pub open spec fn ipv4_address(host: Seq<char>) -> bool {
    let parts = crate::text::pieces(host, '.');
    parts.len() == 4 && forall|i: int| 0 <= i < 4 ==> is_octet(#[trigger] parts[i])
}

/// `host` starts as the addresses in 172.16.0.0/12 do: behind `172.` comes a number from 16 to 31.
pub open spec fn in_172_block(host: Seq<char>) -> bool {
    let second = crate::text::before_first(host.skip(4), '.');
    &&& "172."@.is_prefix_of(host)
    &&& second.len() == 2
    &&& crate::text::number_in(second) matches Some(n) && 16 <= n <= 31
}

/// `host` names this machine, or is a loopback address or an address of a private network:
/// 127.0.0.0/8, 192.168.0.0/16, 10.0.0.0/8 or 172.16.0.0/12. A name that only starts like such an
/// address is none.
pub open spec fn local_host(host: Seq<char>) -> bool {
    ||| host == "localhost"@
    ||| host == "0.0.0.0"@
    ||| host == "::1"@
    ||| ipv4_address(host) && private_start(host)
}

/// `host` starts as the addresses of this machine and of private networks do.
pub open spec fn private_start(host: Seq<char>) -> bool {
    ||| "127."@.is_prefix_of(host)
    ||| "192.168."@.is_prefix_of(host)
    ||| "10."@.is_prefix_of(host)
    ||| in_172_block(host)
}

/// `url`, whose host is `host`, speaks Ollama's own protocol: it is Ollama's cloud, or a local
/// server on Ollama's port or under `/api` that is not asked for its OpenAI-compatible surface.
pub open spec fn ollama_native(host: Seq<char>, url: Seq<char>) -> bool {
    ||| in_domain(host, "ollama.com"@)
    ||| {
        &&& local_host(host)
        &&& !"/v1"@.is_prefix_of(written_path(url))
        &&& (port_of(url) == Some("11434"@) || "/api"@.is_prefix_of(written_path(url)))
    }
}

/// The domains by which a provider is known, each with the provider; `path` is the path asked for.
pub open spec fn known_domains(path: Seq<char>) -> Seq<(Seq<char>, Seq<char>)> {
    seq![
        ("anthropic.com"@, "anthropic"@),
        (
            "opencode.ai"@,
            if "/zen/go"@.is_prefix_of(path) {
                "opencode-go"@
            } else {
                "opencode-zen"@
            },
        ),
        ("openrouter.ai"@, "openrouter"@),
        ("groq.com"@, "groq"@),
        ("nvidia.com"@, "nvidia"@),
        ("moonshot.ai"@, "moonshot"@),
        ("moonshot.cn"@, "moonshot"@),
        ("cerebras.ai"@, "cerebras"@),
        ("mistral.ai"@, "mistral"@),
        ("googleapis.com"@, "google"@),
        ("together.xyz"@, "together"@),
        ("together.ai"@, "together"@),
        ("fireworks.ai"@, "fireworks"@),
        ("deepseek.com"@, "deepseek"@),
        ("x.ai"@, "xai"@),
        ("z.ai"@, "zai"@),
        ("openai.com"@, "openai"@),
    ]
}

/// The provider of the first of `domains` that `host` is in; the generic OpenAI-compatible
/// provider when it is in none.
pub open spec fn listed_provider(
    host: Seq<char>,
    domains: Seq<(Seq<char>, Seq<char>)>,
) -> Seq<char>
    decreases domains.len(),
{
    if domains.len() == 0 {
        "openai"@
    } else if in_domain(host, domains[0].0) {
        domains[0].1
    } else {
        listed_provider(host, domains.drop_first())
    }
}

/// The provider of an endpoint with the given host and path, both in lower case.
pub open spec fn provider_of(native: bool, host: Seq<char>, path: Seq<char>) -> Seq<char> {
    if native {
        "ollama"@
    } else {
        listed_provider(host, known_domains(path))
    }
}

/// The kind of an endpoint with the given host.
pub open spec fn kind_of(host: Seq<char>) -> EndpointKind {
    if local_host(host) {
        EndpointKind::Local
    } else if in_domain(host, "openrouter.ai"@) {
        EndpointKind::Proxy
    } else if host.len() > 0 {
        EndpointKind::Api
    } else {
        EndpointKind::Auto
    }
}

/// The URL under which the endpoint with the given base URL lists its models.
pub open spec fn models_url(native: bool, base_url: Seq<char>) -> Seq<char> {
    let base = crate::text::without_trailing(base_url, '/');
    if "/v1"@.is_suffix_of(base) {
        base + "/models"@
    } else if native {
        if "/api"@.is_suffix_of(base) {
            base + "/tags"@
        } else {
            base + "/api/tags"@
        }
    } else {
        base + "/v1/models"@
    }
}

fn strip_scheme(url: &str) -> (res: &str)
    ensures
        res@ == crate::text::without_prefixes(
            crate::text::without_prefixes(url@, "https://"@),
            "http://"@,
        ),
{
    strip_prefixes(strip_prefixes(url, "https://"), "http://")
}

fn take_authority(location: &str) -> (res: &str)
    ensures
        res@ == authority_of(location@),
{
    let (before_path, _) = split_first(location, '/');
    let (before_query, _) = split_first(before_path, '?');
    let (authority, _) = split_first(before_query, '#');
    authority
}

pub open spec fn seen_host_and_port(parts: (&str, Option<&str>)) -> (Seq<char>, Option<Seq<char>>) {
    (parts.0@, crate::json::seen_text(parts.1))
}

fn take_host_and_port<'a>(authority: &'a str) -> (res: (&'a str, Option<&'a str>))
    ensures
        seen_host_and_port(res) == host_and_port(authority@),
{
    let named = strip_to_last(authority, '@');
    proof {
        reveal_strlit("[");
        reveal_strlit(":");
        assert("["@.is_prefix_of(named@) <==> named@.len() > 0 && named@[0] == '[') by {
            if named@.len() > 0 && named@[0] == '[' {
                assert(named@.subrange(0, 1) =~= "["@);
            }
            if "["@.is_prefix_of(named@) {
                assert(named@.subrange(0, 1)[0] == "["@[0]);
            }
        }
        assert(named@.skip(1) =~= named@.drop_first());
    }
    match strip_prefix(named, "[") {
        Some(inside) => match split_first(inside, ']') {
            (host, Some(behind)) => {
                let port = strip_prefix(behind, ":");
                proof {
                    if behind@.len() > 0 && behind@[0] == ':' {
                        assert(behind@.subrange(0, 1) =~= ":"@);
                    }
                    if ":"@.is_prefix_of(behind@) {
                        assert(behind@.subrange(0, 1)[0] == ":"@[0]);
                    }
                    assert(behind@.skip(1) =~= behind@.drop_first());
                }
                return (host, port);
            },
            _ => {},
        },
        None => {},
    }
    split_first(named, ':')
}

fn take_path<'a>(url: &'a str) -> (res: &'a str)
    ensures
        res@ == written_path(url@),
{
    let location = strip_scheme(trim(url));
    let authority = take_authority(location);
    let from: usize = authority.unicode_len();
    let to: usize = location.unicode_len();
    proof {
        lemma_authority_fits(location@);
        reveal_strlit("/");
    }
    let behind = location.substring_char(from, to);
    assert(behind@ =~= location@.skip(authority@.len() as int));
    proof {
        if behind@.len() > 0 && behind@[0] == '/' {
            assert(behind@.subrange(0, 1) =~= "/"@);
        }
        if "/"@.is_prefix_of(behind@) {
            assert(behind@.subrange(0, 1)[0] == "/"@[0]);
        }
    }
    if starts_with(behind, "/") {
        behind
    } else {
        "/"
    }
}

proof fn lemma_authority_fits(location: Seq<char>)
    ensures
        authority_of(location).len() <= location.len(),
        authority_of(location) == location.take(authority_of(location).len() as int),
{
    let before_path = crate::text::before_first(location, '/');
    let before_query = crate::text::before_first(before_path, '?');
    crate::text::lemma_first_of(location, '/');
    crate::text::lemma_first_of(before_path, '?');
    crate::text::lemma_first_of(before_query, '#');
    assert(authority_of(location) =~= location.take(authority_of(location).len() as int));
}

/// The host of a URL, in lower case.
pub fn extract_host(url: &str) -> (res: String)
    ensures
        res@ == host_of(url@),
{
    let authority = take_authority(strip_scheme(trim(url)));
    let (host, _) = take_host_and_port(authority);
    host.to_lowercase()
}

/// The path of a URL, in lower case.
pub fn extract_path(url: &str) -> (res: String)
    ensures
        res@ == path_of(url@),
{
    take_path(url).to_lowercase()
}

/// Whether `host` is `domain` or one of its subdomains.
pub fn host_matches(host: &str, domain: &str) -> (res: bool)
    ensures
        res == in_domain(host@, domain@),
{
    let mut suffix = ".".to_owned();
    suffix.append(domain);
    same_text(host, domain) || ends_with(host, suffix.as_str())
}

fn is_in_172_block(host: &str) -> (res: bool)
    ensures
        res == in_172_block(host@),
{
    proof {
        reveal_strlit("172.");
    }
    match strip_prefix(host, "172.") {
        Some(rest) => {
            let (second, _) = split_first(rest, '.');
            match parse_u64(second) {
                Some(n) => second.unicode_len() == 2 && 16 <= n && n <= 31,
                None => false,
            }
        },
        None => false,
    }
}

fn reads_as_octet(part: &str) -> (res: bool)
    ensures
        res == is_octet(part@),
{
    match parse_u64(part) {
        Some(n) => {
            let signed = starts_with(part, "+");
            proof {
                reveal_strlit("+");
                assert(part@.len() > 0);
                if part@[0] == '+' {
                    assert(part@.subrange(0, 1) =~= "+"@);
                    assert(!crate::text::is_digit(part@[0]));
                }
                if signed {
                    assert(part@.subrange(0, 1)[0] == "+"@[0]);
                }
            }
            !signed && n <= 255
        },
        None => {
            proof {
                if is_octet(part@) {
                    assert(crate::text::is_digit(part@[0]));
                }
            }
            false
        },
    }
}

fn is_ipv4_address(host: &str) -> (res: bool)
    ensures
        res == ipv4_address(host@),
{
    let parts = split(host, '.');
    assert(parts@.len() == crate::text::pieces(host@, '.').len());
    if parts.len() != 4 {
        return false;
    }
    let ghost all = crate::text::pieces(host@, '.');
    assert(all[0] == parts@[0]@ && all[1] == parts@[1]@ && all[2] == parts@[2]@ && all[3]
        == parts@[3]@);
    reads_as_octet(parts[0]) && reads_as_octet(parts[1]) && reads_as_octet(parts[2])
        && reads_as_octet(parts[3])
}

/// Whether `host` names this machine, or is a loopback address or an address of a private network.
pub fn is_local_host(host: &str) -> (res: bool)
    ensures
        res == local_host(host@),
{
    same_text(host, "localhost") || same_text(host, "0.0.0.0") || same_text(host, "::1")
        || (is_ipv4_address(host) && (starts_with(host, "127.") || starts_with(host, "192.168.")
        || starts_with(host, "10.") || is_in_172_block(host)))
}

/// Whether `url`, whose host in lower case is `host`, speaks Ollama's own protocol.
pub fn is_ollama_native(host: &str, url: &str) -> (res: bool)
    ensures
        res == ollama_native(host@, url@),
{
    // Ollama Cloud.
    if host_matches(host, "ollama.com") {
        return true;
    }
    // Local Ollama: loopback host with default port 11434 OR native /api path.
    if !is_local_host(host) {
        return false;
    }
    let path = take_path(url);
    // If the path starts with /v1, it's using the OpenAI-compatible surface.
    if starts_with(path, "/v1") {
        return false;
    }
    let authority = take_authority(strip_scheme(trim(url)));
    let on_port = match take_host_and_port(authority).1 {
        Some(port) => same_text(port, "11434"),
        None => false,
    };
    on_port || starts_with(path, "/api")
}

/// Whether `url` speaks Ollama's own protocol.
pub fn is_ollama_native_url(url: &str) -> (res: bool)
    ensures
        res == ollama_native(host_of(url@), url@),
{
    let host = extract_host(url);
    is_ollama_native(host.as_str(), url)
}

/// The texts of a table of domains and providers.
spec fn table_texts(table: Seq<(&'static str, &'static str)>) -> Seq<(Seq<char>, Seq<char>)> {
    table.map_values(|row: (&'static str, &'static str)| (row.0@, row.1@))
}

fn domain_table(path: &str) -> (res: Vec<(&'static str, &'static str)>)
    ensures
        table_texts(res@) == known_domains(path@),
{
    let opencode = if starts_with(path, "/zen/go") {
        "opencode-go"
    } else {
        "opencode-zen"
    };
    let table: Vec<(&'static str, &'static str)> = vec![
        ("anthropic.com", "anthropic"),
        ("opencode.ai", opencode),
        ("openrouter.ai", "openrouter"),
        ("groq.com", "groq"),
        ("nvidia.com", "nvidia"),
        ("moonshot.ai", "moonshot"),
        ("moonshot.cn", "moonshot"),
        ("cerebras.ai", "cerebras"),
        ("mistral.ai", "mistral"),
        ("googleapis.com", "google"),
        ("together.xyz", "together"),
        ("together.ai", "together"),
        ("fireworks.ai", "fireworks"),
        ("deepseek.com", "deepseek"),
        ("x.ai", "xai"),
        ("z.ai", "zai"),
        ("openai.com", "openai"),
    ];
    assert(table_texts(table@) =~= known_domains(path@));
    table
}

/// The provider of an endpoint with the given host and path, both in lower case.
pub fn provider_for_host(native: bool, host: &str, path: &str) -> (res: &'static str)
    ensures
        res@ == provider_of(native, host@, path@),
{
    if native {
        return "ollama";
    }
    let table = domain_table(path);
    let n: usize = table.len();
    let ghost domains = known_domains(path@);
    assert(domains.skip(0) =~= domains);
    let mut i: usize = 0;
    while i < n
        invariant
            i <= n == table@.len(),
            domains == table_texts(table@),
            provider_of(native, host@, path@) == listed_provider(host@, domains),
            listed_provider(host@, domains) == listed_provider(host@, domains.skip(i as int)),
        decreases n - i,
    {
        assert(domains[i as int] == (table@[i as int].0@, table@[i as int].1@));
        if host_matches(host, table[i].0) {
            return table[i].1;
        }
        assert(domains.skip(i as int).drop_first() =~= domains.skip(i + 1));
        i += 1;
    }
    "openai"
}

/// Detects the provider type from a base URL.
///
/// Matches on hostname rather than substring so look-alike domains are not misclassified. Unknown
/// hosts fall back to `"openai"`, the generic OpenAI-compatible default used by most local and
/// third-party servers.
pub fn detect_provider(url: &str) -> (res: &'static str)
    ensures
        res@ == detected_provider(url@),
{
    let host = extract_host(url);
    let path = extract_path(url);
    provider_for_host(is_ollama_native(host.as_str(), url), host.as_str(), path.as_str())
}

/// The kind of an endpoint with the given host.
pub fn kind_for_host(host: &str) -> (res: EndpointKind)
    ensures
        res == kind_of(host@),
{
    // Loopback / private addresses are local.
    if is_local_host(host) {
        return EndpointKind::Local;
    }
    // Known aggregator proxies.
    if host_matches(host, "openrouter.ai") {
        return EndpointKind::Proxy;
    }
    // Everything else with a public hostname is a cloud API.
    if !host.is_empty() {
        return EndpointKind::Api;
    }
    EndpointKind::Auto
}

/// Infers the best [`EndpointKind`] for a URL when the user leaves it as `Auto`.
pub fn classify_endpoint_kind(url: &str) -> (res: EndpointKind)
    ensures
        res == kind_of(host_of(url@)),
{
    let host = extract_host(url);
    kind_for_host(host.as_str())
}

/// The schema that a provider speaks.
pub open spec fn schema_of(provider: Seq<char>) -> CustomEndpointSchema {
    if provider == "anthropic"@ {
        CustomEndpointSchema::AnthropicMessages
    } else {
        CustomEndpointSchema::OpenaiChatCompletions
    }
}

/// Infers the best [`CustomEndpointSchema`] from the detected provider.
pub fn schema_for_provider(provider: &str) -> (res: CustomEndpointSchema)
    ensures
        res == schema_of(provider@),
{
    if same_text(provider, "anthropic") {
        CustomEndpointSchema::AnthropicMessages
    } else {
        CustomEndpointSchema::OpenaiChatCompletions
    }
}

/// The models-list URL for a base URL that does or does not speak Ollama's own protocol.
pub fn models_url_for(native: bool, base_url: &str) -> (res: String)
    ensures
        res@ == models_url(native, base_url@),
{
    let base = strip_trailing(base_url, '/');
    let mut url = base.to_owned();
    if ends_with(base, "/v1") {
        url.append("/models");
    } else if native {
        if ends_with(base, "/api") {
            url.append("/tags");
        } else {
            url.append("/api/tags");
        }
    } else {
        url.append("/v1/models");
    }
    url
}

/// Returns the models-list URL for a given base URL.
pub fn models_url_for_endpoint(base_url: &str) -> (res: String)
    ensures
        res@ == models_url(ollama_native(host_of(base_url@), base_url@), base_url@),
{
    models_url_for(is_ollama_native_url(base_url), base_url)
}

/// A host that only ends in the letters of a domain is not in that domain.
pub proof fn law_look_alikes_do_not_match(front: Seq<char>, domain: Seq<char>)
    requires
        front.len() > 0,
        front.last() != '.',
    ensures
        !in_domain(front + domain, domain),
{
    reveal_strlit(".");
    let host = front + domain;
    let suffix = "."@ + domain;
    assert(host.len() > domain.len());
    assert(host.subrange(host.len() - suffix.len(), host.len() as int)[0] == front.last());
    assert(suffix[0] == '.');
}

/// Every subdomain of a domain is in it, and so is the domain itself.
pub proof fn law_subdomains_match(label: Seq<char>, domain: Seq<char>)
    ensures
        in_domain(domain, domain),
        in_domain(label + "."@ + domain, domain),
{
    let host = label + "."@ + domain;
    let suffix = "."@ + domain;
    assert(host.subrange(host.len() - suffix.len(), host.len() as int) =~= suffix);
}

/// A host in none of the known domains is taken for a generic OpenAI-compatible server.
pub proof fn law_unknown_hosts_are_generic(host: Seq<char>, path: Seq<char>)
    requires
        forall|i: int|
            0 <= i < known_domains(path).len() ==> !in_domain(host, #[trigger] known_domains(path)[i].0),
    ensures
        provider_of(false, host, path) == "openai"@,
{
    lemma_unlisted(host, known_domains(path));
}

proof fn lemma_unlisted(host: Seq<char>, domains: Seq<(Seq<char>, Seq<char>)>)
    requires
        forall|i: int| 0 <= i < domains.len() ==> !in_domain(host, #[trigger] domains[i].0),
    ensures
        listed_provider(host, domains) == "openai"@,
    decreases domains.len(),
{
    if domains.len() > 0 {
        assert(!in_domain(host, domains[0].0));
        let rest = domains.drop_first();
        assert forall|i: int| 0 <= i < rest.len() implies !in_domain(host, #[trigger] rest[i].0) by {
            assert(rest[i] == domains[i + 1]);
        }
        lemma_unlisted(host, rest);
    }
}

proof fn lemma_listed(host: Seq<char>, domains: Seq<(Seq<char>, Seq<char>)>, at: int)
    requires
        0 <= at < domains.len(),
        in_domain(host, domains[at].0),
        forall|i: int|
            0 <= i < domains.len() && in_domain(host, #[trigger] domains[i].0) ==> domains[i].1
                == domains[at].1,
    ensures
        listed_provider(host, domains) == domains[at].1,
    decreases domains.len(),
{
    if !in_domain(host, domains[0].0) {
        let rest = domains.drop_first();
        assert(rest[at - 1] == domains[at]);
        assert forall|i: int|
            0 <= i < rest.len() && in_domain(host, #[trigger] rest[i].0) implies rest[i].1
            == rest[at - 1].1 by {
            assert(rest[i] == domains[i + 1]);
        }
        lemma_listed(host, rest, at - 1);
    }
}

/// The character that stands `k` places before the end of `host`, where a dot is put in front.
#[verifier::opaque]
spec fn from_end(host: Seq<char>, k: int) -> char {
    ("."@ + host)[host.len() + 1 - k]
}

/// A host ends as the domain does that it is in.
proof fn lemma_ends_alike(host: Seq<char>, domain: Seq<char>)
    requires
        in_domain(host, domain),
    ensures
        forall|k: int|
            1 <= k <= domain.len() + 1 ==> #[trigger] from_end(host, k) == from_end(domain, k),
{
    reveal(from_end);
    reveal_strlit(".");
    if host != domain {
        let suffix = "."@ + domain;
        let end = host.subrange(host.len() - suffix.len(), host.len() as int);
        assert(end == suffix);
        assert forall|k: int| 1 <= k <= domain.len() + 1 implies #[trigger] from_end(host, k)
            == from_end(domain, k) by {
            assert(end[suffix.len() - k] == suffix[suffix.len() - k]);
        }
    }
}

/// Two of the known domains that a host is in belong to the same provider.
#[verifier::spinoff_prover]
#[verifier::rlimit(40)]
proof fn lemma_one_provider(host: Seq<char>, path: Seq<char>, i: int, j: int)
    requires
        0 <= i < known_domains(path).len(),
        0 <= j < known_domains(path).len(),
        in_domain(host, known_domains(path)[i].0),
        in_domain(host, known_domains(path)[j].0),
    ensures
        known_domains(path)[i].1 == known_domains(path)[j].1,
{
    let domains = known_domains(path);
    let a = domains[i].0;
    let b = domains[j].0;
    lemma_ends_alike(host, a);
    lemma_ends_alike(host, b);
    lemma_known_endings(path);
    assert(a == domains[i].0 && b == domains[j].0);
    assert(a.len() >= 4 && b.len() >= 4);
    assert(from_end(host, 1) == from_end(a, 1) == from_end(b, 1));
    assert(from_end(host, 2) == from_end(a, 2) == from_end(b, 2));
    assert(from_end(host, 3) == from_end(a, 3) == from_end(b, 3));
    assert(from_end(host, 4) == from_end(a, 4) == from_end(b, 4));
    assert(from_end(host, 5) == from_end(a, 5) == from_end(b, 5));
    if a.len() >= 6 && b.len() >= 6 {
        assert(from_end(host, 6) == from_end(a, 6) == from_end(b, 6));
    }
}

/// The provider does not depend on the order in which the known domains are tried: a host in one
/// of them has the provider that stands beside it.
pub proof fn law_provider_of_known_domain(host: Seq<char>, path: Seq<char>, at: int)
    requires
        0 <= at < known_domains(path).len(),
        in_domain(host, known_domains(path)[at].0),
    ensures
        provider_of(false, host, path) == known_domains(path)[at].1,
{
    let domains = known_domains(path);
    assert forall|i: int|
        0 <= i < domains.len() && in_domain(host, #[trigger] domains[i].0) implies domains[i].1
        == domains[at].1 by {
        lemma_one_provider(host, path, i, at);
    }
    lemma_listed(host, domains, at);
}

/// `domain` has the given length and, read from its end, these characters.
spec fn ends_in_five(domain: Seq<char>, len: nat, a: char, b: char, c: char, d: char, e: char) -> bool {
    &&& domain.len() == len
    &&& from_end(domain, 1) == a
    &&& from_end(domain, 2) == b
    &&& from_end(domain, 3) == c
    &&& from_end(domain, 4) == d
    &&& from_end(domain, 5) == e
}

spec fn ends_in_six(
    domain: Seq<char>,
    len: nat,
    a: char,
    b: char,
    c: char,
    d: char,
    e: char,
    f: char,
) -> bool {
    ends_in_five(domain, len, a, b, c, d, e) && from_end(domain, 6) == f
}

/// How the known domains end.
proof fn lemma_known_endings(path: Seq<char>)
    ensures
        forall|i: int|
            0 <= i < known_domains(path).len() ==> (#[trigger] known_domains(path)[i]).0.len() >= 4,
        ({
            let d = known_domains(path);
            &&& ends_in_six(d[0].0, 13, 'm', 'o', 'c', '.', 'c', 'i')
            &&& ends_in_six(d[1].0, 11, 'i', 'a', '.', 'e', 'd', 'o')
            &&& ends_in_six(d[2].0, 13, 'i', 'a', '.', 'r', 'e', 't')
            &&& ends_in_six(d[3].0, 8, 'm', 'o', 'c', '.', 'q', 'o')
            &&& ends_in_six(d[4].0, 10, 'm', 'o', 'c', '.', 'a', 'i')
            &&& ends_in_six(d[5].0, 11, 'i', 'a', '.', 't', 'o', 'h')
            &&& ends_in_six(d[6].0, 11, 'n', 'c', '.', 't', 'o', 'h')
            &&& ends_in_six(d[7].0, 11, 'i', 'a', '.', 's', 'a', 'r')
            &&& ends_in_six(d[8].0, 10, 'i', 'a', '.', 'l', 'a', 'r')
            &&& ends_in_six(d[9].0, 14, 'm', 'o', 'c', '.', 's', 'i')
            &&& ends_in_six(d[10].0, 12, 'z', 'y', 'x', '.', 'r', 'e')
            &&& ends_in_six(d[11].0, 11, 'i', 'a', '.', 'r', 'e', 'h')
            &&& ends_in_six(d[12].0, 12, 'i', 'a', '.', 's', 'k', 'r')
            &&& ends_in_six(d[13].0, 12, 'm', 'o', 'c', '.', 'k', 'e')
            &&& ends_in_five(d[14].0, 4, 'i', 'a', '.', 'x', '.')
            &&& ends_in_five(d[15].0, 4, 'i', 'a', '.', 'z', '.')
            &&& ends_in_six(d[16].0, 10, 'm', 'o', 'c', '.', 'i', 'a')
        }),
{
    reveal(from_end);
    reveal_strlit(".");
    reveal_strlit("anthropic.com");
    reveal_strlit("opencode.ai");
    reveal_strlit("openrouter.ai");
    reveal_strlit("groq.com");
    reveal_strlit("nvidia.com");
    reveal_strlit("moonshot.ai");
    reveal_strlit("moonshot.cn");
    reveal_strlit("cerebras.ai");
    reveal_strlit("mistral.ai");
    reveal_strlit("googleapis.com");
    reveal_strlit("together.xyz");
    reveal_strlit("together.ai");
    reveal_strlit("fireworks.ai");
    reveal_strlit("deepseek.com");
    reveal_strlit("x.ai");
    reveal_strlit("z.ai");
    reveal_strlit("openai.com");
}

/// The provider that a URL is detected as.
pub open spec fn detected_provider(url: Seq<char>) -> Seq<char> {
    provider_of(ollama_native(host_of(url), url), host_of(url), path_of(url))
}

/// `name` can stand in a URL where the host does: it holds no whitespace and none of the
/// characters that end a host, but for colons between square brackets.
pub open spec fn host_name(name: Seq<char>) -> bool {
    &&& name.len() > 0
    &&& forall|i: int|
        0 <= i < name.len() ==> {
            &&& !crate::text::whitespace(#[trigger] name[i])
            &&& name[i] != '/'
            &&& name[i] != '?'
            &&& name[i] != '#'
        }
    &&& bracketed(name) || forall|i: int| 0 <= i < name.len() ==> #[trigger] name[i] != ':'
}

/// `name` stands between square brackets.
pub open spec fn bracketed(name: Seq<char>) -> bool {
    &&& name.len() >= 2
    &&& name[0] == '['
    &&& name.last() == ']'
    &&& forall|i: int| 0 <= i < name.len() - 1 ==> #[trigger] name[i] != ']'
    &&& forall|i: int| 0 <= i < name.len() ==> #[trigger] name[i] != '@'
}

/// What may stand in front of a host.
pub open spec fn scheme(text: Seq<char>) -> bool {
    text == ""@ || text == "https://"@ || text == "http://"@
}

/// What may stand behind a host: nothing, or a colon and a number.
pub open spec fn port_text(text: Seq<char>) -> bool {
    text.len() == 0 || (text.len() > 1 && text[0] == ':' && crate::text::all_digits(
        text.drop_first(),
    ))
}

/// What may stand behind host and port: nothing, or a path, a query or a fragment.
pub open spec fn url_tail(text: Seq<char>) -> bool {
    text.len() == 0 || text[0] == '/' || text[0] == '?' || text[0] == '#'
}

/// The host of a URL does not depend on what stands around it: scheme, port, path, query and
/// fragment.
pub proof fn law_hosts_are_found(
    scheme_text: Seq<char>,
    name: Seq<char>,
    port: Seq<char>,
    tail: Seq<char>,
)
    requires
        scheme(scheme_text),
        host_name(name),
        port_text(port),
        url_tail(tail),
    ensures
        written_host(scheme_text + name + port + tail) == written_host(name),
        !bracketed(name) && crate::text::after_last(name, '@') == name && name[0] != '['
            ==> written_host(name) == name,
        bracketed(name) ==> written_host(name) == name.subrange(1, name.len() - 1),
{
    let nothing = Seq::<char>::empty();
    reveal_strlit("");
    assert(""@ =~= nothing);
    lemma_written_host(scheme_text, name, port, tail);
    lemma_written_host(nothing, name, nothing, nothing);
    assert(nothing + name + nothing + nothing =~= name);
    lemma_port_is_no_host(name, port);
    lemma_port_is_no_host(name, nothing);
    assert(name + nothing =~= name);
    if bracketed(name) {
        lemma_bracketed(name);
        let inside = name.drop_first();
        assert(crate::text::before_first(inside, ']') =~= name.subrange(1, name.len() - 1));
    } else {
        crate::text::lemma_first_of_unique(name, ':', name.len() as int);
        assert(crate::text::before_first(name, ':') =~= name);
    }
}

/// A host in brackets is read up to the bracket at its end.
proof fn lemma_bracketed(name: Seq<char>)
    requires
        bracketed(name),
    ensures
        crate::text::after_last(name, '@') == name,
        crate::text::first_of(name.drop_first(), ']') == name.len() - 2,
{
    let inside = name.drop_first();
    crate::text::lemma_first_of_unique(name, '@', name.len() as int);
    assert forall|i: int| 0 <= i < inside.len() - 1 implies inside[i] != ']' by {
        assert(inside[i] == name[i + 1]);
    }
    crate::text::lemma_first_of_unique(inside, ']', inside.len() - 1);
}

/// Where host and port stand in a URL.
pub proof fn lemma_written_host(
    scheme_text: Seq<char>,
    name: Seq<char>,
    port: Seq<char>,
    tail: Seq<char>,
)
    requires
        scheme(scheme_text),
        host_name(name),
        port_text(port),
        url_tail(tail),
    ensures
        schemeless(scheme_text + name + port + tail) == name + port + crate::text::trimmed_end(
            tail,
        ),
        authority_of(schemeless(scheme_text + name + port + tail)) == name + port,
{
    reveal_strlit("");
    reveal_strlit("https://");
    reveal_strlit("http://");
    let url = scheme_text + name + port + tail;
    let authority = name + port;
    let front = scheme_text + name + port;
    assert forall|i: int| 0 <= i < front.len() implies !crate::text::whitespace(
        #[trigger] front[i],
    ) by {
        let k = i - scheme_text.len() - name.len();
        if k > 0 {
            assert(front[i] == port[k]);
            assert(port.drop_first()[k - 1] == port[k]);
            assert(crate::text::is_digit(port.drop_first()[k - 1]));
        } else if k < 0 && i >= scheme_text.len() {
            assert(front[i] == name[i - scheme_text.len()]);
        }
    }
    assert(front + tail =~= url);
    let kept = crate::text::trimmed_end(tail);
    crate::text::lemma_trimmed_end_behind(front, tail);
    assert(url[0] == front[0]);
    assert(crate::text::trimmed(url) == front + kept);
    // What is left behind host and port still starts as it did.
    crate::text::lemma_trimmed_end_keeps_first(tail);
    let location = authority + kept;
    assert(front + kept =~= scheme_text + location);
    lemma_no_scheme(name, port, kept);
    lemma_scheme_comes_off(scheme_text, location);
    assert(schemeless(url) == location);
    // The authority ends where the path, the query or the fragment begins.
    assert forall|i: int| 0 <= i < authority.len() implies (#[trigger] authority[i]) != '/'
        && authority[i] != '?' && authority[i] != '#' by {
        let k = i - name.len();
        if k > 0 {
            assert(authority[i] == port[k]);
            assert(crate::text::is_digit(port.drop_first()[k - 1]));
        } else if k < 0 {
            assert(authority[i] == name[i]);
        }
    }
    lemma_authority(authority, kept);
}

/// The authority is what stands before a path, a query or a fragment.
proof fn lemma_authority(authority: Seq<char>, kept: Seq<char>)
    requires
        url_tail(kept),
        forall|i: int|
            0 <= i < authority.len() ==> (#[trigger] authority[i]) != '/' && authority[i] != '?'
                && authority[i] != '#',
    ensures
        authority_of(authority + kept) == authority,
{
    let location = authority + kept;
    let one = crate::text::before_first(location, '/');
    let two = crate::text::before_first(one, '?');
    let n = authority.len() as int;
    assert forall|i: int| 0 <= i < n implies (#[trigger] location[i]) == authority[i] by {}
    crate::text::lemma_first_of(location, '/');
    assert(one.len() >= n) by {
        if one.len() < n {
            assert(location[one.len() as int] == '/');
        }
    }
    assert forall|i: int| 0 <= i < n implies (#[trigger] one[i]) == authority[i] by {}
    crate::text::lemma_first_of(one, '?');
    assert(two.len() >= n) by {
        if two.len() < n {
            assert(one[two.len() as int] == '?');
        }
    }
    assert forall|i: int| 0 <= i < n implies (#[trigger] two[i]) == authority[i] by {}
    crate::text::lemma_first_of(two, '#');
    let three = crate::text::before_first(two, '#');
    assert(three.len() >= n) by {
        if three.len() < n {
            assert(two[three.len() as int] == '#');
        }
    }
    if three.len() > n {
        // One of the three cuts is made at the first character behind the authority.
        assert(kept.len() > 0);
        assert(location[n] == kept[0]);
        assert(one.len() > n && two.len() > n);
        assert(location[n] != '/');
        assert(one[n] == location[n] && one[n] != '?');
        assert(two[n] == one[n] && two[n] != '#');
    }
    assert(three =~= authority);
}

/// No scheme is left in front of a host.
proof fn lemma_no_scheme(name: Seq<char>, port: Seq<char>, kept: Seq<char>)
    requires
        host_name(name),
        port_text(port),
        url_tail(kept),
    ensures
        !"https://"@.is_prefix_of(name + port + kept),
        !"http://"@.is_prefix_of(name + port + kept),
{
    reveal_strlit("https://");
    reveal_strlit("http://");
    lemma_scheme_needs_colon(name, port, kept, "https://"@, 5);
    lemma_scheme_needs_colon(name, port, kept, "http://"@, 4);
}

/// Where the colon of a scheme would have to stand, a name does not hold one, a port goes on with
/// a digit, and no path starts with one.
proof fn lemma_scheme_needs_colon(
    name: Seq<char>,
    port: Seq<char>,
    kept: Seq<char>,
    prefix: Seq<char>,
    colon: int,
)
    requires
        host_name(name),
        port_text(port),
        url_tail(kept),
        0 < colon < prefix.len() - 2,
        prefix[0] != '[',
        prefix[colon] == ':',
        prefix[colon + 1] == '/',
        prefix[colon + 2] == '/',
        forall|i: int| 0 <= i < colon ==> #[trigger] prefix[i] != '/',
        forall|i: int| 0 <= i < colon ==> #[trigger] prefix[i] != '?',
        forall|i: int| 0 <= i < colon ==> #[trigger] prefix[i] != '#',
        forall|i: int| 0 <= i < colon ==> #[trigger] prefix[i] != ':',
    ensures
        !prefix.is_prefix_of(name + port + kept),
{
    let location = name + port + kept;
    if prefix.is_prefix_of(location) {
        assert forall|i: int| 0 <= i < prefix.len() implies location[i] == #[trigger] prefix[i] by {
            assert(location.subrange(0, prefix.len() as int)[i] == location[i]);
        }
        let n = name.len() as int;
        assert(location[colon] == prefix[colon] && location[colon + 1] == prefix[colon + 1]);
        assert(location[0] == prefix[0] && location[0] == name[0]);
        if colon < n {
            assert(location[colon] == name[colon]);
        } else if port.len() > 0 {
            assert(location[n] == port[0]);
            assert(location[n] == prefix[n]);
            assert(colon == n);
            assert(location[n + 1] == port[1]);
            assert(crate::text::is_digit(port.drop_first()[0]));
        } else {
            assert(location[n] == kept[0]);
            assert(location[n] == prefix[n]);
        }
    }
}

/// A scheme is taken off what does not start with one.
proof fn lemma_scheme_comes_off(scheme_text: Seq<char>, location: Seq<char>)
    requires
        scheme(scheme_text),
        !"https://"@.is_prefix_of(location),
        !"http://"@.is_prefix_of(location),
    ensures
        crate::text::without_prefixes(
            crate::text::without_prefixes(scheme_text + location, "https://"@),
            "http://"@,
        ) == location,
{
    let https = "https://"@;
    let http = "http://"@;
    reveal_strlit("");
    reveal_strlit("https://");
    reveal_strlit("http://");
    let text = scheme_text + location;
    assert(crate::text::without_prefixes(location, https) == location);
    assert(crate::text::without_prefixes(location, http) == location);
    if scheme_text == ""@ {
        assert(text =~= location);
    } else if scheme_text == https {
        assert(text.subrange(0, 8) =~= https);
        assert(text.skip(https.len() as int) =~= location);
        assert(crate::text::without_prefixes(text, https) == location);
    } else {
        assert(text.subrange(0, 7) =~= http);
        assert(text.skip(http.len() as int) =~= location);
        assert(!https.is_prefix_of(text)) by {
            if https.is_prefix_of(text) {
                assert(text.subrange(0, 8)[4] == https[4]);
                assert(text[4] == http[4]);
            }
        }
        assert(crate::text::without_prefixes(text, http) == location);
    }
}

/// A port behind `name` is read as one: `name` is not cut short by a bracket.
spec fn port_is_read(name: Seq<char>) -> bool {
    let named = crate::text::after_last(name, '@');
    let inside = named.drop_first();
    let at = crate::text::first_of(inside, ']');
    named.len() > 0 && named[0] == '[' && at < inside.len() ==> at + 1 == inside.len()
}

/// A port does not change which host an authority names.
#[verifier::spinoff_prover]
#[verifier::rlimit(40)]
proof fn lemma_port_is_no_host(name: Seq<char>, port: Seq<char>)
    requires
        host_name(name),
        port_text(port),
    ensures
        host_and_port(name + port).0 == host_and_port(name).0,
        host_and_port(name + port).1 == if port.len() > 0 && port_is_read(name) {
            Some(port.drop_first())
        } else {
            None
        },
{
    let named = crate::text::after_last(name, '@');
    assert forall|i: int| 0 <= i < port.len() implies (#[trigger] port[i]) != '@' && port[i]
        != ']' by {
        if i > 0 {
            assert(crate::text::is_digit(port.drop_first()[i - 1]));
        }
    }
    crate::text::lemma_after_last_behind(name, port, '@');
    crate::text::lemma_after_last_is_end(name, '@');
    let whole = named + port;
    if bracketed(name) {
        lemma_bracketed(name);
    } else {
        assert forall|i: int| 0 <= i < named.len() implies (#[trigger] named[i]) != ':' by {
            assert(named[i] == name[name.len() - named.len() + i]);
        }
        crate::text::lemma_first_of_unique(named, ':', named.len() as int);
        crate::text::lemma_first_of_unique(whole, ':', named.len() as int);
        assert(crate::text::before_first(named, ':') =~= named);
        assert(crate::text::before_first(whole, ':') =~= named);
        assert(port.len() > 0 ==> whole.skip(named.len() as int + 1) =~= port.drop_first());
    }
    if named.len() == 0 {
        // Nothing but a port is left, which starts with a colon.
        assert(whole =~= port);
    } else {
        let inside = named.drop_first();
        assert(whole.drop_first() =~= inside + port);
        crate::text::lemma_first_of(inside, ']');
        let at = crate::text::first_of(inside, ']');
        if at < inside.len() {
            crate::text::lemma_first_of_unique(inside + port, ']', at);
            assert(crate::text::before_first(inside + port, ']') =~= crate::text::before_first(
                inside,
                ']',
            ));
            let behind = (inside + port).skip(at + 1);
            if at + 1 < inside.len() {
                assert(behind[0] == inside[at + 1]);
                assert(inside[at + 1] == named[at + 2]);
            } else {
                assert(behind =~= port);
            }
        } else {
            crate::text::lemma_first_of_unique(inside + port, ']', (inside + port).len() as int);
        }
    }
}

/// The scheme does not matter for the provider.
pub proof fn law_the_scheme_does_not_matter(
    scheme_text: Seq<char>,
    name: Seq<char>,
    port: Seq<char>,
    tail: Seq<char>,
)
    requires
        scheme(scheme_text),
        host_name(name),
        port_text(port),
        url_tail(tail),
    ensures
        detected_provider(scheme_text + name + port + tail) == detected_provider(
            name + port + tail,
        ),
{
    let nothing = Seq::<char>::empty();
    reveal_strlit("");
    assert(""@ =~= nothing);
    lemma_written_host(scheme_text, name, port, tail);
    lemma_written_host(nothing, name, port, tail);
    assert(nothing + name + port + tail =~= name + port + tail);
}

/// Only the host decides which provider a URL belongs to, whatever the scheme, the port, the path,
/// the query and the fragment. Two exceptions are left out: a local server that its port or its
/// path gives away as Ollama's, and the path of OpenCode's second provider.
pub proof fn law_only_the_host_decides(
    scheme_text: Seq<char>,
    name: Seq<char>,
    port: Seq<char>,
    tail: Seq<char>,
)
    requires
        scheme(scheme_text),
        host_name(name),
        port_text(port),
        url_tail(tail),
        ({
            let url = scheme_text + name + port + tail;
            &&& local_host(host_of(name)) ==> !ollama_native(host_of(name), url)
            &&& in_domain(host_of(name), "opencode.ai"@) ==> !"/zen/go"@.is_prefix_of(path_of(url))
        }),
    ensures
        detected_provider(scheme_text + name + port + tail) == detected_provider(name),
{
    let url = scheme_text + name + port + tail;
    law_hosts_are_found(scheme_text, name, port, tail);
    lemma_bare_name(name);
    lemma_path_matters_little(host_of(name), path_of(url), path_of(name));
}

/// A name alone has neither a port nor a path.
proof fn lemma_bare_name(name: Seq<char>)
    requires
        host_name(name),
    ensures
        port_of(name) is None,
        written_path(name) == "/"@,
        path_of(name) == "/"@,
        !"/v1"@.is_prefix_of("/"@),
        !"/api"@.is_prefix_of("/"@),
        !"/zen/go"@.is_prefix_of("/"@),
{
    let nothing = Seq::<char>::empty();
    reveal_strlit("");
    reveal_strlit("/");
    reveal_strlit("/v1");
    reveal_strlit("/api");
    reveal_strlit("/zen/go");
    assert(""@ =~= nothing);
    lemma_written_host(nothing, name, nothing, nothing);
    assert(nothing + name + nothing + nothing =~= name);
    assert(name + nothing =~= name);
    lemma_port_is_no_host(name, nothing);
    assert(schemeless(name).skip(name.len() as int) =~= nothing);
    assert(crate::unicode::ascii("/"@));
    assert(in_lower_case("/"@) =~= "/"@);
}

/// The path decides nothing but which of OpenCode's providers it is.
proof fn lemma_path_matters_little(host: Seq<char>, path: Seq<char>, other: Seq<char>)
    requires
        in_domain(host, "opencode.ai"@) ==> "/zen/go"@.is_prefix_of(path) == "/zen/go"@.is_prefix_of(
            other,
        ),
    ensures
        listed_provider(host, known_domains(path)) == listed_provider(host, known_domains(other)),
{
    let a = known_domains(path);
    let b = known_domains(other);
    assert(a.drop_first().drop_first() =~= b.drop_first().drop_first());
    assert(a[0] == b[0]);
    assert(a.drop_first()[0] == a[1] && b.drop_first()[0] == b[1]);
    reveal_with_fuel(listed_provider, 3);
}

/// URLs with the same host belong to the same provider, however the host is written and whatever
/// stands around it. The same two exceptions are left out.
pub proof fn law_same_host_same_provider(url: Seq<char>, other: Seq<char>)
    requires
        host_of(url) == host_of(other),
        local_host(host_of(url)) ==> ollama_native(host_of(url), url) == ollama_native(
            host_of(other),
            other,
        ),
        in_domain(host_of(url), "opencode.ai"@) ==> "/zen/go"@.is_prefix_of(path_of(url))
            == "/zen/go"@.is_prefix_of(path_of(other)),
    ensures
        detected_provider(url) == detected_provider(other),
{
    lemma_path_matters_little(host_of(url), path_of(url), path_of(other));
}

/// `name` with the letters `A` to `Z` in lower case.
pub open spec fn in_lower_case(name: Seq<char>) -> Seq<char> {
    name.map_values(|c: char| crate::text::ascii_lower(c))
}

/// The letter case of an ASCII host does not matter for the provider.
pub proof fn law_letter_case_does_not_matter(
    scheme_text: Seq<char>,
    name: Seq<char>,
    port: Seq<char>,
    tail: Seq<char>,
)
    requires
        scheme(scheme_text),
        host_name(name),
        crate::unicode::ascii(name),
        port_text(port),
        url_tail(tail),
    ensures
        host_of(scheme_text + in_lower_case(name) + port + tail) == host_of(
            scheme_text + name + port + tail,
        ),
        detected_provider(scheme_text + in_lower_case(name) + port + tail) == detected_provider(
            scheme_text + name + port + tail,
        ),
{
    let lower = in_lower_case(name);
    let url = scheme_text + name + port + tail;
    let lower_url = scheme_text + lower + port + tail;
    assert forall|i: int| 0 <= i < lower.len() implies {
        &&& !crate::text::whitespace(#[trigger] lower[i])
        &&& lower[i] != '/'
        &&& lower[i] != '?'
        &&& lower[i] != '#'
        &&& name[i] != ':' ==> lower[i] != ':'
        &&& name[i] != ']' ==> lower[i] != ']'
        &&& name[i] != '@' ==> lower[i] != '@'
    } by {
        assert(lower[i] == crate::text::ascii_lower(name[i]));
    }
    lemma_written_host(scheme_text, name, port, tail);
    lemma_written_host(scheme_text, lower, port, tail);
    lemma_port_is_no_host(name, port);
    lemma_port_is_no_host(lower, port);
    lemma_lower_host(name);
    let host = host_and_port(name).0;
    lemma_host_is_part(name);
    let lower_host = in_lower_case(host);
    assert(crate::unicode::ascii(host)) by {
        assert forall|i: int| 0 <= i < host.len() implies (#[trigger] host[i] as u32) < 0x80 by {
            assert(name.contains(host[i]));
            let j = choose|j: int| 0 <= j < name.len() && name[j] == host[i];
            assert((name[j] as u32) < 0x80);
        }
    }
    assert(crate::unicode::ascii(lower_host)) by {
        assert forall|i: int| 0 <= i < lower_host.len() implies (#[trigger] lower_host[i] as u32)
            < 0x80 by {
            assert(lower_host[i] == crate::text::ascii_lower(host[i]));
            assert((host[i] as u32) < 0x80);
        }
    }
    assert(in_lower_case(lower_host) =~= lower_host);
    let kept = crate::text::trimmed_end(tail);
    assert(schemeless(url).skip((name + port).len() as int) =~= kept);
    assert(schemeless(lower_url).skip((lower + port).len() as int) =~= kept);
    assert(written_path(lower_url) == written_path(url));
    assert(port_of(lower_url) == port_of(url));
}

/// Lower case changes letters alone, so it does not change where a host begins and ends.
proof fn lemma_lower_host(name: Seq<char>)
    ensures
        host_and_port(in_lower_case(name)).0 == in_lower_case(host_and_port(name).0),
        port_is_read(in_lower_case(name)) == port_is_read(name),
{
    let named = crate::text::after_last(name, '@');
    lemma_lower_after_last(name, '@');
    let lower = in_lower_case(named);
    assert(crate::text::after_last(in_lower_case(name), '@') == lower);
    lemma_lower_first_of(named, ':');
    crate::text::lemma_first_of(named, ':');
    assert(crate::text::before_first(lower, ':') =~= in_lower_case(
        crate::text::before_first(named, ':'),
    ));
    if named.len() > 0 {
        let inside = named.drop_first();
        assert(lower.drop_first() =~= in_lower_case(inside));
        assert(lower[0] == crate::text::ascii_lower(named[0]));
        lemma_lower_first_of(inside, ']');
        crate::text::lemma_first_of(inside, ']');
        assert(crate::text::before_first(in_lower_case(inside), ']') =~= in_lower_case(
            crate::text::before_first(inside, ']'),
        ));
    }
}

proof fn lemma_lower_first_of(s: Seq<char>, c: char)
    requires
        c == ':' || c == ']' || c == '@',
    ensures
        crate::text::first_of(in_lower_case(s), c) == crate::text::first_of(s, c),
{
    let lower = in_lower_case(s);
    let at = crate::text::first_of(s, c);
    crate::text::lemma_first_of(s, c);
    assert forall|i: int| 0 <= i < at implies lower[i] != c by {
        assert(lower[i] == crate::text::ascii_lower(s[i]));
        assert(s[i] != c);
    }
    if at < s.len() {
        assert(lower[at] == crate::text::ascii_lower(s[at]));
    }
    crate::text::lemma_first_of_unique(lower, c, at);
}

proof fn lemma_lower_after_last(s: Seq<char>, c: char)
    requires
        c == '@',
    ensures
        crate::text::after_last(in_lower_case(s), c) == in_lower_case(
            crate::text::after_last(s, c),
        ),
    decreases s.len(),
{
    let lower = in_lower_case(s);
    let at = crate::text::first_of(s, c);
    lemma_lower_first_of(s, c);
    crate::text::lemma_first_of(s, c);
    if at < s.len() {
        assert(lower.skip(at + 1) =~= in_lower_case(s.skip(at + 1)));
        lemma_lower_after_last(s.skip(at + 1), c);
    }
}

/// A host consists of characters of its authority.
proof fn lemma_host_is_part(name: Seq<char>)
    ensures
        forall|i: int|
            0 <= i < host_and_port(name).0.len() ==> name.contains(
                #[trigger] host_and_port(name).0[i],
            ),
{
    let named = crate::text::after_last(name, '@');
    let host = host_and_port(name).0;
    crate::text::lemma_after_last_is_end(name, '@');
    crate::text::lemma_first_of(named, ':');
    if named.len() > 0 {
        crate::text::lemma_first_of(named.drop_first(), ']');
    }
    assert forall|i: int| 0 <= i < host.len() implies name.contains(#[trigger] host[i]) by {
        let from = name.len() - named.len();
        assert(named[i] == name[from + i]);
        if i + 1 < named.len() {
            assert(named.drop_first()[i] == named[i + 1]);
            assert(named[i + 1] == name[from + i + 1]);
        }
    }
}

/// The models of a server are listed at one place, whether or not the version, the `api` path or
/// slashes stand behind the base URL.
pub proof fn law_models_are_listed_at_one_place(root: Seq<char>, native: bool)
    requires
        root.len() > 0,
        root.last() != '/',
        !"/v1"@.is_suffix_of(root),
        !"/api"@.is_suffix_of(root),
    ensures
        models_url(native, root.push('/')) == models_url(native, root),
        models_url(native, root + "/v1"@) == root + "/v1/models"@,
        models_url(false, root) == root + "/v1/models"@,
        models_url(true, root) == root + "/api/tags"@,
        models_url(true, root + "/api"@) == root + "/api/tags"@,
{
    reveal_strlit("/v1");
    reveal_strlit("/api");
    reveal_strlit("/models");
    reveal_strlit("/tags");
    reveal_strlit("/v1/models");
    reveal_strlit("/api/tags");
    crate::text::law_trailing_characters_come_off(root, '/');
    let version = root + "/v1"@;
    let api = root + "/api"@;
    assert(version.subrange(version.len() - 3, version.len() as int) =~= "/v1"@);
    assert(api.subrange(api.len() - 4, api.len() as int) =~= "/api"@);
    assert(version + "/models"@ =~= root + "/v1/models"@);
    assert(api + "/tags"@ =~= root + "/api/tags"@);
    assert(!"/v1"@.is_suffix_of(api)) by {
        if "/v1"@.is_suffix_of(api) {
            assert(api.subrange(api.len() - 3, api.len() as int)[0] == 'a');
        }
    }
}

/// A host that is local is of a local server, OpenRouter is a proxy, and every other host is an
/// API; without a host the kind is left open.
pub proof fn law_hosts_have_kinds(host: Seq<char>)
    ensures
        kind_of(host) is Auto <==> host.len() == 0,
        kind_of(host) is Local <==> local_host(host),
        kind_of("openrouter.ai"@) is Proxy,
        !local_host(host) && in_domain(host, "openrouter.ai"@) ==> kind_of(host) is Proxy,
        host.len() > 0 && !local_host(host) && !in_domain(host, "openrouter.ai"@) ==> kind_of(host)
            is Api,
{
    reveal_strlit("localhost");
    reveal_strlit("0.0.0.0");
    reveal_strlit("::1");
    reveal_strlit("openrouter.ai");
    reveal_strlit(".");
    law_names_are_not_local("openrouter.ai"@);
    if host.len() == 0 && ipv4_address(host) {
        lemma_addresses_end_in_digits(host);
    }
}

/// A host that does not end in a digit is a name, and no name but `localhost` is local.
pub proof fn law_names_are_not_local(host: Seq<char>)
    requires
        host.len() > 0,
        !crate::text::is_digit(host.last()),
        host != "localhost"@,
    ensures
        !local_host(host),
{
    reveal_strlit("0.0.0.0");
    reveal_strlit("::1");
    if ipv4_address(host) {
        lemma_addresses_end_in_digits(host);
    }
}

proof fn lemma_addresses_end_in_digits(host: Seq<char>)
    requires
        ipv4_address(host),
    ensures
        host.len() > 0,
        crate::text::is_digit(host.last()),
{
    let parts = crate::text::pieces(host, '.');
    crate::text::law_pieces_make_up_the_text(host, '.');
    assert(is_octet(parts[3]));
    assert(crate::text::is_digit(parts[3][parts[3].len() - 1]));
    let whole = crate::text::joined(parts, seq!['.']);
    assert(whole == crate::text::joined(parts.drop_last(), seq!['.']) + seq!['.'] + parts.last());
    assert(whole.last() == parts.last().last());
}

/// The addresses of this machine and of private networks are local, whatever their other numbers
/// are.
pub proof fn law_private_addresses_are_local(
    second: Seq<char>,
    third: Seq<char>,
    fourth: Seq<char>,
)
    requires
        is_octet(second),
        is_octet(third),
        is_octet(fourth),
    ensures
        local_host("127."@ + second + "."@ + third + "."@ + fourth),
        local_host("10."@ + second + "."@ + third + "."@ + fourth),
        local_host("192."@ + "168"@ + "."@ + third + "."@ + fourth),
        second.len() == 2 && 16 <= crate::text::digits_value(second) <= 31 ==> local_host(
            "172."@ + second + "."@ + third + "."@ + fourth,
        ),
        second.len() == 2 && !(16 <= crate::text::digits_value(second) <= 31) ==> !local_host(
            "172."@ + second + "."@ + third + "."@ + fourth,
        ),
        local_host("localhost"@),
        local_host("::1"@),
        local_host("0.0.0.0"@),
{
    reveal_strlit("127.");
    reveal_strlit("10.");
    reveal_strlit("192.");
    reveal_strlit("168");
    reveal_strlit("192.168.");
    reveal_strlit("172.");
    reveal_strlit(".");
    reveal_strlit("localhost");
    reveal_strlit("::1");
    reveal_strlit("0.0.0.0");
    lemma_number(seq!['1', '2', '7']);
    lemma_number(seq!['1', '0']);
    lemma_number(seq!['1', '9', '2']);
    lemma_number(seq!['1', '6', '8']);
    lemma_number(seq!['1', '7', '2']);
    assert("168"@ =~= seq!['1', '6', '8']);
    lemma_address(seq!['1', '2', '7'], second, third, fourth);
    lemma_address(seq!['1', '0'], second, third, fourth);
    lemma_address(seq!['1', '9', '2'], "168"@, third, fourth);
    lemma_address(seq!['1', '7', '2'], second, third, fourth);
    let loopback = "127."@ + second + "."@ + third + "."@ + fourth;
    assert(loopback =~= seq!['1', '2', '7'] + "."@ + second + "."@ + third + "."@ + fourth);
    assert(loopback.take(4) =~= "127."@);
    let ten = "10."@ + second + "."@ + third + "."@ + fourth;
    assert(ten =~= seq!['1', '0'] + "."@ + second + "."@ + third + "."@ + fourth);
    assert(ten.take(3) =~= "10."@);
    let home = "192."@ + "168"@ + "."@ + third + "."@ + fourth;
    assert(home =~= seq!['1', '9', '2'] + "."@ + "168"@ + "."@ + third + "."@ + fourth);
    assert(home.take(8) =~= "192.168."@);
    let block = "172."@ + second + "."@ + third + "."@ + fourth;
    assert(block =~= seq!['1', '7', '2'] + "."@ + second + "."@ + third + "."@ + fourth);
    assert(block.take(4) =~= "172."@);
    let rest = block.skip(4);
    assert(rest =~= second + "."@ + third + "."@ + fourth);
    assert forall|i: int| 0 <= i < second.len() implies rest[i] != '.' by {
        assert(rest[i] == second[i]);
        assert(crate::text::is_digit(second[i]));
    }
    assert(rest[second.len() as int] == '.');
    crate::text::lemma_first_of_unique(rest, '.', second.len() as int);
    assert(crate::text::before_first(rest, '.') =~= second);
    assert(crate::text::is_digit(second[0]));
    assert(crate::text::number_in(second) == Some(crate::text::digits_value(second) as u64));
    assert(!"127."@.is_prefix_of(block)) by {
        assert(block.take(4)[1] == '7');
    }
    assert(!"192.168."@.is_prefix_of(block)) by {
        if "192.168."@.is_prefix_of(block) {
            assert(block.take(8)[1] == block[1]);
        }
    }
    assert(!"10."@.is_prefix_of(block)) by {
        if "10."@.is_prefix_of(block) {
            assert(block.take(3)[1] == block[1]);
        }
    }
}

/// A short row of digits is one of the numbers of an address where its value is small enough.
proof fn lemma_number(digits: Seq<char>)
    requires
        1 <= digits.len() <= 3,
        crate::text::all_digits(digits),
        digits.len() == 3 ==> digits[0] == '1',
    ensures
        is_octet(digits),
{
    reveal_with_fuel(crate::text::digits_value, 4);
    assert forall|i: int| 0 <= i < digits.len() implies digits[i] as u32 - '0' as u32 <= 9 by {
        assert(crate::text::is_digit(digits[i]));
    }
}

/// Four numbers with dots between them are an address.
proof fn lemma_address(a: Seq<char>, b: Seq<char>, c: Seq<char>, d: Seq<char>)
    requires
        is_octet(a),
        is_octet(b),
        is_octet(c),
        is_octet(d),
    ensures
        ipv4_address(a + "."@ + b + "."@ + c + "."@ + d),
{
    let whole = a + "."@ + b + "."@ + c + "."@ + d;
    let after_a = b + "."@ + c + "."@ + d;
    let after_b = c + "."@ + d;
    reveal_strlit(".");
    assert(whole =~= a + "."@ + after_a);
    assert(after_a =~= b + "."@ + after_b);
    lemma_first_number(a, after_a);
    lemma_first_number(b, after_b);
    lemma_first_number(c, d);
    assert forall|i: int| 0 <= i < d.len() implies d[i] != '.' by {
        assert(crate::text::is_digit(d[i]));
    }
    crate::text::lemma_first_of_unique(d, '.', d.len() as int);
    assert(crate::text::pieces(d, '.') == seq![d]);
    let parts = crate::text::pieces(whole, '.');
    assert(parts =~= seq![a, b, c, d]);
}

proof fn lemma_first_number(number: Seq<char>, rest: Seq<char>)
    requires
        is_octet(number),
    ensures
        crate::text::pieces(number + "."@ + rest, '.') == seq![number] + crate::text::pieces(
            rest,
            '.',
        ),
{
    reveal_strlit(".");
    let whole = number + "."@ + rest;
    let n = number.len() as int;
    assert forall|i: int| 0 <= i < n implies whole[i] != '.' by {
        assert(whole[i] == number[i]);
        assert(crate::text::is_digit(number[i]));
    }
    assert(whole[n] == '.');
    crate::text::lemma_first_of_unique(whole, '.', n);
    assert(whole.take(n) =~= number);
    assert(whole.skip(n + 1) =~= rest);
}

/// The path of a URL is what stands behind host and port, where that is a path; otherwise it is a
/// slash.
pub proof fn law_paths_are_found(
    scheme_text: Seq<char>,
    name: Seq<char>,
    port: Seq<char>,
    tail: Seq<char>,
)
    requires
        scheme(scheme_text),
        host_name(name),
        port_text(port),
        url_tail(tail),
        tail.len() > 0 ==> !crate::text::whitespace(tail.last()),
    ensures
        tail.len() > 0 && tail[0] == '/' ==> written_path(scheme_text + name + port + tail) == tail,
        tail.len() == 0 || tail[0] != '/' ==> written_path(scheme_text + name + port + tail)
            == "/"@,
        tail.len() > 0 && tail[0] == '/' && crate::unicode::ascii(tail) ==> path_of(
            scheme_text + name + port + tail,
        ) == in_lower_case(tail),
{
    lemma_written_host(scheme_text, name, port, tail);
    let url = scheme_text + name + port + tail;
    assert(crate::text::trimmed_end(tail) == tail);
    assert(schemeless(url).skip((name + port).len() as int) =~= tail);
}

/// A local server speaks Ollama's protocol on Ollama's port or under `/api`, unless it is asked for
/// its OpenAI-compatible surface; a local server on another port and path does not, and neither
/// does any host elsewhere but Ollama's own.
pub proof fn law_ollama_is_told_by_port_and_path(
    scheme_text: Seq<char>,
    name: Seq<char>,
    port: Seq<char>,
    tail: Seq<char>,
)
    requires
        scheme(scheme_text),
        host_name(name),
        !bracketed(name),
        name[0] != '[',
        crate::text::after_last(name, '@') == name,
        port_text(port),
        url_tail(tail),
        tail.len() > 0 ==> !crate::text::whitespace(tail.last()),
    ensures
        ({
            let url = scheme_text + name + port + tail;
            let host = host_of(url);
            &&& local_host(host) && port == ":11434"@ && tail.len() == 0 ==> detected_provider(url)
                == "ollama"@
            &&& local_host(host) && "/api"@.is_prefix_of(tail) ==> detected_provider(url)
                == "ollama"@
            &&& local_host(host) && port == ":11434"@ && !"/v1"@.is_prefix_of(tail)
                ==> detected_provider(url) == "ollama"@
            &&& !in_domain(host, "ollama.com"@) && "/v1"@.is_prefix_of(tail) ==> !ollama_native(
                host,
                url,
            )
            &&& !in_domain(host, "ollama.com"@) && port != ":11434"@ && tail.len() == 0
                ==> !ollama_native(host, url)
            &&& !local_host(host) && !in_domain(host, "ollama.com"@) ==> !ollama_native(host, url)
            &&& in_domain(host, "ollama.com"@) ==> detected_provider(url) == "ollama"@
        }),
{
    reveal_strlit("/");
    reveal_strlit("/v1");
    reveal_strlit("/api");
    reveal_strlit(":11434");
    reveal_strlit("11434");
    let url = scheme_text + name + port + tail;
    lemma_written_host(scheme_text, name, port, tail);
    lemma_port_is_no_host(name, port);
    law_paths_are_found(scheme_text, name, port, tail);
    assert(port == ":11434"@ ==> port.drop_first() =~= "11434"@);
    assert(port.len() > 0 && port.drop_first() == "11434"@ ==> port =~= ":11434"@) by {
        if port.len() > 0 && port.drop_first() == "11434"@ {
            assert(port =~= seq![port[0]] + port.drop_first());
        }
    }
    if "/api"@.is_prefix_of(tail) {
        assert(tail.take(4)[0] == tail[0]);
        assert(!"/v1"@.is_prefix_of(tail)) by {
            if "/v1"@.is_prefix_of(tail) {
                assert(tail.take(3)[1] == tail.take(4)[1]);
            }
        }
    }
    if "/v1"@.is_prefix_of(tail) {
        assert(tail.take(3)[0] == tail[0]);
    }
}

/// Anthropic's endpoints speak its own schema, under every host of its domain; of the other known
/// providers none does.
pub proof fn law_anthropic_speaks_its_own_schema(host: Seq<char>, path: Seq<char>, at: int)
    requires
        0 <= at < known_domains(path).len(),
        in_domain(host, known_domains(path)[at].0),
    ensures
        at == 0 ==> in_domain(host, "anthropic.com"@) && schema_of(provider_of(false, host, path))
            == CustomEndpointSchema::AnthropicMessages,
        at > 0 ==> schema_of(provider_of(false, host, path))
            == CustomEndpointSchema::OpenaiChatCompletions,
        schema_of(provider_of(true, host, path)) == CustomEndpointSchema::OpenaiChatCompletions,
{
    law_provider_of_known_domain(host, path, at);
    reveal_strlit("anthropic");
    reveal_strlit("opencode-go");
    reveal_strlit("opencode-zen");
    reveal_strlit("openrouter");
    reveal_strlit("groq");
    reveal_strlit("nvidia");
    reveal_strlit("moonshot");
    reveal_strlit("cerebras");
    reveal_strlit("mistral");
    reveal_strlit("google");
    reveal_strlit("together");
    reveal_strlit("fireworks");
    reveal_strlit("deepseek");
    reveal_strlit("xai");
    reveal_strlit("zai");
    reveal_strlit("openai");
    reveal_strlit("ollama");
    assert("anthropic"@.len() == 9 && "anthropic"@[0] == 'a');
    assert("fireworks"@[0] == 'f');
}

/// Who logs in does not matter for the host.
pub proof fn law_logins_do_not_matter(user: Seq<char>, name: Seq<char>)
    requires
        host_name(name),
        forall|i: int| 0 <= i < name.len() ==> #[trigger] name[i] != '@' && name[i] != ':',
        forall|i: int|
            0 <= i < user.len() ==> {
                &&& !crate::text::whitespace(#[trigger] user[i])
                &&& user[i] != '/'
                &&& user[i] != '?'
                &&& user[i] != '#'
                &&& user[i] != ':'
            },
    ensures
        written_host(user + seq!['@'] + name) == written_host(name),
{
    let whole = user + seq!['@'] + name;
    let nothing = Seq::<char>::empty();
    reveal_strlit("");
    assert(""@ =~= nothing);
    assert forall|i: int| 0 <= i < whole.len() implies {
        &&& !crate::text::whitespace(#[trigger] whole[i])
        &&& whole[i] != '/'
        &&& whole[i] != '?'
        &&& whole[i] != '#'
        &&& whole[i] != ':'
    } by {
        if i < user.len() {
            assert(whole[i] == user[i]);
        } else if i > user.len() {
            assert(whole[i] == name[i - user.len() - 1]);
        }
    }
    assert(host_name(whole));
    lemma_written_host(nothing, whole, nothing, nothing);
    lemma_written_host(nothing, name, nothing, nothing);
    assert(nothing + whole + nothing + nothing =~= whole);
    assert(nothing + name + nothing + nothing =~= name);
    assert(whole + nothing =~= whole && name + nothing =~= name);
    crate::text::lemma_after_last_behind(user + seq!['@'], name, '@');
    crate::text::law_nothing_follows_the_last(user + seq!['@'], '@');
    let end = crate::text::after_last(user + seq!['@'], '@');
    if end.len() > 0 {
        assert(end.last() == (user + seq!['@']).last());
        assert(end[end.len() - 1] != '@');
    }
    assert(end + name =~= name);
    crate::text::lemma_first_of_unique(name, '@', name.len() as int);
}

/// OpenCode's second provider is the one whose path it is; everything else there is the first.
pub proof fn law_opencode_has_two_providers(host: Seq<char>, path: Seq<char>)
    requires
        in_domain(host, "opencode.ai"@),
    ensures
        "/zen/go"@.is_prefix_of(path) ==> provider_of(false, host, path) == "opencode-go"@,
        !"/zen/go"@.is_prefix_of(path) ==> provider_of(false, host, path) == "opencode-zen"@,
{
    law_provider_of_known_domain(host, path, 1);
}

/// A provider is known by its domain and all its subdomains, whatever the path is.
pub proof fn law_providers_own_their_domains(label: Seq<char>, path: Seq<char>)
    ensures
        ({
            let of = |domain: Seq<char>| provider_of(false, label + "."@ + domain, path);
            &&& of("anthropic.com"@) == "anthropic"@
            &&& of("openrouter.ai"@) == "openrouter"@
            &&& of("groq.com"@) == "groq"@
            &&& of("nvidia.com"@) == "nvidia"@
            &&& of("moonshot.ai"@) == "moonshot"@
            &&& of("moonshot.cn"@) == "moonshot"@
            &&& of("cerebras.ai"@) == "cerebras"@
            &&& of("mistral.ai"@) == "mistral"@
            &&& of("googleapis.com"@) == "google"@
            &&& of("together.xyz"@) == "together"@
            &&& of("together.ai"@) == "together"@
            &&& of("fireworks.ai"@) == "fireworks"@
            &&& of("deepseek.com"@) == "deepseek"@
            &&& of("x.ai"@) == "xai"@
            &&& of("z.ai"@) == "zai"@
            &&& of("openai.com"@) == "openai"@
        }),
{
    let domains = known_domains(path);
    assert forall|i: int| 0 <= i < domains.len() implies provider_of(
        false,
        label + "."@ + (#[trigger] domains[i]).0,
        path,
    ) == domains[i].1 by {
        law_subdomains_match(label, domains[i].0);
        law_provider_of_known_domain(label + "."@ + domains[i].0, path, i);
    }
    assert(domains[0].0 == "anthropic.com"@ && domains[2].0 == "openrouter.ai"@);
    assert(domains[3].0 == "groq.com"@ && domains[4].0 == "nvidia.com"@);
    assert(domains[5].0 == "moonshot.ai"@ && domains[6].0 == "moonshot.cn"@);
    assert(domains[7].0 == "cerebras.ai"@ && domains[8].0 == "mistral.ai"@);
    assert(domains[9].0 == "googleapis.com"@ && domains[10].0 == "together.xyz"@);
    assert(domains[11].0 == "together.ai"@ && domains[12].0 == "fireworks.ai"@);
    assert(domains[13].0 == "deepseek.com"@ && domains[14].0 == "x.ai"@);
    assert(domains[15].0 == "z.ai"@ && domains[16].0 == "openai.com"@);
}

/// The host of a URL is written in lower case: of a plain ASCII name it is that name with its letters
/// in lower case, whatever stands around it.
pub proof fn law_hosts_are_in_lower_case(
    scheme_text: Seq<char>,
    name: Seq<char>,
    port: Seq<char>,
    tail: Seq<char>,
)
    requires
        scheme(scheme_text),
        host_name(name),
        !bracketed(name),
        name[0] != '[',
        crate::text::after_last(name, '@') == name,
        crate::unicode::ascii(name),
        port_text(port),
        url_tail(tail),
    ensures
        host_of(scheme_text + name + port + tail) == in_lower_case(name),
        forall|i: int|
            0 <= i < name.len() && 'a' <= name[i] <= 'z' ==> #[trigger] in_lower_case(name)[i]
                == name[i],
        forall|i: int|
            0 <= i < name.len() && 'A' <= name[i] <= 'Z' ==> #[trigger] in_lower_case(name)[i] as u32
                == name[i] as u32 + 32,
{
    law_hosts_are_found(scheme_text, name, port, tail);
}

} // verus!
