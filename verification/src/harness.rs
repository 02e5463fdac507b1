//! The agent harnesses and their models.
use crate::text::{chars_of, copy_opt_text, is_blank, same_opt_text, same_text, split, trim};
use crate::unicode::{text_of_bytes, uppercase_text};
use vstd::prelude::*;

verus! {

/// A program that runs an agent.
#[derive(Debug, Clone, Copy, PartialEq, Eq, Structural)]
pub enum Harness {
    Oz,
    Claude,
    Gemini,
    Codex,
    OpenCode,
    Agy,
    Unknown,
}

/// A harness as the server names it.
#[derive(Debug, Clone, Copy, PartialEq, Eq, Structural)]
pub enum AgentHarness {
    Oz,
    ClaudeCode,
    Gemini,
    Codex,
}

/// The server's name for a harness, if the server knows it.
pub open spec fn server_harness(harness: Harness) -> Option<AgentHarness> {
    match harness {
        Harness::Oz => Some(AgentHarness::Oz),
        Harness::Claude => Some(AgentHarness::ClaudeCode),
        Harness::Gemini => Some(AgentHarness::Gemini),
        Harness::Codex => Some(AgentHarness::Codex),
        Harness::OpenCode | Harness::Agy | Harness::Unknown => None,
    }
}

pub fn harness_to_graphql_harness(harness: Harness) -> (res: Option<AgentHarness>)
    ensures
        res == server_harness(harness),
{
    match harness {
        Harness::Oz => Some(AgentHarness::Oz),
        Harness::Claude => Some(AgentHarness::ClaudeCode),
        Harness::Gemini => Some(AgentHarness::Gemini),
        Harness::Codex => Some(AgentHarness::Codex),
        Harness::OpenCode | Harness::Agy | Harness::Unknown => None,
    }
}

/// The server tells the harnesses apart that it knows.
pub proof fn law_server_harnesses_differ(a: Harness, b: Harness)
    requires
        server_harness(a) is Some,
        server_harness(a) == server_harness(b),
    ensures
        a == b,
{
}

/// A model that a harness offers.
#[derive(Debug, PartialEq, Eq)]
pub struct HarnessModelInfo {
    pub id: String,
    pub display_name: String,
    pub reasoning_level: Option<String>,
}

pub ghost struct ModelInfoView {
    pub id: Seq<char>,
    pub display_name: Seq<char>,
    pub reasoning_level: Option<Seq<char>>,
}

impl View for HarnessModelInfo {
    type V = ModelInfoView;

    open spec fn view(&self) -> ModelInfoView {
        ModelInfoView {
            id: self.id@,
            display_name: self.display_name@,
            reasoning_level: crate::text::opt_text(self.reasoning_level),
        }
    }
}

impl Clone for HarnessModelInfo {
    fn clone(&self) -> (res: Self)
        ensures
            res@ == self@,
    {
        HarnessModelInfo {
            id: self.id.clone(),
            display_name: self.display_name.clone(),
            reasoning_level: copy_opt_text(&self.reasoning_level),
        }
    }
}

impl HarnessModelInfo {
    pub fn same(&self, other: &HarnessModelInfo) -> (res: bool)
        ensures
            res == (self@ == other@),
    {
        same_text(self.id.as_str(), other.id.as_str()) && same_text(
            self.display_name.as_str(),
            other.display_name.as_str(),
        ) && same_opt_text(&self.reasoning_level, &other.reasoning_level)
    }
}

pub open spec fn model_infos(models: Seq<HarnessModelInfo>) -> Seq<ModelInfoView> {
    models.map_values(|model: HarnessModelInfo| model@)
}

/// A harness that is known, with what it offers.
#[derive(Debug, Clone, PartialEq, Eq)]
pub struct HarnessAvailability {
    pub harness: Harness,
    pub display_name: String,
    pub enabled: bool,
    pub available_models: Vec<HarnessModelInfo>,
}

pub ghost struct HarnessView {
    pub harness: Harness,
    pub display_name: Seq<char>,
    pub enabled: bool,
    pub available_models: Seq<ModelInfoView>,
}

impl View for HarnessAvailability {
    type V = HarnessView;

    open spec fn view(&self) -> HarnessView {
        HarnessView {
            harness: self.harness,
            display_name: self.display_name@,
            enabled: self.enabled,
            available_models: model_infos(self.available_models@),
        }
    }
}

pub open spec fn harness_views(harnesses: Seq<HarnessAvailability>) -> Seq<HarnessView> {
    harnesses.map_values(|harness: HarnessAvailability| harness@)
}

impl HarnessAvailability {
    pub fn same(&self, other: &HarnessAvailability) -> (res: bool)
        ensures
            res == (self@ == other@),
    {
        if self.harness != other.harness || self.enabled != other.enabled || !same_text(
            self.display_name.as_str(),
            other.display_name.as_str(),
        ) {
            return false;
        }
        let ghost mine = self@.available_models;
        let ghost others = other@.available_models;
        let n: usize = self.available_models.len();
        if n != other.available_models.len() {
            assert(mine.len() != others.len());
            return false;
        }
        let mut i: usize = 0;
        while i < n
            invariant
                i <= n == self.available_models@.len(),
                n == other.available_models@.len(),
                mine == model_infos(self.available_models@),
                others == model_infos(other.available_models@),
                mine == self@.available_models,
                others == other@.available_models,
                forall|j: int| 0 <= j < i ==> mine[j] == others[j],
            decreases n - i,
        {
            if !self.available_models[i].same(&other.available_models[i]) {
                assert(mine[i as int] != others[i as int]);
                return false;
            }
            i += 1;
        }
        assert(mine =~= others);
        true
    }
}

/// Whether two lists of harnesses say the same.
pub fn same_harnesses(a: &Vec<HarnessAvailability>, b: &Vec<HarnessAvailability>) -> (res: bool)
    ensures
        res == (harness_views(a@) == harness_views(b@)),
{
    let ghost mine = harness_views(a@);
    let ghost others = harness_views(b@);
    let n: usize = a.len();
    if n != b.len() {
        assert(mine.len() != others.len());
        return false;
    }
    let mut i: usize = 0;
    while i < n
        invariant
            i <= n == a@.len(),
            n == b@.len(),
            mine == harness_views(a@),
            others == harness_views(b@),
            forall|j: int| 0 <= j < i ==> mine[j] == others[j],
        decreases n - i,
    {
        if !a[i].same(&b[i]) {
            assert(mine[i as int] != others[i as int]);
            return false;
        }
        i += 1;
    }
    assert(mine =~= others);
    true
}

/// What is known before the server responds.
pub open spec fn fallback_harnesses() -> Seq<HarnessView> {
    seq![
        HarnessView {
            harness: Harness::Oz,
            display_name: "Warp"@,
            enabled: true,
            available_models: Seq::empty(),
        },
    ]
}

/// Default fallback used before the server responds.
/// Oz is enabled by default so the UI is usable pre-fetch; the server
/// list (which respects admin overrides) replaces this once available.
pub fn default_harnesses() -> (res: Vec<HarnessAvailability>)
    ensures
        harness_views(res@) == fallback_harnesses(),
{
    let harnesses = vec![
        HarnessAvailability {
            harness: Harness::Oz,
            display_name: "Warp".to_owned(),
            enabled: true,
            available_models: Vec::new(),
        },
    ];
    assert(harnesses@[0]@.available_models =~= Seq::empty());
    assert(harness_views(harnesses@) =~= fallback_harnesses());
    harnesses
}

/// `part` of a model id as a word: with its first letter in upper case, if it starts with one.
pub open spec fn word_of(part: Seq<char>) -> Seq<char> {
    if part.len() > 0 && crate::unicode::letter(part[0]) {
        crate::unicode::raised(part[0]) + part.drop_first()
    } else {
        part
    }
}

/// `word` is a number.
pub open spec fn numeric(word: Seq<char>) -> bool {
    word.len() > 0 && crate::text::all_digits(word)
}

/// What stands between two words of a name: the numbers of a version are separated by a dot, and
/// other words by a space.
pub open spec fn gap(left: Seq<char>, right: Seq<char>) -> Seq<char> {
    if numeric(left) && numeric(right) {
        "."@
    } else {
        " "@
    }
}

/// `words` put together to a name.
pub open spec fn name_of(words: Seq<Seq<char>>) -> Seq<char>
    decreases words.len(),
{
    if words.len() == 0 {
        Seq::empty()
    } else if words.len() == 1 {
        words[0]
    } else {
        name_of(words.drop_last()) + gap(words[words.len() - 2], words.last()) + words.last()
    }
}

/// The display name of the model `id`.
pub open spec fn display_name_view(id: Seq<char>) -> Seq<char> {
    name_of(crate::text::pieces(id, '-').map_values(|part: Seq<char>| word_of(part)))
}

fn is_numeric(word: &str) -> (res: bool)
    ensures
        res == numeric(word@),
{
    let chars = chars_of(word);
    let n: usize = chars.len();
    let mut i: usize = 0;
    while i < n
        invariant
            i <= n == chars@.len(),
            chars@ == word@,
            forall|j: int| 0 <= j < i ==> crate::text::is_digit(#[trigger] word@[j]),
        decreases n - i,
    {
        if chars[i] < '0' || chars[i] > '9' {
            assert(!crate::text::is_digit(word@[i as int]));
            return false;
        }
        i += 1;
    }
    n > 0
}

/// Puts words together to a name.
pub fn join_words(words: &Vec<String>) -> (res: String)
    ensures
        res@ == name_of(crate::text::texts(words@)),
{
    let ghost all = crate::text::texts(words@);
    let mut name = String::new();
    let n: usize = words.len();
    let mut i: usize = 0;
    assert(all.take(0) =~= Seq::<Seq<char>>::empty());
    while i < n
        invariant
            i <= n == words@.len(),
            all == crate::text::texts(words@),
            name@ == name_of(all.take(i as int)),
        decreases n - i,
    {
        assert(all.take(i + 1).drop_last() =~= all.take(i as int));
        if i > 0 {
            assert(all.take(i + 1)[i - 1] == words@[i - 1]@);
            if is_numeric(words[i - 1].as_str()) && is_numeric(words[i].as_str()) {
                name.append(".");
            } else {
                name.append(" ");
            }
        }
        name.append(words[i].as_str());
        assert(name@ =~= name_of(all.take(i + 1)));
        i += 1;
    }
    assert(all.take(n as int) =~= all);
    name
}

/// A part of a model id as a word, given whether its first character is alphabetic and the upper
/// case form of that.
pub fn word_from(part: &str, alphabetic: bool, upper: &str) -> (res: String)
    ensures
        res@ == if part@.len() > 0 && alphabetic {
            upper@ + part@.drop_first()
        } else {
            part@
        },
{
    let n: usize = part.unicode_len();
    if n > 0 && alphabetic {
        let mut word = upper.to_owned();
        word.append(part.substring_char(1, n));
        assert(word@ =~= upper@ + part@.drop_first());
        word
    } else {
        part.to_owned()
    }
}

fn capitalize(part: &str) -> (res: String)
    ensures
        res@ == word_of(part@),
{
    if part.is_empty() {
        return part.to_owned();
    }
    let chars = chars_of(part);
    let first = chars[0];
    let upper = uppercase_text(first);
    word_from(part, first.is_alphabetic(), upper.as_str())
}

/// Convert a model id like "gpt-turbo-4-6" into "Gpt Turbo 4.6".
pub fn make_display_name(id: &str) -> (res: String)
    ensures
        res@ == display_name_view(id@),
{
    let parts = split(id, '-');
    let ghost all = crate::text::pieces(id@, '-');
    let ghost word = |part: Seq<char>| word_of(part);
    let mut words: Vec<String> = Vec::new();
    let n: usize = parts.len();
    assert(all.len() == parts@.len());
    let mut i: usize = 0;
    assert(crate::text::texts(words@) =~= all.take(0).map_values(word));
    while i < n
        invariant
            i <= n == parts@.len(),
            all == crate::text::slice_texts(parts@),
            word == (|part: Seq<char>| word_of(part)),
            crate::text::texts(words@) == all.take(i as int).map_values(word),
        decreases n - i,
    {
        let ghost earlier = crate::text::texts(words@);
        words.push(capitalize(parts[i]));
        assert(crate::text::texts(words@) =~= earlier.push(word(all[i as int])));
        assert(all.take(i + 1).map_values(word) =~= all.take(i as int).map_values(word).push(
            word(all[i as int]),
        ));
        i += 1;
    }
    assert(all.take(n as int) =~= all);
    join_words(&words)
}

/// A model without a reasoning level.
pub open spec fn plain_model(id: Seq<char>, display_name: Seq<char>) -> ModelInfoView {
    ModelInfoView { id, display_name, reasoning_level: None }
}

/// The model that a line of a model list names.
pub open spec fn listed_model(line: Seq<char>) -> Option<ModelInfoView> {
    if crate::text::blank(line) {
        None
    } else {
        Some(
            plain_model(
                crate::text::trimmed(line),
                display_name_view(crate::text::trimmed(line)),
            ),
        )
    }
}

/// The models that a list with one model per line names.
pub open spec fn listed_models(text: Seq<char>) -> Seq<ModelInfoView> {
    crate::text::pieces(text, '\n').filter_map(|line: Seq<char>| listed_model(line))
}

/// The models in a list with one model per line.
pub fn models_in_listing(text: &str) -> (res: Vec<HarnessModelInfo>)
    ensures
        model_infos(res@) == listed_models(text@),
{
    let lines = split(text, '\n');
    let ghost all = crate::text::pieces(text@, '\n');
    let ghost pick = |line: Seq<char>| listed_model(line);
    let mut models: Vec<HarnessModelInfo> = Vec::new();
    let n: usize = lines.len();
    assert(all.len() == lines@.len());
    let mut i: usize = 0;
    assert(model_infos(models@) =~= all.take(0).filter_map(pick));
    while i < n
        invariant
            i <= n == lines@.len(),
            all == crate::text::slice_texts(lines@),
            pick == (|line: Seq<char>| listed_model(line)),
            model_infos(models@) == all.take(i as int).filter_map(pick),
        decreases n - i,
    {
        proof {
            all.lemma_filter_map_take_succ(pick, i as int);
        }
        let ghost earlier = model_infos(models@);
        if !is_blank(lines[i]) {
            let id = trim(lines[i]).to_owned();
            let display_name = make_display_name(id.as_str());
            models.push(HarnessModelInfo { id, display_name, reasoning_level: None });
            assert(model_infos(models@) =~= earlier.push(listed_model(all[i as int])->0));
        }
        assert(model_infos(models@) =~= all.take(i + 1).filter_map(pick));
        i += 1;
    }
    assert(all.take(n as int) =~= all);
    models
}

/// The models in the output of a command that lists them.
pub open spec fn command_models(succeeded: bool, stdout: Seq<u8>) -> Seq<ModelInfoView> {
    if succeeded {
        listed_models(crate::unicode::decoded(stdout))
    } else {
        Seq::empty()
    }
}

/// The models in the output of the `agy models` CLI command: none if the command failed.
pub fn agy_models(succeeded: bool, stdout: &[u8]) -> (res: Vec<HarnessModelInfo>)
    ensures
        model_infos(res@) == command_models(succeeded, stdout@),
{
    if succeeded {
        let text = text_of_bytes(stdout);
        models_in_listing(text.as_str())
    } else {
        let none: Vec<HarnessModelInfo> = Vec::new();
        assert(model_infos(none@) =~= Seq::empty());
        none
    }
}

fn known_model(id: &str, display_name: &str) -> (res: HarnessModelInfo)
    ensures
        res@ == plain_model(id@, display_name@),
{
    HarnessModelInfo {
        id: id.to_owned(),
        display_name: display_name.to_owned(),
        reasoning_level: None,
    }
}

pub open spec fn codex_models() -> Seq<ModelInfoView> {
    seq![
        plain_model("o3"@, "o3"@),
        plain_model("o4-mini"@, "o4-mini"@),
        plain_model("codex-mini-latest"@, "Codex Mini"@),
        plain_model("gpt-4o"@, "GPT-4o"@),
    ]
}

/// Known model list for a CLI harness that doesn't support model discovery.
pub fn codex_known_models() -> (res: Vec<HarnessModelInfo>)
    ensures
        model_infos(res@) == codex_models(),
{
    let models = vec![
        known_model("o3", "o3"),
        known_model("o4-mini", "o4-mini"),
        known_model("codex-mini-latest", "Codex Mini"),
        known_model("gpt-4o", "GPT-4o"),
    ];
    assert(model_infos(models@) =~= codex_models());
    models
}

/// The product whose models a harness without model discovery offers: what the ids of the models
/// start with, and the name that the product is shown under.
#[derive(Debug, Clone, PartialEq, Eq)]
pub struct ProductName {
    pub id: String,
    pub name: String,
}

pub ghost struct ProductView {
    pub id: Seq<char>,
    pub name: Seq<char>,
}

impl View for ProductName {
    type V = ProductView;

    open spec fn view(&self) -> ProductView {
        ProductView { id: self.id@, name: self.name@ }
    }
}

pub open spec fn claude_models(product: ProductView) -> Seq<ModelInfoView> {
    seq![
        plain_model(product.id + "-opus-4-5"@, product.name + " Opus 4.5"@),
        plain_model(product.id + "-sonnet-4-5"@, product.name + " Sonnet 4.5"@),
        plain_model(product.id + "-haiku-4-5"@, product.name + " Haiku 4.5"@),
        plain_model(product.id + "-opus-4"@, product.name + " Opus 4"@),
        plain_model(product.id + "-sonnet-4"@, product.name + " Sonnet 4"@),
        plain_model(product.id + "-haiku-4"@, product.name + " Haiku 4"@),
        plain_model("fable"@, product.name + " Fable (latest)"@),
        plain_model("opus"@, product.name + " Opus (latest)"@),
        plain_model("sonnet"@, product.name + " Sonnet (latest)"@),
    ]
}

fn with_ending(start: &str, ending: &str) -> (res: String)
    ensures
        res@ == start@ + ending@,
{
    let mut whole = start.to_owned();
    whole.append(ending);
    whole
}

/// Known model list for a CLI harness that doesn't support model discovery.
pub fn claude_known_models(product: &ProductName) -> (res: Vec<HarnessModelInfo>)
    ensures
        model_infos(res@) == claude_models(product@),
{
    let models = vec![
        known_model(
            with_ending(product.id.as_str(), "-opus-4-5").as_str(),
            with_ending(product.name.as_str(), " Opus 4.5").as_str(),
        ),
        known_model(
            with_ending(product.id.as_str(), "-sonnet-4-5").as_str(),
            with_ending(product.name.as_str(), " Sonnet 4.5").as_str(),
        ),
        known_model(
            with_ending(product.id.as_str(), "-haiku-4-5").as_str(),
            with_ending(product.name.as_str(), " Haiku 4.5").as_str(),
        ),
        known_model(
            with_ending(product.id.as_str(), "-opus-4").as_str(),
            with_ending(product.name.as_str(), " Opus 4").as_str(),
        ),
        known_model(
            with_ending(product.id.as_str(), "-sonnet-4").as_str(),
            with_ending(product.name.as_str(), " Sonnet 4").as_str(),
        ),
        known_model(
            with_ending(product.id.as_str(), "-haiku-4").as_str(),
            with_ending(product.name.as_str(), " Haiku 4").as_str(),
        ),
        known_model("fable", with_ending(product.name.as_str(), " Fable (latest)").as_str()),
        known_model("opus", with_ending(product.name.as_str(), " Opus (latest)").as_str()),
        known_model("sonnet", with_ending(product.name.as_str(), " Sonnet (latest)").as_str()),
    ];
    assert(model_infos(models@) =~= claude_models(product@));
    models
}

/// The position of the first entry for `harness`; the number of entries if there is none.
pub open spec fn entry_of(harnesses: Seq<HarnessView>, harness: Harness) -> int
    decreases harnesses.len(),
{
    if harnesses.len() == 0 || harnesses[0].harness == harness {
        0
    } else {
        1 + entry_of(harnesses.drop_first(), harness)
    }
}

/// What `entry_of` finds: no entry for the harness before the position, and one at it unless there
/// is none at all.
pub proof fn lemma_entry_of(harnesses: Seq<HarnessView>, harness: Harness)
    ensures
        0 <= entry_of(harnesses, harness) <= harnesses.len(),
        forall|i: int|
            0 <= i < entry_of(harnesses, harness) ==> (#[trigger] harnesses[i]).harness != harness,
        entry_of(harnesses, harness) < harnesses.len() ==> harnesses[entry_of(
            harnesses,
            harness,
        )].harness == harness,
    decreases harnesses.len(),
{
    if harnesses.len() == 0 || harnesses[0].harness == harness {
    } else {
        let rest = harnesses.drop_first();
        lemma_entry_of(rest, harness);
        assert forall|i: int| 0 <= i < entry_of(harnesses, harness) implies (
        #[trigger] harnesses[i]).harness != harness by {
            if i > 0 {
                assert(harnesses[i] == rest[i - 1]);
            }
        }
    }
}

/// Where an entry stands is the only place with the properties that `lemma_entry_of` states.
proof fn lemma_entry_of_unique(harnesses: Seq<HarnessView>, harness: Harness, at: int)
    requires
        0 <= at <= harnesses.len(),
        forall|i: int| 0 <= i < at ==> (#[trigger] harnesses[i]).harness != harness,
        at < harnesses.len() ==> harnesses[at].harness == harness,
    ensures
        entry_of(harnesses, harness) == at,
{
    lemma_entry_of(harnesses, harness);
}

/// The position of the first entry for `harness`.
pub fn find_entry(harnesses: &Vec<HarnessAvailability>, harness: Harness) -> (res: usize)
    ensures
        res == entry_of(harness_views(harnesses@), harness),
        res <= harnesses@.len(),
        res < harnesses@.len() ==> harnesses@[res as int].harness == harness,
{
    let ghost all = harness_views(harnesses@);
    let n: usize = harnesses.len();
    let mut i: usize = 0;
    while i < n
        invariant
            i <= n == harnesses@.len(),
            all == harness_views(harnesses@),
            forall|j: int| 0 <= j < i ==> (#[trigger] all[j]).harness != harness,
        decreases n - i,
    {
        assert(all[i as int] == harnesses@[i as int]@);
        if harnesses[i].harness == harness {
            proof {
                lemma_entry_of_unique(all, harness, i as int);
            }
            return i;
        }
        i += 1;
    }
    proof {
        lemma_entry_of_unique(all, harness, n as int);
    }
    n
}

/// `harnesses` with a harness that is available locally: one that is listed without models gets
/// the models, and one that is not listed is added at the end.
pub open spec fn injected(
    harnesses: Seq<HarnessView>,
    harness: Harness,
    display_name: Seq<char>,
    models: Seq<ModelInfoView>,
) -> Seq<HarnessView> {
    let at = entry_of(harnesses, harness);
    if at < harnesses.len() {
        if harnesses[at].available_models.len() == 0 {
            harnesses.update(
                at,
                HarnessView { available_models: models, ..harnesses[at] },
            )
        } else {
            harnesses
        }
    } else {
        harnesses.push(
            HarnessView { harness, display_name, enabled: true, available_models: models },
        )
    }
}

/// `harnesses` with the locally-available harnesses.
pub open spec fn with_local_harnesses(
    harnesses: Seq<HarnessView>,
    agy_models: Seq<ModelInfoView>,
    product: ProductView,
) -> Seq<HarnessView> {
    injected(
        injected(
            injected(harnesses, Harness::Agy, "Agy"@, agy_models),
            Harness::Codex,
            "Codex (ChatGPT)"@,
            codex_models(),
        ),
        Harness::Claude,
        product.name + " Code"@,
        claude_models(product),
    )
}

fn inject(
    harnesses: &mut Vec<HarnessAvailability>,
    harness: Harness,
    display_name: &str,
    models: Vec<HarnessModelInfo>,
)
    ensures
        harness_views(final(harnesses)@) == injected(
            harness_views(old(harnesses)@),
            harness,
            display_name@,
            model_infos(models@),
        ),
{
    let ghost before = harness_views(harnesses@);
    let at: usize = find_entry(harnesses, harness);
    if at < harnesses.len() {
        assert(before[at as int] == harnesses@[at as int]@);
        assert(before[at as int].available_models.len()
            == harnesses@[at as int].available_models@.len());
        // Already in the list from the server — update models if we have better info.
        if harnesses[at].available_models.len() == 0 {
            let updated = HarnessAvailability {
                harness,
                display_name: harnesses[at].display_name.clone(),
                enabled: harnesses[at].enabled,
                available_models: models,
            };
            harnesses.set(at, updated);
            assert(harness_views(harnesses@) =~= before.update(at as int, updated@));
        }
    } else {
        // Not in the server list — add it as a locally-available harness.
        let added = HarnessAvailability {
            harness,
            display_name: display_name.to_owned(),
            enabled: true,
            available_models: models,
        };
        harnesses.push(added);
        assert(harness_views(harnesses@) =~= before.push(added@));
    }
}

/// Inject locally-available harnesses (`Agy`, `Codex` and the one of `product`) into the server-provided list.
/// Harnesses already in the list get their models updated; new ones are appended.
pub fn inject_local_harnesses(
    harnesses: &mut Vec<HarnessAvailability>,
    agy_models: Vec<HarnessModelInfo>,
    product: &ProductName,
)
    ensures
        harness_views(final(harnesses)@) == with_local_harnesses(
            harness_views(old(harnesses)@),
            model_infos(agy_models@),
            product@,
        ),
{
    inject(harnesses, Harness::Agy, "Agy", agy_models);
    inject(harnesses, Harness::Codex, "Codex (ChatGPT)", codex_known_models());
    let display_name = with_ending(product.name.as_str(), " Code");
    inject(harnesses, Harness::Claude, display_name.as_str(), claude_known_models(product));
}

/// What `injected` keeps and what it brings.
proof fn lemma_injected(
    harnesses: Seq<HarnessView>,
    harness: Harness,
    display_name: Seq<char>,
    models: Seq<ModelInfoView>,
)
    ensures
        ({
            let after = injected(harnesses, harness, display_name, models);
            &&& harnesses.len() <= after.len()
            &&& forall|i: int|
                0 <= i < harnesses.len() ==> kept_entry(harnesses[i], #[trigger] after[i])
            &&& forall|i: int|
                harnesses.len() <= i < after.len() ==> (#[trigger] after[i]).harness == harness
            &&& entry_of(after, harness) < after.len()
            &&& forall|other: Harness|
                entry_of(harnesses, other) < harnesses.len() ==> #[trigger] entry_of(after, other)
                    == entry_of(harnesses, other)
        }),
{
    let after = injected(harnesses, harness, display_name, models);
    lemma_entry_of(harnesses, harness);
    lemma_entry_of(after, harness);
    let at = entry_of(harnesses, harness);
    assert(after[at].harness == harness);
    assert forall|other: Harness|
        entry_of(harnesses, other) < harnesses.len() implies #[trigger] entry_of(after, other)
        == entry_of(harnesses, other) by {
        lemma_entry_of(harnesses, other);
        lemma_entry_of_unique(after, other, entry_of(harnesses, other));
    }
}

/// `after` is the entry `before`, but for models where it had none.
pub open spec fn kept_entry(before: HarnessView, after: HarnessView) -> bool {
    &&& after.harness == before.harness
    &&& after.display_name == before.display_name
    &&& after.enabled == before.enabled
    &&& before.available_models.len() > 0 ==> after.available_models == before.available_models
}

/// The server's list is authoritative: every harness in it keeps its place, its name, whether it
/// is enabled, and the models that it came with. What is added stands behind.
pub proof fn law_server_entries_are_kept(
    harnesses: Seq<HarnessView>,
    agy_models: Seq<ModelInfoView>,
    product: ProductView,
)
    ensures
        harnesses.len() <= with_local_harnesses(harnesses, agy_models, product).len(),
        forall|i: int|
            0 <= i < harnesses.len() ==> kept_entry(
                harnesses[i],
                #[trigger] with_local_harnesses(harnesses, agy_models, product)[i],
            ),
{
    let first = injected(harnesses, Harness::Agy, "Agy"@, agy_models);
    let second = injected(first, Harness::Codex, "Codex (ChatGPT)"@, codex_models());
    lemma_injected(harnesses, Harness::Agy, "Agy"@, agy_models);
    lemma_injected(first, Harness::Codex, "Codex (ChatGPT)"@, codex_models());
    lemma_injected(second, Harness::Claude, product.name + " Code"@, claude_models(product));
    let last = with_local_harnesses(harnesses, agy_models, product);
    assert forall|i: int| 0 <= i < harnesses.len() implies kept_entry(
        harnesses[i],
        #[trigger] last[i],
    ) by {
        assert(kept_entry(harnesses[i], first[i]));
        assert(kept_entry(first[i], second[i]));
        assert(kept_entry(second[i], last[i]));
    }
}

/// The local harnesses are known afterwards, and the two whose models are known in advance have
/// models.
pub proof fn law_local_harnesses_are_known(
    harnesses: Seq<HarnessView>,
    agy_models: Seq<ModelInfoView>,
    product: ProductView,
)
    ensures
        ({
            let after = with_local_harnesses(harnesses, agy_models, product);
            let codex = entry_of(after, Harness::Codex);
            let claude = entry_of(after, Harness::Claude);
            &&& entry_of(after, Harness::Agy) < after.len()
            &&& codex < after.len() && after[codex].available_models.len() > 0
            &&& claude < after.len() && after[claude].available_models.len() > 0
        }),
{
    let first = injected(harnesses, Harness::Agy, "Agy"@, agy_models);
    let second = injected(first, Harness::Codex, "Codex (ChatGPT)"@, codex_models());
    lemma_injected(harnesses, Harness::Agy, "Agy"@, agy_models);
    lemma_injected(first, Harness::Codex, "Codex (ChatGPT)"@, codex_models());
    lemma_injected(second, Harness::Claude, product.name + " Code"@, claude_models(product));
    let last = with_local_harnesses(harnesses, agy_models, product);
    lemma_injected_models(first, Harness::Codex, "Codex (ChatGPT)"@, codex_models());
    lemma_injected_models(second, Harness::Claude, product.name + " Code"@, claude_models(product));
    let codex = entry_of(second, Harness::Codex);
    lemma_entry_of(second, Harness::Codex);
    lemma_entry_of(second, Harness::Agy);
    assert(entry_of(last, Harness::Codex) == codex);
    assert(kept_entry(second[codex], last[codex]));
}

proof fn lemma_injected_models(
    harnesses: Seq<HarnessView>,
    harness: Harness,
    display_name: Seq<char>,
    models: Seq<ModelInfoView>,
)
    requires
        models.len() > 0,
    ensures
        ({
            let after = injected(harnesses, harness, display_name, models);
            let at = entry_of(after, harness);
            0 <= at < after.len() && after[at].available_models.len() > 0
        }),
{
    let after = injected(harnesses, harness, display_name, models);
    lemma_entry_of(harnesses, harness);
    lemma_entry_of_unique(after, harness, entry_of(harnesses, harness));
}

/// Injecting the local harnesses again changes nothing.
pub proof fn law_injecting_twice_changes_nothing(
    harnesses: Seq<HarnessView>,
    agy_models: Seq<ModelInfoView>,
    product: ProductView,
)
    ensures
        with_local_harnesses(
            with_local_harnesses(harnesses, agy_models, product),
            agy_models,
            product,
        )
            == with_local_harnesses(harnesses, agy_models, product),
{
    let first = injected(harnesses, Harness::Agy, "Agy"@, agy_models);
    let second = injected(first, Harness::Codex, "Codex (ChatGPT)"@, codex_models());
    let last = with_local_harnesses(harnesses, agy_models, product);
    lemma_injected(harnesses, Harness::Agy, "Agy"@, agy_models);
    lemma_injected(first, Harness::Codex, "Codex (ChatGPT)"@, codex_models());
    lemma_injected(second, Harness::Claude, product.name + " Code"@, claude_models(product));
    law_local_harnesses_are_known(harnesses, agy_models, product);
    // The entry for Agy stays as the first step left it.
    lemma_entry_of(first, Harness::Agy);
    let agy = entry_of(first, Harness::Agy);
    assert(entry_of(second, Harness::Agy) == agy);
    assert(entry_of(last, Harness::Agy) == agy);
    assert(kept_entry(first[agy], second[agy]));
    assert(kept_entry(second[agy], last[agy]));
    lemma_entry_of(harnesses, Harness::Agy);
    lemma_entry_of_unique(first, Harness::Agy, entry_of(harnesses, Harness::Agy));
    lemma_entry_of(first, Harness::Codex);
    lemma_entry_of(second, Harness::Claude);
    assert(second[agy] == first[agy]);
    assert(last[agy] == second[agy]);
    assert(injected(last, Harness::Agy, "Agy"@, agy_models) =~= last);
    assert(injected(last, Harness::Codex, "Codex (ChatGPT)"@, codex_models()) =~= last);
    assert(injected(last, Harness::Claude, product.name + " Code"@, claude_models(product)) =~= last);
}

/// A word is shown as it is, but for an ASCII letter at its start, which is shown in upper case.
pub proof fn law_words_are_capitalised(first: char, rest: Seq<char>)
    requires
        (first as u32) < 0x80,
    ensures
        'a' <= first <= 'z' ==> word_of(seq![first] + rest) == seq![(first as u32 - 32) as char]
            + rest,
        !('a' <= first <= 'z') ==> word_of(seq![first] + rest) == seq![first] + rest,
        word_of(Seq::empty()) == Seq::<char>::empty(),
{
    let part = seq![first] + rest;
    assert(part.drop_first() =~= rest);
    assert(part[0] == first);
}

/// The words of an id are shown one after the other with spaces between them; two numbers in a row
/// are a version and shown with a dot between them.
pub proof fn law_versions_are_shown_with_a_dot(id: Seq<char>, right: Seq<char>)
    requires
        forall|i: int| 0 <= i < right.len() ==> #[trigger] right[i] != '-',
    ensures
        display_name_view(right) == word_of(right),
        ({
            let left = word_of(crate::text::after_last(id, '-'));
            display_name_view(id + seq!['-'] + right) == display_name_view(id) + (if numeric(left)
                && numeric(word_of(right)) {
                "."@
            } else {
                " "@
            }) + word_of(right)
        }),
{
    let word = |part: Seq<char>| word_of(part);
    crate::text::lemma_first_of_unique(right, '-', right.len() as int);
    assert(crate::text::pieces(right, '-') == seq![right]);
    assert(seq![right].map_values(word) =~= seq![word_of(right)]);
    crate::text::law_another_piece(id, right, '-');
    let parts = crate::text::pieces(id, '-');
    let words = parts.push(right).map_values(word);
    crate::text::law_pieces_make_up_the_text(id, '-');
    assert(words.drop_last() =~= parts.map_values(word));
    assert(words[words.len() - 2] == word_of(parts.last()));
    assert(words.last() == word_of(right));
}

/// A word is numeric where it is made of digits, and of at least one.
pub proof fn law_numbers_are_made_of_digits(n: nat, word: Seq<char>, i: int)
    ensures
        numeric(crate::text::decimal(n)),
        0 <= i < word.len() && !('0' <= word[i] <= '9') ==> !numeric(word),
        word.len() == 0 ==> !numeric(word),
{
    crate::text::lemma_decimal(n);
}

/// Every line of a list that is not blank names a model: its id is the line without the whitespace
/// around it, and it is shown under the name made of the id. Blank lines are passed over.
pub proof fn law_every_line_names_a_model(line: Seq<char>, rest: Seq<char>)
    requires
        forall|i: int| 0 <= i < line.len() ==> #[trigger] line[i] != '\n',
    ensures
        crate::text::blank(line) ==> listed_models(line + seq!['\n'] + rest) == listed_models(rest),
        !crate::text::blank(line) ==> listed_models(line + seq!['\n'] + rest) == seq![
            ModelInfoView {
                id: crate::text::trimmed(line),
                display_name: display_name_view(crate::text::trimmed(line)),
                reasoning_level: None,
            },
        ] + listed_models(rest),
        listed_models(Seq::empty()).len() == 0,
{
    let pick = |line: Seq<char>| listed_model(line);
    let whole = line + seq!['\n'] + rest;
    let n = line.len() as int;
    assert forall|i: int| 0 <= i < n implies whole[i] != '\n' by {
        assert(whole[i] == line[i]);
    }
    crate::text::lemma_first_of_unique(whole, '\n', n);
    assert(whole.take(n) =~= line);
    assert(whole.skip(n + 1) =~= rest);
    assert(crate::text::pieces(whole, '\n') == seq![line] + crate::text::pieces(rest, '\n'));
    crate::lists::lemma_picked_in_a_row(seq![line], crate::text::pieces(rest, '\n'), pick);
    Seq::<Seq<char>>::lemma_filter_map_singleton(line, pick);
    assert(Seq::<ModelInfoView>::empty() + listed_models(rest) =~= listed_models(rest));
    let nothing = Seq::<char>::empty();
    assert(crate::text::pieces(nothing, '\n') == seq![nothing]);
    Seq::<Seq<char>>::lemma_filter_map_singleton(nothing, pick);
}

/// A harness that is not in the list is put behind it, enabled and with the given name and models;
/// one that is there without models gets them; one that has models keeps them. Nothing else
/// changes.
pub proof fn law_missing_harnesses_are_put_behind(
    harnesses: Seq<HarnessView>,
    harness: Harness,
    display_name: Seq<char>,
    models: Seq<ModelInfoView>,
    at: int,
)
    requires
        0 <= at <= harnesses.len(),
        forall|i: int| 0 <= i < at ==> (#[trigger] harnesses[i]).harness != harness,
    ensures
        at == harnesses.len() ==> injected(harnesses, harness, display_name, models)
            == harnesses.push(
            HarnessView { harness, display_name, enabled: true, available_models: models },
        ),
        at < harnesses.len() && harnesses[at].harness == harness
            && harnesses[at].available_models.len() == 0 ==> injected(
            harnesses,
            harness,
            display_name,
            models,
        ) == harnesses.update(
            at,
            HarnessView {
                harness,
                display_name: harnesses[at].display_name,
                enabled: harnesses[at].enabled,
                available_models: models,
            },
        ),
        at < harnesses.len() && harnesses[at].harness == harness
            && harnesses[at].available_models.len() > 0 ==> injected(
            harnesses,
            harness,
            display_name,
            models,
        ) == harnesses,
{
    lemma_entry_of(harnesses, harness);
    let found = entry_of(harnesses, harness);
    if found < at {
        assert(harnesses[found].harness != harness);
    }
}

/// Where the server lists none of the local harnesses, all three stand behind its list, each with
/// its own models.
pub proof fn law_local_harnesses_have_their_own_models(
    harnesses: Seq<HarnessView>,
    agy_models: Seq<ModelInfoView>,
    product: ProductView,
)
    requires
        forall|i: int|
            0 <= i < harnesses.len() ==> (#[trigger] harnesses[i]).harness != Harness::Agy
                && harnesses[i].harness != Harness::Codex && harnesses[i].harness
                != Harness::Claude,
    ensures
        ({
            let n = harnesses.len() as int;
            let after = with_local_harnesses(harnesses, agy_models, product);
            &&& after.len() == n + 3
            &&& after.take(n) == harnesses
            &&& after[n].harness is Agy && after[n].available_models == agy_models
            &&& after[n + 1].harness is Codex && after[n + 1].available_models == codex_models()
            &&& after[n + 2].harness is Claude && after[n + 2].available_models == claude_models(
                product,
            )
            &&& after[n].enabled && after[n + 1].enabled && after[n + 2].enabled
        }),
{
    let n = harnesses.len() as int;
    law_missing_harnesses_are_put_behind(harnesses, Harness::Agy, "Agy"@, agy_models, n);
    let first = injected(harnesses, Harness::Agy, "Agy"@, agy_models);
    law_missing_harnesses_are_put_behind(
        first,
        Harness::Codex,
        "Codex (ChatGPT)"@,
        codex_models(),
        n + 1,
    );
    let second = injected(first, Harness::Codex, "Codex (ChatGPT)"@, codex_models());
    law_missing_harnesses_are_put_behind(
        second,
        Harness::Claude,
        product.name + " Code"@,
        claude_models(product),
        n + 2,
    );
    assert(with_local_harnesses(harnesses, agy_models, product).take(n) =~= harnesses);
}

/// The models of a product are known by ids that start with the product's, or by a bare name for
/// the latest one; they are shown under names that start with the product's.
pub proof fn law_product_models_bear_its_name(product: ProductView, i: int)
    requires
        0 <= i < claude_models(product).len(),
    ensures
        product.name.is_prefix_of(claude_models(product)[i].display_name),
        product.name.len() < claude_models(product)[i].display_name.len(),
        i < 6 ==> product.id.is_prefix_of(claude_models(product)[i].id),
        claude_models(product)[i].reasoning_level is None,
{
    reveal_strlit(" Opus 4.5");
    reveal_strlit(" Sonnet 4.5");
    reveal_strlit(" Haiku 4.5");
    reveal_strlit(" Opus 4");
    reveal_strlit(" Sonnet 4");
    reveal_strlit(" Haiku 4");
    reveal_strlit(" Fable (latest)");
    reveal_strlit(" Opus (latest)");
    reveal_strlit(" Sonnet (latest)");
    let model = claude_models(product)[i];
    assert(model.display_name.take(product.name.len() as int) =~= product.name);
    if i < 6 {
        assert(model.id.take(product.id.len() as int) =~= product.id);
    }
}

/// The server knows a harness under the name that belongs to it, and knows none of those that only
/// run here.
pub proof fn law_the_server_knows_its_harnesses(harness: Harness)
    ensures
        server_harness(harness) is None <==> harness is OpenCode || harness is Agy || harness
            is Unknown,
        server_harness(harness) == Some(AgentHarness::Oz) <==> harness is Oz,
        server_harness(harness) == Some(AgentHarness::ClaudeCode) <==> harness is Claude,
        server_harness(harness) == Some(AgentHarness::Gemini) <==> harness is Gemini,
        server_harness(harness) == Some(AgentHarness::Codex) <==> harness is Codex,
{
}

/// A command that failed lists no models, whatever it has printed; one that succeeded lists those
/// of its lines.
pub proof fn law_failed_commands_list_nothing(line: Seq<char>, stdout: Seq<u8>)
    requires
        stdout.len() == line.len(),
        forall|i: int|
            0 <= i < line.len() ==> #[trigger] stdout[i] < 0x80 && line[i] == stdout[i] as char
                && line[i] != '\n',
    ensures
        command_models(false, stdout).len() == 0,
        !crate::text::blank(line) ==> command_models(true, stdout).len() == 1 && command_models(
            true,
            stdout,
        )[0].id == crate::text::trimmed(line),
{
    let pick = |line: Seq<char>| listed_model(line);
    assert(crate::unicode::decoded(stdout) =~= line);
    assert forall|i: int| 0 <= i < line.len() implies line[i] != '\n' by {
        assert(stdout[i] < 0x80);
    }
    crate::text::lemma_first_of_unique(line, '\n', line.len() as int);
    assert(crate::text::pieces(line, '\n') == seq![line]);
    Seq::<Seq<char>>::lemma_filter_map_singleton(line, pick);
}

} // verus!
