//! The model lists that endpoints answer with.
use crate::json::{as_i64, items, member, text_member, Json};
use crate::oauth::is_success;
use crate::order::sort_ranked;
use crate::text::{eq_ignore_ascii_case, is_blank, same_text, trim};
use vstd::prelude::*;

verus! {

/// Where the Codex models are listed.
pub const CODEX_MODELS_URL: &'static str = "https://chatgpt.com/backend-api/codex/models?client_version=1.0.0";

/// `names` in order.
pub open spec fn sorted_names(names: Seq<Seq<char>>) -> Seq<Seq<char>> {
    crate::order::in_order(names.map_values(|name: Seq<char>| (0i64, name))).map_values(
        |entry: (i64, Seq<char>)| entry.1,
    )
}

/// The models that an endpoint lists: the `id`s under `data`, as OpenAI-compatible servers write
/// them, or else the `name`s under `models`, as Ollama does, in order.
pub open spec fn listed_models(body: crate::json::JsonView) -> Seq<Seq<char>> {
    match crate::json::items_view(crate::json::member_view(Some(body), "data"@)) {
        Some(data) => sorted_names(crate::json::texts_under(data, "id"@)),
        None => match crate::json::items_view(
            crate::json::member_view(Some(body), "models"@),
        ) {
            Some(models) => sorted_names(crate::json::texts_under(models, "name"@)),
            None => Seq::empty(),
        },
    }
}

fn ranked_texts_under(list: &Vec<Json>, key: &str) -> (res: Vec<(i64, String)>)
    ensures
        crate::order::ranked(res@) == crate::json::texts_under(crate::json::documents(list@), key@).map_values(
            |name: Seq<char>| (0i64, name),
        ),
{
    let mut found: Vec<(i64, String)> = Vec::new();
    let ghost all = crate::json::documents(list@);
    let ghost pick = |item: crate::json::JsonView|
        crate::json::text_view(crate::json::member_view(Some(item), key@));
    let ghost rank = |name: Seq<char>| (0i64, name);
    let n: usize = list.len();
    let mut i: usize = 0;
    assert(all.take(0).filter_map(pick) =~= Seq::<Seq<char>>::empty());
    while i < n
        invariant
            i <= n == list@.len(),
            all == crate::json::documents(list@),
            pick == (|item: crate::json::JsonView|
                crate::json::text_view(crate::json::member_view(Some(item), key@))),
            rank == (|name: Seq<char>| (0i64, name)),
            crate::order::ranked(found@) == all.take(i as int).filter_map(pick).map_values(rank),
        decreases n - i,
    {
        let ghost earlier = found@;
        proof {
            all.lemma_filter_map_take_succ(pick, i as int);
        }
        match text_member(Some(&list[i]), key) {
            Some(name) => {
                found.push((0, name.to_owned()));
                assert(crate::order::ranked(found@) =~= crate::order::ranked(earlier).push(
                    (0i64, name@),
                ));
            },
            None => {},
        }
        assert(crate::order::ranked(found@) =~= all.take(i + 1).filter_map(pick).map_values(rank));
        i += 1;
    }
    assert(all.take(n as int) =~= all);
    found
}

/// Drops the ranks.
fn unranked(entries: Vec<(i64, String)>) -> (res: Vec<String>)
    ensures
        crate::text::texts(res@) == crate::order::ranked(entries@).map_values(
            |entry: (i64, Seq<char>)| entry.1,
        ),
{
    let mut names: Vec<String> = Vec::new();
    for entry in it: entries
        invariant
            it.seq() == entries@,
            names@ == entries@.take(it.index() as int).map_values(
                |entry: (i64, String)| entry.1,
            ),
    {
        names.push(entry.1);
    }
    assert(crate::text::texts(names@) =~= crate::order::ranked(entries@).map_values(
        |entry: (i64, Seq<char>)| entry.1,
    ));
    names
}

/// The list of available model IDs in the answer of a models endpoint.
///
/// Works with any OpenAI-compatible server and with Ollama's native `/api/tags` endpoint.
pub fn models_in_response(body: &Json) -> (res: Vec<String>)
    ensures
        crate::text::texts(res@) == listed_models(body@),
{
    match items(member(Some(body), "data")) {
        Some(data) => unranked(sort_ranked(ranked_texts_under(data, "id"))),
        None => match items(member(Some(body), "models")) {
            Some(models) => unranked(sort_ranked(ranked_texts_under(models, "name"))),
            None => {
                let none: Vec<String> = Vec::new();
                assert(crate::text::texts(none@) =~= Seq::<Seq<char>>::empty());
                none
            },
        },
    }
}

/// The models in the answer of a models endpoint with the given status.
pub open spec fn answered_models(
    code: u16,
    body: Option<crate::json::JsonView>,
) -> Seq<Seq<char>> {
    match body {
        Some(document) => if crate::oauth::success(code) {
            listed_models(document)
        } else {
            Seq::empty()
        },
        None => Seq::empty(),
    }
}

/// The models in the answer of a models endpoint with the given status: none on any error.
pub fn models_in_answer(code: u16, body: Option<&Json>) -> (res: Vec<String>)
    ensures
        crate::text::texts(res@) == answered_models(code, crate::json::seen(body)),
{
    match body {
        Some(document) => if is_success(code) {
            return models_in_response(document);
        },
        None => {},
    }
    let none: Vec<String> = Vec::new();
    assert(crate::text::texts(none@) =~= Seq::<Seq<char>>::empty());
    none
}

/// The bearer token for an API key.
pub open spec fn bearer_token(api_key: Seq<char>) -> Option<Seq<char>> {
    if crate::text::blank(api_key) {
        None
    } else {
        Some(crate::text::trimmed(api_key))
    }
}

/// The bearer token for an API key: none for a blank key.
pub fn bearer_for(api_key: &str) -> (res: Option<&str>)
    ensures
        crate::json::seen_text(res) == bearer_token(api_key@),
{
    if is_blank(api_key) {
        None
    } else {
        Some(trim(api_key))
    }
}

/// Where a Codex model stands in the picker, with its slug; nothing for an entry without a slug or
/// one that is hidden.
pub open spec fn codex_entry(item: crate::json::JsonView) -> Option<(i64, Seq<char>)> {
    match crate::json::text_view(crate::json::member_view(Some(item), "slug"@)) {
        None => None,
        Some(written) => {
            let slug = crate::text::trimmed(written);
            let visibility = match crate::json::text_view(
                crate::json::member_view(Some(item), "visibility"@),
            ) {
                Some(text) => text,
                None => ""@,
            };
            let priority = match crate::json::i64_view(
                crate::json::member_view(Some(item), "priority"@),
            ) {
                Some(number) => number,
                None => 10_000,
            };
            if slug.len() == 0 || crate::text::equal_but_ascii_case(visibility, "hide"@)
                || crate::text::equal_but_ascii_case(visibility, "hidden"@) {
                None
            } else {
                Some((priority, slug))
            }
        },
    }
}

/// `names` without the repetitions: each stands where it first occurred.
pub open spec fn first_occurrences(names: Seq<Seq<char>>) -> Seq<Seq<char>>
    decreases names.len(),
{
    if names.len() == 0 {
        names
    } else {
        let earlier = first_occurrences(names.drop_last());
        if earlier.contains(names.last()) {
            earlier
        } else {
            earlier.push(names.last())
        }
    }
}

/// The Codex models that an answer offers: by priority and then by name, each once.
pub open spec fn codex_models_view(data: crate::json::JsonView) -> Seq<Seq<char>> {
    match crate::json::items_view(crate::json::member_view(Some(data), "models"@)) {
        Some(entries) => first_occurrences(
            crate::order::in_order(
                entries.filter_map(|item: crate::json::JsonView| codex_entry(item)),
            ).map_values(|entry: (i64, Seq<char>)| entry.1),
        ),
        None => Seq::empty(),
    }
}

fn read_codex_entry(item: &Json) -> (res: Option<(i64, String)>)
    ensures
        (match res {
            Some(entry) => Some((entry.0, entry.1@)),
            None => None,
        }) == codex_entry(item@),
{
    let slug = match text_member(Some(item), "slug") {
        Some(written) => trim(written),
        None => {
            return None;
        },
    };
    if slug.is_empty() {
        return None;
    }
    // Skip hidden models.
    let visibility = match text_member(Some(item), "visibility") {
        Some(text) => text,
        None => "",
    };
    if eq_ignore_ascii_case(visibility, "hide") || eq_ignore_ascii_case(visibility, "hidden") {
        return None;
    }
    let priority: i64 = match as_i64(member(Some(item), "priority")) {
        Some(number) => number,
        None => 10_000,
    };
    Some((priority, slug.to_owned()))
}

fn contains_name(names: &Vec<String>, name: &str) -> (res: bool)
    ensures
        res == crate::text::texts(names@).contains(name@),
{
    let n: usize = names.len();
    let mut i: usize = 0;
    while i < n
        invariant
            i <= n == names@.len(),
            forall|j: int| 0 <= j < i ==> crate::text::texts(names@)[j] != name@,
        decreases n - i,
    {
        if same_text(names[i].as_str(), name) {
            assert(crate::text::texts(names@)[i as int] == name@);
            return true;
        }
        i += 1;
    }
    false
}

/// The Codex models in an answer, best first.
pub fn codex_models_in_response(data: &Json) -> (res: Vec<String>)
    ensures
        crate::text::texts(res@) == codex_models_view(data@),
{
    let mut kept: Vec<String> = Vec::new();
    assert(crate::text::texts(kept@) =~= Seq::<Seq<char>>::empty());
    let entries = match items(member(Some(data), "models")) {
        Some(entries) => entries,
        None => {
            return kept;
        },
    };
    let ghost all = crate::json::documents(entries@);
    let ghost pick = |item: crate::json::JsonView| codex_entry(item);
    let mut found: Vec<(i64, String)> = Vec::new();
    let n: usize = entries.len();
    let mut i: usize = 0;
    assert(crate::order::ranked(found@) =~= all.take(0).filter_map(pick));
    while i < n
        invariant
            i <= n == entries@.len(),
            all == crate::json::documents(entries@),
            pick == (|item: crate::json::JsonView| codex_entry(item)),
            crate::order::ranked(found@) == all.take(i as int).filter_map(pick),
        decreases n - i,
    {
        let ghost earlier = found@;
        proof {
            all.lemma_filter_map_take_succ(pick, i as int);
        }
        match read_codex_entry(&entries[i]) {
            Some(entry) => {
                found.push(entry);
            },
            None => {},
        }
        assert(crate::order::ranked(found@) =~= all.take(i + 1).filter_map(pick));
        i += 1;
    }
    assert(all.take(n as int) =~= all);
    let names = unranked(sort_ranked(found));
    let ghost in_order = crate::text::texts(names@);
    let m: usize = names.len();
    let mut k: usize = 0;
    assert(in_order.take(0) =~= Seq::<Seq<char>>::empty());
    while k < m
        invariant
            k <= m == names@.len(),
            in_order == crate::text::texts(names@),
            crate::text::texts(kept@) == first_occurrences(in_order.take(k as int)),
        decreases m - k,
    {
        let ghost earlier = kept@;
        assert(in_order.take(k + 1).drop_last() =~= in_order.take(k as int));
        if !contains_name(&kept, names[k].as_str()) {
            kept.push(names[k].clone());
            assert(crate::text::texts(kept@) =~= crate::text::texts(earlier).push(
                in_order[k as int],
            ));
        }
        k += 1;
    }
    assert(in_order.take(m as int) =~= in_order);
    kept
}

/// The Codex models in an answer with the given status.
pub open spec fn answered_codex_models(
    code: u16,
    body: Option<crate::json::JsonView>,
) -> Seq<Seq<char>> {
    match body {
        Some(document) => if crate::oauth::success(code) {
            codex_models_view(document)
        } else {
            Seq::empty()
        },
        None => Seq::empty(),
    }
}

/// The Codex models in an answer with the given status: none on any error.
pub fn codex_models_in_answer(code: u16, body: Option<&Json>) -> (res: Vec<String>)
    ensures
        crate::text::texts(res@) == answered_codex_models(code, crate::json::seen(body)),
{
    match body {
        Some(document) => if is_success(code) {
            return codex_models_in_response(document);
        },
        None => {},
    }
    let none: Vec<String> = Vec::new();
    assert(crate::text::texts(none@) =~= Seq::<Seq<char>>::empty());
    none
}

/// What `first_occurrences` leaves: the same names, each of them once.
proof fn lemma_first_occurrences(names: Seq<Seq<char>>)
    ensures
        first_occurrences(names).no_duplicates(),
        forall|name: Seq<char>| #[trigger]
            first_occurrences(names).contains(name) <==> names.contains(name),
    decreases names.len(),
{
    if names.len() > 0 {
        let rest = names.drop_last();
        let earlier = first_occurrences(rest);
        let kept = first_occurrences(names);
        lemma_first_occurrences(rest);
        assert forall|name: Seq<char>| #[trigger] kept.contains(name) <==> names.contains(
            name,
        ) by {
            if names.contains(name) {
                let i = choose|i: int| 0 <= i < names.len() && names[i] == name;
                if i < names.len() - 1 {
                    assert(rest[i] == name);
                    assert(rest.contains(name));
                    assert(earlier.contains(name));
                    let j = choose|j: int| 0 <= j < earlier.len() && earlier[j] == name;
                    assert(kept[j] == name);
                } else if !earlier.contains(name) {
                    assert(kept[earlier.len() as int] == name);
                }
            }
            if kept.contains(name) {
                let j = choose|j: int| 0 <= j < kept.len() && kept[j] == name;
                if j < earlier.len() {
                    assert(earlier[j] == name);
                    assert(earlier.contains(name));
                    assert(rest.contains(name));
                    let i = choose|i: int| 0 <= i < rest.len() && rest[i] == name;
                    assert(names[i] == name);
                } else {
                    assert(names[names.len() - 1] == name);
                }
            }
        }
    }
}

/// The list of Codex models holds every model that is offered, and each of them once.
pub proof fn law_codex_models_are_complete(data: crate::json::JsonView, slug: Seq<char>)
    ensures
        codex_models_view(data).no_duplicates(),
        codex_models_view(data).contains(slug) <==> (match crate::json::items_view(
            crate::json::member_view(Some(data), "models"@),
        ) {
            Some(entries) => exists|i: int|
                0 <= i < entries.len() && (codex_entry(#[trigger] entries[i]) matches Some(entry)
                    && entry.1 == slug),
            None => false,
        }),
{
    match crate::json::items_view(crate::json::member_view(Some(data), "models"@)) {
        Some(entries) => {
            let pick = |item: crate::json::JsonView| codex_entry(item);
            let found = entries.filter_map(pick);
            let sorted = crate::order::in_order(found);
            let drop_rank = |entry: (i64, Seq<char>)| entry.1;
            let names = sorted.map_values(drop_rank);
            lemma_first_occurrences(names);
            lemma_same_members(found, sorted);
            if names.contains(slug) {
                let k = choose|k: int| 0 <= k < names.len() && names[k] == slug;
                let entry = sorted[k];
                assert(sorted.contains(entry));
                entries.lemma_filter_map_contains(pick, entry);
                let item = choose|item: crate::json::JsonView| #[trigger]
                    entries.contains(item) && pick(item) == Some(entry);
                let i = choose|i: int| 0 <= i < entries.len() && entries[i] == item;
                assert(codex_entry(entries[i]) == Some(entry));
            }
            if exists|i: int|
                0 <= i < entries.len() && (codex_entry(#[trigger] entries[i]) matches Some(entry)
                    && entry.1 == slug) {
                let i = choose|i: int|
                    0 <= i < entries.len() && (codex_entry(
                        #[trigger] entries[i],
                    ) matches Some(entry) && entry.1 == slug);
                let entry = codex_entry(entries[i])->0;
                crate::lists::lemma_picked_is_found(entries, pick, i);
                assert(sorted.contains(entry));
                let k = choose|k: int| 0 <= k < sorted.len() && sorted[k] == entry;
                assert(names[k] == slug);
            }
        },
        None => {},
    }
}

/// Sorting keeps what a list holds.
proof fn lemma_same_members(found: Seq<(i64, Seq<char>)>, sorted: Seq<(i64, Seq<char>)>)
    requires
        sorted == crate::order::in_order(found),
    ensures
        forall|entry: (i64, Seq<char>)| #[trigger]
            sorted.contains(entry) <==> found.contains(entry),
        sorted.len() == found.len(),
{
    crate::order::law_sorted_form_is_unique(sorted, found);
    found.to_multiset_ensures();
    sorted.to_multiset_ensures();
    assert forall|entry: (i64, Seq<char>)| #[trigger] sorted.contains(entry) <==> found.contains(
        entry,
    ) by {
        assert(sorted.to_multiset().count(entry) == found.to_multiset().count(entry));
    }
}

/// Lists of models come in order, and sorting them neither adds nor drops a name.
pub proof fn law_listed_models_are_sorted(names: Seq<Seq<char>>)
    ensures
        sorted_names(names).len() == names.len(),
        forall|i: int, j: int|
            0 <= i < j < sorted_names(names).len() ==> crate::order::text_le(
                #[trigger] sorted_names(names)[i],
                #[trigger] sorted_names(names)[j],
            ),
        forall|name: Seq<char>| #[trigger]
            sorted_names(names).contains(name) <==> names.contains(name),
{
    let rank = |name: Seq<char>| (0i64, name);
    let found = names.map_values(rank);
    let sorted = crate::order::in_order(found);
    crate::order::law_sorted_form_is_unique(sorted, found);
    lemma_same_members(found, sorted);
    assert forall|i: int| 0 <= i < sorted.len() implies (#[trigger] sorted[i]).0 == 0 by {
        assert(sorted.contains(sorted[i]));
        let k = choose|k: int| 0 <= k < found.len() && found[k] == sorted[i];
    }
    assert forall|i: int, j: int| 0 <= i < j < sorted_names(names).len() implies
        crate::order::text_le(
        #[trigger] sorted_names(names)[i],
        #[trigger] sorted_names(names)[j],
    ) by {
        assert(crate::order::rank_le(sorted[i], sorted[j]));
    }
    assert forall|name: Seq<char>| #[trigger] sorted_names(names).contains(name)
        <==> names.contains(name) by {
        if names.contains(name) {
            let k = choose|k: int| 0 <= k < names.len() && names[k] == name;
            assert(found[k] == (0i64, name));
            assert(sorted.contains((0i64, name)));
            let i = choose|i: int| 0 <= i < sorted.len() && sorted[i] == (0i64, name);
            assert(sorted_names(names)[i] == name);
        }
        if sorted_names(names).contains(name) {
            let i = choose|i: int|
                0 <= i < sorted_names(names).len() && sorted_names(names)[i] == name;
            assert(sorted.contains(sorted[i]));
            let k = choose|k: int| 0 <= k < found.len() && found[k] == sorted[i];
            assert(names[k] == name);
        }
    }
}

/// A model is offered under its slug without the whitespace around it, unless it has none that can
/// be read or is hidden; its priority is the one that it is given, or a low one.
pub proof fn law_visible_models_are_offered(
    item: crate::json::JsonView,
    slug: Seq<char>,
    visibility: Seq<char>,
    priority: i64,
)
    requires
        crate::json::member_view(Some(item), "slug"@) == Some(crate::json::JsonView::Text(slug)),
    ensures
        crate::text::blank(slug) ==> codex_entry(item) is None,
        !crate::text::blank(slug) && crate::json::member_view(Some(item), "visibility"@) is None
            ==> (codex_entry(item) matches Some(entry) && entry.1 == crate::text::trimmed(slug)),
        crate::json::member_view(Some(item), "visibility"@) == Some(
            crate::json::JsonView::Text(visibility),
        ) && (crate::text::equal_but_ascii_case(visibility, "hide"@)
            || crate::text::equal_but_ascii_case(visibility, "hidden"@)) ==> codex_entry(item)
            is None,
        !crate::text::blank(slug) && crate::json::member_view(Some(item), "visibility"@) == Some(
            crate::json::JsonView::Text(visibility),
        ) && visibility.len() != 4 && visibility.len() != 6 ==> (codex_entry(item) matches Some(
            entry,
        ) && entry.1 == crate::text::trimmed(slug)),
        codex_entry(item) matches Some(entry) ==> (crate::json::member_view(Some(item), "priority"@)
            is None ==> entry.0 == 10_000),
        codex_entry(item) matches Some(entry) ==> (crate::json::member_view(
            Some(item),
            "priority"@,
        ) matches Some(number) ==> (crate::json::i64_view(Some(number)) == Some(priority)
            ==> entry.0 == priority)),
{
    reveal_strlit("");
    reveal_strlit("hide");
    reveal_strlit("hidden");
    crate::text::law_blank_means_trimmed_empty(slug);
    let lower = |c: char| crate::text::ascii_lower(c);
    assert(""@.map_values(lower).len() == 0);
    assert("hide"@.map_values(lower).len() == 4);
    assert("hidden"@.map_values(lower).len() == 6);
    assert(visibility.map_values(lower).len() == visibility.len());
}

/// An item without a slug is no model.
pub proof fn law_models_have_slugs(item: crate::json::JsonView)
    requires
        crate::json::member_view(Some(item), "slug"@) is None,
    ensures
        codex_entry(item) is None,
{
}

/// Codex models come by their priority, the lowest number first, and in the order of their slugs
/// where it is the same: of two models in the list, the best entry of the first is no worse than
/// any of the second.
pub proof fn law_codex_models_come_by_priority(
    data: crate::json::JsonView,
    entries: Seq<crate::json::JsonView>,
    i: int,
    j: int,
)
    requires
        crate::json::member_view(Some(data), "models"@) == Some(
            crate::json::JsonView::Array(entries),
        ),
        0 <= i < j < codex_models_view(data).len(),
    ensures
        exists|k: int|
            0 <= k < entries.len() && (codex_entry(#[trigger] entries[k]) matches Some(best)
                && best.1 == codex_models_view(data)[i] && forall|l: int|
                0 <= l < entries.len() ==> (codex_entry(#[trigger] entries[l]) matches Some(other)
                    ==> (other.1 == codex_models_view(data)[j] ==> best.0 < other.0 || (best.0
                    == other.0 && crate::order::text_le(best.1, other.1))))),
{
    let pick = |item: crate::json::JsonView| codex_entry(item);
    let found = entries.filter_map(pick);
    let sorted = crate::order::in_order(found);
    let names = sorted.map_values(|entry: (i64, Seq<char>)| entry.1);
    let kept = codex_models_view(data);
    let p = lemma_kept_in_order(names, i, j);
    let best = sorted[p];
    lemma_same_members(found, sorted);
    crate::order::law_sorted_form_is_unique(sorted, found);
    assert(names[p] == best.1);
    assert(sorted.contains(best));
    entries.lemma_filter_map_contains(pick, best);
    let item = choose|item: crate::json::JsonView| #[trigger]
        entries.contains(item) && pick(item) == Some(best);
    let k = choose|k: int| 0 <= k < entries.len() && entries[k] == item;
    assert(codex_entry(entries[k]) == Some(best));
    assert forall|l: int| 0 <= l < entries.len() implies (codex_entry(
        #[trigger] entries[l],
    ) matches Some(other) ==> (other.1 == kept[j] ==> best.0 < other.0 || (best.0 == other.0
        && crate::order::text_le(best.1, other.1)))) by {
        match codex_entry(entries[l]) {
            Some(other) => {
                if other.1 == kept[j] {
                    crate::lists::lemma_picked_is_found(entries, pick, l);
                    assert(sorted.contains(other));
                    let q = choose|q: int| 0 <= q < sorted.len() && sorted[q] == other;
                    assert(names[q] == kept[j]);
                    assert(crate::order::rank_le(sorted[p], sorted[q]));
                }
            },
            None => {},
        }
    }
}

/// Of two names that are kept, the first occurs before the second does.
proof fn lemma_kept_in_order(names: Seq<Seq<char>>, i: int, j: int) -> (p: int)
    requires
        0 <= i < j < first_occurrences(names).len(),
    ensures
        0 <= p < names.len(),
        names[p] == first_occurrences(names)[i],
        forall|q: int| 0 <= q <= p ==> #[trigger] names[q] != first_occurrences(names)[j],
    decreases names.len(),
{
    let rest = names.drop_last();
    let earlier = first_occurrences(rest);
    let kept = first_occurrences(names);
    lemma_first_occurrences(rest);
    if j < earlier.len() {
        let p = lemma_kept_in_order(rest, i, j);
        assert forall|q: int| 0 <= q <= p implies #[trigger] names[q] != kept[j] by {
            assert(names[q] == rest[q]);
        }
        p
    } else {
        assert(earlier.contains(earlier[i]));
        assert(rest.contains(earlier[i]));
        let p = choose|p: int| 0 <= p < rest.len() && rest[p] == earlier[i];
        assert forall|q: int| 0 <= q <= p implies #[trigger] names[q] != kept[j] by {
            assert(names[q] == rest[q]);
            assert(rest.contains(rest[q]));
            assert(earlier.contains(rest[q]));
        }
        p
    }
}

/// A server's list of models holds the ids under `data`, and only where there is no such list the
/// names under `models`; each of them is found again, and nothing else.
pub proof fn law_listed_models_are_those_of_the_server(
    body: crate::json::JsonView,
    list: Seq<crate::json::JsonView>,
    name: Seq<char>,
)
    ensures
        crate::json::member_view(Some(body), "data"@) == Some(crate::json::JsonView::Array(list))
            ==> (listed_models(body).contains(name) <==> exists|i: int|
            0 <= i < list.len() && crate::json::member_view(Some(#[trigger] list[i]), "id"@) == Some(
                crate::json::JsonView::Text(name),
            )),
        crate::json::member_view(Some(body), "data"@) is None && crate::json::member_view(
            Some(body),
            "models"@,
        ) == Some(crate::json::JsonView::Array(list)) ==> (listed_models(body).contains(name)
            <==> exists|i: int|
            0 <= i < list.len() && crate::json::member_view(Some(#[trigger] list[i]), "name"@)
                == Some(crate::json::JsonView::Text(name))),
        crate::json::member_view(Some(body), "data"@) is None && crate::json::member_view(
            Some(body),
            "models"@,
        ) is None ==> listed_models(body).len() == 0,
{
    lemma_texts_under(list, "id"@, name);
    lemma_texts_under(list, "name"@, name);
    law_listed_models_are_sorted(crate::json::texts_under(list, "id"@));
    law_listed_models_are_sorted(crate::json::texts_under(list, "name"@));
}

proof fn lemma_texts_under(list: Seq<crate::json::JsonView>, key: Seq<char>, name: Seq<char>)
    ensures
        crate::json::texts_under(list, key).contains(name) <==> exists|i: int|
            0 <= i < list.len() && crate::json::member_view(Some(#[trigger] list[i]), key) == Some(
                crate::json::JsonView::Text(name),
            ),
{
    let pick = |item: crate::json::JsonView|
        crate::json::text_view(crate::json::member_view(Some(item), key));
    if crate::json::texts_under(list, key).contains(name) {
        list.lemma_filter_map_contains(pick, name);
        let item = choose|item: crate::json::JsonView| #[trigger]
            list.contains(item) && pick(item) == Some(name);
        let i = choose|i: int| 0 <= i < list.len() && list[i] == item;
        assert(crate::json::member_view(Some(list[i]), key) == Some(
            crate::json::JsonView::Text(name),
        ));
    }
    if exists|i: int|
        0 <= i < list.len() && crate::json::member_view(Some(#[trigger] list[i]), key) == Some(
            crate::json::JsonView::Text(name),
        ) {
        let i = choose|i: int|
            0 <= i < list.len() && crate::json::member_view(Some(#[trigger] list[i]), key) == Some(
                crate::json::JsonView::Text(name),
            );
        crate::lists::lemma_picked_is_found(list, pick, i);
    }
}

/// Only a successful answer is read for models, and then all of it; without a readable answer there
/// are none.
pub proof fn law_failed_answers_list_no_models(code: u16, body: crate::json::JsonView)
    ensures
        code / 100 != 2 ==> answered_models(code, Some(body)).len() == 0 && answered_codex_models(
            code,
            Some(body),
        ).len() == 0,
        code / 100 == 2 ==> answered_models(code, Some(body)) == listed_models(body)
            && answered_codex_models(code, Some(body)) == codex_models_view(body),
        answered_models(code, None).len() == 0,
        answered_codex_models(code, None).len() == 0,
{
}

/// A key is sent without the whitespace around it, and not at all where nothing is left of it.
pub proof fn law_bearer_tokens_are_trimmed(api_key: Seq<char>)
    ensures
        bearer_token(api_key) is None <==> crate::text::trimmed(api_key).len() == 0,
        bearer_token(api_key) matches Some(token) ==> token == crate::text::trimmed(api_key)
            && token.len() > 0,
{
    crate::text::law_blank_means_trimmed_empty(api_key);
}

} // verus!
