//! JSON documents as plain values, and their reading from text.
use crate::text::same_text;
use vstd::prelude::*;

verus! {

/// What a JSON document says.
///
/// A number is kept as the unsigned and the signed 64-bit integer that it is, if it is one.
pub ghost enum JsonView {
    Null,
    Bool(bool),
    Number { unsigned: Option<u64>, signed: Option<i64> },
    Text(Seq<char>),
    Array(Seq<JsonView>),
    Object(Seq<(Seq<char>, JsonView)>),
}

/// A JSON document.
///
/// The members of an object keep the order in which they were added; a key that occurs twice
/// stands for its first member.
#[derive(Debug, PartialEq, Eq)]
pub enum Json {
    Null,
    Bool(bool),
    Number { unsigned: Option<u64>, signed: Option<i64> },
    Text(String),
    Array(Vec<Json>),
    Object(Vec<(String, Json)>),
}

impl Json {
    /// What the document says.
    pub open spec fn says(&self) -> JsonView
        decreases self,
    {
        match self {
            Json::Null => JsonView::Null,
            Json::Bool(b) => JsonView::Bool(*b),
            Json::Number { unsigned, signed } => JsonView::Number {
                unsigned: *unsigned,
                signed: *signed,
            },
            Json::Text(s) => JsonView::Text(s@),
            Json::Array(items) => JsonView::Array(
                Seq::new(
                    items@.len(),
                    |i: int|
                        if 0 <= i < items@.len() {
                            items@[i].says()
                        } else {
                            JsonView::Null
                        },
                ),
            ),
            Json::Object(members) => JsonView::Object(
                Seq::new(
                    members@.len(),
                    |i: int|
                        if 0 <= i < members@.len() {
                            (members@[i].0@, members@[i].1.says())
                        } else {
                            (Seq::<char>::empty(), JsonView::Null)
                        },
                ),
            ),
        }
    }
}

impl View for Json {
    type V = JsonView;

    open spec fn view(&self) -> JsonView {
        self.says()
    }
}

impl Clone for Json {
    fn clone(&self) -> (res: Self)
        ensures
            res@ == self@,
        decreases self,
    {
        match self {
            Json::Null => Json::Null,
            Json::Bool(b) => Json::Bool(*b),
            Json::Number { unsigned, signed } => Json::Number {
                unsigned: *unsigned,
                signed: *signed,
            },
            Json::Text(s) => Json::Text(s.clone()),
            Json::Array(items) => {
                let mut list: Vec<Json> = Vec::new();
                let n: usize = items.len();
                let mut i: usize = 0;
                while i < n
                    invariant
                        i <= n == items@.len(),
                        *self == Json::Array(*items),
                        documents(list@) == documents(items@).take(i as int),
                    decreases n - i,
                {
                    let ghost earlier = list@;
                    assert(decreases_to!(self => self->Array_0));
                    assert(decreases_to!(self->Array_0 => self->Array_0@));
                    assert(decreases_to!(self->Array_0@ => self->Array_0@[i as int]));
                    list.push(items[i].clone());
                    assert(documents(list@) =~= documents(earlier).push(items@[i as int]@));
                    assert(documents(items@).take(i + 1) =~= documents(items@).take(
                        i as int,
                    ).push(items@[i as int]@));
                    i += 1;
                }
                assert(documents(items@).take(n as int) =~= documents(items@));
                proof {
                    lemma_array_view(list);
                    lemma_array_view(*items);
                }
                Json::Array(list)
            },
            Json::Object(members) => {
                let mut list: Vec<(String, Json)> = Vec::new();
                let n: usize = members.len();
                let mut i: usize = 0;
                while i < n
                    invariant
                        i <= n == members@.len(),
                        *self == Json::Object(*members),
                        members_of(list@) == members_of(members@).take(i as int),
                    decreases n - i,
                {
                    let ghost earlier = list@;
                    assert(decreases_to!(self => self->Object_0));
                    assert(decreases_to!(self->Object_0 => self->Object_0@));
                    assert(decreases_to!(self->Object_0@ => self->Object_0@[i as int]));
                    assert(decreases_to!(
                        self->Object_0@[i as int] => self->Object_0@[i as int].1
                    ));
                    list.push((members[i].0.clone(), members[i].1.clone()));
                    let ghost next = (members@[i as int].0@, members@[i as int].1@);
                    assert(members_of(list@) =~= members_of(earlier).push(next));
                    assert(members_of(members@).take(i + 1) =~= members_of(members@).take(
                        i as int,
                    ).push(next));
                    i += 1;
                }
                assert(members_of(members@).take(n as int) =~= members_of(members@));
                proof {
                    lemma_object_view(list);
                    lemma_object_view(*members);
                }
                Json::Object(list)
            },
        }
    }
}

/// What a list of documents says.
pub open spec fn documents(items: Seq<Json>) -> Seq<JsonView> {
    items.map_values(|item: Json| item@)
}

/// What the members of an object say.
pub open spec fn members_of(members: Seq<(String, Json)>) -> Seq<(Seq<char>, JsonView)> {
    members.map_values(|member: (String, Json)| (member.0@, member.1@))
}

/// An array says what its items say, one by one.
pub broadcast proof fn lemma_array_view(items: Vec<Json>)
    ensures
        #[trigger] Json::Array(items)@ == JsonView::Array(documents(items@)),
{
    reveal_with_fuel(Json::says, 2);
    assert(Json::Array(items)@->Array_0 =~= documents(items@));
}

/// An object says what its members say, one by one.
pub broadcast proof fn lemma_object_view(members: Vec<(String, Json)>)
    ensures
        #[trigger] Json::Object(members)@ == JsonView::Object(members_of(members@)),
{
    reveal_with_fuel(Json::says, 2);
    assert(Json::Object(members)@->Object_0 =~= members_of(members@));
}

/// The value under `key` in a list of members.
pub open spec fn lookup(members: Seq<(Seq<char>, JsonView)>, key: Seq<char>) -> Option<JsonView>
    decreases members.len(),
{
    if members.len() == 0 {
        None
    } else if members[0].0 == key {
        Some(members[0].1)
    } else {
        lookup(members.drop_first(), key)
    }
}

/// The member `key` of an object; nothing of any other document.
pub open spec fn member_view(document: Option<JsonView>, key: Seq<char>) -> Option<JsonView> {
    match document {
        Some(JsonView::Object(members)) => lookup(members, key),
        _ => None,
    }
}

/// The items of an array.
pub open spec fn items_view(document: Option<JsonView>) -> Option<Seq<JsonView>> {
    match document {
        Some(JsonView::Array(items)) => Some(items),
        _ => None,
    }
}

/// What stands under the pointer token `0`: the first item of an array, the member `0` of an object.
pub open spec fn zero_view(document: Option<JsonView>) -> Option<JsonView> {
    match document {
        Some(JsonView::Array(items)) => if items.len() > 0 {
            Some(items[0])
        } else {
            None
        },
        _ => member_view(document, "0"@),
    }
}

/// The text that a document is, if it is a text.
pub open spec fn text_view(document: Option<JsonView>) -> Option<Seq<char>> {
    match document {
        Some(JsonView::Text(s)) => Some(s),
        _ => None,
    }
}

/// The truth value that a document is, if it is one.
pub open spec fn bool_view(document: Option<JsonView>) -> Option<bool> {
    match document {
        Some(JsonView::Bool(b)) => Some(b),
        _ => None,
    }
}

/// The signed integer that a document is, if it is one.
pub open spec fn i64_view(document: Option<JsonView>) -> Option<i64> {
    match document {
        Some(JsonView::Number { unsigned, signed }) => signed,
        _ => None,
    }
}

/// What a document says, if there is one.
pub open spec fn seen(document: Option<&Json>) -> Option<JsonView> {
    match document {
        Some(json) => Some(json@),
        None => None,
    }
}

/// The text of a slice, if there is one.
pub open spec fn seen_text(text: Option<&str>) -> Option<Seq<char>> {
    match text {
        Some(s) => Some(s@),
        None => None,
    }
}

/// The member `key` of `document`.
pub fn member<'a>(document: Option<&'a Json>, key: &str) -> (res: Option<&'a Json>)
    ensures
        seen(res) == member_view(seen(document), key@),
{
    match document {
        Some(Json::Object(members)) => {
            proof {
                lemma_object_view(*members);
            }
            let n: usize = members.len();
            let ghost all = members_of(members@);
            assert(all.skip(0) =~= all);
            let mut i: usize = 0;
            while i < n
                invariant
                    i <= n == members@.len(),
                    all == members_of(members@),
                    lookup(all, key@) == lookup(all.skip(i as int), key@),
                    member_view(seen(document), key@) == lookup(all, key@),
                decreases n - i,
            {
                if same_text(members[i].0.as_str(), key) {
                    return Some(&members[i].1);
                }
                assert(all.skip(i as int).drop_first() =~= all.skip(i + 1));
                i += 1;
            }
            None
        },
        _ => None,
    }
}

/// The items of `document`.
pub fn items<'a>(document: Option<&'a Json>) -> (res: Option<&'a Vec<Json>>)
    ensures
        res is Some <==> items_view(seen(document)) is Some,
        res matches Some(list) ==> items_view(seen(document)) == Some(documents(list@)),
{
    match document {
        Some(Json::Array(list)) => {
            proof {
                lemma_array_view(*list);
            }
            Some(list)
        },
        _ => None,
    }
}

/// What stands in `document` under the pointer token `0`.
pub fn at_zero<'a>(document: Option<&'a Json>) -> (res: Option<&'a Json>)
    ensures
        seen(res) == zero_view(seen(document)),
{
    match items(document) {
        Some(list) => if list.len() > 0 {
            Some(&list[0])
        } else {
            None
        },
        None => member(document, "0"),
    }
}

/// The text that `document` is.
pub fn as_text<'a>(document: Option<&'a Json>) -> (res: Option<&'a str>)
    ensures
        seen_text(res) == text_view(seen(document)),
{
    match document {
        Some(Json::Text(s)) => Some(s.as_str()),
        _ => None,
    }
}

/// The truth value that `document` is.
pub fn as_bool(document: Option<&Json>) -> (res: Option<bool>)
    ensures
        res == bool_view(seen(document)),
{
    match document {
        Some(Json::Bool(b)) => Some(*b),
        _ => None,
    }
}

/// The signed integer that `document` is.
pub fn as_i64(document: Option<&Json>) -> (res: Option<i64>)
    ensures
        res == i64_view(seen(document)),
{
    match document {
        Some(Json::Number { unsigned, signed }) => *signed,
        _ => None,
    }
}

/// The text member `key` of `document`.
pub fn text_member<'a>(document: Option<&'a Json>, key: &str) -> (res: Option<&'a str>)
    ensures
        seen_text(res) == text_view(member_view(seen(document), key@)),
{
    as_text(member(document, key))
}

/// The texts under `key` in a list of documents; items without one are left out.
pub open spec fn texts_under(list: Seq<JsonView>, key: Seq<char>) -> Seq<Seq<char>> {
    list.filter_map(|item: JsonView| text_view(member_view(Some(item), key)))
}

/// The texts in a list of documents; other items are left out.
pub open spec fn texts_among(list: Seq<JsonView>) -> Seq<Seq<char>> {
    list.filter_map(|item: JsonView| text_view(Some(item)))
}

/// Collects the texts under `key`.
pub fn collect_texts_under(list: &Vec<Json>, key: &str) -> (res: Vec<String>)
    ensures
        crate::text::texts(res@) == texts_under(documents(list@), key@),
{
    let mut found: Vec<String> = Vec::new();
    let ghost all = documents(list@);
    let ghost pick = |item: JsonView| text_view(member_view(Some(item), key@));
    let n: usize = list.len();
    let mut i: usize = 0;
    assert(crate::text::texts(found@) =~= all.take(0).filter_map(pick));
    while i < n
        invariant
            i <= n == list@.len(),
            all == documents(list@),
            pick == (|item: JsonView| text_view(member_view(Some(item), key@))),
            crate::text::texts(found@) == all.take(i as int).filter_map(pick),
        decreases n - i,
    {
        proof {
            all.lemma_filter_map_take_succ(pick, i as int);
        }
        match text_member(Some(&list[i]), key) {
            Some(text) => {
                found.push(text.to_owned());
            },
            None => {},
        }
        assert(crate::text::texts(found@) =~= all.take(i + 1).filter_map(pick));
        i += 1;
    }
    assert(all.take(n as int) =~= all);
    found
}

/// Collects the texts in a list.
pub fn collect_texts_among(list: &Vec<Json>) -> (res: Vec<String>)
    ensures
        crate::text::texts(res@) == texts_among(documents(list@)),
{
    let mut found: Vec<String> = Vec::new();
    let ghost all = documents(list@);
    let ghost pick = |item: JsonView| text_view(Some(item));
    let n: usize = list.len();
    let mut i: usize = 0;
    assert(crate::text::texts(found@) =~= all.take(0).filter_map(pick));
    while i < n
        invariant
            i <= n == list@.len(),
            all == documents(list@),
            pick == (|item: JsonView| text_view(Some(item))),
            crate::text::texts(found@) == all.take(i as int).filter_map(pick),
        decreases n - i,
    {
        proof {
            all.lemma_filter_map_take_succ(pick, i as int);
        }
        match as_text(Some(&list[i])) {
            Some(text) => {
                found.push(text.to_owned());
            },
            None => {},
        }
        assert(crate::text::texts(found@) =~= all.take(i + 1).filter_map(pick));
        i += 1;
    }
    assert(all.take(n as int) =~= all);
    found
}

/// A text document.
pub fn text_json(s: &str) -> (res: Json)
    ensures
        res@ == JsonView::Text(s@),
{
    Json::Text(s.to_owned())
}

/// A member of an object.
pub fn entry(key: &str, value: Json) -> (res: (String, Json))
    ensures
        res.0@ == key@,
        res.1 == value,
{
    (key.to_owned(), value)
}

/// An array of the given items.
pub fn array(items: Vec<Json>) -> (res: Json)
    ensures
        res@ == JsonView::Array(documents(items@)),
{
    proof {
        lemma_array_view(items);
    }
    Json::Array(items)
}

/// An object with the given members.
pub fn object(members: Vec<(String, Json)>) -> (res: Json)
    ensures
        res@ == JsonView::Object(members_of(members@)),
{
    proof {
        lemma_object_view(members);
    }
    Json::Object(members)
}

/// An outside JSON value of the crate `serde_json`.
#[verifier::external_type_specification]
#[verifier::external_body]
pub struct ExValue(serde_json::Value);

/// What a `serde_json::Value` says.
pub uninterp spec fn value_contents(value: serde_json::Value) -> JsonView;

/// What `serde_json::from_str` reads in a text: nothing where it reports an error.
pub uninterp spec fn parsed_json(text: Seq<char>) -> Option<JsonView>;

/// The outermost layer of a `serde_json::Value`.
pub enum Layer {
    Null,
    Bool(bool),
    Number { unsigned: Option<u64>, signed: Option<i64> },
    Text(String),
    Array(Vec<serde_json::Value>),
    Object(Vec<(String, serde_json::Value)>),
}

/// What a layer says, given what the values below it say.
pub open spec fn layer_contents(layer: Layer) -> JsonView {
    match layer {
        Layer::Null => JsonView::Null,
        Layer::Bool(b) => JsonView::Bool(b),
        Layer::Number { unsigned, signed } => JsonView::Number { unsigned, signed },
        Layer::Text(s) => JsonView::Text(s@),
        Layer::Array(items) => JsonView::Array(
            items@.map_values(|item: serde_json::Value| value_contents(item)),
        ),
        Layer::Object(members) => JsonView::Object(
            members@.map_values(
                |member: (String, serde_json::Value)| (member.0@, value_contents(member.1)),
            ),
        ),
    }
}

/// `serde_json::from_str`, read into a `serde_json::Value`: the result depends on the text alone.
#[verifier::external_body]
fn read_value(text: &str) -> (res: Option<serde_json::Value>)
    ensures
        (match res {
            Some(value) => Some(value_contents(value)),
            None => None,
        }) == parsed_json(text@),
{
    serde_json::from_str(text).ok()
}

/// Takes a `serde_json::Value` apart, variant by variant.
///
/// The values below an array or an object are handed out as they are, and a number as what
/// `Number::as_u64` and `Number::as_i64` give for it.
#[verifier::external_body]
fn outer_layer(value: serde_json::Value) -> (layer: Layer)
    ensures
        layer_contents(layer) == value_contents(value),
{
    match value {
        serde_json::Value::Null => Layer::Null,
        serde_json::Value::Bool(b) => Layer::Bool(b),
        serde_json::Value::Number(n) => Layer::Number { unsigned: n.as_u64(), signed: n.as_i64() },
        serde_json::Value::String(s) => Layer::Text(s),
        serde_json::Value::Array(items) => Layer::Array(items),
        serde_json::Value::Object(members) => Layer::Object(members.into_iter().collect()),
    }
}

/// Turns a `serde_json::Value` into a document that says the same.
pub fn from_value(value: serde_json::Value) -> (res: Json)
    ensures
        res@ == value_contents(value),
    decreases value_contents(value),
{
    match outer_layer(value) {
        Layer::Null => Json::Null,
        Layer::Bool(b) => Json::Bool(b),
        Layer::Number { unsigned, signed } => Json::Number { unsigned, signed },
        Layer::Text(s) => Json::Text(s),
        Layer::Array(values) => {
            let mut list: Vec<Json> = Vec::new();
            let ghost said = value_contents(value)->Array_0;
            for item in it: values
                invariant
                    value_contents(value) == JsonView::Array(said),
                    said == values@.map_values(|item: serde_json::Value| value_contents(item)),
                    it.seq() == values@,
                    documents(list@) == said.take(it.index() as int),
            {
                let ghost at = it.index() as int;
                assert(said[at] == value_contents(item));
                assert(decreases_to!(value_contents(value) => value_contents(value)->Array_0));
                assert(decreases_to!(value_contents(value) => said[at]));
                let ghost earlier = list@;
                list.push(from_value(item));
                assert(documents(list@) =~= documents(earlier).push(said[at]));
                assert(said.take(at + 1) =~= said.take(at).push(said[at]));
            }
            assert(said.take(said.len() as int) =~= said);
            proof {
                lemma_array_view(list);
            }
            Json::Array(list)
        },
        Layer::Object(values) => {
            let mut list: Vec<(String, Json)> = Vec::new();
            let ghost said = value_contents(value)->Object_0;
            for pair in it: values
                invariant
                    value_contents(value) == JsonView::Object(said),
                    said == values@.map_values(
                        |member: (String, serde_json::Value)|
                            (member.0@, value_contents(member.1)),
                    ),
                    it.seq() == values@,
                    members_of(list@) == said.take(it.index() as int),
            {
                let ghost at = it.index() as int;
                assert(said[at] == (pair.0@, value_contents(pair.1)));
                assert(decreases_to!(value_contents(value) => value_contents(value)->Object_0));
                assert(decreases_to!(value_contents(value) => said[at]));
                assert(decreases_to!(value_contents(value) => said[at].1));
                let ghost earlier = list@;
                list.push((pair.0, from_value(pair.1)));
                assert(members_of(list@) =~= members_of(earlier).push(said[at]));
                assert(said.take(at + 1) =~= said.take(at).push(said[at]));
            }
            assert(said.take(said.len() as int) =~= said);
            proof {
                lemma_object_view(list);
            }
            Json::Object(list)
        },
    }
}

/// Reads a JSON document.
pub fn parse_json(text: &str) -> (res: Option<Json>)
    ensures
        (match res {
            Some(document) => Some(document@),
            None => None,
        }) == parsed_json(text@),
{
    match read_value(text) {
        Some(value) => Some(from_value(value)),
        None => None,
    }
}

/// The member of an object is the first one with its key.
pub proof fn law_first_member_counts(
    members: Seq<(Seq<char>, JsonView)>,
    key: Seq<char>,
    at: int,
)
    requires
        0 <= at <= members.len(),
        forall|i: int| 0 <= i < at ==> (#[trigger] members[i]).0 != key,
    ensures
        at < members.len() && members[at].0 == key ==> member_view(
            Some(JsonView::Object(members)),
            key,
        ) == Some(members[at].1),
        at == members.len() ==> member_view(Some(JsonView::Object(members)), key) is None,
    decreases members.len(),
{
    if members.len() > 0 && at > 0 {
        let rest = members.drop_first();
        assert(members[0].0 != key);
        assert forall|i: int| 0 <= i < at - 1 implies (#[trigger] rest[i]).0 != key by {
            assert(rest[i] == members[i + 1]);
        }
        law_first_member_counts(rest, key, at - 1);
        if at < members.len() {
            assert(rest[at - 1] == members[at]);
        }
    }
}

/// Nothing but an object has members, and nothing but an array has items.
pub proof fn law_kinds_of_documents_differ(document: JsonView, key: Seq<char>)
    ensures
        !(document is Object) ==> member_view(Some(document), key) is None,
        items_view(Some(document)) is Some <==> document is Array,
        text_view(Some(document)) is Some <==> document is Text,
        bool_view(Some(document)) is Some <==> document is Bool,
        member_view(None, key) is None,
        items_view(None) is None,
        text_view(None) is None,
        bool_view(None) is None,
        i64_view(None) is None,
        zero_view(None) is None,
{
}

/// What is written into a document is read out of it again.
pub proof fn law_written_values_are_read(
    text: Seq<char>,
    flag: bool,
    unsigned: Option<u64>,
    signed: Option<i64>,
    items: Seq<JsonView>,
)
    ensures
        text_view(Some(JsonView::Text(text))) == Some(text),
        bool_view(Some(JsonView::Bool(flag))) == Some(flag),
        i64_view(Some(JsonView::Number { unsigned, signed })) == signed,
        items_view(Some(JsonView::Array(items))) == Some(items),
        items.len() > 0 ==> zero_view(Some(JsonView::Array(items))) == Some(items[0]),
        items.len() == 0 ==> zero_view(Some(JsonView::Array(items))) is None,
{
}

/// `texts` as the items of an array.
pub open spec fn text_items(texts: Seq<Seq<char>>) -> Seq<JsonView> {
    texts.map_values(|text: Seq<char>| JsonView::Text(text))
}

/// A list of texts is read as it was written, and of a mixed list the items that are no texts are
/// left out without changing the others.
pub proof fn law_text_lists_are_read(
    texts: Seq<Seq<char>>,
    front: Seq<JsonView>,
    other: JsonView,
    back: Seq<JsonView>,
)
    requires
        !(other is Text),
    ensures
        texts_among(text_items(texts)) == texts,
        texts_among(front + seq![other] + back) == texts_among(front) + texts_among(back),
        texts_among(front + back) == texts_among(front) + texts_among(back),
{
    let pick = |item: JsonView| text_view(Some(item));
    let items = text_items(texts);
    assert forall|i: int| 0 <= i < items.len() implies pick(#[trigger] items[i]) is Some by {
        assert(items[i] == JsonView::Text(texts[i]));
    }
    crate::lists::lemma_all_picked(items, pick);
    assert forall|i: int| 0 <= i < texts.len() implies texts_among(items)[i] == texts[i] by {
        assert(items[i] == JsonView::Text(texts[i]));
        assert(Some(items.filter_map(pick)[i]) == pick(items[i]));
    }
    assert(texts_among(items) =~= texts);
    crate::lists::lemma_picked_in_a_row(front, back, pick);
    crate::lists::lemma_picked_in_a_row(front + seq![other], back, pick);
    crate::lists::lemma_picked_in_a_row(front, seq![other], pick);
    Seq::<JsonView>::lemma_filter_map_singleton(other, pick);
    assert(texts_among(front) + Seq::<Seq<char>>::empty() =~= texts_among(front));
}

/// Of a list of objects the texts under a key are read in their order; an item without such a text
/// is left out.
pub proof fn law_texts_under_a_key_are_read(
    front: Seq<JsonView>,
    item: JsonView,
    back: Seq<JsonView>,
    key: Seq<char>,
    text: Seq<char>,
)
    ensures
        member_view(Some(item), key) == Some(JsonView::Text(text)) ==> texts_under(
            front + seq![item] + back,
            key,
        ) == texts_under(front, key) + seq![text] + texts_under(back, key),
        !(member_view(Some(item), key) matches Some(value) && value is Text) ==> texts_under(
            front + seq![item] + back,
            key,
        ) == texts_under(front, key) + texts_under(back, key),
        texts_under(Seq::empty(), key) == Seq::<Seq<char>>::empty(),
{
    let pick = |item: JsonView| text_view(member_view(Some(item), key));
    crate::lists::lemma_picked_in_a_row(front + seq![item], back, pick);
    crate::lists::lemma_picked_in_a_row(front, seq![item], pick);
    Seq::<JsonView>::lemma_filter_map_singleton(item, pick);
    assert(texts_under(front, key) + Seq::<Seq<char>>::empty() =~= texts_under(front, key));
    assert(texts_under(Seq::empty(), key) =~= Seq::<Seq<char>>::empty());
}

} // verus!
