//! The order of texts, and sorting by it.
use crate::text::chars_of;
use vstd::prelude::*;

verus! {

/// `a` comes before `b`, or is equal to it, when the two are compared character by character.
pub open spec fn text_le(a: Seq<char>, b: Seq<char>) -> bool
    decreases a.len(),
{
    if a.len() == 0 {
        true
    } else if b.len() == 0 {
        false
    } else if a[0] == b[0] {
        text_le(a.drop_first(), b.drop_first())
    } else {
        a[0] < b[0]
    }
}

/// Ranked texts: the lower rank first, and within a rank the texts in their order.
pub open spec fn rank_le(a: (i64, Seq<char>), b: (i64, Seq<char>)) -> bool {
    a.0 < b.0 || (a.0 == b.0 && text_le(a.1, b.1))
}

/// `text_le` orders any two texts.
pub proof fn law_text_order_is_total(a: Seq<char>, b: Seq<char>)
    ensures
        text_le(a, b) || text_le(b, a),
        text_le(a, a),
    decreases a.len(),
{
    if a.len() > 0 {
        law_text_order_is_total(a.drop_first(), b.drop_first());
    }
}

/// `text_le` is transitive.
pub proof fn law_text_order_is_transitive(a: Seq<char>, b: Seq<char>, c: Seq<char>)
    requires
        text_le(a, b),
        text_le(b, c),
    ensures
        text_le(a, c),
    decreases a.len(),
{
    if a.len() > 0 && b.len() > 0 && c.len() > 0 && a[0] == b[0] && b[0] == c[0] {
        law_text_order_is_transitive(a.drop_first(), b.drop_first(), c.drop_first());
    }
}

/// Texts that come before each other are equal, so a sorted list is determined by what it holds.
pub proof fn law_text_order_is_antisymmetric(a: Seq<char>, b: Seq<char>)
    requires
        text_le(a, b),
        text_le(b, a),
    ensures
        a == b,
    decreases a.len(),
{
    if a.len() > 0 && b.len() > 0 {
        law_text_order_is_antisymmetric(a.drop_first(), b.drop_first());
        assert(a =~= seq![a[0]] + a.drop_first());
        assert(b =~= seq![b[0]] + b.drop_first());
    }
    assert(a =~= b);
}

/// The ranks and texts of a list.
pub open spec fn ranked(entries: Seq<(i64, String)>) -> Seq<(i64, Seq<char>)> {
    entries.map_values(|entry: (i64, String)| (entry.0, entry.1@))
}

/// `sorted` holds what `entries` holds, as often, in the order of `rank_le`.
pub open spec fn sorted_form(
    sorted: Seq<(i64, Seq<char>)>,
    entries: Seq<(i64, Seq<char>)>,
) -> bool {
    &&& forall|i: int, j: int|
        0 <= i < j < sorted.len() ==> rank_le(#[trigger] sorted[i], #[trigger] sorted[j])
    &&& sorted.to_multiset() == entries.to_multiset()
}

/// `entries` sorted by `rank_le`.
pub open spec fn in_order(entries: Seq<(i64, Seq<char>)>) -> Seq<(i64, Seq<char>)> {
    entries.sort_by(|a: (i64, Seq<char>), b: (i64, Seq<char>)| rank_le(a, b))
}

/// `rank_le` is a total order.
pub proof fn law_rank_order_is_total()
    ensures
        vstd::relations::total_ordering(|a: (i64, Seq<char>), b: (i64, Seq<char>)| rank_le(a, b)),
{
    let leq = |a: (i64, Seq<char>), b: (i64, Seq<char>)| rank_le(a, b);
    assert forall|a: (i64, Seq<char>)| #[trigger] leq(a, a) by {
        law_text_order_is_total(a.1, a.1);
    }
    assert forall|a: (i64, Seq<char>), b: (i64, Seq<char>)| #[trigger]
        leq(a, b) && #[trigger] leq(b, a) implies a == b by {
        law_text_order_is_antisymmetric(a.1, b.1);
    }
    assert forall|a: (i64, Seq<char>), b: (i64, Seq<char>), c: (i64, Seq<char>)| #[trigger]
        leq(a, b) && #[trigger] leq(b, c) implies leq(a, c) by {
        lemma_rank_trans(a, b, c);
    }
    assert forall|a: (i64, Seq<char>), b: (i64, Seq<char>)| #[trigger]
        leq(a, b) || #[trigger] leq(b, a) by {
        law_text_order_is_total(a.1, b.1);
    }
}

/// A list has exactly one sorted form: `in_order` gives it, and it holds what the list holds.
pub proof fn law_sorted_form_is_unique(
    sorted: Seq<(i64, Seq<char>)>,
    entries: Seq<(i64, Seq<char>)>,
)
    ensures
        sorted_form(in_order(entries), entries),
        sorted_form(sorted, entries) ==> sorted == in_order(entries),
{
    let leq = |a: (i64, Seq<char>), b: (i64, Seq<char>)| rank_le(a, b);
    law_rank_order_is_total();
    entries.lemma_sort_by_ensures(leq);
    let given = in_order(entries);
    assert forall|i: int, j: int| 0 <= i < j < given.len() implies rank_le(
        #[trigger] given[i],
        #[trigger] given[j],
    ) by {
        assert(leq(given[i], given[j]));
    }
    if sorted_form(sorted, entries) {
        assert(vstd::relations::sorted_by(sorted, leq));
        vstd::seq_lib::lemma_sorted_unique(sorted, given, leq);
    }
}

fn text_at_most(a: &str, b: &str) -> (res: bool)
    ensures
        res == text_le(a@, b@),
{
    let a_chars = chars_of(a);
    let b_chars = chars_of(b);
    let mut i: usize = 0;
    assert(a@.skip(0) =~= a@);
    assert(b@.skip(0) =~= b@);
    loop
        invariant
            a_chars@ == a@,
            b_chars@ == b@,
            i <= a@.len(),
            i <= b@.len(),
            text_le(a@, b@) == text_le(a@.skip(i as int), b@.skip(i as int)),
        decreases a@.len() - i,
    {
        if i == a_chars.len() {
            return true;
        }
        if i == b_chars.len() {
            return false;
        }
        if a_chars[i] != b_chars[i] {
            return a_chars[i] < b_chars[i];
        }
        assert(a@.skip(i as int).drop_first() =~= a@.skip(i + 1));
        assert(b@.skip(i as int).drop_first() =~= b@.skip(i + 1));
        i += 1;
    }
}

/// Sorts by rank, then by text.
pub fn sort_ranked(entries: Vec<(i64, String)>) -> (res: Vec<(i64, String)>)
    ensures
        ranked(res@) == in_order(ranked(entries@)),
{
    let mut sorted: Vec<(i64, String)> = Vec::new();
    assert(ranked(sorted@) =~= ranked(entries@.take(0)));
    for entry in it: entries
        invariant
            it.seq() == entries@,
            sorted_form(ranked(sorted@), ranked(entries@.take(it.index() as int))),
    {
        let ghost before = ranked(sorted@);
        let ghost taken = ranked(entries@.take(it.index() as int));
        let ghost next = (entry.0, entry.1@);
        let n: usize = sorted.len();
        let mut at: usize = 0;
        while at < n && (sorted[at].0 < entry.0 || (sorted[at].0 == entry.0 && text_at_most(
            sorted[at].1.as_str(),
            entry.1.as_str(),
        )))
            invariant
                at <= n == sorted@.len(),
                before == ranked(sorted@),
                next == (entry.0, entry.1@),
                forall|i: int| 0 <= i < at ==> rank_le(#[trigger] before[i], next),
            decreases n - at,
        {
            at += 1;
        }
        assert(at < n ==> rank_le(next, before[at as int])) by {
            if at < n {
                law_text_order_is_total(before[at as int].1, next.1);
            }
        }
        sorted.insert(at, entry);
        let ghost after = ranked(sorted@);
        assert(after =~= before.insert(at as int, next));
        assert(ranked(entries@.take(it.index() + 1)) =~= taken.push(next));
        proof {
            before.to_multiset_ensures();
            taken.to_multiset_ensures();
            vstd::seq_lib::to_multiset_insert(before, at as int, next);
            assert forall|i: int, j: int| 0 <= i < j < after.len() implies rank_le(
                #[trigger] after[i],
                #[trigger] after[j],
            ) by {
                if i == at {
                    lemma_rank_trans(next, before[at as int], before[j - 1]);
                }
            }
        }
    }
    assert(entries@.take(entries@.len() as int) =~= entries@);
    proof {
        law_sorted_form_is_unique(ranked(sorted@), ranked(entries@));
    }
    sorted
}

proof fn lemma_rank_trans(a: (i64, Seq<char>), b: (i64, Seq<char>), c: (i64, Seq<char>))
    requires
        rank_le(a, b),
        rank_le(b, c) || b == c,
    ensures
        rank_le(a, c),
{
    if a.0 == b.0 && b.0 == c.0 && b != c {
        law_text_order_is_transitive(a.1, b.1, c.1);
    }
}

/// Texts come in the order of the first character in which they differ; a text comes before every
/// longer one that starts with it.
pub proof fn law_text_order_is_alphabetical(
    common: Seq<char>,
    a: Seq<char>,
    b: Seq<char>,
    x: char,
    y: char,
)
    requires
        x < y,
    ensures
        text_le(common + seq![x] + a, common + seq![y] + b),
        !text_le(common + seq![y] + b, common + seq![x] + a),
        text_le(common, common + a),
        a.len() > 0 ==> !text_le(common + a, common),
    decreases common.len(),
{
    let low = common + seq![x] + a;
    let high = common + seq![y] + b;
    if common.len() > 0 {
        let rest = common.drop_first();
        law_text_order_is_alphabetical(rest, a, b, x, y);
        assert(low.drop_first() =~= rest + seq![x] + a);
        assert(high.drop_first() =~= rest + seq![y] + b);
        assert((common + a).drop_first() =~= rest + a);
        assert(low[0] == common[0] && high[0] == common[0] && (common + a)[0] == common[0]);
    } else {
        assert(low[0] == x && high[0] == y);
        assert(common + a =~= a);
    }
}

/// A lower number comes first, whatever the texts are; among equal numbers the texts decide.
pub proof fn law_numbers_rank_before_texts(m: i64, a: Seq<char>, n: i64, b: Seq<char>)
    ensures
        m < n ==> rank_le((m, a), (n, b)) && !rank_le((n, b), (m, a)),
        m == n ==> (rank_le((m, a), (n, b)) <==> text_le(a, b)),
{
}

} // verus!
