//! Text operations over `&str`, specified on the sequence of characters.
use vstd::prelude::*;

verus! {

/// The characters with the Unicode property `White_Space`.
pub open spec fn whitespace(c: char) -> bool {
    ||| 0x9 <= c as u32 <= 0xd
    ||| c as u32 == 0x20
    ||| c as u32 == 0x85
    ||| c as u32 == 0xa0
    ||| c as u32 == 0x1680
    ||| 0x2000 <= c as u32 <= 0x200a
    ||| c as u32 == 0x2028
    ||| c as u32 == 0x2029
    ||| c as u32 == 0x202f
    ||| c as u32 == 0x205f
    ||| c as u32 == 0x3000
}

/// `s` without its leading whitespace.
pub open spec fn trimmed_start(s: Seq<char>) -> Seq<char>
    decreases s.len(),
{
    if s.len() > 0 && whitespace(s[0]) {
        trimmed_start(s.drop_first())
    } else {
        s
    }
}

/// `s` without its trailing whitespace.
pub open spec fn trimmed_end(s: Seq<char>) -> Seq<char>
    decreases s.len(),
{
    if s.len() > 0 && whitespace(s.last()) {
        trimmed_end(s.drop_last())
    } else {
        s
    }
}

/// `s` without leading and trailing whitespace.
pub open spec fn trimmed(s: Seq<char>) -> Seq<char> {
    trimmed_end(trimmed_start(s))
}

/// Whether `s` holds nothing but whitespace.
pub open spec fn blank(s: Seq<char>) -> bool {
    forall|i: int| 0 <= i < s.len() ==> whitespace(#[trigger] s[i])
}

/// `s` after every repetition of `prefix` at its start is taken off.
pub open spec fn without_prefixes(s: Seq<char>, prefix: Seq<char>) -> Seq<char>
    decreases s.len(),
{
    if 0 < prefix.len() && prefix.is_prefix_of(s) {
        without_prefixes(s.skip(prefix.len() as int), prefix)
    } else {
        s
    }
}

/// `s` after every `c` at its end is taken off.
pub open spec fn without_trailing(s: Seq<char>, c: char) -> Seq<char>
    decreases s.len(),
{
    if s.len() > 0 && s.last() == c {
        without_trailing(s.drop_last(), c)
    } else {
        s
    }
}

/// The position of the first `c` in `s`, or the length of `s` when there is none.
pub open spec fn first_of(s: Seq<char>, c: char) -> int
    decreases s.len(),
{
    if s.len() == 0 || s[0] == c {
        0
    } else {
        1 + first_of(s.drop_first(), c)
    }
}

/// What stands before the first `c`: all of `s` when there is none.
pub open spec fn before_first(s: Seq<char>, c: char) -> Seq<char> {
    s.take(first_of(s, c))
}

/// What stands behind the first `c`, if there is one.
pub open spec fn after_first(s: Seq<char>, c: char) -> Option<Seq<char>> {
    if first_of(s, c) < s.len() {
        Some(s.skip(first_of(s, c) + 1))
    } else {
        None
    }
}

/// What stands behind the last `c`: all of `s` when there is none.
pub open spec fn after_last(s: Seq<char>, c: char) -> Seq<char>
    decreases s.len(),
    via after_last_decreases
{
    match after_first(s, c) {
        Some(rest) => after_last(rest, c),
        None => s,
    }
}

#[via_fn]
proof fn after_last_decreases(s: Seq<char>, c: char) {
    lemma_first_of(s, c);
}

/// `part` stands in `s` at position `at`.
pub open spec fn stands_at(s: Seq<char>, part: Seq<char>, at: int) -> bool {
    &&& 0 <= at
    &&& at + part.len() <= s.len()
    &&& s.subrange(at, at + part.len()) == part
}

/// The first position at which `part` stands in `s`.
pub open spec fn position_of(s: Seq<char>, part: Seq<char>) -> Option<int>
    decreases s.len(),
{
    if part.is_prefix_of(s) {
        Some(0)
    } else if s.len() == 0 {
        None
    } else {
        match position_of(s.drop_first(), part) {
            Some(at) => Some(at + 1),
            None => None,
        }
    }
}

/// The pieces of `s` between the occurrences of `c`; one piece when there is none.
pub open spec fn pieces(s: Seq<char>, c: char) -> Seq<Seq<char>>
    decreases s.len(),
    via pieces_decreases
{
    match after_first(s, c) {
        Some(rest) => seq![before_first(s, c)] + pieces(rest, c),
        None => seq![s],
    }
}

#[via_fn]
proof fn pieces_decreases(s: Seq<char>, c: char) {
    lemma_first_of(s, c);
}

/// `parts` put together with `separator` between neighbours.
pub open spec fn joined(parts: Seq<Seq<char>>, separator: Seq<char>) -> Seq<char>
    decreases parts.len(),
{
    if parts.len() == 0 {
        Seq::empty()
    } else if parts.len() == 1 {
        parts[0]
    } else {
        joined(parts.drop_last(), separator) + separator + parts.last()
    }
}

/// What `first_of` finds: no `c` before the position, and `c` at it unless the text ends there.
pub proof fn lemma_first_of(s: Seq<char>, c: char)
    ensures
        0 <= first_of(s, c) <= s.len(),
        forall|i: int| 0 <= i < first_of(s, c) ==> s[i] != c,
        first_of(s, c) < s.len() ==> s[first_of(s, c)] == c,
    decreases s.len(),
{
    if s.len() == 0 || s[0] == c {
    } else {
        let rest = s.drop_first();
        lemma_first_of(rest, c);
        assert forall|i: int| 0 <= i < first_of(s, c) implies s[i] != c by {
            if i > 0 {
                assert(s[i] == rest[i - 1]);
            }
        }
    }
}

/// The position with the properties that `lemma_first_of` states is the one that `first_of` finds.
pub proof fn lemma_first_of_unique(s: Seq<char>, c: char, at: int)
    requires
        0 <= at <= s.len(),
        forall|i: int| 0 <= i < at ==> s[i] != c,
        at < s.len() ==> s[at] == c,
    ensures
        first_of(s, c) == at,
{
    lemma_first_of(s, c);
}

/// A blank text is one of which trimming leaves nothing.
pub proof fn law_blank_means_trimmed_empty(s: Seq<char>)
    ensures
        blank(s) <==> trimmed(s).len() == 0,
{
    lemma_trimmed_start(s);
    lemma_trimmed_end(trimmed_start(s));
    let start = trimmed_start(s);
    if blank(s) {
        if start.len() > 0 {
            assert(whitespace(s[s.len() - start.len()]));
        }
    } else if trimmed(s).len() == 0 {
        assert(blank(start));
        if start.len() > 0 {
            assert(whitespace(start[0]));
        }
        assert(blank(s));
    }
}

/// Trimming twice is trimming once, and what is left neither starts nor ends with whitespace.
pub proof fn law_trimmed_stays(s: Seq<char>)
    ensures
        trimmed(trimmed(s)) == trimmed(s),
        trimmed(s).len() > 0 ==> !whitespace(trimmed(s)[0]) && !whitespace(trimmed(s).last()),
{
    lemma_trimmed_start(s);
    lemma_trimmed_end(trimmed_start(s));
}

/// What `trimmed_start` leaves: an end of the text that does not start with whitespace, and
/// nothing but whitespace before it.
proof fn lemma_trimmed_start(s: Seq<char>)
    ensures
        trimmed_start(s).len() <= s.len(),
        trimmed_start(s) == s.skip(s.len() - trimmed_start(s).len()),
        forall|i: int| 0 <= i < s.len() - trimmed_start(s).len() ==> whitespace(#[trigger] s[i]),
        trimmed_start(s).len() > 0 ==> !whitespace(trimmed_start(s)[0]),
    decreases s.len(),
{
    if s.len() > 0 && whitespace(s[0]) {
        let rest = s.drop_first();
        lemma_trimmed_start(rest);
        assert(trimmed_start(s) =~= s.skip(s.len() - trimmed_start(s).len()));
        assert forall|i: int| 0 <= i < s.len() - trimmed_start(s).len() implies whitespace(
            #[trigger] s[i],
        ) by {
            if i > 0 {
                assert(s[i] == rest[i - 1]);
            }
        }
    } else {
        assert(s.skip(0) =~= s);
    }
}

/// What `trimmed_end` leaves: a start of the text that does not end with whitespace, and nothing
/// but whitespace behind it.
proof fn lemma_trimmed_end(s: Seq<char>)
    ensures
        trimmed_end(s).len() <= s.len(),
        trimmed_end(s) == s.take(trimmed_end(s).len() as int),
        forall|i: int| trimmed_end(s).len() <= i < s.len() ==> whitespace(#[trigger] s[i]),
        trimmed_end(s).len() > 0 ==> !whitespace(trimmed_end(s).last()),
    decreases s.len(),
{
    if s.len() > 0 && whitespace(s.last()) {
        let rest = s.drop_last();
        lemma_trimmed_end(rest);
        assert(trimmed_end(s) =~= s.take(trimmed_end(s).len() as int));
        assert forall|i: int| trimmed_end(s).len() <= i < s.len() implies whitespace(
            #[trigger] s[i],
        ) by {
            if i < s.len() - 1 {
                assert(s[i] == rest[i]);
            }
        }
    } else {
        assert(s.take(s.len() as int) =~= s);
    }
}

/// A text that neither starts nor ends with whitespace is left as it is by trimming.
pub proof fn lemma_trimmed_whole(s: Seq<char>)
    requires
        s.len() > 0 ==> !whitespace(s[0]) && !whitespace(s.last()),
    ensures
        trimmed(s) == s,
{
}

/// Trimming the end of a text leaves a start that does not end with whitespace.
pub proof fn lemma_trimmed_end_behind(front: Seq<char>, tail: Seq<char>)
    requires
        front.len() > 0,
        !whitespace(front.last()),
    ensures
        trimmed_end(front + tail) == front + trimmed_end(tail),
    decreases tail.len(),
{
    if tail.len() == 0 {
        assert(front + tail =~= front);
        assert(front + trimmed_end(tail) =~= front);
    } else {
        assert((front + tail).last() == tail.last());
        if whitespace(tail.last()) {
            assert((front + tail).drop_last() =~= front + tail.drop_last());
            lemma_trimmed_end_behind(front, tail.drop_last());
        }
    }
}

/// Trimming the end of a text leaves its first character where that is not whitespace, and adds
/// nothing.
pub proof fn lemma_trimmed_end_keeps_first(s: Seq<char>)
    ensures
        trimmed_end(s).len() <= s.len(),
        trimmed_end(s).len() > 0 ==> trimmed_end(s)[0] == s[0],
{
    lemma_trimmed_end(s);
}

/// What stands behind the last `c` is an end of the text.
pub proof fn lemma_after_last_is_end(s: Seq<char>, c: char)
    ensures
        after_last(s, c).len() <= s.len(),
        after_last(s, c) == s.skip(s.len() - after_last(s, c).len()),
    decreases s.len(),
{
    lemma_first_of(s, c);
    match after_first(s, c) {
        Some(rest) => {
            lemma_after_last_is_end(rest, c);
            assert(after_last(s, c) =~= s.skip(s.len() - after_last(s, c).len()));
        },
        None => {
            assert(s.skip(0) =~= s);
        },
    }
}

/// What is written behind a text without a `c` stands behind its last `c` too.
pub proof fn lemma_after_last_behind(s: Seq<char>, more: Seq<char>, c: char)
    requires
        forall|i: int| 0 <= i < more.len() ==> #[trigger] more[i] != c,
    ensures
        after_last(s + more, c) == after_last(s, c) + more,
    decreases s.len(),
{
    let at = first_of(s, c);
    lemma_first_of(s, c);
    if at < s.len() {
        lemma_first_of_unique(s + more, c, at);
        assert((s + more).skip(at + 1) =~= s.skip(at + 1) + more);
        lemma_after_last_behind(s.skip(at + 1), more, c);
    } else {
        assert forall|i: int| 0 <= i < (s + more).len() implies (s + more)[i] != c by {
            if i >= s.len() {
                assert((s + more)[i] == more[i - s.len()]);
            }
        }
        lemma_first_of_unique(s + more, c, (s + more).len() as int);
    }
}

/// The characters of `s`.
pub fn chars_of(s: &str) -> (chars: Vec<char>)
    ensures
        chars@ == s@,
{
    let mut chars: Vec<char> = Vec::new();
    for c in it: s.chars()
        invariant
            it.seq() == s@,
            chars@ == s@.take(it.index() as int),
    {
        chars.push(c);
    }
    chars
}

pub fn is_whitespace(c: char) -> (res: bool)
    ensures
        res == whitespace(c),
{
    let n: u32 = c as u32;
    (0x9 <= n && n <= 0xd) || n == 0x20 || n == 0x85 || n == 0xa0 || n == 0x1680 || (0x2000 <= n
        && n <= 0x200a) || n == 0x2028 || n == 0x2029 || n == 0x202f || n == 0x205f || n == 0x3000
}

pub fn trim(s: &str) -> (res: &str)
    ensures
        res@ == trimmed(s@),
{
    let chars = chars_of(s);
    let n: usize = chars.len();
    let mut from: usize = 0;
    assert(chars@.subrange(0, n as int) =~= chars@);
    while from < n && is_whitespace(chars[from])
        invariant
            from <= n == chars@.len(),
            trimmed_start(chars@) == trimmed_start(chars@.subrange(from as int, n as int)),
        decreases n - from,
    {
        assert(chars@.subrange(from as int, n as int).drop_first() =~= chars@.subrange(
            from + 1,
            n as int,
        ));
        from += 1;
    }
    let ghost kept = chars@.subrange(from as int, n as int);
    assert(trimmed_start(chars@) == kept);
    let mut to: usize = n;
    while from < to && is_whitespace(chars[to - 1])
        invariant
            from <= to <= n == chars@.len(),
            trimmed_end(kept) == trimmed_end(chars@.subrange(from as int, to as int)),
        decreases to,
    {
        assert(chars@.subrange(from as int, to as int).drop_last() =~= chars@.subrange(
            from as int,
            to - 1,
        ));
        to -= 1;
    }
    s.substring_char(from, to)
}

/// Whether `a` and `b` hold the same characters.
pub fn same_text(a: &str, b: &str) -> (res: bool)
    ensures
        res == (a@ == b@),
{
    let a_chars = chars_of(a);
    let b_chars = chars_of(b);
    if a_chars.len() != b_chars.len() {
        return false;
    }
    let n: usize = a_chars.len();
    let mut i: usize = 0;
    while i < n
        invariant
            i <= n == a_chars@.len(),
            n == b_chars@.len(),
            a_chars@ == a@,
            b_chars@ == b@,
            forall|j: int| 0 <= j < i ==> a@[j] == b@[j],
        decreases n - i,
    {
        if a_chars[i] != b_chars[i] {
            return false;
        }
        i += 1;
    }
    assert(a@ =~= b@);
    true
}

/// Whether `part` stands in `chars` at position `at`.
fn chars_stand_at(chars: &Vec<char>, part: &Vec<char>, at: usize) -> (res: bool)
    ensures
        res == stands_at(chars@, part@, at as int),
{
    if at > chars.len() || part.len() > chars.len() - at {
        return false;
    }
    let n: usize = part.len();
    let mut i: usize = 0;
    while i < n
        invariant
            i <= n == part@.len(),
            at + n <= chars.len(),
            forall|j: int| 0 <= j < i ==> chars@[at + j] == part@[j],
        decreases n - i,
    {
        if chars[at + i] != part[i] {
            assert(chars@.subrange(at as int, at + part@.len())[i as int] != part@[i as int]);
            return false;
        }
        i += 1;
    }
    assert(chars@.subrange(at as int, at + part@.len()) =~= part@);
    true
}

pub fn starts_with(s: &str, prefix: &str) -> (res: bool)
    ensures
        res == prefix@.is_prefix_of(s@),
{
    let chars = chars_of(s);
    let part = chars_of(prefix);
    chars_stand_at(&chars, &part, 0)
}

pub fn ends_with(s: &str, suffix: &str) -> (res: bool)
    ensures
        res == suffix@.is_suffix_of(s@),
{
    let chars = chars_of(s);
    let part = chars_of(suffix);
    if part.len() > chars.len() {
        return false;
    }
    chars_stand_at(&chars, &part, chars.len() - part.len())
}

/// `s` without `prefix`, if it starts with it.
pub fn strip_prefix<'a>(s: &'a str, prefix: &str) -> (res: Option<&'a str>)
    ensures
        res is Some <==> prefix@.is_prefix_of(s@),
        res matches Some(rest) ==> rest@ == s@.skip(prefix@.len() as int),
{
    if starts_with(s, prefix) {
        let from: usize = prefix.unicode_len();
        let to: usize = s.unicode_len();
        let rest = s.substring_char(from, to);
        assert(rest@ =~= s@.skip(prefix@.len() as int));
        Some(rest)
    } else {
        None
    }
}

/// Takes every repetition of `prefix` off the start of `s`.
pub fn strip_prefixes<'a>(s: &'a str, prefix: &str) -> (res: &'a str)
    ensures
        res@ == without_prefixes(s@, prefix@),
{
    if prefix.is_empty() {
        return s;
    }
    let mut rest: &'a str = s;
    loop
        invariant
            prefix@.len() > 0,
            without_prefixes(s@, prefix@) == without_prefixes(rest@, prefix@),
        decreases rest@.len(),
    {
        match strip_prefix(rest, prefix) {
            Some(shorter) => {
                rest = shorter;
            },
            None => {
                return rest;
            },
        }
    }
}

/// Takes every `c` off the end of `s`.
pub fn strip_trailing(s: &str, c: char) -> (res: &str)
    ensures
        res@ == without_trailing(s@, c),
{
    let chars = chars_of(s);
    let mut to: usize = chars.len();
    assert(s@.subrange(0, to as int) =~= s@);
    while 0 < to && chars[to - 1] == c
        invariant
            to <= chars@.len(),
            chars@ == s@,
            without_trailing(s@, c) == without_trailing(s@.subrange(0, to as int), c),
        decreases to,
    {
        assert(s@.subrange(0, to as int).drop_last() =~= s@.subrange(0, to - 1));
        to -= 1;
    }
    s.substring_char(0, to)
}

/// Splits `s` at the first `c`: what stands before it and, if there is a `c`, what stands behind.
pub fn split_first(s: &str, c: char) -> (res: (&str, Option<&str>))
    ensures
        res.0@ == before_first(s@, c),
        res.1 is Some <==> after_first(s@, c) is Some,
        res.1 matches Some(rest) ==> Some(rest@) == after_first(s@, c),
{
    let chars = chars_of(s);
    let n: usize = chars.len();
    let mut at: usize = 0;
    while at < n && chars[at] != c
        invariant
            at <= n == chars@.len(),
            forall|i: int| 0 <= i < at ==> chars@[i] != c,
        decreases n - at,
    {
        at += 1;
    }
    proof {
        lemma_first_of_unique(s@, c, at as int);
    }
    let before = s.substring_char(0, at);
    assert(before@ =~= before_first(s@, c));
    if at < n {
        let after = s.substring_char(at + 1, n);
        assert(after@ =~= s@.skip(at + 1));
        (before, Some(after))
    } else {
        (before, None)
    }
}

/// What stands in `s` behind the last `c`.
pub fn strip_to_last<'a>(s: &'a str, c: char) -> (res: &'a str)
    ensures
        res@ == after_last(s@, c),
{
    let mut rest: &'a str = s;
    loop
        invariant
            after_last(s@, c) == after_last(rest@, c),
        decreases rest@.len(),
    {
        proof {
            lemma_first_of(rest@, c);
        }
        match split_first(rest, c).1 {
            Some(behind) => {
                rest = behind;
            },
            None => {
                return rest;
            },
        }
    }
}

/// `position_of` finds an occurrence, and none stands before it.
pub proof fn lemma_position_of(s: Seq<char>, part: Seq<char>)
    ensures
        position_of(s, part) matches Some(at) ==> stands_at(s, part, at) && forall|i: int|
            0 <= i < at ==> !stands_at(s, part, i),
        position_of(s, part) is None ==> forall|i: int| !stands_at(s, part, i),
    decreases s.len(),
{
    if part.is_prefix_of(s) {
        assert(s.subrange(0, part.len() as int) =~= part);
    } else if s.len() == 0 {
    } else {
        let rest = s.drop_first();
        lemma_position_of(rest, part);
        assert forall|i: int| 0 < i implies stands_at(s, part, i) == #[trigger] stands_at(
            rest,
            part,
            i - 1,
        ) by {
            if i + part.len() <= s.len() {
                assert(s.subrange(i, i + part.len()) =~= rest.subrange(i - 1, i - 1 + part.len()));
            }
        }
        match position_of(rest, part) {
            Some(at) => {
                assert(stands_at(rest, part, at + 1 - 1));
                assert forall|i: int| 0 <= i < at + 1 implies !stands_at(s, part, i) by {
                    if i > 0 {
                        assert(!stands_at(rest, part, i - 1));
                    }
                }
            },
            None => {
                assert forall|i: int| !stands_at(s, part, i) by {
                    if i > 0 {
                        assert(!stands_at(rest, part, i - 1));
                    }
                }
            },
        }
    }
}

/// The first occurrence is the one that `position_of` finds.
pub proof fn lemma_position_of_unique(s: Seq<char>, part: Seq<char>, at: int)
    requires
        stands_at(s, part, at),
        forall|i: int| 0 <= i < at ==> !stands_at(s, part, i),
    ensures
        position_of(s, part) == Some(at),
{
    lemma_position_of(s, part);
}

/// Splits `s` at the first occurrence of `part`, which belongs to neither side.
pub fn split_once<'a>(s: &'a str, part: &str) -> (res: Option<(&'a str, &'a str)>)
    ensures
        res is Some <==> position_of(s@, part@) is Some,
        res matches Some((before, after)) ==> {
            &&& position_of(s@, part@) == Some(before@.len() as int)
            &&& before@ == s@.take(before@.len() as int)
            &&& after@ == s@.skip((before@.len() + part@.len()) as int)
        },
{
    let chars = chars_of(s);
    let needle = chars_of(part);
    let n: usize = chars.len();
    if needle.len() > n {
        proof {
            lemma_position_of(s@, part@);
        }
        return None;
    }
    let last: usize = n - needle.len();
    let mut at: usize = 0;
    loop
        invariant
            at <= last,
            last + needle@.len() == n,
            n == chars@.len(),
            chars@ == s@,
            needle@ == part@,
            forall|i: int| 0 <= i < at ==> !stands_at(s@, part@, i),
        decreases last - at,
    {
        if chars_stand_at(&chars, &needle, at) {
            proof {
                lemma_position_of_unique(s@, part@, at as int);
            }
            let before = s.substring_char(0, at);
            let after = s.substring_char(at + needle.len(), n);
            assert(before@ =~= s@.take(at as int));
            assert(after@ =~= s@.skip(at + part@.len()));
            return Some((before, after));
        }
        if at == last {
            proof {
                lemma_position_of(s@, part@);
            }
            return None;
        }
        at += 1;
    }
}

pub fn contains(s: &str, part: &str) -> (res: bool)
    ensures
        res == (position_of(s@, part@) is Some),
{
    split_once(s, part).is_some()
}

/// The texts of a list of slices.
pub open spec fn slice_texts(parts: Seq<&str>) -> Seq<Seq<char>> {
    parts.map_values(|part: &str| part@)
}

/// The texts of a list of strings.
pub open spec fn texts(parts: Seq<String>) -> Seq<Seq<char>> {
    parts.map_values(|part: String| part@)
}

/// Splits `s` at every `c`.
pub fn split<'a>(s: &'a str, c: char) -> (res: Vec<&'a str>)
    ensures
        slice_texts(res@) == pieces(s@, c),
{
    let mut parts: Vec<&'a str> = Vec::new();
    let mut rest: &'a str = s;
    loop
        invariant
            pieces(s@, c) == slice_texts(parts@) + pieces(rest@, c),
        decreases rest@.len(),
    {
        let (before, after) = split_first(rest, c);
        let ghost earlier = slice_texts(parts@);
        proof {
            lemma_first_of(rest@, c);
        }
        parts.push(before);
        assert(slice_texts(parts@) =~= earlier.push(before@));
        match after {
            Some(behind) => {
                assert(earlier + pieces(rest@, c) =~= slice_texts(parts@) + pieces(behind@, c));
                rest = behind;
            },
            None => {
                assert(before@ =~= rest@);
                assert(pieces(s@, c) =~= slice_texts(parts@));
                return parts;
            },
        }
    }
}

/// Puts `parts` together with `separator` between neighbours.
pub fn join(parts: &Vec<String>, separator: &str) -> (res: String)
    ensures
        res@ == joined(texts(parts@), separator@),
{
    let mut whole = String::new();
    let n: usize = parts.len();
    let mut i: usize = 0;
    assert(texts(parts@).take(0) =~= Seq::<Seq<char>>::empty());
    while i < n
        invariant
            i <= n == parts@.len(),
            whole@ == joined(texts(parts@).take(i as int), separator@),
        decreases n - i,
    {
        assert(texts(parts@).take(i + 1).drop_last() =~= texts(parts@).take(i as int));
        if i > 0 {
            whole.append(separator);
        }
        whole.append(parts[i].as_str());
        assert(whole@ =~= joined(texts(parts@).take(i + 1), separator@));
        i += 1;
    }
    assert(texts(parts@).take(n as int) =~= texts(parts@));
    whole
}

pub open spec fn is_digit(c: char) -> bool {
    '0' <= c <= '9'
}

/// The number that a row of decimal digits stands for.
pub open spec fn digits_value(s: Seq<char>) -> nat
    decreases s.len(),
{
    if s.len() == 0 {
        0
    } else {
        digits_value(s.drop_last()) * 10 + (s.last() as u32 - '0' as u32) as nat
    }
}

pub open spec fn all_digits(s: Seq<char>) -> bool {
    forall|i: int| 0 <= i < s.len() ==> is_digit(#[trigger] s[i])
}

/// The unsigned number that `s` writes in decimal, with an optional `+` in front.
pub open spec fn number_in(s: Seq<char>) -> Option<u64> {
    let digits = if s.len() > 0 && s[0] == '+' {
        s.drop_first()
    } else {
        s
    };
    if digits.len() > 0 && all_digits(digits) && digits_value(digits) <= u64::MAX {
        Some(digits_value(digits) as u64)
    } else {
        None
    }
}

proof fn lemma_digits_value_grows(s: Seq<char>, i: int)
    requires
        0 <= i <= s.len(),
        all_digits(s),
    ensures
        digits_value(s.take(i)) <= digits_value(s),
    decreases s.len(),
{
    if i == s.len() {
        assert(s.take(i) =~= s);
    } else {
        lemma_digits_value_grows(s.drop_last(), i);
        assert(s.drop_last().take(i) =~= s.take(i));
        assert(is_digit(s.last()));
    }
}

/// Reads an unsigned decimal number.
pub fn parse_u64(s: &str) -> (res: Option<u64>)
    ensures
        res == number_in(s@),
{
    let chars = chars_of(s);
    let n: usize = chars.len();
    let start: usize = if n > 0 && chars[0] == '+' {
        1
    } else {
        0
    };
    let ghost digits = if s@.len() > 0 && s@[0] == '+' {
        s@.drop_first()
    } else {
        s@
    };
    assert(digits =~= chars@.skip(start as int));
    if start == n {
        return None;
    }
    let mut value: u64 = 0;
    let mut i: usize = start;
    assert(digits.take(0) =~= Seq::<char>::empty());
    while i < n
        invariant
            start <= i <= n == chars@.len(),
            start < n,
            digits == chars@.skip(start as int),
            number_in(s@) == (if digits.len() > 0 && all_digits(digits) && digits_value(digits)
                <= u64::MAX {
                Some(digits_value(digits) as u64)
            } else {
                None
            }),
            all_digits(digits.take(i - start)),
            value == digits_value(digits.take(i - start)),
        decreases n - i,
    {
        let c = chars[i];
        assert(c == digits[i - start]);
        if c < '0' || c > '9' {
            assert(!is_digit(digits[i - start]));
            return None;
        }
        let digit: u64 = (c as u32 - '0' as u32) as u64;
        let ghost next = digits.take(i - start + 1);
        assert(next.drop_last() =~= digits.take(i - start));
        assert(digits_value(next) == value * 10 + digit);
        if value > (u64::MAX - digit) / 10 {
            proof {
                if all_digits(digits) {
                    lemma_digits_value_grows(digits, i - start + 1);
                }
            }
            return None;
        }
        value = value * 10 + digit;
        i += 1;
        assert(all_digits(next)) by {
            assert forall|j: int| 0 <= j < next.len() implies is_digit(#[trigger] next[j]) by {
                if j < next.len() - 1 {
                    assert(next[j] == digits.take(i - start - 1)[j]);
                }
            }
        }
    }
    assert(digits.take(n - start) =~= digits);
    Some(value)
}

/// The decimal digits of `n`.
pub open spec fn decimal(n: nat) -> Seq<char>
    decreases n,
{
    if n < 10 {
        seq![digit_char(n)]
    } else {
        decimal(n / 10).push(digit_char(n % 10))
    }
}

pub open spec fn digit_char(d: nat) -> char {
    ('0' as u32 + d) as char
}

fn digit_text(d: usize) -> (res: &'static str)
    requires
        d < 10,
    ensures
        res@ == seq![digit_char(d as nat)],
{
    proof {
        reveal_strlit("0");
        reveal_strlit("1");
        reveal_strlit("2");
        reveal_strlit("3");
        reveal_strlit("4");
        reveal_strlit("5");
        reveal_strlit("6");
        reveal_strlit("7");
        reveal_strlit("8");
        reveal_strlit("9");
    }
    if d == 0 {
        "0"
    } else if d == 1 {
        "1"
    } else if d == 2 {
        "2"
    } else if d == 3 {
        "3"
    } else if d == 4 {
        "4"
    } else if d == 5 {
        "5"
    } else if d == 6 {
        "6"
    } else if d == 7 {
        "7"
    } else if d == 8 {
        "8"
    } else {
        "9"
    }
}

/// Writes `n` in decimal.
pub fn decimal_text(n: usize) -> (res: String)
    ensures
        res@ == decimal(n as nat),
    decreases n,
{
    if n < 10 {
        digit_text(n).to_owned()
    } else {
        let mut whole = decimal_text(n / 10);
        whole.append(digit_text(n % 10));
        assert(whole@ =~= decimal(n as nat));
        whole
    }
}

/// `c` with the letters `A` to `Z` replaced by `a` to `z`.
pub open spec fn ascii_lower(c: char) -> char {
    if 'A' <= c <= 'Z' {
        (c as u32 + 32) as char
    } else {
        c
    }
}

/// Whether `a` and `b` differ at most in the case of ASCII letters.
pub open spec fn equal_but_ascii_case(a: Seq<char>, b: Seq<char>) -> bool {
    a.map_values(|c: char| ascii_lower(c)) == b.map_values(|c: char| ascii_lower(c))
}

fn to_ascii_lower(c: char) -> (res: u32)
    ensures
        res == ascii_lower(c) as u32,
{
    if 'A' <= c && c <= 'Z' {
        c as u32 + 32
    } else {
        c as u32
    }
}

pub fn eq_ignore_ascii_case(a: &str, b: &str) -> (res: bool)
    ensures
        res == equal_but_ascii_case(a@, b@),
{
    let a_chars = chars_of(a);
    let b_chars = chars_of(b);
    let ghost a_low = a@.map_values(|c: char| ascii_lower(c));
    let ghost b_low = b@.map_values(|c: char| ascii_lower(c));
    if a_chars.len() != b_chars.len() {
        assert(a_low.len() != b_low.len());
        return false;
    }
    let n: usize = a_chars.len();
    let mut i: usize = 0;
    while i < n
        invariant
            i <= n == a_chars@.len(),
            n == b_chars@.len(),
            a_low == a_chars@.map_values(|c: char| ascii_lower(c)),
            b_low == b_chars@.map_values(|c: char| ascii_lower(c)),
            equal_but_ascii_case(a@, b@) == (a_low == b_low),
            forall|j: int| 0 <= j < i ==> a_low[j] == b_low[j],
        decreases n - i,
    {
        if to_ascii_lower(a_chars[i]) != to_ascii_lower(b_chars[i]) {
            assert(a_low[i as int] != b_low[i as int]);
            return false;
        }
        assert(a_low[i as int] as u32 == b_low[i as int] as u32);
        i += 1;
    }
    assert(a_low =~= b_low);
    true
}

/// The text of a string, if there is one.
pub open spec fn opt_text(text: Option<String>) -> Option<Seq<char>> {
    match text {
        Some(s) => Some(s@),
        None => None,
    }
}

pub fn same_opt_text(a: &Option<String>, b: &Option<String>) -> (res: bool)
    ensures
        res == (opt_text(*a) == opt_text(*b)),
{
    match (a, b) {
        (Some(a), Some(b)) => same_text(a.as_str(), b.as_str()),
        (None, None) => true,
        _ => false,
    }
}

pub fn copy_opt_text(text: &Option<String>) -> (res: Option<String>)
    ensures
        res == *text,
{
    match text {
        Some(s) => Some(s.clone()),
        None => None,
    }
}

/// Whether `s` holds nothing but whitespace.
pub fn is_blank(s: &str) -> (res: bool)
    ensures
        res == blank(s@),
{
    let chars = chars_of(s);
    let n: usize = chars.len();
    let mut i: usize = 0;
    while i < n
        invariant
            i <= n == chars@.len(),
            chars@ == s@,
            forall|j: int| 0 <= j < i ==> whitespace(#[trigger] s@[j]),
        decreases n - i,
    {
        if !is_whitespace(chars[i]) {
            assert(!whitespace(s@[i as int]));
            return false;
        }
        i += 1;
    }
    true
}

/// Trimming takes whitespace off both ends and nothing else.
pub proof fn law_trimming_takes_whitespace_alone(s: Seq<char>)
    ensures
        exists|from: int, to: int|
            0 <= from <= to <= s.len() && trimmed(s) == #[trigger] s.subrange(from, to) && blank(
                s.take(from),
            ) && blank(s.skip(to)),
{
    let start = trimmed_start(s);
    lemma_trimmed_start(s);
    lemma_trimmed_end(start);
    let from = s.len() - start.len();
    let to = from + trimmed(s).len();
    assert(trimmed(s) =~= s.subrange(from, to));
    assert forall|i: int| 0 <= i < s.skip(to).len() implies whitespace(#[trigger] s.skip(to)[i]) by {
        assert(s.skip(to)[i] == start[trimmed(s).len() + i]);
    }
    assert forall|i: int| 0 <= i < s.take(from).len() implies whitespace(
        #[trigger] s.take(from)[i],
    ) by {
        assert(s.take(from)[i] == s[i]);
    }
}

/// It does not matter at which end trimming begins.
pub proof fn lemma_trimming_order_does_not_matter(s: Seq<char>)
    ensures
        trimmed(trimmed_end(s)) == trimmed(s),
    decreases s.len(),
{
    if s.len() > 0 && whitespace(s.last()) {
        let rest = s.drop_last();
        lemma_trimming_order_does_not_matter(rest);
        lemma_trimmed_start_shortened(s);
    } else {
        lemma_trimmed_start(s);
    }
}

proof fn lemma_trimmed_start_shortened(s: Seq<char>)
    requires
        s.len() > 0,
        whitespace(s.last()),
    ensures
        trimmed(s.drop_last()) == trimmed(s),
    decreases s.len(),
{
    let rest = s.drop_last();
    if whitespace(s[0]) {
        if s.len() > 1 {
            assert(rest.drop_first() =~= s.drop_first().drop_last());
            assert(rest[0] == s[0]);
            lemma_trimmed_start_shortened(s.drop_first());
        } else {
            assert(s.drop_first() =~= rest);
            assert(trimmed_start(rest) == rest);
        }
    } else if rest.len() > 0 {
        assert(rest[0] == s[0]);
    }
}

/// Of the ASCII characters the space, the tab and the line ends are whitespace; those that can be
/// seen are not.
pub proof fn law_whitespace_cannot_be_seen(c: char)
    ensures
        '!' <= c <= '~' ==> !whitespace(c),
        c == ' ' || c == '\t' || c == '\n' || c == '\r' ==> whitespace(c),
{
}

/// A text is its pieces with the separator between them, and no piece holds the separator.
pub proof fn law_pieces_make_up_the_text(s: Seq<char>, c: char)
    ensures
        pieces(s, c).len() > 0,
        joined(pieces(s, c), seq![c]) == s,
        forall|i: int, j: int|
            0 <= i < pieces(s, c).len() && 0 <= j < pieces(s, c)[i].len() ==> (#[trigger] pieces(
                s,
                c,
            )[i][j]) != c,
    decreases s.len(),
{
    lemma_first_of(s, c);
    match after_first(s, c) {
        Some(rest) => {
            law_pieces_make_up_the_text(rest, c);
            let front = before_first(s, c);
            let others = pieces(rest, c);
            let all = seq![front] + others;
            lemma_joined_front(front, others, seq![c]);
            assert(front + seq![c] + rest =~= s);
            assert forall|i: int, j: int| 0 <= i < all.len() && 0 <= j < all[i].len() implies (
            #[trigger] all[i][j]) != c by {
                if i > 0 {
                    assert(all[i] == others[i - 1]);
                } else {
                    assert(all[0] == front);
                }
            }
        },
        None => {},
    }
}

/// What is written behind a text and a separator is one more piece, and the last piece before is
/// what stands behind the last separator.
pub proof fn law_another_piece(s: Seq<char>, more: Seq<char>, c: char)
    requires
        forall|i: int| 0 <= i < more.len() ==> #[trigger] more[i] != c,
    ensures
        pieces(s + seq![c] + more, c) == pieces(s, c).push(more),
        pieces(s, c).last() == after_last(s, c),
    decreases s.len(),
{
    let whole = s + seq![c] + more;
    let at = first_of(s, c);
    lemma_first_of(s, c);
    law_pieces_make_up_the_text(s, c);
    if at < s.len() {
        let rest = s.skip(at + 1);
        law_another_piece(rest, more, c);
        law_pieces_make_up_the_text(rest, c);
        assert forall|i: int| 0 <= i < at implies whole[i] != c by {
            assert(whole[i] == s[i]);
        }
        lemma_first_of_unique(whole, c, at);
        assert(whole.skip(at + 1) =~= rest + seq![c] + more);
        assert(whole.take(at) =~= s.take(at));
        assert(pieces(whole, c) =~= pieces(s, c).push(more));
    } else {
        assert forall|i: int| 0 <= i < s.len() implies whole[i] != c by {
            assert(whole[i] == s[i]);
        }
        lemma_first_of_unique(whole, c, s.len() as int);
        assert(whole.take(s.len() as int) =~= s);
        assert(whole.skip(s.len() as int + 1) =~= more);
        lemma_first_of_unique(more, c, more.len() as int);
        assert(pieces(more, c) == seq![more]);
        assert(pieces(whole, c) =~= pieces(s, c).push(more));
    }
}

/// What is joined starts with its first part.
proof fn lemma_joined_front(front: Seq<char>, others: Seq<Seq<char>>, separator: Seq<char>)
    requires
        others.len() > 0,
    ensures
        joined(seq![front] + others, separator) == front + separator + joined(others, separator),
    decreases others.len(),
{
    let all = seq![front] + others;
    assert(all.last() == others.last());
    assert(all.drop_last() =~= seq![front] + others.drop_last());
    if others.len() == 1 {
        assert(others.drop_last() =~= Seq::<Seq<char>>::empty());
        assert(all.drop_last() =~= seq![front]);
        assert(joined(seq![front], separator) == front);
        assert(joined(others, separator) == others[0]);
    } else {
        lemma_joined_front(front, others.drop_last(), separator);
        assert(joined(others, separator) == joined(others.drop_last(), separator) + separator
            + others.last());
    }
    assert(joined(all, separator) == joined(all.drop_last(), separator) + separator + all.last());
    assert(joined(all, separator) =~= front + separator + joined(others, separator));
}

/// Taking a character off the end takes off all of them and nothing else.
pub proof fn law_trailing_characters_come_off(s: Seq<char>, c: char)
    ensures
        without_trailing(s, c).is_prefix_of(s),
        without_trailing(s, c).len() > 0 ==> without_trailing(s, c).last() != c,
        forall|i: int| without_trailing(s, c).len() <= i < s.len() ==> #[trigger] s[i] == c,
        without_trailing(s.push(c), c) == without_trailing(s, c),
    decreases s.len(),
{
    assert(s.push(c).drop_last() =~= s);
    if s.len() > 0 && s.last() == c {
        let rest = s.drop_last();
        law_trailing_characters_come_off(rest, c);
        let kept = without_trailing(s, c);
        assert(s.take(kept.len() as int) =~= rest.take(kept.len() as int));
        assert forall|i: int| kept.len() <= i < s.len() implies #[trigger] s[i] == c by {
            if i < rest.len() {
                assert(s[i] == rest[i]);
            }
        }
    } else {
        assert(s.take(s.len() as int) =~= s);
    }
}

/// Behind the last `c` there is none, and a `c` stands before what is left unless that is all.
pub proof fn law_nothing_follows_the_last(s: Seq<char>, c: char)
    ensures
        after_last(s, c).is_suffix_of(s),
        forall|i: int| 0 <= i < after_last(s, c).len() ==> #[trigger] after_last(s, c)[i] != c,
        after_last(s, c).len() < s.len() ==> s[s.len() - after_last(s, c).len() - 1] == c,
    decreases s.len(),
{
    lemma_first_of(s, c);
    lemma_after_last_is_end(s, c);
    match after_first(s, c) {
        Some(rest) => {
            law_nothing_follows_the_last(rest, c);
            let kept = after_last(s, c);
            if kept.len() < rest.len() {
                assert(rest[rest.len() - kept.len() - 1] == s[s.len() - kept.len() - 1]);
            }
        },
        None => {},
    }
}

/// A number is read as it is written.
pub proof fn law_written_numbers_are_read(n: nat)
    requires
        n <= u64::MAX,
    ensures
        number_in(decimal(n)) == Some(n as u64),
        number_in("+"@ + decimal(n)) == Some(n as u64),
        decimal(n).len() == 1 <==> n < 10,
{
    lemma_decimal(n);
    reveal_strlit("+");
    let signed = "+"@ + decimal(n);
    assert(signed.drop_first() =~= decimal(n));
    assert(is_digit(decimal(n)[0]));
}

/// A number is written in digits that stand for it.
pub proof fn lemma_decimal(n: nat)
    ensures
        decimal(n).len() > 0,
        all_digits(decimal(n)),
        digits_value(decimal(n)) == n,
        decimal(n).len() == 1 <==> n < 10,
    decreases n,
{
    if n < 10 {
        let s = decimal(n);
        assert(s.drop_last() =~= Seq::<char>::empty());
        assert(digits_value(s.drop_last()) == 0);
        assert(s.last() as u32 == '0' as u32 + n);
    } else {
        lemma_decimal(n / 10);
        let s = decimal(n);
        assert(s.drop_last() =~= decimal(n / 10));
        assert(s.last() as u32 == '0' as u32 + n % 10);
        assert forall|i: int| 0 <= i < s.len() implies is_digit(#[trigger] s[i]) by {
            if i < s.len() - 1 {
                assert(s[i] == decimal(n / 10)[i]);
            }
        }
    }
}

/// Nothing but a row of digits, with or without a plus sign, is a number.
pub proof fn law_numbers_are_digits(s: Seq<char>)
    requires
        number_in(s) is Some,
    ensures
        s.len() > 0,
        all_digits(s) || (s[0] == '+' && s.len() > 1 && all_digits(s.drop_first())),
{
}

/// Two texts that are equal but for the case of ASCII letters differ in such letters alone.
pub proof fn law_case_is_all_that_differs(a: Seq<char>, b: Seq<char>, i: int)
    requires
        equal_but_ascii_case(a, b),
        0 <= i < a.len(),
    ensures
        a.len() == b.len(),
        a[i] == b[i] || ('A' <= a[i] <= 'Z' && b[i] as u32 == a[i] as u32 + 32) || ('A' <= b[i]
            <= 'Z' && a[i] as u32 == b[i] as u32 + 32),
{
    let lower = |c: char| ascii_lower(c);
    assert(a.map_values(lower).len() == b.map_values(lower).len());
    assert(a.map_values(lower)[i] == ascii_lower(a[i]));
    assert(b.map_values(lower)[i] == ascii_lower(b[i]));
}

/// Prefixes are taken off as often as they stand at the start, and nothing else is.
pub proof fn law_prefixes_come_off(s: Seq<char>, prefix: Seq<char>)
    requires
        prefix.len() > 0,
    ensures
        without_prefixes(prefix + s, prefix) == without_prefixes(s, prefix),
        !prefix.is_prefix_of(without_prefixes(s, prefix)),
        !prefix.is_prefix_of(s) ==> without_prefixes(s, prefix) == s,
    decreases s.len(),
{
    let whole = prefix + s;
    assert(whole.subrange(0, prefix.len() as int) =~= prefix);
    assert(whole.skip(prefix.len() as int) =~= s);
    if prefix.is_prefix_of(s) {
        law_prefixes_come_off(s.skip(prefix.len() as int), prefix);
    }
}

/// Every text is equal to itself in lower case but for the case of its letters.
pub proof fn law_lower_case_is_the_same_text(s: Seq<char>)
    ensures
        equal_but_ascii_case(s, s.map_values(|c: char| ascii_lower(c))),
        equal_but_ascii_case(s, s),
{
    let lower = |c: char| ascii_lower(c);
    assert(s.map_values(lower).map_values(lower) =~= s.map_values(lower));
}

/// What is joined is at least as long as each of its parts.
pub proof fn lemma_joined_holds(parts: Seq<Seq<char>>, separator: Seq<char>, i: int)
    requires
        0 <= i < parts.len(),
    ensures
        joined(parts, separator).len() >= parts[i].len(),
    decreases parts.len(),
{
    if parts.len() > 1 && i < parts.len() - 1 {
        lemma_joined_holds(parts.drop_last(), separator, i);
    }
}

} // verus!
