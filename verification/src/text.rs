//! Text primitives: trimming, ASCII case folding and splitting at a separator.
use crate::relation::{
    blank, ends_after, in_three, pads, same_letter, same_letters, solid, starts_up_to,
};
use vstd::prelude::*;

verus! {

/// The text of `s`, where there is one.
pub open spec fn opt_text(s: Option<String>) -> Option<Seq<char>> {
    match s {
        Some(s) => Some(s@),
        None => None,
    }
}

/// The text of `s`, where there is one.
pub open spec fn str_view(s: Option<&str>) -> Option<Seq<char>> {
    match s {
        Some(s) => Some(s@),
        None => None,
    }
}

/// Characters with the Unicode `White_Space` property.
pub open spec fn white_space(c: char) -> bool {
    ||| '\u{9}' <= c <= '\u{d}'
    ||| c == '\u{20}'
    ||| c == '\u{85}'
    ||| c == '\u{a0}'
    ||| c == '\u{1680}'
    ||| '\u{2000}' <= c <= '\u{200a}'
    ||| '\u{2028}' <= c <= '\u{2029}'
    ||| c == '\u{202f}'
    ||| c == '\u{205f}'
    ||| c == '\u{3000}'
}

/// Whether `c` is white space.
pub fn is_white_space(c: char) -> (r: bool)
    ensures
        r == white_space(c),
{
    ('\u{9}' <= c && c <= '\u{d}') || c == '\u{20}' || c == '\u{85}' || c == '\u{a0}' || c
        == '\u{1680}' || ('\u{2000}' <= c && c <= '\u{200a}') || ('\u{2028}' <= c && c
        <= '\u{2029}') || c == '\u{202f}' || c == '\u{205f}' || c == '\u{3000}'
}

/// `s` without the white space it starts with.
pub open spec fn trimmed_start(s: Seq<char>) -> Seq<char>
    decreases s.len(),
{
    if s.len() > 0 && white_space(s[0]) {
        trimmed_start(s.drop_first())
    } else {
        s
    }
}

/// `s` without the white space it ends with.
pub open spec fn trimmed_end(s: Seq<char>) -> Seq<char>
    decreases s.len(),
{
    if s.len() > 0 && white_space(s.last()) {
        trimmed_end(s.drop_last())
    } else {
        s
    }
}

/// `s` without the white space around it.
pub open spec fn trimmed(s: Seq<char>) -> Seq<char> {
    trimmed_end(trimmed_start(s))
}

/// `s` without the run of `c` it ends with.
pub open spec fn trimmed_end_of(s: Seq<char>, c: char) -> Seq<char>
    decreases s.len(),
{
    if s.len() > 0 && s.last() == c {
        trimmed_end_of(s.drop_last(), c)
    } else {
        s
    }
}

proof fn lemma_trimmed_start_at(s: Seq<char>, i: int)
    requires
        0 <= i <= s.len(),
        forall|j: int| 0 <= j < i ==> white_space(s[j]),
        i < s.len() ==> !white_space(s[i]),
    ensures
        trimmed_start(s) == s.skip(i),
    decreases s.len(),
{
    if i == 0 {
        assert(s.skip(0) =~= s);
    } else {
        lemma_trimmed_start_at(s.drop_first(), i - 1);
        assert(s.drop_first().skip(i - 1) =~= s.skip(i));
    }
}

proof fn lemma_trimmed_end_at(s: Seq<char>, i: int)
    requires
        0 <= i <= s.len(),
        forall|j: int| i <= j < s.len() ==> white_space(s[j]),
        i > 0 ==> !white_space(s[i - 1]),
    ensures
        trimmed_end(s) == s.take(i),
    decreases s.len(),
{
    if i == s.len() {
        assert(s.take(i) =~= s);
    } else {
        lemma_trimmed_end_at(s.drop_last(), i);
        assert(s.drop_last().take(i) =~= s.take(i));
    }
}

/// Trimming yields text that neither starts nor ends with white space, and
/// trimming such text changes nothing.
pub proof fn lemma_trimmed_fixed(s: Seq<char>)
    ensures
        trimmed(trimmed(s)) == trimmed(s),
        trimmed(s).len() > 0 ==> !white_space(trimmed(s)[0]) && !white_space(trimmed(s).last()),
        (s.len() == 0 || (!white_space(s[0]) && !white_space(s.last()))) ==> trimmed(s) == s,
{
    lemma_trimmed_start_clean(s);
    lemma_trimmed_end_clean(trimmed_start(s));
}

proof fn lemma_trimmed_start_clean(s: Seq<char>)
    ensures
        trimmed_start(s).len() > 0 ==> !white_space(trimmed_start(s)[0]),
    decreases s.len(),
{
    if s.len() > 0 && white_space(s[0]) {
        lemma_trimmed_start_clean(s.drop_first());
    }
}

proof fn lemma_trimmed_end_clean(s: Seq<char>)
    ensures
        trimmed_end(s).len() > 0 ==> !white_space(trimmed_end(s).last()) && trimmed_end(s)[0]
            == s[0],
    decreases s.len(),
{
    if s.len() > 0 && white_space(s.last()) {
        lemma_trimmed_end_clean(s.drop_last());
    }
}

proof fn lemma_trimmed_start_of_push(s: Seq<char>, w: char)
    requires
        white_space(w),
    ensures
        trimmed_start(s).len() > 0 ==> trimmed_start(s.push(w)) == trimmed_start(s).push(w),
        trimmed_start(s).len() == 0 ==> trimmed_start(s.push(w)).len() == 0,
    decreases s.len(),
{
    if s.len() == 0 {
        assert(s.push(w).drop_first().len() == 0);
        reveal_with_fuel(trimmed_start, 2);
    } else if white_space(s[0]) {
        lemma_trimmed_start_of_push(s.drop_first(), w);
        assert(s.push(w).drop_first() =~= s.drop_first().push(w));
    }
}

/// Dropping the white space at the end first makes no difference to trimming.
pub proof fn lemma_trimmed_of_trimmed_end(s: Seq<char>)
    ensures
        trimmed(trimmed_end(s)) == trimmed(s),
    decreases s.len(),
{
    if s.len() > 0 && white_space(s.last()) {
        let init = s.drop_last();
        lemma_trimmed_of_trimmed_end(init);
        assert(init.push(s.last()) =~= s);
        lemma_trimmed_start_of_push(init, s.last());
        if trimmed_start(init).len() > 0 {
            assert(trimmed_start(s).drop_last() =~= trimmed_start(init));
        } else {
            assert(trimmed_start(s) =~= trimmed_start(init));
        }
    }
}

/// Text that ends with something else than white space is kept when the white
/// space after it is dropped.
pub proof fn lemma_trimmed_end_of_concat(prefix: Seq<char>, s: Seq<char>)
    requires
        prefix.len() > 0,
        !white_space(prefix.last()),
    ensures
        trimmed_end(prefix + s) == prefix + trimmed_end(s),
    decreases s.len(),
{
    if s.len() == 0 {
        assert(prefix + s =~= prefix);
    } else if white_space(s.last()) {
        lemma_trimmed_end_of_concat(prefix, s.drop_last());
        assert((prefix + s).drop_last() =~= prefix + s.drop_last());
    }
}

/// The characters of `s`, in order.
pub fn chars_of(s: &str) -> (chars: Vec<char>)
    ensures
        chars@ == s@,
{
    let mut chars: Vec<char> = Vec::new();
    for c in it: s.chars()
        invariant
            it.seq() == s@,
            chars@ == s@.take(it.index()),
    {
        chars.push(c);
        assert(s@.take(it.index() + 1) =~= s@.take(it.index()).push(s@[it.index()]));
    }
    assert(s@.take(s@.len() as int) =~= s@);
    chars
}

/// `s` without the white space around it.
pub fn trim(s: &str) -> (r: &str)
    ensures
        r@ == trimmed(s@),
{
    let chars = chars_of(s);
    let len: usize = chars.len();
    let mut start: usize = 0;
    while start < len && is_white_space(chars[start])
        invariant
            chars@ == s@,
            len == chars.len(),
            start <= len,
            forall|j: int| 0 <= j < start ==> white_space(s@[j]),
        decreases len - start,
    {
        start = start + 1;
    }
    proof {
        lemma_trimmed_start_at(s@, start as int);
    }
    let mut end: usize = len;
    while end > start && is_white_space(chars[end - 1])
        invariant
            chars@ == s@,
            len == chars.len(),
            start <= end <= len,
            forall|j: int| end <= j < len ==> white_space(s@[j]),
        decreases end,
    {
        end = end - 1;
    }
    proof {
        lemma_trimmed_end_at(s@.skip(start as int), end - start);
        assert(s@.skip(start as int).take(end - start) =~= s@.subrange(start as int, end as int));
    }
    s.substring_char(start, end)
}

/// `s` without the run of `c` it ends with.
pub fn trim_end_of(s: &str, c: char) -> (r: &str)
    ensures
        r@ == trimmed_end_of(s@, c),
{
    let chars = chars_of(s);
    let mut end: usize = chars.len();
    assert(s@.take(end as int) =~= s@);
    while end > 0 && chars[end - 1] == c
        invariant
            chars@ == s@,
            end <= chars.len(),
            trimmed_end_of(s@, c) == trimmed_end_of(s@.take(end as int), c),
        decreases end,
    {
        assert(s@.take(end as int).drop_last() =~= s@.take(end - 1));
        end = end - 1;
    }
    assert(s@.take(end as int) =~= s@.subrange(0, end as int));
    s.substring_char(0, end)
}

/// `c` with an ASCII upper-case letter turned into its lower-case form.
pub open spec fn ascii_lower(c: char) -> char {
    if 'A' <= c <= 'Z' {
        (c as u32 + 32) as char
    } else {
        c
    }
}

/// `a` and `b` are the same text once ASCII letter case is ignored.
pub open spec fn same_ignoring_ascii_case(a: Seq<char>, b: Seq<char>) -> bool {
    &&& a.len() == b.len()
    &&& forall|i: int| 0 <= i < a.len() ==> ascii_lower(#[trigger] a[i]) == ascii_lower(b[i])
}

/// `c` with an ASCII upper-case letter turned into its lower-case form.
pub fn to_ascii_lower(c: char) -> (r: char)
    ensures
        r == ascii_lower(c),
{
    if 'A' <= c && c <= 'Z' {
        (c as u8 + 32) as char
    } else {
        c
    }
}

/// Whether `a` and `b` are the same text once ASCII letter case is ignored.
pub fn eq_ignore_ascii_case(a: &str, b: &str) -> (r: bool)
    ensures
        r == same_ignoring_ascii_case(a@, b@),
{
    let left = chars_of(a);
    let right = chars_of(b);
    if left.len() != right.len() {
        return false;
    }
    let mut i: usize = 0;
    while i < left.len()
        invariant
            left@ == a@,
            right@ == b@,
            left.len() == right.len(),
            i <= left.len(),
            forall|j: int| 0 <= j < i ==> ascii_lower(#[trigger] a@[j]) == ascii_lower(b@[j]),
        decreases left.len() - i,
    {
        if to_ascii_lower(left[i]) != to_ascii_lower(right[i]) {
            assert(ascii_lower(a@[i as int]) != ascii_lower(b@[i as int]));
            return false;
        }
        i = i + 1;
    }
    true
}

/// Whether `a` and `b` are the same text.
pub fn same_text(a: &str, b: &str) -> (r: bool)
    ensures
        r == (a@ == b@),
{
    let left = chars_of(a);
    let right = chars_of(b);
    if left.len() != right.len() {
        return false;
    }
    let mut i: usize = 0;
    while i < left.len()
        invariant
            left@ == a@,
            right@ == b@,
            left.len() == right.len(),
            i <= left.len(),
            forall|j: int| 0 <= j < i ==> a@[j] == b@[j],
        decreases left.len() - i,
    {
        if left[i] != right[i] {
            return false;
        }
        i = i + 1;
    }
    assert(a@ =~= b@);
    true
}

/// The position of the first `c` in `s`, or the length of `s` where there is none.
pub open spec fn first_index(s: Seq<char>, c: char) -> int
    decreases s.len(),
{
    if s.len() == 0 || s[0] == c {
        0
    } else {
        1 + first_index(s.drop_first(), c)
    }
}

/// The part of `s` before its first `c`, all of `s` where there is none.
pub open spec fn before_first(s: Seq<char>, c: char) -> Seq<char> {
    s.take(first_index(s, c))
}

/// The part of `s` after its last `c`, all of `s` where there is none.
pub open spec fn after_last(s: Seq<char>, c: char) -> Seq<char>
    decreases s.len(),
{
    if s.len() == 0 || s.last() == c {
        seq![]
    } else {
        after_last(s.drop_last(), c).push(s.last())
    }
}

proof fn lemma_first_index_at(s: Seq<char>, c: char, i: int)
    requires
        0 <= i <= s.len(),
        forall|j: int| 0 <= j < i ==> s[j] != c,
        i < s.len() ==> s[i] == c,
    ensures
        first_index(s, c) == i,
    decreases s.len(),
{
    if i > 0 {
        lemma_first_index_at(s.drop_first(), c, i - 1);
    }
}

proof fn lemma_after_last_at(s: Seq<char>, c: char, i: int)
    requires
        0 <= i <= s.len(),
        forall|j: int| i <= j < s.len() ==> s[j] != c,
        i > 0 ==> s[i - 1] == c,
    ensures
        after_last(s, c) == s.skip(i),
    decreases s.len(),
{
    if i == s.len() {
        assert(s.skip(i) =~= seq![]);
    } else {
        lemma_after_last_at(s.drop_last(), c, i);
        assert(s.drop_last().skip(i).push(s.last()) =~= s.skip(i));
    }
}

/// What precedes the first `c` of `prefix + c + rest` is `prefix`, for a `prefix` without `c`.
pub proof fn lemma_before_first_of_join(prefix: Seq<char>, c: char, rest: Seq<char>)
    requires
        !prefix.contains(c),
    ensures
        before_first(prefix.push(c) + rest, c) == prefix,
{
    let s = prefix.push(c) + rest;
    assert forall|j: int| 0 <= j < prefix.len() implies s[j] != c by {
        assert(prefix.contains(prefix[j]));
    }
    lemma_first_index_at(s, c, prefix.len() as int);
    assert(s.take(prefix.len() as int) =~= prefix);
}

/// What follows the last `c` of `head + c + tail` is `tail`, for a `tail` without `c`.
pub proof fn lemma_after_last_of_join(head: Seq<char>, c: char, tail: Seq<char>)
    requires
        !tail.contains(c),
    ensures
        after_last(head.push(c) + tail, c) == tail,
{
    let s = head.push(c) + tail;
    let i = head.len() as int + 1;
    assert forall|j: int| i <= j < s.len() implies s[j] != c by {
        assert(tail.contains(tail[j - i]));
    }
    lemma_after_last_at(s, c, i);
    assert(s.skip(i) =~= tail);
}

/// The part of `s` before its first `c`, all of `s` where there is none.
pub fn split_before(s: &str, c: char) -> (r: &str)
    ensures
        r@ == before_first(s@, c),
{
    let chars = chars_of(s);
    let mut i: usize = 0;
    while i < chars.len() && chars[i] != c
        invariant
            chars@ == s@,
            i <= chars.len(),
            forall|j: int| 0 <= j < i ==> s@[j] != c,
        decreases chars.len() - i,
    {
        i = i + 1;
    }
    proof {
        lemma_first_index_at(s@, c, i as int);
        assert(s@.take(i as int) =~= s@.subrange(0, i as int));
    }
    s.substring_char(0, i)
}

/// The part of `s` after its last `c`, all of `s` where there is none.
pub fn split_after_last(s: &str, c: char) -> (r: &str)
    ensures
        r@ == after_last(s@, c),
{
    let chars = chars_of(s);
    let mut i: usize = chars.len();
    while i > 0 && chars[i - 1] != c
        invariant
            chars@ == s@,
            i <= chars.len(),
            forall|j: int| i <= j < s@.len() ==> s@[j] != c,
        decreases i,
    {
        i = i - 1;
    }
    proof {
        lemma_after_last_at(s@, c, i as int);
        assert(s@.skip(i as int) =~= s@.subrange(i as int, s@.len() as int));
    }
    s.substring_char(i, chars.len())
}

/// The rest of `s` after `prefix`, where `s` starts with it.
pub open spec fn stripped_prefix(s: Seq<char>, prefix: Seq<char>) -> Option<Seq<char>> {
    if prefix.is_prefix_of(s) {
        Some(s.skip(prefix.len() as int))
    } else {
        None
    }
}

/// The rest of `s` after `prefix`, where `s` starts with it.
pub fn strip_prefix<'a>(s: &'a str, prefix: &str) -> (r: Option<&'a str>)
    ensures
        str_view(r) == stripped_prefix(s@, prefix@),
{
    let chars = chars_of(s);
    let wanted = chars_of(prefix);
    if wanted.len() > chars.len() {
        return None;
    }
    let mut i: usize = 0;
    while i < wanted.len()
        invariant
            chars@ == s@,
            wanted@ == prefix@,
            wanted.len() <= chars.len(),
            i <= wanted.len(),
            forall|j: int| 0 <= j < i ==> s@[j] == prefix@[j],
        decreases wanted.len() - i,
    {
        if chars[i] != wanted[i] {
            assert(prefix@[i as int] != s@.subrange(0, prefix@.len() as int)[i as int]);
            return None;
        }
        i = i + 1;
    }
    proof {
        assert(prefix@ =~= s@.subrange(0, prefix@.len() as int));
        assert(s@.skip(prefix@.len() as int) =~= s@.subrange(
            prefix@.len() as int,
            s@.len() as int,
        ));
    }
    Some(s.substring_char(wanted.len(), chars.len()))
}

/// `a` followed by `b`.
pub(crate) fn concat(a: &str, b: &str) -> (r: String)
    ensures
        r@ == a@ + b@,
{
    let mut text = a.to_owned();
    text.append(b);
    text
}

/// Trimming takes white space away at both ends and nothing else: what is left is all of
/// `s` but white space before and after it, and it is either empty or solid.
pub proof fn law_trimming_takes_only_white_space(s: Seq<char>)
    ensures
        exists|before: Seq<char>, after: Seq<char>| #[trigger]
            in_three(s, before, trimmed(s), after) && blank(before) && blank(after),
        trimmed(s).len() > 0 ==> solid(trimmed(s)) && pads(s, trimmed(s)),
        trimmed(s).len() == 0 <==> blank(s),
{
    let (i, j) = lemma_trimmed_bounds(s);
    let before = s.take(i);
    let after = s.skip(j);
    assert(s =~= before + trimmed(s) + after);
    assert(in_three(s, before, trimmed(s), after));
    lemma_trimmed_fixed(s);
    if blank(s) && trimmed(s).len() > 0 {
        assert(white_space(s[i]));
    }
    if trimmed(s).len() == 0 {
        assert forall|k: int| 0 <= k < s.len() implies white_space(#[trigger] s[k]) by {
            if k < i {
                assert(white_space(before[k]));
            } else {
                assert(white_space(after[k - j]));
            }
        }
    }
}

/// White space around solid text is what trimming takes away.
pub proof fn law_trimming_keeps_solid_text(s: Seq<char>, inner: Seq<char>)
    requires
        pads(s, inner),
    ensures
        trimmed(s) == inner,
{
    let (before, after) = choose|before: Seq<char>, after: Seq<char>| #[trigger]
        in_three(s, before, inner, after) && blank(before) && blank(after);
    let i = before.len() as int;
    let rest = inner + after;
    assert forall|j: int| 0 <= j < i implies white_space(s[j]) by {
        assert(s[j] == before[j]);
    }
    assert(s[i] == inner[0]);
    lemma_trimmed_start_at(s, i);
    assert(s.skip(i) =~= rest);
    assert forall|j: int| inner.len() <= j < rest.len() implies white_space(rest[j]) by {
        assert(rest[j] == after[j - inner.len()]);
    }
    lemma_trimmed_end_at(rest, inner.len() as int);
    assert(rest.take(inner.len() as int) =~= inner);
}

proof fn lemma_trimmed_bounds(s: Seq<char>) -> (bounds: (int, int))
    ensures
        0 <= bounds.0 <= bounds.1 <= s.len(),
        blank(s.take(bounds.0)),
        blank(s.skip(bounds.1)),
        trimmed(s) == s.subrange(bounds.0, bounds.1),
{
    let i = lemma_trimmed_start_bound(s);
    let rest = s.skip(i);
    let j = lemma_trimmed_end_bound(rest);
    assert(rest.take(j) =~= s.subrange(i, i + j));
    assert(rest.skip(j) =~= s.skip(i + j));
    (i, i + j)
}

proof fn lemma_trimmed_start_bound(s: Seq<char>) -> (i: int)
    ensures
        0 <= i <= s.len(),
        blank(s.take(i)),
        trimmed_start(s) == s.skip(i),
    decreases s.len(),
{
    if s.len() > 0 && white_space(s[0]) {
        let j = lemma_trimmed_start_bound(s.drop_first());
        assert(s.drop_first().skip(j) =~= s.skip(j + 1));
        assert forall|k: int| 0 <= k < j + 1 implies white_space(#[trigger] s.take(j + 1)[k]) by {
            if k > 0 {
                assert(white_space(s.drop_first().take(j)[k - 1]));
            }
        }
        j + 1
    } else {
        assert(s.skip(0) =~= s);
        0
    }
}

proof fn lemma_trimmed_end_bound(s: Seq<char>) -> (i: int)
    ensures
        0 <= i <= s.len(),
        blank(s.skip(i)),
        trimmed_end(s) == s.take(i),
    decreases s.len(),
{
    if s.len() > 0 && white_space(s.last()) {
        let i = lemma_trimmed_end_bound(s.drop_last());
        assert(s.drop_last().take(i) =~= s.take(i));
        assert forall|k: int| 0 <= k < s.len() - i implies white_space(#[trigger] s.skip(i)[k]) by {
            if k < s.len() - i - 1 {
                assert(white_space(s.drop_last().skip(i)[k]));
            }
        }
        i
    } else {
        assert(s.take(s.len() as int) =~= s);
        s.len() as int
    }
}

/// Without its run of `c` at the end, `s` is all there: what is missing is `c` throughout,
/// and what is left does not end with `c`.
pub proof fn law_trimming_an_end_takes_only_the_run(s: Seq<char>, c: char)
    ensures
        trimmed_end_of(s, c).is_prefix_of(s),
        forall|i: int| trimmed_end_of(s, c).len() <= i < s.len() ==> #[trigger] s[i] == c,
        trimmed_end_of(s, c).len() > 0 ==> trimmed_end_of(s, c).last() != c,
    decreases s.len(),
{
    if s.len() > 0 && s.last() == c {
        law_trimming_an_end_takes_only_the_run(s.drop_last(), c);
        assert forall|i: int| trimmed_end_of(s, c).len() <= i < s.len() implies #[trigger] s[i]
            == c by {
            if i < s.len() - 1 {
                assert(s.drop_last()[i] == c);
            }
        }
    }
}

/// Two texts count as the same exactly where they agree letter by letter, but for the case
/// of ASCII letters.
pub proof fn law_case_is_all_that_is_ignored(a: Seq<char>, b: Seq<char>)
    ensures
        same_ignoring_ascii_case(a, b) <==> same_letters(a, b),
{
    assert forall|c: char, d: char| ascii_lower(c) == ascii_lower(d) <==> same_letter(c, d) by {}
    if same_ignoring_ascii_case(a, b) {
        assert forall|i: int| 0 <= i < a.len() implies same_letter(#[trigger] a[i], b[i]) by {
            assert(ascii_lower(a[i]) == ascii_lower(b[i]));
        }
    }
    if same_letters(a, b) {
        assert forall|i: int| 0 <= i < a.len() implies ascii_lower(#[trigger] a[i])
            == ascii_lower(b[i]) by {
            assert(same_letter(a[i], b[i]));
        }
    }
}

/// The lower-case form of a character is one of the same letter, and no capital.
pub proof fn law_lower_case(c: char)
    ensures
        same_letter(c, ascii_lower(c)),
        !('A' <= ascii_lower(c) <= 'Z'),
{
}

/// The part before the first `c` starts the text and reaches up to that `c`, or to the end
/// where there is none; no other part does.
pub proof fn law_part_before(s: Seq<char>, part: Seq<char>, c: char)
    ensures
        starts_up_to(s, part, c) <==> part == before_first(s, c),
{
    let i = lemma_first_index_bound(s, c);
    assert(starts_up_to(s, before_first(s, c), c));
    if starts_up_to(s, part, c) {
        lemma_first_index_at(s, c, part.len() as int);
        assert(part =~= before_first(s, c));
    }
}

proof fn lemma_first_index_bound(s: Seq<char>, c: char) -> (i: int)
    ensures
        i == first_index(s, c),
        0 <= i <= s.len(),
        forall|j: int| 0 <= j < i ==> s[j] != c,
        i < s.len() ==> s[i] == c,
    decreases s.len(),
{
    if s.len() == 0 || s[0] == c {
        0
    } else {
        let i = lemma_first_index_bound(s.drop_first(), c);
        assert forall|j: int| 0 <= j < i + 1 implies s[j] != c by {
            if j > 0 {
                assert(s.drop_first()[j - 1] != c);
            }
        }
        i + 1
    }
}

/// The part after the last `c` ends the text and reaches back to that `c`, or to the start
/// where there is none; no other part does.
pub proof fn law_part_after(s: Seq<char>, part: Seq<char>, c: char)
    ensures
        ends_after(s, part, c) <==> part == after_last(s, c),
{
    let i = lemma_last_index_bound(s, c);
    lemma_after_last_at(s, c, i);
    assert(ends_after(s, after_last(s, c), c));
    if ends_after(s, part, c) {
        let start = s.len() - part.len();
        lemma_after_last_at(s, c, start);
        assert(part =~= s.skip(start));
    }
}

proof fn lemma_last_index_bound(s: Seq<char>, c: char) -> (i: int)
    ensures
        0 <= i <= s.len(),
        forall|j: int| i <= j < s.len() ==> s[j] != c,
        i > 0 ==> s[i - 1] == c,
    decreases s.len(),
{
    if s.len() == 0 || s.last() == c {
        s.len() as int
    } else {
        let i = lemma_last_index_bound(s.drop_last(), c);
        assert forall|j: int| i <= j < s.len() implies s[j] != c by {
            if j < s.len() - 1 {
                assert(s.drop_last()[j] != c);
            }
        }
        i
    }
}

/// A prefix is stripped exactly where the text is that prefix and a rest, and the rest is
/// what is left.
pub proof fn law_stripping_leaves_the_rest(s: Seq<char>, prefix: Seq<char>, rest: Seq<char>)
    ensures
        stripped_prefix(s, prefix) == Some(rest) <==> s == prefix + rest,
{
    if s == prefix + rest {
        assert(prefix =~= s.subrange(0, prefix.len() as int));
        assert(s.skip(prefix.len() as int) =~= rest);
    }
    if stripped_prefix(s, prefix) == Some(rest) {
        assert(s =~= prefix + rest);
    }
}

} // verus!
