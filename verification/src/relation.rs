//! Relations between texts, JSON values and lists, in which the laws are stated.
//!
//! They say how two values are related, not how one is computed from the other.
use crate::json::Json;
use crate::text::white_space;
use vstd::prelude::*;

verus! {

/// `s` is white space throughout, or empty.
pub open spec fn blank(s: Seq<char>) -> bool {
    forall|i: int| 0 <= i < s.len() ==> white_space(#[trigger] s[i])
}

/// `s` is there, and neither starts nor ends with white space.
pub open spec fn solid(s: Seq<char>) -> bool {
    s.len() > 0 && !white_space(s[0]) && !white_space(s[s.len() - 1])
}

/// `s` is `before`, `inner` and `after`, one after another.
pub open spec fn in_three(
    s: Seq<char>,
    before: Seq<char>,
    inner: Seq<char>,
    after: Seq<char>,
) -> bool {
    s == before + inner + after
}

/// `s` is the solid text `inner` with white space around it, or with none.
pub open spec fn pads(s: Seq<char>, inner: Seq<char>) -> bool {
    solid(inner) && exists|before: Seq<char>, after: Seq<char>| #[trigger]
        in_three(s, before, inner, after) && blank(before) && blank(after)
}

/// `c` and `d` are one character, or the two forms of one ASCII letter.
pub open spec fn same_letter(c: char, d: char) -> bool {
    ||| c == d
    ||| 'A' <= c <= 'Z' && d as int == c as int + 32
    ||| 'A' <= d <= 'Z' && c as int == d as int + 32
}

/// `a` and `b` agree letter by letter, whatever the case of ASCII letters.
pub open spec fn same_letters(a: Seq<char>, b: Seq<char>) -> bool {
    a.len() == b.len() && forall|i: int|
        0 <= i < a.len() ==> same_letter(#[trigger] a[i], b[i])
}

/// `s` starts with `part`, and either that is all or `c` follows; there is no `c` in `part`.
pub open spec fn starts_up_to(s: Seq<char>, part: Seq<char>, c: char) -> bool {
    &&& part.len() <= s.len()
    &&& forall|i: int| 0 <= i < part.len() ==> part[i] == #[trigger] s[i] && s[i] != c
    &&& part.len() < s.len() ==> s[part.len() as int] == c
}

/// `s` ends with `part`, and either that is all or `c` precedes; there is no `c` in `part`.
pub open spec fn ends_after(s: Seq<char>, part: Seq<char>, c: char) -> bool {
    let start = s.len() - part.len();
    &&& 0 <= start
    &&& forall|i: int| start <= i < s.len() ==> part[i - start] == #[trigger] s[i] && s[i] != c
    &&& 0 < start ==> s[start - 1] == c
}

/// `value` is an object whose member `key` is `found`.
pub open spec fn has_member(value: Json, key: Seq<char>, found: Json) -> bool {
    value matches Json::Object(members) && members.contains_key(key) && members[key] == found
}

/// `value` is an object whose member `key` is the string `text`.
pub open spec fn has_text(value: Json, key: Seq<char>, text: Seq<char>) -> bool {
    has_member(value, key, Json::Text(text))
}

/// `value` has a member `outer` whose member `inner` is the string `text`.
pub open spec fn has_inner_text(
    value: Json,
    outer: Seq<char>,
    inner: Seq<char>,
    text: Seq<char>,
) -> bool {
    exists|middle: Json| #[trigger]
        has_member(value, outer, middle) && has_text(middle, inner, text)
}

/// `actor` is an entry of `users`, or `*` is one.
pub open spec fn lists(users: Seq<Seq<char>>, actor: Seq<char>) -> bool {
    exists|i: int| 0 <= i < users.len() && (#[trigger] users[i] == actor || users[i] == "*"@)
}

} // verus!
