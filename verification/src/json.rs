//! JSON values as the webhook handler sees them, and the two JSON texts that
//! the channel reads and writes itself.
use crate::decimal::{decimal_int, format_i64, format_u64};
use crate::hexadecimal::hex_digit;
use crate::relation::{has_member, has_text};
use crate::text::{opt_text, same_text, str_view};
use vstd::prelude::*;

verus! {

/// A JSON number.
#[derive(Debug)]
pub enum JsonNumber {
    /// A whole number from 0 up.
    Unsigned(u64),
    /// A whole number.
    Signed(i64),
    /// A number with a fraction or an exponent, as the text that writes it.
    Float(String),
}

/// A JSON value. Where a key stands in an object more than once, its last
/// member counts.
#[derive(Debug)]
pub enum JsonValue {
    Null,
    Bool(bool),
    Number(JsonNumber),
    String(String),
    Array(Vec<JsonValue>),
    Object(Vec<(String, JsonValue)>),
}

/// The mathematical number behind a `JsonNumber`.
pub enum Number {
    Integer(int),
    Float(Seq<char>),
}

/// The mathematical value behind a `JsonValue`.
pub enum Json {
    Null,
    Bool(bool),
    Number(Number),
    Text(Seq<char>),
    Array(Seq<Json>),
    Object(Map<Seq<char>, Json>),
}

impl View for JsonNumber {
    type V = Number;

    open spec fn view(&self) -> Number {
        match *self {
            JsonNumber::Unsigned(n) => Number::Integer(n as int),
            JsonNumber::Signed(n) => Number::Integer(n as int),
            JsonNumber::Float(text) => Number::Float(text@),
        }
    }
}

impl View for JsonValue {
    type V = Json;

    open spec fn view(&self) -> Json {
        json_of(*self)
    }
}

/// The mathematical value of `value`.
pub open spec fn json_of(value: JsonValue) -> Json
    decreases value,
{
    match value {
        JsonValue::Null => Json::Null,
        JsonValue::Bool(b) => Json::Bool(b),
        JsonValue::Number(n) => Json::Number(n@),
        JsonValue::String(s) => Json::Text(s@),
        JsonValue::Array(items) => Json::Array(items_of(items@)),
        JsonValue::Object(members) => Json::Object(members_of(members@)),
    }
}

/// The mathematical values of `items`, in order.
pub open spec fn items_of(items: Seq<JsonValue>) -> Seq<Json>
    decreases items,
{
    if items.len() == 0 {
        seq![]
    } else {
        items_of(items.drop_last()).push(json_of(items.last()))
    }
}

/// The mapping that `members` makes when they are put into it one after another.
pub open spec fn members_of(members: Seq<(String, JsonValue)>) -> Map<Seq<char>, Json>
    decreases members,
{
    if members.len() == 0 {
        Map::empty()
    } else {
        members_of(members.drop_last()).insert(members.last().0@, json_of(members.last().1))
    }
}

/// The member `key` of `value`, where `value` is an object that has it.
pub open spec fn member(value: Json, key: Seq<char>) -> Option<Json> {
    match value {
        Json::Object(members) => if members.contains_key(key) {
            Some(members[key])
        } else {
            None
        },
        _ => None,
    }
}

/// The text of `value`, where it is there and is a string.
pub open spec fn as_text(value: Option<Json>) -> Option<Seq<char>> {
    match value {
        Some(Json::Text(s)) => Some(s),
        _ => None,
    }
}

/// The text of the member `key` of `value`, where it has one that is a string.
pub open spec fn text_member(value: Json, key: Seq<char>) -> Option<Seq<char>> {
    as_text(member(value, key))
}

/// `value` as text, where it is there and is a string or a number.
pub open spec fn scalar_text(value: Option<Json>) -> Option<Seq<char>> {
    match value {
        Some(Json::Text(s)) => Some(s),
        Some(Json::Number(Number::Integer(n))) => Some(decimal_int(n)),
        Some(Json::Number(Number::Float(text))) => Some(text),
        _ => None,
    }
}

/// `n` as a `u64`, where it is a whole number in range.
pub open spec fn number_as_u64(n: Number) -> Option<u64> {
    match n {
        Number::Integer(i) => if 0 <= i <= u64::MAX {
            Some(i as u64)
        } else {
            None
        },
        Number::Float(_) => None,
    }
}

proof fn lemma_members_at(members: Seq<(String, JsonValue)>, key: Seq<char>, i: int)
    requires
        0 <= i < members.len(),
        members[i].0@ == key,
        forall|j: int| i < j < members.len() ==> (#[trigger] members[j]).0@ != key,
    ensures
        members_of(members).contains_key(key),
        members_of(members)[key] == members[i].1@,
    decreases members.len(),
{
    if i < members.len() - 1 {
        assert(members[members.len() - 1].0@ != key);
        lemma_members_at(members.drop_last(), key, i);
    }
}

proof fn lemma_members_without(members: Seq<(String, JsonValue)>, key: Seq<char>)
    requires
        forall|j: int| 0 <= j < members.len() ==> (#[trigger] members[j]).0@ != key,
    ensures
        !members_of(members).contains_key(key),
    decreases members.len(),
{
    if members.len() > 0 {
        assert(members[members.len() - 1].0@ != key);
        lemma_members_without(members.drop_last(), key);
    }
}

impl JsonNumber {
    /// The number as a `u64`, where it is a whole number in range.
    pub fn as_u64(&self) -> (r: Option<u64>)
        ensures
            r == number_as_u64(self@),
    {
        match self {
            JsonNumber::Unsigned(n) => Some(*n),
            JsonNumber::Signed(n) => if *n >= 0 {
                Some(*n as u64)
            } else {
                None
            },
            JsonNumber::Float(_) => None,
        }
    }

    /// The number as JSON writes it.
    pub fn to_text(&self) -> (r: String)
        ensures
            Some(r@) == scalar_text(Some(Json::Number(self@))),
    {
        match self {
            JsonNumber::Unsigned(n) => format_u64(*n),
            JsonNumber::Signed(n) => format_i64(*n),
            JsonNumber::Float(text) => text.clone(),
        }
    }
}

impl JsonValue {
    /// The member `key`, where the value is an object that has it.
    pub fn get(&self, key: &str) -> (r: Option<&JsonValue>)
        ensures
            match r {
                Some(value) => member(self@, key@) == Some(value@),
                None => member(self@, key@) is None,
            },
    {
        match self {
            JsonValue::Object(members) => {
                let mut i: usize = members.len();
                while i > 0
                    invariant
                        i <= members.len(),
                        self@ == Json::Object(members_of(members@)),
                        forall|j: int|
                            i <= j < members.len() ==> (#[trigger] members@[j]).0@ != key@,
                    decreases i,
                {
                    i = i - 1;
                    if same_text(members[i].0.as_str(), key) {
                        proof {
                            lemma_members_at(members@, key@, i as int);
                        }
                        return Some(&members[i].1);
                    }
                }
                proof {
                    lemma_members_without(members@, key@);
                }
                None
            },
            _ => None,
        }
    }

    /// The text of the value, where it is a string.
    pub fn as_str(&self) -> (r: Option<&str>)
        ensures
            str_view(r) == as_text(Some(self@)),
    {
        match self {
            JsonValue::String(s) => Some(s.as_str()),
            _ => None,
        }
    }

    /// The text of the member `key`, where the value is an object that has one
    /// and it is a string.
    pub fn get_str(&self, key: &str) -> (r: Option<&str>)
        ensures
            str_view(r) == text_member(self@, key@),
    {
        match self.get(key) {
            Some(value) => value.as_str(),
            None => None,
        }
    }
}

/// What the JSON text `text` holds as its string member `key`: `None` where `serde_json`
/// does not take `text` for JSON, `Some(None)` where it is JSON without such a member.
pub uninterp spec fn json_text_member(text: Seq<char>, key: Seq<char>) -> Option<
    Option<Seq<char>>,
>;

/// The error of `serde_json::from_str`.
#[verifier::external_type_specification]
#[verifier::external_body]
pub struct ExJsonError(serde_json::Error);

/// `serde_json::from_str` into a `serde_json::Value`, of which `Value::get` and
/// `Value::as_str` then pick the string member `key`. It fails where `text` is no JSON,
/// or is nested too deeply or has a number out of range; text and key alone determine
/// the outcome.
#[verifier::external_body]
pub(crate) fn read_text_member(text: &str, key: &str) -> (member: Result<
    Option<String>,
    serde_json::Error,
>)
    ensures
        match member {
            Ok(found) => json_text_member(text@, key@) == Some(opt_text(found)),
            Err(_) => json_text_member(text@, key@) is None,
        },
{
    let value = serde_json::from_str::<serde_json::Value>(text)?;
    Ok(value.get(key).and_then(serde_json::Value::as_str).map(str::to_owned))
}

/// `c` as it stands inside a JSON string.
pub open spec fn json_escaped(c: char) -> Seq<char> {
    if c == '"' {
        seq!['\\', '"']
    } else if c == '\\' {
        seq!['\\', '\\']
    } else if c == '\u{8}' {
        seq!['\\', 'b']
    } else if c == '\u{9}' {
        seq!['\\', 't']
    } else if c == '\u{a}' {
        seq!['\\', 'n']
    } else if c == '\u{c}' {
        seq!['\\', 'f']
    } else if c == '\u{d}' {
        seq!['\\', 'r']
    } else if c <= '\u{1f}' {
        seq!['\\', 'u', '0', '0', hex_digit(c as int / 16), hex_digit(c as int % 16)]
    } else {
        seq![c]
    }
}

/// `s` as a JSON string, quotes included.
pub open spec fn json_quoted(s: Seq<char>) -> Seq<char> {
    seq!['"'] + s.map_values(|c: char| json_escaped(c)).flatten() + seq!['"']
}

/// The JSON object whose one member is the string `text` under `key`.
pub open spec fn json_object(key: Seq<char>, text: Seq<char>) -> Seq<char> {
    seq!['{'] + json_quoted(key) + seq![':'] + json_quoted(text) + seq!['}']
}

proof fn lemma_escapes_are_told_apart(c: char, d: char, x: Seq<char>, y: Seq<char>)
    requires
        json_escaped(c) + x == json_escaped(d) + y,
    ensures
        c == d,
        x == y,
{
    let ec = json_escaped(c);
    let ed = json_escaped(d);
    let whole = ec + x;
    assert(whole[0] == ec[0] && (ed + y)[0] == ed[0]);
    if ec.len() > 1 {
        assert(whole[1] == ec[1]);
    }
    if ed.len() > 1 {
        assert((ed + y)[1] == ed[1]);
    }
    if ec.len() == 6 && ed.len() == 6 {
        assert(whole[4] == ec[4] && (ed + y)[4] == ed[4]);
        assert(whole[5] == ec[5] && (ed + y)[5] == ed[5]);
    }
    assert(c == d);
    assert(x =~= whole.skip(ec.len() as int));
    assert(y =~= (ed + y).skip(ed.len() as int));
}

proof fn lemma_escaping_is_injective(a: Seq<char>, b: Seq<char>)
    requires
        a.map_values(|c: char| json_escaped(c)).flatten() == b.map_values(
            |c: char| json_escaped(c),
        ).flatten(),
    ensures
        a == b,
    decreases a.len(),
{
    let f = |c: char| json_escaped(c);
    let ma = a.map_values(f);
    let mb = b.map_values(f);
    if a.len() > 0 {
        assert(ma.first() == json_escaped(a[0]));
        assert(ma.flatten().len() > 0);
        assert(ma.drop_first() =~= a.drop_first().map_values(f));
    }
    if b.len() > 0 {
        assert(mb.first() == json_escaped(b[0]));
        assert(mb.flatten().len() > 0);
        assert(mb.drop_first() =~= b.drop_first().map_values(f));
    }
    if a.len() > 0 && b.len() > 0 {
        lemma_escapes_are_told_apart(
            a[0],
            b[0],
            ma.drop_first().flatten(),
            mb.drop_first().flatten(),
        );
        lemma_escaping_is_injective(a.drop_first(), b.drop_first());
        assert(a =~= seq![a[0]] + a.drop_first());
        assert(b =~= seq![b[0]] + b.drop_first());
    } else {
        assert(a =~= b);
    }
}

/// A JSON object carries its text unaltered: different texts under one key make different
/// objects.
pub proof fn law_objects_carry_their_text(key: Seq<char>, a: Seq<char>, b: Seq<char>)
    requires
        json_object(key, a) == json_object(key, b),
    ensures
        a == b,
{
    let f = |c: char| json_escaped(c);
    let ea = a.map_values(f).flatten();
    let eb = b.map_values(f).flatten();
    let head = seq!['{'] + json_quoted(key) + seq![':', '"'];
    assert(json_object(key, a) =~= head + ea + seq!['"', '}']);
    assert(json_object(key, b) =~= head + eb + seq!['"', '}']);
    let end = json_object(key, a).len() - 2;
    assert(ea =~= json_object(key, a).subrange(head.len() as int, end));
    assert(eb =~= json_object(key, b).subrange(head.len() as int, end));
    lemma_escaping_is_injective(a, b);
}

/// `serde_json::to_string` of an object with one string member, which does not fail:
/// the compact text, in which quotes, backslashes and control characters are escaped.
#[verifier::external_body]
pub(crate) fn write_object(key: &str, text: &str) -> (body: String)
    ensures
        body@ == json_object(key@, text@),
{
    let mut members = serde_json::Map::new();
    members.insert(key.to_string(), serde_json::Value::String(text.to_string()));
    serde_json::to_string(&serde_json::Value::Object(members)).expect("an object of strings")
}

/// A JSON string is written character by character, between quotes: a quote and a backslash
/// are put behind a backslash, the control characters that have a letter are a backslash
/// and that letter, the others `\u` and four digits, and all else stands as it is.
pub proof fn law_strings_are_written_character_by_character(s: Seq<char>, c: char)
    ensures
        json_quoted(seq![]) == seq!['"', '"'],
        json_quoted(s.push(c)) == json_quoted(s).drop_last() + (if c == '"' || c == '\\' {
            seq!['\\', c]
        } else if c == '\n' {
            seq!['\\', 'n']
        } else if c == '\r' {
            seq!['\\', 'r']
        } else if c == '\t' {
            seq!['\\', 't']
        } else if c == '\u{8}' {
            seq!['\\', 'b']
        } else if c == '\u{c}' {
            seq!['\\', 'f']
        } else if c <= '\u{1f}' {
            seq![
                '\\',
                'u',
                '0',
                '0',
                "0123456789abcdef"@[c as int / 16],
                "0123456789abcdef"@[c as int % 16],
            ]
        } else {
            seq![c]
        }).push('"'),
{
    reveal_strlit("0123456789abcdef");
    let f = |c: char| json_escaped(c);
    let none = Seq::<char>::empty();
    assert(none.map_values(f) =~= Seq::<Seq<char>>::empty());
    assert(json_quoted(none) =~= seq!['"', '"']);
    let parts = s.map_values(f);
    assert(s.push(c).map_values(f) =~= parts + seq![json_escaped(c)]);
    parts.lemma_flatten_push(json_escaped(c));
    assert(parts.push(json_escaped(c)) =~= parts + seq![json_escaped(c)]);
    assert(json_quoted(s.push(c)) =~= json_quoted(s).drop_last() + json_escaped(c).push('"'));
}

/// An object with one string member is that member between braces: the key and the text as
/// JSON strings, and a colon between them.
pub proof fn law_objects_hold_key_and_text(key: Seq<char>, text: Seq<char>)
    ensures
        json_object(key, text) == seq!['{'] + (json_quoted(key) + (seq![':'] + (json_quoted(text)
            + seq!['}']))),
{
}

/// Text without quotes, backslashes and control characters stands in a JSON string as it is.
pub proof fn law_plain_text_stands_as_it_is(s: Seq<char>)
    requires
        forall|i: int|
            0 <= i < s.len() ==> #[trigger] s[i] != '"' && s[i] != '\\' && s[i] > '\u{1f}',
    ensures
        json_quoted(s) == seq!['"'] + s + seq!['"'],
    decreases s.len(),
{
    if s.len() == 0 {
        law_strings_are_written_character_by_character(s, ' ');
        assert(s =~= seq![]);
        assert(json_quoted(s) =~= seq!['"'] + s + seq!['"']);
    } else {
        let init = s.drop_last();
        assert forall|i: int| 0 <= i < init.len() implies #[trigger] init[i] != '"' && init[i]
            != '\\' && init[i] > '\u{1f}' by {
            assert(init[i] == s[i]);
        }
        law_plain_text_stands_as_it_is(init);
        assert(s[s.len() - 1] == s.last());
        law_strings_are_written_character_by_character(init, s.last());
        assert(init.push(s.last()) =~= s);
        assert(json_quoted(s) =~= seq!['"'] + s + seq!['"']);
    }
}

/// A value means what it holds: a string its text, whole numbers their value, and an object
/// the last member under each of its keys and no other.
pub proof fn law_values_mean_what_they_hold(
    text: String,
    unsigned: u64,
    signed: i64,
    members: Vec<(String, JsonValue)>,
    key: Seq<char>,
)
    ensures
        JsonValue::String(text)@ == Json::Text(text@),
        JsonValue::Number(JsonNumber::Unsigned(unsigned))@ == Json::Number(
            Number::Integer(unsigned as int),
        ),
        JsonValue::Number(JsonNumber::Signed(signed))@ == Json::Number(
            Number::Integer(signed as int),
        ),
        JsonValue::Number(JsonNumber::Float(text))@ == Json::Number(Number::Float(text@)),
        forall|i: int|
            0 <= i < members.len() && (#[trigger] members[i]).0@ == key && (forall|j: int|
                i < j < members.len() ==> (#[trigger] members[j]).0@ != key) ==> has_member(
                JsonValue::Object(members)@,
                key,
                members[i].1@,
            ),
        forall|found: Json| #[trigger]
            has_member(JsonValue::Object(members)@, key, found) ==> exists|i: int|
                0 <= i < members.len() && (#[trigger] members[i]).0@ == key,
        forall|found: Json|
            !#[trigger] has_member(JsonValue::Null@, key, found) && !has_member(
                JsonValue::String(text)@,
                key,
                found,
            ),
{
    assert forall|i: int|
        0 <= i < members.len() && (#[trigger] members[i]).0@ == key && (forall|j: int|
            i < j < members.len() ==> (#[trigger] members[j]).0@ != key) implies has_member(
        JsonValue::Object(members)@,
        key,
        members[i].1@,
    ) by {
        lemma_members_at(members@, key, i);
    }
    if forall|i: int| 0 <= i < members.len() ==> (#[trigger] members[i]).0@ != key {
        lemma_members_without(members@, key);
    }
}

/// The member that `get` finds, and the text that `get_str` and `as_str` find, are those that
/// the value has; nothing is found exactly where it has none.
pub proof fn law_members_are_found(
    value: &JsonValue,
    key: &str,
    found: Option<&JsonValue>,
    text: Option<&str>,
)
    requires
        call_ensures(JsonValue::get, (value, key), found),
        call_ensures(JsonValue::get_str, (value, key), text),
    ensures
        match found {
            Some(member) => has_member(value@, key@, member@),
            None => forall|any: Json| !#[trigger] has_member(value@, key@, any),
        },
        match text {
            Some(text) => has_text(value@, key@, text@),
            None => forall|any: Seq<char>| !#[trigger] has_text(value@, key@, any),
        },
{
}

/// An identifier is the text of a string as it is, and a number as it is written; no other
/// value makes one.
pub proof fn law_scalars_as_text(value: Json, text: Seq<char>, n: int)
    ensures
        scalar_text(Some(Json::Text(text))) == Some(text),
        scalar_text(Some(Json::Number(Number::Float(text)))) == Some(text),
        scalar_text(Some(Json::Number(Number::Integer(n)))) == Some(decimal_int(n)),
        scalar_text(Some(value)) is Some <==> value is Text || value is Number,
        scalar_text(None) is None,
{
}

} // verus!
