//! URLs of the Nextcloud endpoints.
use crate::text::lemma_before_first_of_join;
use vstd::prelude::*;
use vstd::utf8::{encode_utf8, encode_utf8_decode_utf8};

verus! {

/// A byte that stands for itself in a URL: an ASCII letter or digit, or one of `-._~`.
pub open spec fn unreserved(b: u8) -> bool {
    ||| 0x30 <= b <= 0x39
    ||| 0x41 <= b <= 0x5a
    ||| 0x61 <= b <= 0x7a
    ||| b == 0x2d
    ||| b == 0x2e
    ||| b == 0x5f
    ||| b == 0x7e
}

/// The upper-case hexadecimal digit `d`.
pub open spec fn upper_hex_digit(d: int) -> char {
    if d < 10 {
        ('0' as u32 + d) as char
    } else {
        ('A' as u32 + d - 10) as char
    }
}

/// `b` in a URL: itself, or `%` and two upper-case digits.
pub open spec fn percent_byte(b: u8) -> Seq<char> {
    if unreserved(b) {
        seq![b as char]
    } else {
        seq!['%', upper_hex_digit(b as int / 16), upper_hex_digit(b as int % 16)]
    }
}

/// `bytes` in a URL.
pub open spec fn percent_bytes(bytes: Seq<u8>) -> Seq<char>
    decreases bytes.len(),
{
    if bytes.len() == 0 {
        seq![]
    } else {
        percent_byte(bytes[0]) + percent_bytes(bytes.drop_first())
    }
}

/// `s` as one segment of a URL: its UTF-8 bytes, percent-encoded.
pub open spec fn url_encoded(s: Seq<char>) -> Seq<char> {
    percent_bytes(encode_utf8(s))
}

/// `urlencoding::encode`: percent-encodes every byte of the UTF-8 text except ASCII
/// letters, ASCII digits and `-._~`.
#[verifier::external_body]
pub(crate) fn url_encode(s: &str) -> (encoded: String)
    ensures
        encoded@ == url_encoded(s@),
{
    urlencoding::encode(s).into_owned()
}

/// The endpoint for a bot message to `room`.
pub open spec fn bot_message_url(base_url: Seq<char>, room: Seq<char>) -> Seq<char> {
    base_url + "/ocs/v2.php/apps/spreed/api/v1/bot/"@ + url_encoded(room) + "/message?format=json"@
}

/// The endpoint for a reaction to `message_id` in `room`.
pub open spec fn reaction_url(
    base_url: Seq<char>,
    room: Seq<char>,
    message_id: Seq<char>,
) -> Seq<char> {
    base_url + "/ocs/v2.php/apps/spreed/api/v1/bot/"@ + url_encoded(room) + "/reaction/"@
        + url_encoded(message_id) + "?format=json"@
}

/// The endpoint for a chat message to `room`.
pub open spec fn chat_url(base_url: Seq<char>, room: Seq<char>) -> Seq<char> {
    base_url + "/ocs/v2.php/apps/spreed/api/v1/chat/"@ + url_encoded(room) + "?format=json"@
}

/// The endpoint that tells whether the instance is up.
pub open spec fn status_url(base_url: Seq<char>) -> Seq<char> {
    base_url + "/status.php"@
}

/// The endpoint for a bot message to `room`.
pub(crate) fn make_bot_message_url(base_url: &str, room: &str) -> (url: String)
    ensures
        url@ == bot_message_url(base_url@, room@),
        url@ == base_url@ + ("/ocs/v2.php/apps/spreed/api/v1/bot/"@ + url_encoded(room@)
            + "/message?format=json"@),
{
    let mut url = base_url.to_owned();
    url.append("/ocs/v2.php/apps/spreed/api/v1/bot/");
    url.append(url_encode(room).as_str());
    url.append("/message?format=json");
    url
}

/// The endpoint for a reaction to `message_id` in `room`.
pub(crate) fn make_reaction_url(base_url: &str, room: &str, message_id: &str) -> (url: String)
    ensures
        url@ == reaction_url(base_url@, room@, message_id@),
        url@ == base_url@ + ("/ocs/v2.php/apps/spreed/api/v1/bot/"@ + url_encoded(room@)
            + "/reaction/"@ + url_encoded(message_id@) + "?format=json"@),
{
    let mut url = base_url.to_owned();
    url.append("/ocs/v2.php/apps/spreed/api/v1/bot/");
    url.append(url_encode(room).as_str());
    url.append("/reaction/");
    url.append(url_encode(message_id).as_str());
    url.append("?format=json");
    url
}

/// The endpoint for a chat message to `room`.
pub(crate) fn make_chat_url(base_url: &str, room: &str) -> (url: String)
    ensures
        url@ == chat_url(base_url@, room@),
        url@ == base_url@ + ("/ocs/v2.php/apps/spreed/api/v1/chat/"@ + url_encoded(room@)
            + "?format=json"@),
{
    let mut url = base_url.to_owned();
    url.append("/ocs/v2.php/apps/spreed/api/v1/chat/");
    url.append(url_encode(room).as_str());
    url.append("?format=json");
    url
}

/// The endpoint that tells whether the instance is up.
pub(crate) fn make_status_url(base_url: &str) -> (url: String)
    ensures
        url@ == status_url(base_url@),
{
    let mut url = base_url.to_owned();
    url.append("/status.php");
    url
}

/// A character that an encoded segment may hold.
pub open spec fn segment_char(c: char) -> bool {
    c == '%' || (c <= '\u{7f}' && unreserved(c as u8))
}

proof fn lemma_percent_bytes_are_segment_chars(bytes: Seq<u8>)
    ensures
        forall|i: int|
            0 <= i < percent_bytes(bytes).len() ==> segment_char(
                #[trigger] percent_bytes(bytes)[i],
            ),
    decreases bytes.len(),
{
    if bytes.len() > 0 {
        lemma_percent_bytes_are_segment_chars(bytes.drop_first());
        let head = percent_byte(bytes[0]);
        let tail = percent_bytes(bytes.drop_first());
        assert forall|i: int| 0 <= i < percent_bytes(bytes).len() implies segment_char(
            #[trigger] percent_bytes(bytes)[i],
        ) by {
            if i < head.len() {
                assert(percent_bytes(bytes)[i] == head[i]);
            } else {
                assert(percent_bytes(bytes)[i] == tail[i - head.len()]);
            }
        }
    }
}

/// An encoded room token or message identifier stays within its segment of the URL: no
/// slash, question mark or number sign is left in it.
pub proof fn law_encoded_text_is_one_segment(s: Seq<char>)
    ensures
        forall|i: int|
            0 <= i < url_encoded(s).len() ==> {
                let c = #[trigger] url_encoded(s)[i];
                segment_char(c) && c != '/' && c != '?' && c != '#'
            },
{
    lemma_percent_bytes_are_segment_chars(encode_utf8(s));
}

proof fn lemma_percent_bytes_injective(a: Seq<u8>, b: Seq<u8>)
    requires
        percent_bytes(a) == percent_bytes(b),
    ensures
        a == b,
    decreases a.len(),
{
    if a.len() == 0 || b.len() == 0 {
        if a.len() > 0 {
            assert(percent_bytes(a).len() > 0);
        }
        if b.len() > 0 {
            assert(percent_bytes(b).len() > 0);
        }
        assert(a =~= b);
    } else {
        let ha = percent_byte(a[0]);
        let hb = percent_byte(b[0]);
        let ta = percent_bytes(a.drop_first());
        let tb = percent_bytes(b.drop_first());
        assert(percent_bytes(a)[0] == ha[0]);
        assert(percent_bytes(b)[0] == hb[0]);
        assert(ha.len() == hb.len());
        if ha.len() == 3 {
            assert(percent_bytes(a)[1] == ha[1]);
            assert(percent_bytes(b)[1] == hb[1]);
            assert(percent_bytes(a)[2] == ha[2]);
            assert(percent_bytes(b)[2] == hb[2]);
        }
        assert(a[0] == b[0]);
        assert(ta =~= percent_bytes(a).skip(ha.len() as int));
        assert(tb =~= percent_bytes(b).skip(hb.len() as int));
        lemma_percent_bytes_injective(a.drop_first(), b.drop_first());
        assert(a =~= seq![a[0]] + a.drop_first());
        assert(b =~= seq![b[0]] + b.drop_first());
    }
}

/// Different texts are encoded differently.
pub proof fn law_encoding_is_injective(a: Seq<char>, b: Seq<char>)
    requires
        url_encoded(a) == url_encoded(b),
    ensures
        a == b,
{
    lemma_percent_bytes_injective(encode_utf8(a), encode_utf8(b));
    encode_utf8_decode_utf8(a);
    encode_utf8_decode_utf8(b);
}

proof fn lemma_concat_cancels(left: Seq<char>, a: Seq<char>, b: Seq<char>, right: Seq<char>)
    requires
        left + a + right == left + b + right,
    ensures
        a == b,
{
    let whole = left + a + right;
    let end = whole.len() - right.len();
    assert(a =~= whole.subrange(left.len() as int, end));
    assert(b =~= (left + b + right).subrange(left.len() as int, end));
}

/// Messages to different rooms go to different URLs, and reactions to different messages
/// or rooms do.
pub proof fn law_targets_have_their_own_urls(
    base_url: Seq<char>,
    room: Seq<char>,
    other_room: Seq<char>,
    message_id: Seq<char>,
    other_message_id: Seq<char>,
)
    ensures
        bot_message_url(base_url, room) == bot_message_url(base_url, other_room) ==> room
            == other_room,
        chat_url(base_url, room) == chat_url(base_url, other_room) ==> room == other_room,
        reaction_url(base_url, room, message_id) == reaction_url(
            base_url,
            other_room,
            other_message_id,
        ) ==> room == other_room && message_id == other_message_id,
{
    let bot = base_url + "/ocs/v2.php/apps/spreed/api/v1/bot/"@;
    let chat = base_url + "/ocs/v2.php/apps/spreed/api/v1/chat/"@;
    let er = url_encoded(room);
    let eo = url_encoded(other_room);
    if bot_message_url(base_url, room) == bot_message_url(base_url, other_room) {
        lemma_concat_cancels(bot, er, eo, "/message?format=json"@);
        law_encoding_is_injective(room, other_room);
    }
    if chat_url(base_url, room) == chat_url(base_url, other_room) {
        lemma_concat_cancels(chat, er, eo, "?format=json"@);
        law_encoding_is_injective(room, other_room);
    }
    if reaction_url(base_url, room, message_id) == reaction_url(
        base_url,
        other_room,
        other_message_id,
    ) {
        let em = url_encoded(message_id);
        let ep = url_encoded(other_message_id);
        let path = "/reaction/"@;
        let end = "?format=json"@;
        reveal_strlit("/reaction/");
        assert(bot + er + path + em + end =~= bot + (er + path + em) + end);
        assert(bot + eo + path + ep + end =~= bot + (eo + path + ep) + end);
        lemma_concat_cancels(bot, er + path + em, eo + path + ep, end);
        law_encoded_text_is_one_segment(room);
        law_encoded_text_is_one_segment(other_room);
        let rest = path.drop_first();
        assert(er + path + em =~= er.push('/') + (rest + em));
        assert(eo + path + ep =~= eo.push('/') + (rest + ep));
        lemma_before_first_of_join(er, '/', rest + em);
        lemma_before_first_of_join(eo, '/', rest + ep);
        assert(er == eo);
        law_encoding_is_injective(room, other_room);
        assert(em =~= (er + path + em).skip(er.len() as int + path.len()));
        assert(ep =~= (eo + path + ep).skip(eo.len() as int + path.len()));
        law_encoding_is_injective(message_id, other_message_id);
    }
}

proof fn lemma_percent_bytes_of_concat(a: Seq<u8>, b: Seq<u8>)
    ensures
        percent_bytes(a + b) == percent_bytes(a) + percent_bytes(b),
    decreases a.len(),
{
    if a.len() == 0 {
        assert(a + b =~= b);
        assert(percent_bytes(a) + percent_bytes(b) =~= percent_bytes(b));
    } else {
        lemma_percent_bytes_of_concat(a.drop_first(), b);
        assert((a + b).drop_first() =~= a.drop_first() + b);
        assert(percent_byte(a[0]) + (percent_bytes(a.drop_first()) + percent_bytes(b)) =~= (
        percent_byte(a[0]) + percent_bytes(a.drop_first())) + percent_bytes(b));
    }
}

/// Text is encoded byte by byte, in order and completely: where its bytes are those of two
/// parts, one after the other, so is its encoding. A byte that is an ASCII letter or digit
/// or one of `-._~` stands for itself; every other one is `%` and its two digits.
pub proof fn law_encoding_goes_byte_by_byte(s: Seq<char>, a: Seq<u8>, byte: u8, b: Seq<u8>)
    requires
        encode_utf8(s) == a + seq![byte] + b,
    ensures
        url_encoded(s) == percent_bytes(a) + percent_bytes(seq![byte]) + percent_bytes(b),
        percent_bytes(seq![byte]) == (if "-._~"@.contains(byte as char) || '0' <= byte as char
            <= '9' || 'A' <= byte as char <= 'Z' || 'a' <= byte as char <= 'z' {
            seq![byte as char]
        } else {
            seq![
                '%',
                "0123456789ABCDEF"@[byte as int / 16],
                "0123456789ABCDEF"@[byte as int % 16],
            ]
        }),
        percent_bytes(seq![]) == Seq::<char>::empty(),
{
    lemma_percent_bytes_of_concat(a + seq![byte], b);
    lemma_percent_bytes_of_concat(a, seq![byte]);
    reveal_strlit("-._~");
    reveal_strlit("0123456789ABCDEF");
    reveal_with_fuel(percent_bytes, 2);
    assert(seq![byte].drop_first() =~= seq![]);
    assert(percent_bytes(seq![byte]) =~= percent_byte(byte));
    let marks = "-._~"@;
    assert(marks[0] == '-' && marks[1] == '.' && marks[2] == '_' && marks[3] == '~');
    assert(marks.contains(byte as char) <==> byte == 0x2d || byte == 0x2e || byte == 0x5f || byte
        == 0x7e);
}

/// Where there is no text, there is nothing to encode.
pub proof fn law_no_text_is_encoded_as_none(s: Seq<char>)
    ensures
        url_encoded(s).len() == 0 <==> s.len() == 0,
{
    assert(encode_utf8(seq![]) =~= seq![]);
    if s.len() == 0 {
        assert(s =~= seq![]);
    }
    if url_encoded(s).len() == 0 {
        assert(url_encoded(s) =~= url_encoded(seq![]));
        law_encoding_is_injective(s, seq![]);
    }
}

} // verus!
