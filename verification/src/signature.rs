//! HMAC-SHA256 signatures of bot requests and of incoming webhooks.
use crate::hexadecimal::{
    decode_hex, encode_hex, hex_decoded, hex_encoded, hex_value, law_digit_case_does_not_count,
    law_hex_decodes_back, law_notation_is_unique, law_only_notation_is_decoded,
};
use crate::relation::{blank, pads, same_letters};
use crate::text::{
    concat, law_stripping_leaves_the_rest, law_trimming_keeps_solid_text,
    law_trimming_takes_only_white_space, lemma_trimmed_end_of_concat, lemma_trimmed_fixed,
    lemma_trimmed_of_trimmed_end, same_ignoring_ascii_case, strip_prefix, stripped_prefix, trim,
    trimmed, trimmed_end, white_space,
};
use hmac::{Hmac, Mac};
use sha2::Sha256;
use vstd::prelude::*;
use vstd::utf8::encode_utf8;

verus! {

/// The HMAC-SHA256 of `data` under `key`.
pub uninterp spec fn hmac_sha256_tag(key: Seq<u8>, data: Seq<u8>) -> Seq<u8>;

/// HMAC-SHA256 by way of the `hmac` and `sha2` crates: `Hmac::<Sha256>::new_from_slice`
/// (which takes a key of any length), `update` and `finalize`. Key and data alone
/// determine the tag, which has 32 bytes.
#[verifier::external_body]
fn hmac_sha256(key: &[u8], data: &[u8]) -> (tag: Vec<u8>)
    ensures
        tag@ == hmac_sha256_tag(key@, data@),
        tag@.len() == 32,
{
    let mut mac = Hmac::<Sha256>::new_from_slice(key).expect("HMAC-SHA256 accepts any key length");
    mac.update(data);
    mac.finalize().into_bytes().to_vec()
}

/// `Mac::verify_slice` of an `Hmac::<Sha256>` with that key and data: compares `tag`
/// with the computed one in constant time, and succeeds where they are the same bytes,
/// which are 32.
#[verifier::external_body]
fn hmac_sha256_accepts(key: &[u8], data: &[u8], tag: &[u8]) -> (accepted: bool)
    ensures
        accepted == (tag@ == hmac_sha256_tag(key@, data@)),
        accepted ==> tag@.len() == 32,
{
    let mut mac = Hmac::<Sha256>::new_from_slice(key).expect("HMAC-SHA256 accepts any key length");
    mac.update(data);
    mac.verify_slice(tag).is_ok()
}

/// The tag of the text `random + body` under the key `secret`.
pub open spec fn request_tag(secret: Seq<char>, random: Seq<char>, body: Seq<char>) -> Seq<u8> {
    hmac_sha256_tag(encode_utf8(secret), encode_utf8(random + body))
}

/// The signature of a request: `hex(hmac_sha256(secret, random + body))`.
pub open spec fn request_signature(
    secret: Seq<char>,
    random: Seq<char>,
    body: Seq<char>,
) -> Seq<char> {
    hex_encoded(request_tag(secret, random, body))
}

/// The digits of a signature header: white space around it and a `sha256=` in
/// front of it do not count.
pub open spec fn signature_digits(signature: Seq<char>) -> Seq<char> {
    match stripped_prefix(trimmed(signature), "sha256="@) {
        Some(rest) => trimmed(rest),
        None => trimmed(signature),
    }
}

/// A webhook with these headers and this body was signed with `secret`.
pub open spec fn signature_valid(
    secret: Seq<char>,
    random: Seq<char>,
    body: Seq<char>,
    signature: Seq<char>,
) -> bool {
    &&& trimmed(random).len() > 0
    &&& hex_decoded(signature_digits(signature)) == Some(
        request_tag(secret, trimmed(random), body),
    )
}

/// The HMAC-SHA256 signature of a bot request, `hex(hmac_sha256(secret, random + body))`.
pub(crate) fn sign(secret: &str, random: &str, body: &str) -> (signature: String)
    ensures
        signature@ == request_signature(secret@, random@, body@),
        signature@ == hex_encoded(
            hmac_sha256_tag(encode_utf8(secret@), encode_utf8(random@ + body@)),
        ),
        signature@.len() == 64,
{
    let payload = concat(random, body);
    let tag = hmac_sha256(secret.as_bytes(), payload.as_str().as_bytes());
    encode_hex(tag.as_slice())
}

/// Verifies the signature of a Nextcloud Talk webhook.
///
/// The signature is `hex(hmac_sha256(secret, X-Nextcloud-Talk-Random + raw_body))`,
/// with or without `sha256=` in front. A blank random value is never accepted, nor is a
/// signature of other than 64 digits.
pub fn verify_nextcloud_talk_signature(
    secret: &str,
    random: &str,
    body: &str,
    signature: &str,
) -> (valid: bool)
    ensures
        valid == signature_valid(secret@, random@, body@, signature@),
        valid <==> trimmed(random@).len() > 0 && hex_decoded(signature_digits(signature@)) == Some(
            hmac_sha256_tag(encode_utf8(secret@), encode_utf8(trimmed(random@) + body@)),
        ),
        valid ==> signature_digits(signature@).len() == 64,
{
    let random = trim(random);
    if random.is_empty() {
        return false;
    }
    let signature_hex = match strip_prefix(trim(signature), "sha256=") {
        Some(rest) => trim(rest),
        None => trim(signature),
    };
    match decode_hex(signature_hex) {
        Ok(provided) => {
            let payload = concat(random, body);
            hmac_sha256_accepts(
                secret.as_bytes(),
                payload.as_str().as_bytes(),
                provided.as_slice(),
            )
        },
        Err(_) => false,
    }
}

proof fn lemma_hex_text_is_plain(bytes: Seq<u8>)
    ensures
        trimmed(hex_encoded(bytes)) == hex_encoded(bytes),
        signature_digits(hex_encoded(bytes)) == hex_encoded(bytes),
{
    let s = hex_encoded(bytes);
    assert forall|i: int| 0 <= i < s.len() implies hex_value(#[trigger] s[i]) is Some
        && !white_space(s[i]) by {}
    lemma_trimmed_fixed(s);
    reveal_strlit("sha256=");
    if "sha256="@.is_prefix_of(s) {
        assert(s.subrange(0, 7)[0] == "sha256="@[0]);
        assert(hex_value(s[0]) is Some);
    }
}

/// A signature made for an outgoing request passes the verification of incoming
/// webhooks, for the same secret, random value and body. It does exactly where the
/// random value is not blank and trimming it leaves the tag as it is, so always
/// where no white space stands around it.
pub proof fn law_signed_request_verifies(secret: Seq<char>, random: Seq<char>, body: Seq<char>)
    ensures
        signature_valid(secret, random, body, request_signature(secret, random, body)) <==> (
        trimmed(random).len() > 0 && request_tag(secret, trimmed(random), body) == request_tag(
            secret,
            random,
            body,
        )),
        random.len() > 0 && trimmed(random) == random ==> signature_valid(
            secret,
            random,
            body,
            request_signature(secret, random, body),
        ),
{
    let tag = request_tag(secret, random, body);
    lemma_hex_text_is_plain(tag);
    law_hex_decodes_back(tag);
}

/// `sha256=` in front of a signature changes nothing, unless the signature starts
/// with `sha256=` already.
pub proof fn law_prefix_is_optional(
    secret: Seq<char>,
    random: Seq<char>,
    body: Seq<char>,
    signature: Seq<char>,
)
    requires
        !"sha256="@.is_prefix_of(trimmed(signature)),
    ensures
        signature_valid(secret, random, body, "sha256="@ + signature) == signature_valid(
            secret,
            random,
            body,
            signature,
        ),
{
    let prefix = "sha256="@;
    let prefixed = prefix + signature;
    reveal_strlit("sha256=");
    lemma_trimmed_end_of_concat(prefix, signature);
    lemma_trimmed_of_trimmed_end(signature);
    assert(prefixed[0] == 's');
    assert(trimmed(prefixed) == prefix + trimmed_end(signature));
    assert(prefix =~= trimmed(prefixed).subrange(0, 7));
    assert(trimmed(prefixed).skip(7) =~= trimmed_end(signature));
}

/// A webhook is accepted exactly where it has a random value and its signature is the
/// one that signing would make, in digits of either letter case.
pub proof fn law_only_the_signature_is_accepted(
    secret: Seq<char>,
    random: Seq<char>,
    body: Seq<char>,
    signature: Seq<char>,
)
    ensures
        signature_valid(secret, random, body, signature) <==> (trimmed(random).len() > 0
            && same_ignoring_ascii_case(
            signature_digits(signature),
            request_signature(secret, trimmed(random), body),
        )),
{
    let digits = signature_digits(signature);
    let tag = request_tag(secret, trimmed(random), body);
    law_hex_decodes_back(tag);
    if hex_decoded(digits) == Some(tag) {
        law_notation_is_unique(digits, hex_encoded(tag));
    }
    if same_ignoring_ascii_case(digits, hex_encoded(tag)) {
        law_digit_case_does_not_count(digits, hex_encoded(tag));
    }
}

/// A webhook without a random value is never accepted.
pub proof fn law_blank_random_is_refused(
    secret: Seq<char>,
    random: Seq<char>,
    body: Seq<char>,
    signature: Seq<char>,
)
    requires
        trimmed(random).len() == 0,
    ensures
        !signature_valid(secret, random, body, signature),
{
}

/// A signature is made with all of the secret, of whatever length, over all of the random
/// value followed by all of the body: it is the notation of the HMAC-SHA256 of the UTF-8
/// bytes of the two texts, under the UTF-8 bytes of the secret.
pub proof fn law_signature_covers_everything(
    secret: Seq<char>,
    random: Seq<char>,
    body: Seq<char>,
)
    ensures
        request_signature(secret, random, body) == hex_encoded(
            hmac_sha256_tag(encode_utf8(secret), encode_utf8(random + body)),
        ),
{
}

/// A webhook is accepted exactly where its signature, with white space around it or none, is
/// the notation of the HMAC-SHA256 of the solid part of the random value followed by all of
/// the body, under all of the secret; and so it is with `sha256=` in front.
pub proof fn law_verification_covers_everything(
    secret: &str,
    random: &str,
    body: &str,
    signature: &str,
    valid: bool,
    nonce: Seq<char>,
    digits: Seq<char>,
    rest: Seq<char>,
)
    requires
        call_ensures(verify_nextcloud_talk_signature, (secret, random, body, signature), valid),
        pads(random@, nonce),
        pads(rest, digits),
        ({
            ||| pads(signature@, digits) && !"sha256="@.is_prefix_of(digits)
            ||| pads(signature@, "sha256="@ + rest)
        }),
    ensures
        valid <==> same_letters(
            digits,
            hex_encoded(hmac_sha256_tag(encode_utf8(secret@), encode_utf8(nonce + body@))),
        ),
{
    let tag = hmac_sha256_tag(encode_utf8(secret@), encode_utf8(nonce + body@));
    law_trimming_keeps_solid_text(random@, nonce);
    law_trimming_keeps_solid_text(rest, digits);
    law_only_notation_is_decoded(digits, tag);
    if pads(signature@, "sha256="@ + rest) {
        law_trimming_keeps_solid_text(signature@, "sha256="@ + rest);
        law_stripping_leaves_the_rest("sha256="@ + rest, "sha256="@, rest);
    } else {
        law_trimming_keeps_solid_text(signature@, digits);
    }
}

/// Without a random value or without digits, a webhook is refused.
pub proof fn law_verification_needs_both(
    secret: &str,
    random: &str,
    body: &str,
    signature: &str,
    valid: bool,
    rest: Seq<char>,
)
    requires
        call_ensures(verify_nextcloud_talk_signature, (secret, random, body, signature), valid),
        blank(random@) || blank(signature@) || (blank(rest) && pads(
            signature@,
            "sha256="@ + rest,
        )),
    ensures
        !valid,
{
    law_trimming_takes_only_white_space(random@);
    law_trimming_takes_only_white_space(signature@);
    law_trimming_takes_only_white_space(rest);
    if blank(random@) {
    } else if blank(signature@) {
        reveal_strlit("sha256=");
        if "sha256="@.is_prefix_of(trimmed(signature@)) {
            assert("sha256="@.len() <= 0);
        }
    } else {
        law_trimming_keeps_solid_text(signature@, "sha256="@ + rest);
        law_stripping_leaves_the_rest("sha256="@ + rest, "sha256="@, rest);
    }
}

} // verus!
