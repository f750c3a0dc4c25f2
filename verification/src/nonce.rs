//! Random identifiers.
use vstd::prelude::*;

verus! {

/// A lower-case hexadecimal digit.
pub open spec fn lower_hex(c: char) -> bool {
    '0' <= c <= '9' || 'a' <= c <= 'f'
}

/// The hyphenated lower-case text of a version 4 UUID,
/// `xxxxxxxx-xxxx-4xxx-yxxx-xxxxxxxxxxxx` with a `y` from `8` to `b`.
pub open spec fn uuid_v4_text(s: Seq<char>) -> bool {
    &&& s.len() == 36
    &&& forall|i: int|
        0 <= i < 36 ==> if i == 8 || i == 13 || i == 18 || i == 23 {
            #[trigger] s[i] == '-'
        } else {
            lower_hex(s[i])
        }
    &&& s[14] == '4'
    &&& (s[19] == '8' || s[19] == '9' || s[19] == 'a' || s[19] == 'b')
}

/// `Uuid::new_v4` of the `uuid` crate, as the text that its `to_string` gives: the
/// hyphenated form of a random version 4 UUID. Which one it is, is left to chance. It
/// panics where the system has no random bytes to give, which no argument decides.
#[verifier::external_body]
pub(crate) fn new_uuid() -> (text: String)
    ensures
        uuid_v4_text(text@),
{
    uuid::Uuid::new_v4().to_string()
}

} // verus!
