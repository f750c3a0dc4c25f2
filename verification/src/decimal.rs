//! Whole numbers in decimal notation.
use crate::text::chars_of;
use vstd::prelude::*;

verus! {

/// The character of the decimal digit `d`.
pub open spec fn digit_char(d: int) -> char {
    ('0' as u32 + d) as char
}

/// `n` in decimal notation, without leading zeros.
pub open spec fn decimal(n: nat) -> Seq<char>
    decreases n,
{
    if n < 10 {
        seq![digit_char(n as int)]
    } else {
        decimal(n / 10).push(digit_char((n % 10) as int))
    }
}

/// `n` in decimal notation, with a leading minus sign where it is negative.
pub open spec fn decimal_int(n: int) -> Seq<char> {
    if n < 0 {
        seq!['-'] + decimal((-n) as nat)
    } else {
        decimal(n as nat)
    }
}

/// `s` consists of the digits `0` to `9`.
pub open spec fn all_digits(s: Seq<char>) -> bool {
    forall|i: int| 0 <= i < s.len() ==> '0' <= #[trigger] s[i] <= '9'
}

/// The number that the digits `s` write.
pub open spec fn digits_value(s: Seq<char>) -> nat
    decreases s.len(),
{
    if s.len() == 0 {
        0
    } else {
        (10 * digits_value(s.drop_last()) + (s.last() as u32 - '0' as u32)) as nat
    }
}

/// `s` without the plus sign it may start with.
pub open spec fn without_plus(s: Seq<char>) -> Seq<char> {
    if s.len() > 0 && s[0] == '+' {
        s.drop_first()
    } else {
        s
    }
}

/// The `u64` that `s` writes: an optional plus sign, then one or more digits, within range.
pub open spec fn parsed_u64(s: Seq<char>) -> Option<u64> {
    let digits = without_plus(s);
    if digits.len() > 0 && all_digits(digits) && digits_value(digits) <= u64::MAX {
        Some(digits_value(digits) as u64)
    } else {
        None
    }
}

proof fn lemma_digits_value_of_prefix(s: Seq<char>, i: int)
    requires
        0 <= i <= s.len(),
        all_digits(s),
    ensures
        digits_value(s.take(i)) <= digits_value(s),
    decreases s.len(),
{
    if i == s.len() {
        assert(s.take(i) =~= s);
    } else {
        lemma_digits_value_of_prefix(s.drop_last(), i);
        assert(s.drop_last().take(i) =~= s.take(i));
        assert('0' <= s[s.len() - 1] <= '9');
    }
}

pub(crate) proof fn lemma_decimal_digits(n: nat)
    ensures
        decimal(n).len() > 0,
        all_digits(decimal(n)),
        digits_value(decimal(n)) == n,
    decreases n,
{
    if n < 10 {
        assert(decimal(n).drop_last() =~= seq![]);
        assert(digits_value(Seq::<char>::empty()) == 0);
    } else {
        lemma_decimal_digits(n / 10);
        assert(decimal(n).drop_last() =~= decimal(n / 10));
    }
}

/// Reading a number back from its decimal notation gives that number.
pub proof fn law_decimal_reads_back(n: u64)
    ensures
        parsed_u64(decimal(n as nat)) == Some(n),
{
    lemma_decimal_digits(n as nat);
    let s = decimal(n as nat);
    assert('0' <= s[0] <= '9');
    assert(without_plus(s) == s);
}

/// The `u64` that `s` writes: an optional plus sign, then one or more digits, within range.
pub fn parse_u64(s: &str) -> (r: Option<u64>)
    ensures
        r == parsed_u64(s@),
{
    let chars = chars_of(s);
    let ghost digits = without_plus(s@);
    let start: usize = if chars.len() > 0 && chars[0] == '+' {
        1
    } else {
        0
    };
    assert(digits =~= s@.skip(start as int));
    if start == chars.len() {
        return None;
    }
    let mut value: u64 = 0;
    let mut i: usize = start;
    assert(digits.take(0) =~= seq![]);
    while i < chars.len()
        invariant
            chars@ == s@,
            start <= i <= chars.len(),
            digits == without_plus(s@),
            digits == s@.skip(start as int),
            all_digits(digits.take(i - start)),
            value == digits_value(digits.take(i - start)),
        decreases chars.len() - i,
    {
        let c = chars[i];
        let ghost k = i - start;
        assert(digits[k] == c);
        if c < '0' || '9' < c {
            return None;
        }
        let digit: u64 = (c as u32 - '0' as u32) as u64;
        assert(digits.take(k + 1).drop_last() =~= digits.take(k));
        assert(all_digits(digits.take(k + 1))) by {
            assert forall|j: int| 0 <= j < k + 1 implies '0' <= #[trigger] digits.take(k + 1)[j]
                <= '9' by {
                if j < k {
                    assert(digits.take(k + 1)[j] == digits.take(k)[j]);
                }
            }
        }
        let ghost next = digits_value(digits.take(k + 1));
        assert(next == 10 * value + digit);
        if value > u64::MAX / 10 || (value == u64::MAX / 10 && digit > u64::MAX % 10) {
            proof {
                if all_digits(digits) {
                    lemma_digits_value_of_prefix(digits, k + 1);
                }
            }
            return None;
        }
        value = value * 10 + digit;
        i = i + 1;
    }
    assert(digits.take(i - start) =~= digits);
    Some(value)
}

/// The decimal digit `d` as text.
fn digit_text(d: u64) -> (r: &'static str)
    requires
        d < 10,
    ensures
        r@ == seq![digit_char(d as int)],
{
    proof {
        reveal_strlit("0");
        reveal_strlit("1");
        reveal_strlit("2");
        reveal_strlit("3");
        reveal_strlit("4");
        reveal_strlit("5");
        reveal_strlit("6");
        reveal_strlit("7");
        reveal_strlit("8");
        reveal_strlit("9");
    }
    if d == 0 {
        "0"
    } else if d == 1 {
        "1"
    } else if d == 2 {
        "2"
    } else if d == 3 {
        "3"
    } else if d == 4 {
        "4"
    } else if d == 5 {
        "5"
    } else if d == 6 {
        "6"
    } else if d == 7 {
        "7"
    } else if d == 8 {
        "8"
    } else {
        "9"
    }
}

/// `n` in decimal notation.
pub fn format_u64(n: u64) -> (r: String)
    ensures
        r@ == decimal(n as nat),
    decreases n,
{
    let mut text = if n < 10 {
        String::new()
    } else {
        format_u64(n / 10)
    };
    text.append(digit_text(n % 10));
    assert(n < 10 ==> text@ =~= decimal(n as nat));
    assert(n >= 10 ==> text@ =~= decimal(n as nat));
    text
}

/// `n` in decimal notation, with a leading minus sign where it is negative.
pub fn format_i64(n: i64) -> (r: String)
    ensures
        r@ == decimal_int(n as int),
{
    if n >= 0 {
        return format_u64(n as u64);
    }
    let magnitude: u64 = (-(n + 1)) as u64 + 1;
    let mut text = "-".to_owned();
    proof {
        reveal_strlit("-");
    }
    let digits = format_u64(magnitude);
    text.append(digits.as_str());
    assert(text@ =~= decimal_int(n as int));
    text
}

/// Decimal notation is positional: the ten digits write the numbers below ten, and a digit
/// put behind the notation of a number above zero multiplies it by ten and adds the digit.
pub proof fn law_notation_is_positional(n: nat, d: nat)
    requires
        d < 10,
    ensures
        decimal(d) == seq!["0123456789"@[d as int]],
        n > 0 ==> decimal(10 * n + d) == decimal(n) + decimal(d),
        n > 0 ==> decimal_int(-(n as int)) == seq!['-'] + decimal(n),
        decimal_int(n as int) == decimal(n),
{
    reveal_strlit("0123456789");
    assert(decimal(d) =~= seq!["0123456789"@[d as int]]);
    if n > 0 {
        assert((10 * n + d) / 10 == n && (10 * n + d) % 10 == d);
        assert(decimal(10 * n + d) =~= decimal(n) + decimal(d));
    }
}

/// Reading is positional too: a digit behind a text that reads as `n` reads as ten times
/// `n` and the digit, where that is in range, and as nothing where it is not. A plus sign
/// in front of digits does not count.
pub proof fn law_reading_is_positional(s: Seq<char>, n: u64, d: u64)
    requires
        parsed_u64(s) == Some(n),
        d < 10,
    ensures
        parsed_u64(s.push("0123456789"@[d as int])) == (if 10 * n + d <= u64::MAX {
            Some((10 * n + d) as u64)
        } else {
            None
        }),
        s[0] != '+' ==> parsed_u64(seq!['+'] + s) == Some(n),
        parsed_u64(seq!["0123456789"@[d as int]]) == Some(d),
{
    reveal_strlit("0123456789");
    let c = "0123456789"@[d as int];
    let digits = without_plus(s);
    let longer = s.push(c);
    assert(without_plus(longer) =~= digits.push(c));
    assert(digits.push(c).drop_last() =~= digits);
    assert forall|i: int| 0 <= i < digits.push(c).len() implies '0' <= #[trigger] digits.push(
        c,
    )[i] <= '9' by {
        if i < digits.len() {
            assert('0' <= digits[i] <= '9');
        }
    }
    if s[0] != '+' {
        assert((seq!['+'] + s).drop_first() =~= s);
    }
    let single = seq![c];
    assert(single.drop_last() =~= seq![]);
    assert(digits_value(Seq::<char>::empty()) == 0);
    assert(without_plus(single) == single);
}

/// Only digits are read, behind one plus sign at most, and there must be one: whatever has
/// another character in it, or nothing, does not read as a number.
pub proof fn law_only_digits_are_read(s: Seq<char>, i: int)
    requires
        0 <= i < s.len(),
        !('0' <= s[i] <= '9'),
        i > 0 || s[0] != '+' || s.len() == 1,
    ensures
        parsed_u64(s) is None,
        parsed_u64(seq![]) is None,
{
    let digits = without_plus(s);
    if s.len() > 1 || s[0] != '+' {
        let k = if s[0] == '+' { i - 1 } else { i };
        assert(digits[k] == s[i]);
    }
}

/// Text that does not read as a number still does not with a digit behind it, unless there was
/// no digit in it yet.
pub proof fn law_unreadable_text_stays_unreadable(s: Seq<char>, d: nat)
    requires
        parsed_u64(s) is None,
        s.len() > 1 || (s.len() == 1 && s[0] != '+'),
        d < 10,
    ensures
        parsed_u64(s.push("0123456789"@[d as int])) is None,
{
    reveal_strlit("0123456789");
    let c = "0123456789"@[d as int];
    let digits = without_plus(s);
    let longer = digits.push(c);
    assert(without_plus(s.push(c)) =~= longer);
    assert(longer.drop_last() =~= digits);
    if all_digits(longer) {
        assert forall|i: int| 0 <= i < digits.len() implies '0' <= #[trigger] digits[i] <= '9' by {
            assert(longer[i] == digits[i]);
        }
    }
}

} // verus!
