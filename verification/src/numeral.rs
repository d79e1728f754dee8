//! Numbers as text: unsigned integers in decimal, and the texts that read as
//! floating-point numbers.

use crate::text;
use vstd::prelude::*;
use vstd::slice::slice_subrange;

verus! {

/// A decimal digit.
pub open spec fn is_digit(c: char) -> bool {
    '0' <= c <= '9'
}

/// Decimal digits only.
pub open spec fn digits(s: Seq<char>) -> bool {
    forall|i: int| 0 <= i < s.len() ==> is_digit(#[trigger] s[i])
}

/// The number that the digits stand for.
pub open spec fn digits_value(s: Seq<char>) -> nat
    decreases s.len(),
{
    if s.len() == 0 {
        0
    } else {
        digits_value(s.drop_last()) * 10 + (s.last() as nat - '0' as nat) as nat
    }
}

/// The text without a plus sign at its start.
pub open spec fn strip_plus(s: Seq<char>) -> Seq<char> {
    if s.len() > 0 && s.first() == '+' {
        s.drop_first()
    } else {
        s
    }
}

/// The unsigned integer that the text stands for: digits, at least one, after an
/// optional plus sign, and a value that fits.
pub open spec fn parse_usize(s: Seq<char>) -> Option<usize> {
    let body = strip_plus(s);
    if body.len() > 0 && digits(body) && digits_value(body) <= usize::MAX {
        Some(digits_value(body) as usize)
    } else {
        None
    }
}

/// The number in decimal digits, without leading zeros.
pub open spec fn decimal(n: nat) -> Seq<char>
    decreases n,
{
    let digit = ('0' as nat + n % 10) as char;
    if n < 10 {
        seq![digit]
    } else {
        decimal(n / 10).push(digit)
    }
}

/// The text without a sign at its start.
pub open spec fn strip_sign(s: Seq<char>) -> Seq<char> {
    if s.len() > 0 && (s.first() == '+' || s.first() == '-') {
        s.drop_first()
    } else {
        s
    }
}

/// Digits, at least one, with at most one point before, between or after them.
pub open spec fn is_mantissa(s: Seq<char>) -> bool {
    let p = text::position(s, '.');
    if p == s.len() {
        s.len() > 0 && digits(s)
    } else {
        s.len() > 1 && digits(s.take(p)) && digits(s.skip(p + 1))
    }
}

/// Digits, at least one, after an optional sign.
pub open spec fn is_exponent(s: Seq<char>) -> bool {
    strip_sign(s).len() > 0 && digits(strip_sign(s))
}

/// The texts that read as a floating-point number: after an optional sign, and
/// with no regard to the case of letters, `inf`, `infinity`, `nan`, or a
/// mantissa with an optional exponent behind an `e`.
pub open spec fn is_numeric(s: Seq<char>) -> bool {
    let body = text::lower(strip_sign(s));
    let p = text::position(body, 'e');
    ||| body == "inf"@
    ||| body == "infinity"@
    ||| body == "nan"@
    ||| if p == body.len() {
        is_mantissa(body)
    } else {
        is_mantissa(body.take(p)) && is_exponent(body.skip(p + 1))
    }
}

/// The integer in decimal digits, behind a minus sign where it is negative.
pub open spec fn signed_decimal(i: int) -> Seq<char> {
    if i < 0 {
        "-"@ + decimal((-i) as nat)
    } else {
        decimal(i as nat)
    }
}

/// The number in decimal digits.
pub fn decimal_string(n: u64) -> (r: String)
    ensures
        r@ == decimal(n as nat),
    decreases n,
{
    let digit = (48u8 + (n % 10) as u8) as char;
    if n < 10 {
        let mut r = String::new();
        r.push(digit);
        assert(r@ =~= decimal(n as nat));
        r
    } else {
        let mut r = decimal_string(n / 10);
        r.push(digit);
        r
    }
}

/// The integer in decimal digits, behind a minus sign where it is negative.
pub fn signed_decimal_string(i: i64) -> (r: String)
    ensures
        r@ == signed_decimal(i as int),
{
    if i < 0 {
        let magnitude: u64 = (-(i + 1)) as u64 + 1;
        text::concat("-", decimal_string(magnitude).as_str())
    } else {
        decimal_string(i as u64)
    }
}

/// A longer run of digits stands for no smaller number.
proof fn lemma_digits_value_grows(s: Seq<char>, i: int)
    requires
        0 <= i <= s.len(),
        digits(s),
    ensures
        digits_value(s.take(i)) <= digits_value(s),
    decreases s.len() - i,
{
    if i < s.len() {
        assert(s.take(i + 1).drop_last() =~= s.take(i));
        assert(s.take(i + 1).last() == s[i]);
        lemma_digits_value_grows(s, i + 1);
    } else {
        assert(s.take(i) =~= s);
    }
}

/// The decimal digits of a number: there are some, and they stand for the number.
pub proof fn lemma_decimal(n: nat)
    ensures
        decimal(n).len() > 0,
        digits(decimal(n)),
        digits_value(decimal(n)) == n,
    decreases n,
{
    let digit = ('0' as nat + n % 10) as char;
    assert('0' <= digit <= '9');
    assert(digit as nat - '0' as nat == n % 10);
    let whole = decimal(n);
    if n < 10 {
        assert(whole =~= seq![digit]);
        assert(whole.drop_last() =~= Seq::empty());
        assert(whole.last() == digit);
        assert(digits_value(Seq::empty()) == 0);
    } else {
        lemma_decimal(n / 10);
        let head = decimal(n / 10);
        assert(whole =~= head.push(digit));
        assert(whole.drop_last() =~= head);
        assert(whole.last() == digit);
        assert forall|i: int| 0 <= i < whole.len() implies is_digit(
            #[trigger] whole[i],
        ) by {
            if i < head.len() {
                assert(whole[i] == head[i]);
            }
        }
    }
}

/// Digits read as a number, with or without a sign before them.
pub proof fn lemma_digits_are_numeric(s: Seq<char>, signed: Seq<char>)
    requires
        s.len() > 0,
        digits(s),
        signed == s || signed == "-"@ + s,
    ensures
        is_numeric(signed),
{
    reveal_strlit("-");
    assert(is_digit(s[0]));
    assert(strip_sign(signed) =~= s) by {
        if signed != s {
            assert(signed.first() == '-');
            assert(signed.drop_first() =~= s);
        } else {
            assert(signed.first() == s[0]);
        }
    }
    let body = text::lower(s);
    assert forall|i: int| 0 <= i < s.len() implies body[i] == s[i] by {
        assert(is_digit(s[i]));
    }
    assert(body =~= s);
    assert forall|k: int| 0 <= k < s.len() implies s[k] != 'e' && s[k] != '.' by {
        assert(is_digit(s[k]));
    }
    text::lemma_position(s, 'e', s.len() as int);
    text::lemma_position(s, '.', s.len() as int);
    assert(s.take(s.len() as int) =~= s);
}

/// Whether the slice holds digits only.
fn only_digits(s: &[char]) -> (r: bool)
    ensures
        r == digits(s@),
{
    for i in 0..s.len()
        invariant
            forall|k: int| 0 <= k < i ==> is_digit(#[trigger] s@[k]),
    {
        if s[i] < '0' || s[i] > '9' {
            assert(!is_digit(s@[i as int]));
            return false;
        }
    }
    true
}

/// The unsigned integer that the slice stands for.
pub fn read_usize(s: &[char]) -> (r: Option<usize>)
    ensures
        r == parse_usize(s@),
{
    let body = if s.len() > 0 && s[0] == '+' {
        slice_subrange(s, 1, s.len())
    } else {
        s
    };
    assert(body@ =~= strip_plus(s@));
    if body.len() == 0 || !only_digits(body) {
        return None;
    }
    let mut value: usize = 0;
    assert(body@.take(0) =~= Seq::empty());
    for i in 0..body.len()
        invariant
            digits(body@),
            body@ == strip_plus(s@),
            body@.len() > 0,
            value == digits_value(body@.take(i as int)),
    {
        let digit = (body[i] as u8 - 48) as usize;
        proof {
            assert(body@.take(i + 1).drop_last() =~= body@.take(i as int));
            assert(is_digit(body@[i as int]));
            lemma_digits_value_grows(body@, i + 1);
        }
        if value > usize::MAX / 10 {
            return None;
        }
        let scaled: usize = value * 10;
        if digit > usize::MAX - scaled {
            return None;
        }
        value = scaled + digit;
    }
    assert(body@.take(body@.len() as int) =~= body@);
    Some(value)
}

/// Whether the slice is a mantissa.
fn reads_as_mantissa(s: &[char]) -> (r: bool)
    ensures
        r == is_mantissa(s@),
{
    let p = text::position_in(s, '.');
    if p == s.len() {
        s.len() > 0 && only_digits(s)
    } else {
        s.len() > 1 && only_digits(slice_subrange(s, 0, p)) && only_digits(
            slice_subrange(s, p + 1, s.len()),
        )
    }
}

/// The slice without a sign at its start.
fn unsigned_slice(s: &[char]) -> (r: &[char])
    ensures
        r@ == strip_sign(s@),
{
    if s.len() > 0 && (s[0] == '+' || s[0] == '-') {
        slice_subrange(s, 1, s.len())
    } else {
        s
    }
}

/// Whether the slice reads as a floating-point number.
pub fn reads_as_number(s: &[char]) -> (r: bool)
    ensures
        r == is_numeric(s@),
{
    let lowered = text::lower_string(unsigned_slice(s));
    let body = text::chars_of(lowered.as_str());
    if text::same(lowered.as_str(), "inf") || text::same(lowered.as_str(), "infinity")
        || text::same(lowered.as_str(), "nan") {
        return true;
    }
    let p = text::position_in(body.as_slice(), 'e');
    if p == body.len() {
        reads_as_mantissa(body.as_slice())
    } else {
        let exponent = unsigned_slice(slice_subrange(body.as_slice(), p + 1, body.len()));
        reads_as_mantissa(slice_subrange(body.as_slice(), 0, p)) && exponent.len() > 0
            && only_digits(exponent)
    }
}

} // verus!
