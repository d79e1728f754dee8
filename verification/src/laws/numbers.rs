//! Numbers and their texts.

use crate::json;
use crate::json::{Json, JsonView, Number, NumberView};
use crate::numeral;
use crate::text;
use vstd::prelude::*;

verus! {

/// The decimal digits of a number read back as the number.
pub proof fn law_decimal_reads_back(n: usize)
    ensures
        numeral::parse_usize(numeral::decimal(n as nat)) == Some(n),
{
    numeral::lemma_decimal(n as nat);
    let whole = numeral::decimal(n as nat);
    assert(numeral::is_digit(whole[0]));
    assert(numeral::strip_plus(whole) == whole);
}

/// Every integer of JSON is a number that a model can take.
pub proof fn law_integers_are_numbers(unsigned: u64, signed: i64)
    ensures
        json::as_number(JsonView::Number(NumberView::Unsigned(unsigned))) == Some(
            numeral::decimal(unsigned as nat),
        ),
        json::as_number(JsonView::Number(NumberView::Signed(signed))) == Some(
            numeral::signed_decimal(signed as int),
        ),
{
    json::lemma_number(NumberView::Unsigned(unsigned));
    json::lemma_number(NumberView::Signed(signed));
}

/// Digits are the characters from 0 to 9.
pub open spec fn from_0_to_9(s: Seq<char>) -> bool {
    forall|i: int| 0 <= i < s.len() ==> '0' <= #[trigger] s[i] <= '9'
}

/// A number is read from digits, at least one, and from nothing else but that a plus sign
/// may stand before them.
pub proof fn law_numbers_are_digits(s: &[char], r: Option<usize>)
    requires
        call_ensures(numeral::read_usize, (s,), r),
    ensures
        r is Some ==> {
            let unsigned = if s@.len() > 0 && s@[0] == '+' {
                s@.skip(1)
            } else {
                s@
            };
            unsigned.len() > 0 && from_0_to_9(unsigned)
        },
{
    let body = numeral::strip_plus(s@);
    if r is Some {
        assert(s@.len() > 0 && s@[0] == '+' ==> body =~= s@.skip(1));
        assert forall|i: int| 0 <= i < body.len() implies '0' <= #[trigger] body[i]
                <= '9' by {
            assert(numeral::is_digit(body[i]));
        }
    }
}

/// A digit more makes a number ten times as large and adds the digit, unless that is more
/// than a number can be: then there is none. One digit is its own number, and a plus sign
/// before digits makes no difference.
pub proof fn law_numbers_digit_by_digit(
    s: &[char],
    digit: char,
    longer: &[char],
    a: Option<usize>,
    b: Option<usize>,
)
    requires
        call_ensures(numeral::read_usize, (s,), a),
        call_ensures(numeral::read_usize, (longer,), b),
        from_0_to_9(s@),
        '0' <= digit <= '9',
    ensures
        longer@ == seq![digit] ==> b == Some((digit as u32 - 48) as usize),
        s@.len() > 0 && longer@ == s@.push(digit) ==> b == match a {
            Some(value) => if value * 10 + (digit as u32 - 48) <= usize::MAX {
                Some((value * 10 + (digit as u32 - 48)) as usize)
            } else {
                None
            },
            None => None,
        },
        longer@ == seq!['+'] + s@ ==> b == a,
{
    assert(numeral::digits(s@));
    assert(s@.len() > 0 ==> s@.first() != '+') by {
        if s@.len() > 0 {
            assert('0' <= s@[0] <= '9');
        }
    }
    if longer@ == seq![digit] {
        assert(longer@.first() == digit);
        assert(longer@.drop_last() =~= Seq::empty());
        assert(longer@.last() == digit);
        assert(numeral::digits_value(Seq::<char>::empty()) == 0);
    }
    if s@.len() > 0 && longer@ == s@.push(digit) {
        assert(longer@.first() == s@.first());
        assert(longer@.drop_last() =~= s@);
        assert(longer@.last() == digit);
        assert forall|i: int| 0 <= i < longer@.len() implies numeral::is_digit(
            #[trigger] longer@[i],
        ) by {
            if i < s@.len() {
                assert(longer@[i] == s@[i]);
            }
        }
    }
    if longer@ == seq!['+'] + s@ {
        assert(longer@.first() == '+');
        assert(longer@.drop_first() =~= s@);
    }
}

/// The decimal text of a number below ten is its digit; that of any other is the one of its
/// tenth part with the last digit behind it.
pub proof fn law_decimal_digit_by_digit(n: u64, r: String, tenth: u64, q: String)
    requires
        call_ensures(numeral::decimal_string, (n,), r),
        call_ensures(numeral::decimal_string, (tenth,), q),
        tenth == n / 10,
    ensures
        r@.last() as u32 == 48 + n % 10,
        n < 10 ==> r@.len() == 1,
        n >= 10 ==> r@.drop_last() == q@,
{
    let digit = ('0' as nat + n as nat % 10) as char;
    if n < 10 {
        assert(r@ =~= seq![digit]);
    } else {
        assert((n as nat) / 10 == tenth as nat);
        assert(r@ == q@.push(digit));
        assert(r@.drop_last() =~= q@);
    }
}

/// The text of a negative integer is a minus sign and the decimal text of its size; that of
/// any other integer is its decimal text.
pub proof fn law_signed_decimal(i: i64, r: String, size: u64, q: String)
    requires
        call_ensures(numeral::signed_decimal_string, (i,), r),
        call_ensures(numeral::decimal_string, (size,), q),
    ensures
        i < 0 && size == -i ==> r@ == seq!['-'] + q@,
        i >= 0 && size == i ==> r@ == q@,
{
    reveal_strlit("-");
    assert("-"@ =~= seq!['-']);
}

/// The text of a number of JSON: an integer in decimal, and a floating-point number by the
/// text that it is given by.
pub proof fn law_number_texts(number: &Number, r: String)
    requires
        call_ensures(Number::text, (number,), r),
    ensures
        *number matches Number::Unsigned(u) ==> r@ == numeral::decimal(u as nat),
        *number matches Number::Signed(i) ==> r@ == numeral::signed_decimal(i as int),
        *number matches Number::Float(s) ==> r@ == s@,
{
}

/// A value is taken for a number if and only if it is one of JSON whose text reads as a
/// number, and then by that text.
pub proof fn law_values_as_numbers(value: &Json, r: Option<String>)
    requires
        call_ensures(Json::as_number, (value,), r),
    ensures
        r is Some <==> (value@ matches JsonView::Number(number) && numeral::is_numeric(
            json::number_text(number),
        )),
        r matches Some(s) ==> s@ == json::number_text(value@->Number_0),
{
}

/// A plus or a minus sign, or none.
pub open spec fn is_sign(s: Seq<char>) -> bool {
    s.len() == 0 || s == seq!['+'] || s == seq!['-']
}

/// The parts of the text of a number: a sign, digits before a point, the point and digits
/// behind it, a mark and an exponent with a sign of its own. Signs can be left out, and so
/// can the point where no digits follow it, the digits on one of its sides, and the
/// exponent with its mark.
pub open spec fn is_decimal_number(
    sign: Seq<char>,
    whole: Seq<char>,
    point: Seq<char>,
    fraction: Seq<char>,
    mark: Seq<char>,
    exponent_sign: Seq<char>,
    exponent: Seq<char>,
) -> bool {
    &&& is_sign(sign)
    &&& from_0_to_9(whole)
    &&& from_0_to_9(fraction)
    &&& whole.len() + fraction.len() > 0
    &&& point == seq!['.'] || point.len() == 0 && fraction.len() == 0
    &&& if mark.len() == 0 {
        exponent_sign.len() == 0 && exponent.len() == 0
    } else {
        &&& mark == seq!['e'] || mark == seq!['E']
        &&& is_sign(exponent_sign)
        &&& exponent.len() > 0
        &&& from_0_to_9(exponent)
    }
}

/// The text is one of those for no finite number, whatever the case of its letters is.
pub open spec fn is_named_number(s: Seq<char>) -> bool {
    ||| text::lower(s) == "inf"@
    ||| text::lower(s) == "infinity"@
    ||| text::lower(s) == "nan"@
}

/// Digits and signs are the same in lower case.
proof fn lemma_lower_digits(s: Seq<char>)
    requires
        forall|i: int| 0 <= i < s.len() ==> !('A' <= #[trigger] s[i] <= 'Z'),
    ensures
        text::lower(s) == s,
{
    assert(text::lower(s) =~= s);
}

/// What is digits or points in lower case is so as it stands.
proof fn lemma_not_lowered(s: Seq<char>)
    requires
        forall|i: int|
            0 <= i < s.len() ==> !('a' <= #[trigger] text::lower(s)[i] <= 'z'),
    ensures
        text::lower(s) == s,
{
    assert forall|i: int| 0 <= i < s.len() implies text::lower(s)[i] == s[i] by {
        assert(!('a' <= text::lower(s)[i] <= 'z'));
        if 'A' <= s[i] <= 'Z' {
            assert(text::lower(s)[i] == (s[i] as u8 + 32) as char);
        }
    }
    assert(text::lower(s) =~= s);
}

/// A name for no finite number reads as a number, with or without a sign.
proof fn lemma_named_is_numeric(s: Seq<char>, sign: Seq<char>, name: Seq<char>)
    requires
        is_sign(sign),
        is_named_number(name),
        s == sign + name,
    ensures
        numeral::is_numeric(s),
{
    reveal_strlit("inf");
    reveal_strlit("infinity");
    reveal_strlit("nan");
    assert(text::lower(name).len() == name.len());
    assert(text::lower(name)[0] == text::lower_char(name[0]));
    assert("inf"@[0] == 'i' && "infinity"@[0] == 'i' && "nan"@[0] == 'n');
    assert(name.first() != '+' && name.first() != '-');
    if sign.len() > 0 {
        assert(s.first() == sign[0]);
        assert(s.drop_first() =~= name);
    } else {
        assert(s =~= name);
    }
}

/// A mantissa alone, or with an exponent, reads as a number, with or without a sign.
proof fn lemma_mantissa_is_numeric(
    s: Seq<char>,
    sign: Seq<char>,
    mantissa: Seq<char>,
    mark: Seq<char>,
    signed: Seq<char>,
)
    requires
        is_sign(sign),
        numeral::is_mantissa(mantissa),
        forall|i: int|
            0 <= i < mantissa.len() ==> '0' <= #[trigger] mantissa[i] <= '9' || mantissa[i] == '.',
        mark.len() == 0 && signed.len() == 0 || (mark == seq!['e'] || mark == seq!['E'])
            && numeral::is_exponent(signed) && text::lower(signed) == signed,
        s == sign + mantissa + mark + signed,
    ensures
        numeral::is_numeric(s),
{
    let unsigned = mantissa + mark + signed;
    assert(s =~= sign + unsigned);
    assert(mantissa.len() > 0) by {
        text::lemma_position_bounds(mantissa, '.');
    }
    assert(unsigned.first() == mantissa[0]);
    if sign.len() > 0 {
        assert(s.first() == sign[0]);
        assert(s.drop_first() =~= unsigned);
    } else {
        assert(s =~= unsigned);
    }
    assert(numeral::strip_sign(s) == unsigned);
    let body = text::lower(unsigned);
    let p = mantissa.len() as int;
    assert forall|k: int| 0 <= k < p implies body[k] == mantissa[k] && body[k] != 'e' by {
        assert(unsigned[k] == mantissa[k]);
    }
    if mark.len() > 0 {
        assert(unsigned[p] == mark[0]);
        assert(body[p] == text::lower_char(mark[0]));
        let c = mark[0];
        assert(c == 'E' ==> (c as u8 + 32) as char == 'e');
        assert(body[p] == 'e');
    }
    text::lemma_position(body, 'e', p);
    assert(body.take(p) =~= mantissa);
    if mark.len() > 0 {
        let rest = body.skip(p + 1);
        assert forall|k: int| 0 <= k < signed.len() implies rest[k] == signed[k] by {
            assert(unsigned[p + 1 + k] == signed[k]);
            assert(text::lower(signed)[k] == text::lower_char(signed[k]));
        }
        assert(rest =~= signed);
    } else {
        assert(body =~= mantissa);
    }
}

/// An exponent, and that it is the same in lower case.
proof fn lemma_exponent(exponent_sign: Seq<char>, exponent: Seq<char>)
    requires
        is_sign(exponent_sign),
        exponent.len() > 0,
        from_0_to_9(exponent),
    ensures
        numeral::is_exponent(exponent_sign + exponent),
        text::lower(exponent_sign + exponent) == exponent_sign + exponent,
{
    let signed = exponent_sign + exponent;
    assert('0' <= exponent[0] <= '9');
    assert forall|i: int| 0 <= i < signed.len() implies !('A' <= #[trigger] signed[i] <= 'Z') by {
        if i >= exponent_sign.len() {
            assert(signed[i] == exponent[i - exponent_sign.len()]);
        }
    }
    lemma_lower_digits(signed);
    if exponent_sign.len() > 0 {
        assert(signed.first() == exponent_sign[0]);
        assert(signed.drop_first() =~= exponent);
    } else {
        assert(signed =~= exponent);
    }
    assert(numeral::strip_sign(signed) == exponent);
    assert(numeral::digits(exponent));
}

/// Every text of the form of a decimal number reads as a number.
pub proof fn law_numbers_are_read(
    s: &[char],
    sign: Seq<char>,
    whole: Seq<char>,
    point: Seq<char>,
    fraction: Seq<char>,
    mark: Seq<char>,
    exponent_sign: Seq<char>,
    exponent: Seq<char>,
    r: bool,
)
    requires
        call_ensures(numeral::reads_as_number, (s,), r),
        is_decimal_number(sign, whole, point, fraction, mark, exponent_sign, exponent),
        s@ == sign + whole + point + fraction + mark + exponent_sign + exponent,
    ensures
        r,
{
    let mantissa = whole + point + fraction;
    lemma_mantissa(whole, point, fraction);
    assert forall|i: int| 0 <= i < mantissa.len() implies '0' <= #[trigger] mantissa[i] <= '9'
        || mantissa[i] == '.' by {
        if i < whole.len() {
            assert(mantissa[i] == whole[i]);
        } else if i >= whole.len() + point.len() {
            assert(mantissa[i] == fraction[i - whole.len() - point.len()]);
        }
    }
    if mark.len() > 0 {
        lemma_exponent(exponent_sign, exponent);
    }
    let signed = exponent_sign + exponent;
    assert(s@ =~= sign + mantissa + mark + signed);
    lemma_mantissa_is_numeric(s@, sign, mantissa, mark, signed);
}

/// The names for no finite number read as numbers, with or without a sign.
pub proof fn law_named_numbers_are_read(s: &[char], sign: Seq<char>, name: Seq<char>, r: bool)
    requires
        call_ensures(numeral::reads_as_number, (s,), r),
        is_sign(sign),
        is_named_number(name),
        s@ == sign + name,
    ensures
        r,
{
    lemma_named_is_numeric(s@, sign, name);
}

/// Digits with a point in the right place are a mantissa.
proof fn lemma_mantissa(whole: Seq<char>, point: Seq<char>, fraction: Seq<char>)
    requires
        from_0_to_9(whole),
        from_0_to_9(fraction),
        whole.len() + fraction.len() > 0,
        point == seq!['.'] || point.len() == 0 && fraction.len() == 0,
    ensures
        numeral::is_mantissa(whole + point + fraction),
{
    let s = whole + point + fraction;
    assert forall|k: int| 0 <= k < whole.len() implies s[k] != '.' by {
        assert(s[k] == whole[k]);
    }
    if point.len() > 0 {
        let p = whole.len() as int;
        assert(s[p] == '.');
        text::lemma_position(s, '.', p);
        assert(s.take(p) =~= whole);
        assert(s.skip(p + 1) =~= fraction);
        assert(numeral::digits(whole));
        assert(numeral::digits(fraction));
    } else {
        assert(s =~= whole);
        text::lemma_position(s, '.', s.len() as int);
        assert(numeral::digits(whole));
    }
}

/// The parts that a mantissa is made up of.
proof fn lemma_mantissa_parts(s: Seq<char>) -> (parts: (Seq<char>, Seq<char>, Seq<char>))
    requires
        numeral::is_mantissa(s),
    ensures
        s == parts.0 + parts.1 + parts.2,
        from_0_to_9(parts.0),
        from_0_to_9(parts.2),
        parts.0.len() + parts.2.len() > 0,
        parts.1 == seq!['.'] || parts.1.len() == 0 && parts.2.len() == 0,
{
    text::lemma_position_bounds(s, '.');
    let p = text::position(s, '.');
    let none = Seq::<char>::empty();
    if p == s.len() {
        assert(numeral::digits(s));
        assert forall|i: int| 0 <= i < s.len() implies '0' <= #[trigger] s[i] <= '9' by {
            assert(numeral::is_digit(s[i]));
        }
        assert(s =~= s + none + none);
        (s, none, none)
    } else {
        let whole = s.take(p);
        let fraction = s.skip(p + 1);
        assert forall|i: int| 0 <= i < whole.len() implies '0' <= #[trigger] whole[i]
                <= '9' by {
            assert(numeral::is_digit(whole[i]));
        }
        assert forall|i: int| 0 <= i < fraction.len() implies '0' <= #[trigger] fraction[i]
                <= '9' by {
            assert(numeral::is_digit(fraction[i]));
        }
        assert(s =~= whole + seq!['.'] + fraction);
        (whole, seq!['.'], fraction)
    }
}

/// The parts that an exponent is made up of, as it stands and in lower case.
proof fn lemma_exponent_parts(signed: Seq<char>) -> (parts: (Seq<char>, Seq<char>))
    requires
        numeral::is_exponent(text::lower(signed)),
    ensures
        signed == parts.0 + parts.1,
        is_sign(parts.0),
        parts.1.len() > 0,
        from_0_to_9(parts.1),
{
    let lowered = text::lower(signed);
    let digits = numeral::strip_sign(lowered);
    let at = lowered.len() - digits.len();
    assert forall|i: int| 0 <= i < signed.len() implies !('a' <= #[trigger] text::lower(signed)[i]
        <= 'z') by {
        if i >= at {
            assert(lowered[i] == digits[i - at]);
            assert(numeral::is_digit(digits[i - at]));
        }
    }
    lemma_not_lowered(signed);
    let exponent_sign = signed.take(at);
    let exponent = signed.skip(at);
    assert(exponent =~= digits);
    if at > 0 {
        assert(exponent_sign =~= seq![signed.first()]);
    }
    assert forall|i: int| 0 <= i < exponent.len() implies '0' <= #[trigger] exponent[i] <= '9' by {
        assert(numeral::is_digit(exponent[i]));
    }
    assert(signed =~= exponent_sign + exponent);
    (exponent_sign, exponent)
}

/// What is a mantissa in lower case is one as it stands.
proof fn lemma_lowered_mantissa(mantissa: Seq<char>)
    requires
        numeral::is_mantissa(text::lower(mantissa)),
    ensures
        text::lower(mantissa) == mantissa,
{
    let parts = lemma_mantissa_parts(text::lower(mantissa));
    assert forall|i: int| 0 <= i < mantissa.len() implies !('a' <= #[trigger] text::lower(
        mantissa,
    )[i] <= 'z') by {
        let c = text::lower(mantissa)[i];
        if i < parts.0.len() {
            assert(c == parts.0[i]);
        } else if i >= parts.0.len() + parts.1.len() {
            assert(c == parts.2[i - parts.0.len() - parts.1.len()]);
        } else {
            assert(c == '.');
        }
    }
    lemma_not_lowered(mantissa);
}

/// Nothing else reads as a number: what does has the form of a decimal number, or is a name
/// for no finite number, with or without a sign.
pub proof fn law_only_numbers_are_read(s: &[char], r: bool)
    requires
        call_ensures(numeral::reads_as_number, (s,), r),
        r,
    ensures
        ({
            ||| exists|sign: Seq<char>, name: Seq<char>|
                is_sign(sign) && is_named_number(name) && s@ == #[trigger] (sign + name)
            ||| exists|
                sign: Seq<char>,
                whole: Seq<char>,
                point: Seq<char>,
                fraction: Seq<char>,
                mark: Seq<char>,
                exponent_sign: Seq<char>,
                exponent: Seq<char>,
            |
                #[trigger] is_decimal_number(
                    sign,
                    whole,
                    point,
                    fraction,
                    mark,
                    exponent_sign,
                    exponent,
                ) && s@ == sign + whole + point + fraction + mark + exponent_sign + exponent
        }),
{
    let unsigned = numeral::strip_sign(s@);
    let sign = s@.take(s@.len() - unsigned.len());
    assert(is_sign(sign)) by {
        if sign.len() > 0 {
            assert(sign =~= seq![s@.first()]);
        }
    }
    assert(s@ =~= sign + unsigned);
    let body = text::lower(unsigned);
    if !is_named_number(unsigned) {
        text::lemma_position_bounds(body, 'e');
        let p = text::position(body, 'e');
        let mantissa = unsigned.take(p);
        assert(text::lower(mantissa) =~= body.take(p));
        assert(p == body.len() ==> body.take(p) =~= body);
        lemma_lowered_mantissa(mantissa);
        let parts = lemma_mantissa_parts(mantissa);
        let none = Seq::<char>::empty();
        if p == body.len() {
            assert(mantissa =~= unsigned);
            assert(is_decimal_number(sign, parts.0, parts.1, parts.2, none, none, none));
            assert(s@ =~= sign + parts.0 + parts.1 + parts.2 + none + none + none);
        } else {
            let mark = seq![unsigned[p]];
            assert(body[p] == text::lower_char(unsigned[p]));
            assert(unsigned[p] == 'e' || unsigned[p] == 'E') by {
                if 'A' <= unsigned[p] <= 'Z' {
                    assert(body[p] as u32 == unsigned[p] as u32 + 32);
                }
            }
            let signed = unsigned.skip(p + 1);
            assert(text::lower(signed) =~= body.skip(p + 1));
            let ends = lemma_exponent_parts(signed);
            assert(is_decimal_number(sign, parts.0, parts.1, parts.2, mark, ends.0, ends.1));
            assert(unsigned =~= mantissa + mark + signed);
            assert(s@ =~= sign + parts.0 + parts.1 + parts.2 + mark + ends.0 + ends.1);
        }
    }
}

} // verus!
