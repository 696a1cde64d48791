//! Decimal rendering and parsing of the 8-bit operands and values.

use vstd::prelude::*;

use crate::text::is_wspace;

verus! {

/// The decimal digit character for a value below ten.
pub open spec fn digit_char(d: int) -> char {
    if d == 0 {
        '0'
    } else if d == 1 {
        '1'
    } else if d == 2 {
        '2'
    } else if d == 3 {
        '3'
    } else if d == 4 {
        '4'
    } else if d == 5 {
        '5'
    } else if d == 6 {
        '6'
    } else if d == 7 {
        '7'
    } else if d == 8 {
        '8'
    } else {
        '9'
    }
}

/// The decimal text of a number, most significant digit first, no sign and
/// no leading zeros.
pub open spec fn dec_digits(v: nat) -> Seq<char>
    decreases v,
{
    if v < 10 {
        seq![digit_char(v as int)]
    } else {
        dec_digits(v / 10) + seq![digit_char((v % 10) as int)]
    }
}

/// True of the characters `'0'` through `'9'`.
pub open spec fn is_digit(c: char) -> bool {
    0x30 <= c as u32 && c as u32 <= 0x39
}

/// The numeric value of a digit character.
pub open spec fn digit_val(c: char) -> int {
    c as u32 - 0x30
}

/// Decimal text consists of digits, which are never whitespace.
pub proof fn lemma_dec_digits_shape(v: nat)
    ensures
        dec_digits(v).len() >= 1,
        forall|i: int|
            0 <= i < dec_digits(v).len() ==> is_digit(#[trigger] dec_digits(v)[i]) && !is_wspace(
                dec_digits(v)[i],
            ),
    decreases v,
{
    if v < 10 {
    } else {
        lemma_dec_digits_shape(v / 10);
    }
}

/// How a `u8` parse can fail, mirroring the cases of the standard numeric
/// parser.
#[derive(PartialEq, Eq, Structural, Debug, Clone, Copy)]
pub enum NumError {
    /// The text was empty.
    Empty,
    /// A character was not an ASCII decimal digit.
    InvalidDigit,
    /// The digits name a number above 255.
    TooLarge,
}

/// The diagnostic text for each failure, word for word the description the
/// standard numeric parser gives.
pub open spec fn num_error_text(k: NumError) -> Seq<char> {
    match k {
        NumError::Empty => "cannot parse integer from empty string"@,
        NumError::InvalidDigit => "invalid digit found in string"@,
        NumError::TooLarge => "number too large to fit in target type"@,
    }
}

/// Left-to-right accumulation of decimal digits into a `u8`, failing at the
/// first non-digit or at the first step that would exceed 255.
pub open spec fn parse_digits(s: Seq<char>, acc: int) -> Result<u8, NumError>
    recommends
        0 <= acc <= 255,
    decreases s.len(),
{
    if s.len() == 0 {
        Ok(acc as u8)
    } else if !is_digit(s[0]) {
        Err(NumError::InvalidDigit)
    } else if acc * 10 + digit_val(s[0]) > 255 {
        Err(NumError::TooLarge)
    } else {
        parse_digits(s.drop_first(), acc * 10 + digit_val(s[0]))
    }
}

/// Parsing text as an unsigned 8-bit number: one optional leading `'+'`,
/// then at least one decimal digit, with the same outcomes as the standard
/// `u8` parser.
pub open spec fn spec_parse_u8(s: Seq<char>) -> Result<u8, NumError> {
    if s.len() == 0 {
        Err(NumError::Empty)
    } else if s[0] == '+' {
        if s.len() == 1 {
            Err(NumError::InvalidDigit)
        } else {
            parse_digits(s.drop_first(), 0)
        }
    } else {
        parse_digits(s, 0)
    }
}

/// The diagnostic text for a numeric parse failure.
pub fn num_error_str(k: NumError) -> (r: &'static str)
    ensures
        r@ == num_error_text(k),
{
    match k {
        NumError::Empty => "cannot parse integer from empty string",
        NumError::InvalidDigit => "invalid digit found in string",
        NumError::TooLarge => "number too large to fit in target type",
    }
}

/// The digit string literal for a value below ten.
fn digit_str(d: u8) -> (r: &'static str)
    requires
        d < 10,
    ensures
        r@ == seq![digit_char(d as int)],
{
    proof {
        reveal_strlit("0");
        reveal_strlit("1");
        reveal_strlit("2");
        reveal_strlit("3");
        reveal_strlit("4");
        reveal_strlit("5");
        reveal_strlit("6");
        reveal_strlit("7");
        reveal_strlit("8");
        reveal_strlit("9");
    }
    match d {
        0 => "0",
        1 => "1",
        2 => "2",
        3 => "3",
        4 => "4",
        5 => "5",
        6 => "6",
        7 => "7",
        8 => "8",
        _ => "9",
    }
}

/// Renders a number as decimal text.
pub fn usize_to_dec(v: usize) -> (r: String)
    ensures
        r@ == dec_digits(v as nat),
    decreases v,
{
    if v < 10 {
        digit_str(v as u8).to_owned()
    } else {
        let mut out = usize_to_dec(v / 10);
        out.append(digit_str((v % 10) as u8));
        out
    }
}

/// Renders an 8-bit value as decimal text.
pub fn u8_to_dec(v: u8) -> (r: String)
    ensures
        r@ == dec_digits(v as nat),
{
    usize_to_dec(v as usize)
}

/// Parses text as an unsigned 8-bit number, reporting the same outcome the
/// standard `u8` parser would.
pub fn parse_u8(s: &str) -> (r: Result<u8, NumError>)
    ensures
        r == spec_parse_u8(s@),
{
    let n = s.unicode_len();
    if n == 0 {
        return Err(NumError::Empty);
    }
    let first = s.get_char(0);
    let start: usize = if first == '+' {
        if n == 1 {
            return Err(NumError::InvalidDigit);
        }
        1
    } else {
        0
    };
    let ghost digits = if first == '+' {
        s@.drop_first()
    } else {
        s@
    };
    let mut acc: u16 = 0;
    let mut i: usize = start;
    proof {
        assert(digits.skip(0) =~= digits);
    }
    while i < n
        invariant
            n == s@.len(),
            n >= 1,
            start <= i <= n,
            start == 0 || start == 1,
            start == 1 <==> s@[0] == '+',
            start == 1 ==> n >= 2,
            start == 1 ==> digits == s@.drop_first(),
            start == 0 ==> digits == s@,
            digits.len() == n - start,
            forall|k: int| 0 <= k < digits.len() ==> digits[k] == s@[k + start],
            0 <= acc <= 255,
            parse_digits(digits, 0) == parse_digits(
                digits.skip(i - start as int),
                acc as int,
            ),
        decreases n - i,
    {
        let c = s.get_char(i);
        let u = c as u32;
        proof {
            assert(digits.skip(i - start as int)[0] == s@[i as int]);
        }
        if !(0x30 <= u && u <= 0x39) {
            return Err(NumError::InvalidDigit);
        }
        let d = (u - 0x30) as u16;
        if acc * 10 + d > 255 {
            return Err(NumError::TooLarge);
        }
        acc = acc * 10 + d;
        proof {
            assert(digits.skip(i - start as int).drop_first() =~= digits.skip(
                i + 1 - start as int,
            ));
        }
        i = i + 1;
    }
    proof {
        assert(digits.skip(n - start as int) =~= Seq::<char>::empty());
    }
    Ok(acc as u8)
}

/// Parsing the decimal rendering of an 8-bit value gives the value back.
pub proof fn lemma_parse_dec(v: u8)
    ensures
        spec_parse_u8(dec_digits(v as nat)) == Ok::<u8, NumError>(v),
{
    let s = dec_digits(v as nat);
    lemma_dec_digits_shape(v as nat);
    assert(!(s[0] == '+')) by {
        assert(is_digit(s[0]));
    }
    assert(spec_parse_u8(s) == parse_digits(s, 0));
    if v < 10 {
        assert(s == seq![digit_char(v as int)]);
        assert(digit_val(s[0]) == v as int);
        assert(s.drop_first() =~= Seq::<char>::empty());
        assert(parse_digits(s, 0) == parse_digits(s.drop_first(), v as int));
        assert(parse_digits(s.drop_first(), v as int) == Ok::<u8, NumError>(v));
    } else if v < 100 {
        let hi = v as int / 10;
        let lo = v as int % 10;
        assert(dec_digits((v as nat) / 10) =~= seq![digit_char(hi)]);
        assert(s =~= seq![digit_char(hi), digit_char(lo)]);
        assert(digit_val(s[0]) == hi);
        assert(digit_val(s[1]) == lo);
        assert(1 <= hi <= 9);
        assert(hi * 10 + lo == v as int);
        let s1 = s.drop_first();
        assert(s1 =~= seq![digit_char(lo)]);
        assert(s1.drop_first() =~= Seq::<char>::empty());
        assert(parse_digits(s, 0) == parse_digits(s1, hi));
        assert(parse_digits(s1, hi) == parse_digits(s1.drop_first(), v as int));
        assert(parse_digits(s1.drop_first(), v as int) == Ok::<u8, NumError>(v));
    } else {
        let hi = v as int / 10;
        let top = v as int / 100;
        let mid = hi % 10;
        let lo = v as int % 10;
        assert(hi / 10 == top) by {
            assert(v as int / 10 / 10 == v as int / 100) by (nonlinear_arith);
        }
        assert(10 <= hi <= 25);
        assert(1 <= top <= 2);
        assert(dec_digits((v as nat) / 10 / 10) =~= seq![digit_char(top)]);
        assert(dec_digits((v as nat) / 10) =~= seq![digit_char(top), digit_char(mid)]);
        assert(s =~= seq![digit_char(top), digit_char(mid), digit_char(lo)]);
        assert(digit_val(s[0]) == top);
        assert(digit_val(s[1]) == mid);
        assert(digit_val(s[2]) == lo);
        assert(top * 10 + mid == hi);
        assert(hi * 10 + lo == v as int);
        let s1 = s.drop_first();
        let s2 = s1.drop_first();
        assert(s1 =~= seq![digit_char(mid), digit_char(lo)]);
        assert(s2 =~= seq![digit_char(lo)]);
        assert(s2.drop_first() =~= Seq::<char>::empty());
        assert(parse_digits(s, 0) == parse_digits(s1, top));
        assert(parse_digits(s1, top) == parse_digits(s2, hi));
        assert(parse_digits(s2, hi) == parse_digits(s2.drop_first(), v as int));
        assert(parse_digits(s2.drop_first(), v as int) == Ok::<u8, NumError>(v));
    }
}

} // verus!
