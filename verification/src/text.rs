//! Small text helpers shared by the codec and the formatter: digit
//! characters, decimal rendering, fixed-point rendering with two digits
//! after the decimal point, and string equality.

use vstd::prelude::*;
use vstd::string::StrSliceExecFns;
use vstd::string::StringExecFns;

verus! {

/// The character for a digit value below sixteen, lower case.
pub open spec fn digit_char(v: int) -> char {
    if v == 0 {
        '0'
    } else if v == 1 {
        '1'
    } else if v == 2 {
        '2'
    } else if v == 3 {
        '3'
    } else if v == 4 {
        '4'
    } else if v == 5 {
        '5'
    } else if v == 6 {
        '6'
    } else if v == 7 {
        '7'
    } else if v == 8 {
        '8'
    } else if v == 9 {
        '9'
    } else if v == 10 {
        'a'
    } else if v == 11 {
        'b'
    } else if v == 12 {
        'c'
    } else if v == 13 {
        'd'
    } else if v == 14 {
        'e'
    } else {
        'f'
    }
}

/// The character for a digit value below sixteen, upper case.
pub open spec fn digit_char_upper(v: int) -> char {
    if v == 10 {
        'A'
    } else if v == 11 {
        'B'
    } else if v == 12 {
        'C'
    } else if v == 13 {
        'D'
    } else if v == 14 {
        'E'
    } else if v == 15 {
        'F'
    } else {
        digit_char(v)
    }
}

/// Decimal digits of a nonnegative integer, most significant first,
/// without padding.
pub open spec fn dec_chars(n: int) -> Seq<char>
    recommends
        n >= 0,
    decreases n,
{
    if n < 10 {
        seq![digit_char(n)]
    } else {
        dec_chars(n / 10).push(digit_char(n % 10))
    }
}

/// Whether a character is a hexadecimal digit, either case.
pub open spec fn is_hex_digit(c: char) -> bool {
    ('0' <= c && c <= '9') || ('a' <= c && c <= 'f') || ('A' <= c && c <= 'F')
}

/// The value of a hexadecimal digit character, either case.
pub open spec fn hex_digit_val(c: char) -> int
    recommends
        is_hex_digit(c),
{
    if '0' <= c && c <= '9' {
        c as int - '0' as int
    } else if 'a' <= c && c <= 'f' {
        10 + c as int - 'a' as int
    } else {
        10 + c as int - 'A' as int
    }
}

/// Value of a hexadecimal digit character, or `None` if it is not one.
pub fn hex_digit_value(c: char) -> (r: Option<u8>)
    ensures
        r is Some <==> is_hex_digit(c),
        r is Some ==> r->0 == hex_digit_val(c) && r->0 < 16,
{
    if '0' <= c && c <= '9' {
        Some((c as u8) - ('0' as u8))
    } else if 'a' <= c && c <= 'f' {
        Some(10 + (c as u8) - ('a' as u8))
    } else if 'A' <= c && c <= 'F' {
        Some(10 + (c as u8) - ('A' as u8))
    } else {
        None
    }
}

/// A single lower-case digit as a string slice.
pub fn digit_str(v: u8) -> (s: &'static str)
    requires
        v < 16,
    ensures
        s@ == seq![digit_char(v as int)],
{
    let s: &'static str = match v {
        0 => "0",
        1 => "1",
        2 => "2",
        3 => "3",
        4 => "4",
        5 => "5",
        6 => "6",
        7 => "7",
        8 => "8",
        9 => "9",
        10 => "a",
        11 => "b",
        12 => "c",
        13 => "d",
        14 => "e",
        _ => "f",
    };
    proof {
        reveal_strlit("0");
        reveal_strlit("1");
        reveal_strlit("2");
        reveal_strlit("3");
        reveal_strlit("4");
        reveal_strlit("5");
        reveal_strlit("6");
        reveal_strlit("7");
        reveal_strlit("8");
        reveal_strlit("9");
        reveal_strlit("a");
        reveal_strlit("b");
        reveal_strlit("c");
        reveal_strlit("d");
        reveal_strlit("e");
        reveal_strlit("f");
        assert(s@ =~= seq![digit_char(v as int)]);
    }
    s
}

/// A single upper-case digit as a string slice.
pub fn digit_str_upper(v: u8) -> (s: &'static str)
    requires
        v < 16,
    ensures
        s@ == seq![digit_char_upper(v as int)],
{
    let s: &'static str = match v {
        0 => "0",
        1 => "1",
        2 => "2",
        3 => "3",
        4 => "4",
        5 => "5",
        6 => "6",
        7 => "7",
        8 => "8",
        9 => "9",
        10 => "A",
        11 => "B",
        12 => "C",
        13 => "D",
        14 => "E",
        _ => "F",
    };
    proof {
        reveal_strlit("0");
        reveal_strlit("1");
        reveal_strlit("2");
        reveal_strlit("3");
        reveal_strlit("4");
        reveal_strlit("5");
        reveal_strlit("6");
        reveal_strlit("7");
        reveal_strlit("8");
        reveal_strlit("9");
        reveal_strlit("A");
        reveal_strlit("B");
        reveal_strlit("C");
        reveal_strlit("D");
        reveal_strlit("E");
        reveal_strlit("F");
        assert(s@ =~= seq![digit_char_upper(v as int)]);
    }
    s
}

/// Division rounded to the nearest integer, half away from zero, for
/// nonnegative operands.
pub open spec fn round_div(num: int, den: int) -> int
    recommends
        num >= 0,
        den > 0,
{
    (2 * num + den) / (2 * den)
}

proof fn lemma_round_div_parts(num: int, den: int, q: int, rem: int)
    requires
        den > 0,
        num >= 0,
        q == num / den,
        rem == num % den,
    ensures
        0 <= q <= num,
        round_div(num, den) == if 2 * rem >= den {
            q + 1
        } else {
            q
        },
{
    vstd::arithmetic::div_mod::lemma_fundamental_div_mod(num, den);
    assert(num == den * q + rem);
    assert(0 <= q <= num) by (nonlinear_arith)
        requires
            den > 0,
            num >= 0,
            num == den * q + rem,
            0 <= rem < den,
    ;
    if 2 * rem >= den {
        assert(2 * num + den == (2 * den) * (q + 1) + (2 * rem - den)) by (nonlinear_arith)
            requires
                num == den * q + rem,
        ;
        vstd::arithmetic::div_mod::lemma_fundamental_div_mod_converse_div(
            2 * num + den,
            2 * den,
            q + 1,
            2 * rem - den,
        );
    } else {
        assert(2 * num + den == (2 * den) * q + (2 * rem + den)) by (nonlinear_arith)
            requires
                num == den * q + rem,
        ;
        vstd::arithmetic::div_mod::lemma_fundamental_div_mod_converse_div(
            2 * num + den,
            2 * den,
            q,
            2 * rem + den,
        );
    }
}

/// An upper bound on the rounded quotient: it is at most `k` whenever
/// the numerator is at most `k` times the denominator.
pub proof fn lemma_round_div_le(num: int, den: int, k: int)
    requires
        den > 0,
        0 <= num,
        0 <= k,
        num <= k * den,
    ensures
        round_div(num, den) <= k,
{
    assert(2 * num + den < (2 * den) * (k + 1)) by (nonlinear_arith)
        requires
            den > 0,
            num <= k * den,
    ;
    vstd::arithmetic::div_mod::lemma_multiply_divide_lt(2 * num + den, 2 * den, k + 1);
}

/// Quotient of `num` by `den`, rounded half away from zero.
pub fn round_div_u32(num: u32, den: u32) -> (r: u32)
    requires
        den > 0,
        num < 0x8000_0000,
    ensures
        r == round_div(num as int, den as int),
{
    let q = num / den;
    let rem = num % den;
    proof {
        lemma_round_div_parts(num as int, den as int, q as int, rem as int);
    }
    if rem >= den - rem {
        q + 1
    } else {
        q
    }
}

/// A nonnegative amount of hundredths, rendered with exactly two digits
/// after the decimal point (`62` becomes `0.62`, `19629` becomes `196.29`).
pub open spec fn centi_chars(c: int) -> Seq<char>
    recommends
        c >= 0,
{
    dec_chars(c / 100) + seq!['.', digit_char((c % 100) / 10), digit_char(c % 10)]
}

/// Render an amount of hundredths with two digits after the decimal point.
pub fn centi_str(c: u32) -> (s: String)
    ensures
        s@ == centi_chars(c as int),
{
    let mut s = u32_dec_str(c / 100);
    s.append(".");
    s.append(digit_str(((c % 100) / 10) as u8));
    s.append(digit_str((c % 10) as u8));
    proof {
        reveal_strlit(".");
        assert(s@ =~= centi_chars(c as int));
    }
    s
}

/// Whether two strings hold the same characters.
pub fn str_eq(a: &str, b: &str) -> (r: bool)
    ensures
        r == (a@ == b@),
{
    let an = a.unicode_len();
    let bn = b.unicode_len();
    if an != bn {
        return false;
    }
    let mut i: usize = 0;
    while i < an
        invariant
            an == a@.len(),
            an == b@.len(),
            0 <= i <= an,
            forall|j: int| 0 <= j < i ==> a@[j] == b@[j],
        decreases an - i,
    {
        if a.get_char(i) != b.get_char(i) {
            return false;
        }
        i += 1;
    }
    proof {
        assert(a@ =~= b@);
    }
    true
}

/// The digit characters carry their own value: reading a digit character
/// back as a hexadecimal digit yields the value it was made from.
pub proof fn lemma_digit_char_val(v: int)
    requires
        0 <= v < 16,
    ensures
        is_hex_digit(digit_char(v)),
        hex_digit_val(digit_char(v)) == v,
        is_hex_digit(digit_char_upper(v)),
        hex_digit_val(digit_char_upper(v)) == v,
{
}

/// Render a nonnegative integer in decimal.
pub fn u32_dec_str(v: u32) -> (s: String)
    ensures
        s@ == dec_chars(v as int),
    decreases v,
{
    if v < 10 {
        let mut s = String::new();
        s.append(digit_str(v as u8));
        proof {
            assert(s@ =~= dec_chars(v as int));
        }
        s
    } else {
        let mut s = u32_dec_str(v / 10);
        s.append(digit_str((v % 10) as u8));
        proof {
            assert(s@ =~= dec_chars(v as int));
        }
        s
    }
}

} // verus!
