//! Decimal parsing and decimal / hexadecimal formatting of unsigned
//! integers, specified over the `Seq<char>` view of the text.

use vstd::prelude::*;

use crate::text::push_char;

verus! {

/// Whether `c` is an ASCII decimal digit.
pub open spec fn is_digit(c: char) -> bool {
    '0' <= c <= '9'
}

/// The value of an ASCII decimal digit.
pub open spec fn digit_value(c: char) -> int {
    (c as int) - ('0' as int)
}

/// Whether every char of `s` is an ASCII decimal digit.
pub open spec fn all_digits(s: Seq<char>) -> bool {
    forall|i: int| 0 <= i < s.len() ==> is_digit(#[trigger] s[i])
}

/// The number that the decimal digits `s` spell.
pub open spec fn digits_value(s: Seq<char>) -> int
    decreases s.len(),
{
    if s.len() == 0 {
        0
    } else {
        digits_value(s.drop_last()) * 10 + digit_value(s.last())
    }
}

/// What `FromStr` of an unsigned integer type whose largest value is `max`
/// returns: an optional `+` sign, then at least one ASCII digit and
/// nothing else, with a value that fits.
pub open spec fn parse_unsigned(s: Seq<char>, max: int) -> Option<int> {
    let d = if s.len() > 0 && s[0] == '+' {
        s.drop_first()
    } else {
        s
    };
    if d.len() > 0 && all_digits(d) && digits_value(d) <= max {
        Some(digits_value(d))
    } else {
        None
    }
}

/// The decimal text of `n`, without leading zeros (as `Display` writes it).
pub open spec fn decimal_spec(n: nat) -> Seq<char>
    decreases n,
{
    if n < 10 {
        seq![digit_char(n)]
    } else {
        decimal_spec(n / 10) + seq![digit_char(n % 10)]
    }
}

/// The ASCII digit for a value below ten.
pub open spec fn digit_char(d: nat) -> char {
    if d == 0 {
        '0'
    } else if d == 1 {
        '1'
    } else if d == 2 {
        '2'
    } else if d == 3 {
        '3'
    } else if d == 4 {
        '4'
    } else if d == 5 {
        '5'
    } else if d == 6 {
        '6'
    } else if d == 7 {
        '7'
    } else if d == 8 {
        '8'
    } else {
        '9'
    }
}

/// The uppercase hexadecimal digit for a value below sixteen.
pub open spec fn hex_digit_char(d: nat) -> char {
    if d < 10 {
        digit_char(d)
    } else if d == 10 {
        'A'
    } else if d == 11 {
        'B'
    } else if d == 12 {
        'C'
    } else if d == 13 {
        'D'
    } else if d == 14 {
        'E'
    } else {
        'F'
    }
}

/// The uppercase hexadecimal text of `n`, without leading zeros.
pub open spec fn hex_spec(n: nat) -> Seq<char>
    decreases n,
{
    if n < 16 {
        seq![hex_digit_char(n)]
    } else {
        hex_spec(n / 16) + seq![hex_digit_char(n % 16)]
    }
}

/// The uppercase hexadecimal text of `n`, padded with zeros to at least
/// two digits (as `format!("{:02X}", n)` writes it).
pub open spec fn hex2_spec(n: nat) -> Seq<char> {
    if n < 16 {
        seq!['0', hex_digit_char(n)]
    } else {
        hex_spec(n)
    }
}

proof fn lemma_digits_value_nonneg(s: Seq<char>)
    requires
        all_digits(s),
    ensures
        digits_value(s) >= 0,
    decreases s.len(),
{
    if s.len() > 0 {
        assert(all_digits(s.drop_last())) by {
            assert forall|i: int| 0 <= i < s.drop_last().len() implies is_digit(
                #[trigger] s.drop_last()[i],
            ) by {
                assert(s.drop_last()[i] == s[i]);
            }
        }
        lemma_digits_value_nonneg(s.drop_last());
        assert(is_digit(s[s.len() - 1]));
    }
}

/// Parses `s` as an unsigned integer no larger than `max`.
pub fn parse_bounded(s: &str, max: u64) -> (r: Option<u64>)
    ensures
        r matches Some(v) ==> parse_unsigned(s@, max as int) == Some(v as int),
        r is None ==> parse_unsigned(s@, max as int) is None,
{
    let cs = crate::text::chars_of(s);
    let n = cs.len();
    let start: usize = if n > 0 && cs[0] == '+' {
        1
    } else {
        0
    };
    let ghost d = if cs@.len() > 0 && cs@[0] == '+' {
        cs@.drop_first()
    } else {
        cs@
    };
    assert(d =~= cs@.skip(start as int));
    if start >= n {
        return None;
    }
    let mut acc: u128 = 0;
    let mut overflowed = false;
    let mut i = start;
    assert(cs@.subrange(start as int, start as int) =~= Seq::<char>::empty());
    while i < n
        invariant
            n == cs@.len(),
            start <= i <= n,
            d == cs@.skip(start as int),
            cs@ == s@,
            d == (if s@.len() > 0 && s@[0] == '+' {
                s@.drop_first()
            } else {
                s@
            }),
            all_digits(cs@.subrange(start as int, i as int)),
            !overflowed ==> acc == digits_value(cs@.subrange(start as int, i as int)) && acc
                <= max,
            overflowed ==> digits_value(cs@.subrange(start as int, i as int)) > max,
        decreases n - i,
    {
        let c = cs[i];
        if !('0' <= c && c <= '9') {
            assert(d[i - start] == cs@[i as int]);
            assert(!is_digit(d[i - start]));
            assert(!all_digits(d));
            return None;
        }
        let ghost prev = cs@.subrange(start as int, i as int);
        let ghost next = cs@.subrange(start as int, i + 1);
        assert(next.drop_last() =~= prev);
        assert(next.last() == c);
        assert(all_digits(next)) by {
            assert forall|j: int| 0 <= j < next.len() implies is_digit(#[trigger] next[j]) by {
                if j < prev.len() {
                    assert(next[j] == prev[j]);
                }
            }
        }
        proof {
            lemma_digits_value_nonneg(prev);
        }
        let dv = (c as u32 - '0' as u32) as u128;
        if !overflowed {
            let v = acc * 10 + dv;
            if v > max as u128 {
                overflowed = true;
            } else {
                acc = v;
            }
        }
        i += 1;
    }
    assert(cs@.subrange(start as int, n as int) =~= d);
    if overflowed {
        None
    } else {
        Some(acc as u64)
    }
}

/// The decimal text of `n`.
pub fn to_decimal(n: u64) -> (r: String)
    ensures
        r@ == decimal_spec(n as nat),
    decreases n,
{
    if n < 10 {
        let mut out = String::new();
        push_char(&mut out, char_of_digit(n as u32));
        assert(out@ =~= decimal_spec(n as nat));
        out
    } else {
        let mut out = to_decimal(n / 10);
        push_char(&mut out, char_of_digit((n % 10) as u32));
        out
    }
}

/// The uppercase hexadecimal text of `n`.
fn to_hex(n: u64) -> (r: String)
    ensures
        r@ == hex_spec(n as nat),
    decreases n,
{
    if n < 16 {
        let mut out = String::new();
        push_char(&mut out, char_of_hex_digit(n as u32));
        assert(out@ =~= hex_spec(n as nat));
        out
    } else {
        let mut out = to_hex(n / 16);
        push_char(&mut out, char_of_hex_digit((n % 16) as u32));
        out
    }
}

/// The ASCII digit for a value below ten.
fn char_of_digit(d: u32) -> (c: char)
    requires
        d < 10,
    ensures
        c == digit_char(d as nat),
{
    match d {
        0 => '0',
        1 => '1',
        2 => '2',
        3 => '3',
        4 => '4',
        5 => '5',
        6 => '6',
        7 => '7',
        8 => '8',
        _ => '9',
    }
}

/// The uppercase hexadecimal digit for a value below sixteen.
fn char_of_hex_digit(d: u32) -> (c: char)
    requires
        d < 16,
    ensures
        c == hex_digit_char(d as nat),
{
    match d {
        0 => '0',
        1 => '1',
        2 => '2',
        3 => '3',
        4 => '4',
        5 => '5',
        6 => '6',
        7 => '7',
        8 => '8',
        9 => '9',
        10 => 'A',
        11 => 'B',
        12 => 'C',
        13 => 'D',
        14 => 'E',
        _ => 'F',
    }
}

/// The uppercase hexadecimal text of `n`, at least two digits wide.
pub fn to_hex2(n: u16) -> (r: String)
    ensures
        r@ == hex2_spec(n as nat),
{
    if n < 16 {
        let mut out = String::new();
        push_char(&mut out, '0');
        push_char(&mut out, char_of_hex_digit(n as u32));
        assert(out@ =~= hex2_spec(n as nat));
        out
    } else {
        to_hex(n as u64)
    }
}

proof fn lemma_digit_char(d: nat)
    requires
        d < 10,
    ensures
        is_digit(digit_char(d)),
        digit_value(digit_char(d)) == d,
        digit_char(d) != '+',
{
}

/// The decimal text of a number spells it back: parsing what
/// `decimal_spec` writes gives the number.
pub proof fn lemma_decimal_roundtrip(n: nat)
    ensures
        decimal_spec(n).len() > 0,
        all_digits(decimal_spec(n)),
        digits_value(decimal_spec(n)) == n,
        decimal_spec(n)[0] != '+',
    decreases n,
{
    lemma_digit_char(n % 10);
    if n < 10 {
        assert(decimal_spec(n) =~= seq![digit_char(n)]);
        assert(decimal_spec(n).drop_last() =~= Seq::<char>::empty());
        assert(digits_value(Seq::<char>::empty()) == 0);
    } else {
        lemma_decimal_roundtrip(n / 10);
        let s = decimal_spec(n);
        let p = decimal_spec(n / 10);
        assert(s == p + seq![digit_char(n % 10)]);
        assert(s.drop_last() =~= p);
        assert((n / 10) * 10 + n % 10 == n);
        assert(all_digits(s)) by {
            assert forall|i: int| 0 <= i < s.len() implies is_digit(#[trigger] s[i]) by {
                if i < p.len() {
                    assert(s[i] == p[i]);
                }
            }
        }
        assert(s[0] == p[0]);
    }
}

/// Parsing the decimal text of a number that fits gives the number back.
pub proof fn lemma_parse_decimal(n: nat, max: int)
    requires
        n <= max,
    ensures
        parse_unsigned(decimal_spec(n), max) == Some(n as int),
{
    lemma_decimal_roundtrip(n);
}

} // verus!
