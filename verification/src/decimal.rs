//! Decimal numbers as text.
use crate::text::to_chars;
use vstd::prelude::*;

verus! {

/// The character that stands for the digit `d`.
pub open spec fn digit_char(d: nat) -> char {
    if d == 0 {
        '0'
    } else if d == 1 {
        '1'
    } else if d == 2 {
        '2'
    } else if d == 3 {
        '3'
    } else if d == 4 {
        '4'
    } else if d == 5 {
        '5'
    } else if d == 6 {
        '6'
    } else if d == 7 {
        '7'
    } else if d == 8 {
        '8'
    } else {
        '9'
    }
}

/// A natural number in decimal, without leading zeros.
pub open spec fn digits(n: nat) -> Seq<char>
    decreases n,
{
    if n < 10 {
        seq![digit_char(n)]
    } else {
        digits(n / 10).push(digit_char(n % 10))
    }
}

/// An integer in decimal.
pub open spec fn decimal(n: int) -> Seq<char> {
    if n < 0 {
        seq!['-'] + digits((-n) as nat)
    } else {
        digits(n as nat)
    }
}

fn push_digits(out: &mut String, n: u64)
    ensures
        final(out)@ == old(out)@ + digits(n as nat),
    decreases n,
{
    if n >= 10 {
        push_digits(out, n / 10);
    }
    let d: u64 = n % 10;
    let c: char = match d {
        0 => '0',
        1 => '1',
        2 => '2',
        3 => '3',
        4 => '4',
        5 => '5',
        6 => '6',
        7 => '7',
        8 => '8',
        _ => '9',
    };
    out.push(c);
}

/// `n` in decimal.
pub fn u64_text(n: u64) -> (r: String)
    ensures
        r@ == decimal(n as int),
{
    let mut out = String::new();
    push_digits(&mut out, n);
    out
}

/// `n` in decimal.
pub fn usize_text(n: usize) -> (r: String)
    ensures
        r@ == decimal(n as int),
{
    u64_text(n as u64)
}

/// `n` in decimal.
pub fn i64_text(n: i64) -> (r: String)
    ensures
        r@ == decimal(n as int),
{
    let mut out = String::new();
    if n < 0 {
        out.push('-');
        let magnitude: u64 = (-(n as i128)) as u64;
        push_digits(&mut out, magnitude);
    } else {
        push_digits(&mut out, n as u64);
    }
    out
}

/// A decimal digit.
pub open spec fn is_digit(c: char) -> bool {
    '0' <= c <= '9'
}

/// What a digit is worth.
pub open spec fn digit_value(c: char) -> nat {
    (c as nat - '0' as nat) as nat
}

/// A text of digits and nothing else.
pub open spec fn all_digits(s: Seq<char>) -> bool {
    forall|i: int| 0 <= i < s.len() ==> is_digit(#[trigger] s[i])
}

/// The number that a text of digits stands for.
pub open spec fn digits_value(s: Seq<char>) -> nat
    decreases s.len(),
{
    if s.len() == 0 {
        0
    } else {
        digits_value(s.drop_last()) * 10 + digit_value(s.last())
    }
}

/// The natural number that `s` stands for: one digit or more.
pub open spec fn read_digits(s: Seq<char>) -> Option<nat> {
    if s.len() > 0 && all_digits(s) {
        Some(digits_value(s))
    } else {
        None
    }
}

/// The natural number that `s` stands for, with or without a plus sign.
pub open spec fn read_unsigned(s: Seq<char>) -> Option<nat> {
    if s.len() > 0 && s[0] == '+' {
        read_digits(s.drop_first())
    } else {
        read_digits(s)
    }
}

/// The integer that `s` stands for, with or without a sign.
pub open spec fn read_signed(s: Seq<char>) -> Option<int> {
    if s.len() > 0 && s[0] == '-' {
        match read_digits(s.drop_first()) {
            Some(n) => Some(-(n as int)),
            None => None,
        }
    } else {
        match read_unsigned(s) {
            Some(n) => Some(n as int),
            None => None,
        }
    }
}

proof fn digits_value_grows(s: Seq<char>, k: int)
    requires
        0 <= k <= s.len(),
    ensures
        digits_value(s.take(k)) <= digits_value(s),
    decreases s.len() - k,
{
    if k < s.len() {
        digits_value_grows(s, k + 1);
        assert(s.take(k + 1).drop_last() == s.take(k));
    } else {
        assert(s.take(k) == s);
    }
}

/// Reads `chars[from..]` as a number of at most `bound`.
fn parse_digits(chars: &Vec<char>, from: usize, bound: u64) -> (r: Option<u64>)
    requires
        from <= chars@.len(),
    ensures
        match r {
            Some(v) => read_digits(chars@.skip(from as int)) == Some(v as nat) && v <= bound,
            None => match read_digits(chars@.skip(from as int)) {
                Some(n) => n > bound,
                None => true,
            },
        },
{
    let ghost all = chars@.skip(from as int);
    if from == chars.len() {
        return None;
    }
    let mut value: u64 = 0;
    let mut i: usize = from;
    assert(all.take(0) == Seq::<char>::empty());
    while i < chars.len()
        invariant
            from <= i <= chars@.len(),
            all == chars@.skip(from as int),
            all_digits(all.take(i - from)),
            value == digits_value(all.take(i - from)),
            value <= bound,
        decreases chars@.len() - i,
    {
        let c = chars[i];
        proof {
            assert(all[i - from] == c);
            assert(all.take(i - from + 1).drop_last() == all.take(i - from));
            assert(all.take(i - from + 1).last() == c);
        }
        if !('0' <= c && c <= '9') {
            return None;
        }
        let d: u64 = c as u64 - '0' as u64;
        let wide: u128 = value as u128 * 10 + d as u128;
        assert(wide == digits_value(all.take(i - from + 1)));
        if wide > bound as u128 {
            proof {
                digits_value_grows(all, i - from + 1);
            }
            return None;
        }
        value = wide as u64;
        proof {
            assert forall|k: int| 0 <= k < i - from + 1 implies is_digit(
                #[trigger] all.take(i - from + 1)[k],
            ) by {
                if k < i - from {
                    assert(all.take(i - from)[k] == all[k]);
                }
            }
        }
        i += 1;
    }
    assert(all.take(all.len() as int) == all);
    Some(value)
}

/// Reads a `u64`.
pub fn parse_u64(s: &str) -> (r: Option<u64>)
    ensures
        r == match read_unsigned(s@) {
            Some(n) if n <= u64::MAX => Some(n as u64),
            _ => None,
        },
{
    let chars = to_chars(s);
    let from: usize = if chars.len() > 0 && chars[0] == '+' {
        1
    } else {
        0
    };
    proof {
        assert(s@.skip(0) == s@);
        if s@.len() > 0 {
            assert(s@.skip(1) == s@.drop_first());
        }
    }
    parse_digits(&chars, from, u64::MAX)
}

/// Reads a `usize`.
pub fn parse_usize(s: &str) -> (r: Option<usize>)
    ensures
        r == match read_unsigned(s@) {
            Some(n) if n <= usize::MAX => Some(n as usize),
            _ => None,
        },
{
    match parse_u64(s) {
        Some(n) => if n <= usize::MAX as u64 {
            Some(n as usize)
        } else {
            None
        },
        None => None,
    }
}

/// Reads an `i64`.
pub fn parse_i64(s: &str) -> (r: Option<i64>)
    ensures
        r == match read_signed(s@) {
            Some(n) if i64::MIN <= n <= i64::MAX => Some(n as i64),
            _ => None,
        },
{
    let chars = to_chars(s);
    proof {
        assert(s@.skip(0) == s@);
        if s@.len() > 0 {
            assert(s@.skip(1) == s@.drop_first());
        }
    }
    if chars.len() > 0 && chars[0] == '-' {
        match parse_digits(&chars, 1, 0x8000_0000_0000_0000) {
            Some(n) => Some((-(n as i128)) as i64),
            None => None,
        }
    } else {
        let from: usize = if chars.len() > 0 && chars[0] == '+' {
            1
        } else {
            0
        };
        match parse_digits(&chars, from, 0x7fff_ffff_ffff_ffff) {
            Some(n) => Some(n as i64),
            None => None,
        }
    }
}

/// The digits of a natural number read back as that number.
pub proof fn law_digits_read_back(n: nat)
    ensures
        read_digits(digits(n)) == Some(n),
    decreases n,
{
    if n >= 10 {
        law_digits_read_back(n / 10);
        assert(digits(n).drop_last() == digits(n / 10));
        assert(digits(n).last() == digit_char(n % 10));
        assert forall|i: int| 0 <= i < digits(n).len() implies is_digit(#[trigger] digits(n)[i]) by {
            if i < digits(n).len() - 1 {
                assert(digits(n)[i] == digits(n / 10)[i]);
            }
        }
    } else {
        assert(digits(n).drop_last() == Seq::<char>::empty());
        assert(digits_value(digits(n).drop_last()) == 0);
    }
}

/// An integer written in decimal reads back as that integer.
pub proof fn law_decimal_reads_back(n: int)
    ensures
        read_signed(decimal(n)) == Some(n),
{
    if n < 0 {
        law_digits_read_back((-n) as nat);
        assert(decimal(n).drop_first() == digits((-n) as nat));
    } else {
        law_digits_read_back(n as nat);
        assert(is_digit(digits(n as nat)[0]));
    }
}

/// Different numbers are written differently.
pub proof fn law_decimals_differ(a: int, b: int)
    ensures
        decimal(a) == decimal(b) <==> a == b,
{
    law_decimal_reads_back(a);
    law_decimal_reads_back(b);
}

/// A text of digits stands for a number, each further digit for ten times as much
/// and itself; a sign may stand in front, and a text with anything else in it stands
/// for no number.
pub proof fn law_numbers_are_read_by_place(s: Seq<char>, c: char)
    ensures
        read_digits(s) is Some <==> s.len() > 0 && forall|i: int|
            0 <= i < s.len() ==> '0' <= #[trigger] s[i] <= '9',
        read_digits(s) matches Some(n) ==> ('0' <= c <= '9' ==> read_digits(s.push(c)) == Some(
            (10 * n + (c as nat - '0' as nat)) as nat,
        )),
        '0' <= c <= '9' ==> read_digits(seq![c]) == Some((c as nat - '0' as nat) as nat),
        !('0' <= c <= '9') ==> read_digits(s.push(c)) is None,
        read_digits(s) matches Some(n) ==> {
            &&& read_unsigned(s) == Some(n)
            &&& read_signed(s) == Some(n as int)
            &&& read_unsigned(seq!['+'] + s) == Some(n)
            &&& read_signed(seq!['+'] + s) == Some(n as int)
            &&& read_signed(seq!['-'] + s) == Some(-(n as int))
            &&& read_unsigned(seq!['-'] + s) is None
        },
        read_digits(s) is None && s.len() > 0 && s[0] != '+' && s[0] != '-' ==> read_unsigned(
            s,
        ) is None && read_signed(s) is None,
        read_unsigned(Seq::empty()) is None,
        read_signed(Seq::empty()) is None,
{
    let longer = s.push(c);
    assert(longer.drop_last() =~= s);
    if read_digits(s) is Some && '0' <= c <= '9' {
        assert forall|i: int| 0 <= i < longer.len() implies is_digit(#[trigger] longer[i]) by {
            if i < s.len() {
                assert(is_digit(s[i]));
            }
        }
    }
    if !('0' <= c <= '9') {
        assert(!is_digit(longer[s.len() as int]));
    }
    let one = seq![c];
    assert(one.drop_last() =~= Seq::<char>::empty());
    assert(digits_value(one.drop_last()) == 0);
    if read_digits(s) is Some {
        assert(is_digit(s[0]));
        assert((seq!['+'] + s).drop_first() =~= s);
        assert((seq!['-'] + s).drop_first() =~= s);
        assert(!is_digit((seq!['-'] + s)[0]));
    }
}

} // verus!
