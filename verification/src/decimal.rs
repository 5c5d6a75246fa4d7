//! Decimal numerals: writing a number as text and reading it back.

use vstd::prelude::*;
use vstd::string::*;

verus! {

/// The character that stands for the digit `d`.
pub open spec fn digit_char(d: nat) -> char {
    if d == 0 {
        '0'
    } else if d == 1 {
        '1'
    } else if d == 2 {
        '2'
    } else if d == 3 {
        '3'
    } else if d == 4 {
        '4'
    } else if d == 5 {
        '5'
    } else if d == 6 {
        '6'
    } else if d == 7 {
        '7'
    } else if d == 8 {
        '8'
    } else {
        '9'
    }
}

/// Whether `c` is one of `'0'..='9'`.
pub open spec fn is_digit(c: char) -> bool {
    '0' <= c <= '9'
}

/// The number that the digit `c` stands for.
pub open spec fn digit_value(c: char) -> nat
    recommends
        is_digit(c),
{
    (c as nat - '0' as nat) as nat
}

/// The shortest decimal numeral of `n`: no sign and no leading zero, with `0`
/// written as `"0"`.
pub open spec fn decimal(n: nat) -> Seq<char>
    decreases n,
{
    if n < 10 {
        seq![digit_char(n)]
    } else {
        decimal(n / 10).push(digit_char(n % 10))
    }
}

/// Whether `s` consists of decimal digits only.
pub open spec fn all_digits(s: Seq<char>) -> bool {
    forall|i: int| 0 <= i < s.len() ==> is_digit(#[trigger] s[i])
}

/// The number that a sequence of digits denotes, most significant first.
pub open spec fn digits_value(s: Seq<char>) -> nat
    decreases s.len(),
{
    if s.len() == 0 {
        0
    } else {
        digits_value(s.drop_last()) * 10 + digit_value(s.last())
    }
}

/// What an unsigned numeral denotes: an optional `+`, then at least one digit
/// and nothing else. Leading zeros are accepted. Anything else denotes
/// nothing.
pub open spec fn numeral_value(s: Seq<char>) -> Option<nat> {
    let digits = if s.len() > 0 && s[0] == '+' {
        s.skip(1)
    } else {
        s
    };
    if digits.len() > 0 && all_digits(digits) {
        Some(digits_value(digits))
    } else {
        None
    }
}

/// What `s` denotes as a `usize`: its numeral value where that fits the
/// type.
pub open spec fn usize_value(s: Seq<char>) -> Option<usize> {
    match numeral_value(s) {
        Some(n) if n <= usize::MAX => Some(n as usize),
        _ => None,
    }
}

/// Reading the numeral written for `n` gives `n` back.
pub proof fn lemma_decimal_round_trip(n: nat)
    ensures
        decimal(n).len() > 0,
        all_digits(decimal(n)),
        decimal(n)[0] != '+',
        digits_value(decimal(n)) == n,
        numeral_value(decimal(n)) == Some(n),
    decreases n,
{
    if n < 10 {
        assert(decimal(n).drop_last() =~= Seq::<char>::empty());
        assert(digits_value(decimal(n).drop_last()) == 0);
    } else {
        lemma_decimal_round_trip(n / 10);
        assert(decimal(n).drop_last() =~= decimal(n / 10));
    }
}

/// A longer digit sequence never denotes less than any of its prefixes.
pub proof fn lemma_digits_value_prefix(s: Seq<char>, k: int)
    requires
        0 <= k <= s.len(),
    ensures
        digits_value(s.take(k)) <= digits_value(s),
    decreases s.len() - k,
{
    if k == s.len() {
        assert(s.take(k) =~= s);
    } else {
        lemma_digits_value_prefix(s.drop_last(), k);
        assert(s.drop_last().take(k) =~= s.take(k));
    }
}

/// The one-character text of a digit.
fn digit_text(d: u64) -> (r: &'static str)
    requires
        d < 10,
    ensures
        r@ == seq![digit_char(d as nat)],
{
    proof {
        reveal_strlit("0");
        reveal_strlit("1");
        reveal_strlit("2");
        reveal_strlit("3");
        reveal_strlit("4");
        reveal_strlit("5");
        reveal_strlit("6");
        reveal_strlit("7");
        reveal_strlit("8");
        reveal_strlit("9");
    }
    if d == 0 {
        "0"
    } else if d == 1 {
        "1"
    } else if d == 2 {
        "2"
    } else if d == 3 {
        "3"
    } else if d == 4 {
        "4"
    } else if d == 5 {
        "5"
    } else if d == 6 {
        "6"
    } else if d == 7 {
        "7"
    } else if d == 8 {
        "8"
    } else {
        "9"
    }
}

/// Writes `n` as a decimal numeral.
pub fn format_decimal(n: u64) -> (r: String)
    ensures
        r@ == decimal(n as nat),
    decreases n,
{
    if n < 10 {
        String::from_str(digit_text(n))
    } else {
        let mut r = format_decimal(n / 10);
        r.append(digit_text(n % 10));
        r
    }
}

/// The value of a digit character, if it is one.
fn digit_of(c: char) -> (r: Option<usize>)
    ensures
        match r {
            Some(d) => is_digit(c) && d == digit_value(c),
            None => !is_digit(c),
        },
{
    if '0' <= c && c <= '9' {
        Some((c as u32 - '0' as u32) as usize)
    } else {
        None
    }
}

/// Reads an unsigned decimal numeral. Gives `None` for text that is no
/// numeral and for a numeral too large for `usize`.
pub fn parse_decimal(s: &str) -> (r: Option<usize>)
    ensures
        r == usize_value(s@),
{
    let len = s.unicode_len();
    let ghost signed = s@.len() > 0 && s@[0] == '+';
    let ghost digits = if signed {
        s@.skip(1)
    } else {
        s@
    };
    let ghost offset: int = if signed {
        1
    } else {
        0
    };
    let mut value: usize = 0;
    let mut count: usize = 0;
    let mut i: usize = 0;
    for c in it: s.chars()
        invariant
            it.seq() == s@,
            len == s@.len(),
            i == it.index(),
            signed == (s@.len() > 0 && s@[0] == '+'),
            digits == if signed { s@.skip(1) } else { s@ },
            offset == if signed { 1int } else { 0int },
            i == 0 ==> count == 0 && value == 0,
            i > 0 ==> count == i - offset,
            all_digits(digits.take(count as int)),
            value == digits_value(digits.take(count as int)),
    {
        if i > 0 || c != '+' {
            proof {
                assert(digits.take(count + 1).drop_last() =~= digits.take(count as int));
                lemma_digits_value_prefix(digits, count + 1);
            }
            let d = match digit_of(c) {
                Some(d) => d,
                None => {
                    return None;
                },
            };
            let tens = match value.checked_mul(10) {
                Some(t) => t,
                None => {
                    return None;
                },
            };
            value = match tens.checked_add(d) {
                Some(v) => v,
                None => {
                    return None;
                },
            };
            count += 1;
        }
        i += 1;
    }
    proof {
        assert(digits.take(count as int) =~= digits);
    }
    if count == 0 {
        None
    } else {
        Some(value)
    }
}

} // verus!
