//! Decimal numbers as text.
use vstd::arithmetic::div_mod::lemma_div_denominator;
use vstd::arithmetic::power::{lemma_pow0, lemma_pow1, lemma_pow_positive, pow};
use vstd::prelude::*;
use crate::text::chars_of;

verus! {

/// The character of the decimal digit `d`.
pub open spec fn digit_char(d: nat) -> char {
    ('0' as u32 + d) as char
}

/// The decimal notation of `n`, without leading zeros.
pub open spec fn decimal(n: nat) -> Seq<char>
    decreases n,
{
    if n < 10 {
        seq![digit_char(n)]
    } else {
        decimal(n / 10).push(digit_char(n % 10))
    }
}

/// Whether `c` is a decimal digit.
pub open spec fn is_digit(c: char) -> bool {
    '0' <= c <= '9'
}

/// Whether every character of `s` is a decimal digit.
pub open spec fn all_digits(s: Seq<char>) -> bool {
    forall|i: int| 0 <= i < s.len() ==> is_digit(#[trigger] s[i])
}

/// The number that the digits `s` denote.
pub open spec fn digits_value(s: Seq<char>) -> nat
    decreases s.len(),
{
    if s.len() == 0 {
        0
    } else {
        digits_value(s.drop_last()) * 10 + (s.last() as u32 - '0' as u32) as nat
    }
}

/// `s` without an initial plus sign.
pub open spec fn unsigned(s: Seq<char>) -> Seq<char> {
    if s.len() > 0 && s[0] == '+' {
        s.drop_first()
    } else {
        s
    }
}

/// The number that `s` denotes: an optional plus sign and at least one digit,
/// nothing else, and no more than a `usize` holds.
pub open spec fn number_of(s: Seq<char>) -> Option<usize> {
    let digits = unsigned(s);
    if digits.len() > 0 && all_digits(digits) && digits_value(digits) <= usize::MAX {
        Some(digits_value(digits) as usize)
    } else {
        None
    }
}

/// The character of a digit.
fn digit(d: u64) -> (c: char)
    requires
        d < 10,
    ensures
        c == digit_char(d as nat),
{
    if d == 0 {
        '0'
    } else if d == 1 {
        '1'
    } else if d == 2 {
        '2'
    } else if d == 3 {
        '3'
    } else if d == 4 {
        '4'
    } else if d == 5 {
        '5'
    } else if d == 6 {
        '6'
    } else if d == 7 {
        '7'
    } else if d == 8 {
        '8'
    } else {
        '9'
    }
}

/// Writes `n` in decimal notation.
pub fn decimal_text(n: u64) -> (s: String)
    ensures
        s@ == decimal(n as nat),
    decreases n,
{
    if n < 10 {
        let mut s = String::new();
        s.push(digit(n));
        assert(s@ =~= decimal(n as nat));
        s
    } else {
        let mut s = decimal_text(n / 10);
        s.push(digit(n % 10));
        s
    }
}

/// A prefix of digits denotes no more than all of them.
proof fn lemma_prefix_value(s: Seq<char>, k: int)
    requires
        0 <= k <= s.len(),
        all_digits(s),
    ensures
        digits_value(s.take(k)) <= digits_value(s),
    decreases s.len() - k,
{
    if k < s.len() {
        lemma_prefix_value(s, k + 1);
        assert(s.take(k + 1).drop_last() == s.take(k));
        assert(is_digit(s[k]));
    } else {
        assert(s.take(k) == s);
    }
}

/// Reads a number; `None` where the text denotes none that fits.
pub fn parse_number(s: &str) -> (n: Option<usize>)
    ensures
        n == number_of(s@),
{
    let chars = chars_of(s);
    let mut i: usize = 0;
    if chars.len() > 0 && chars[0] == '+' {
        i = 1;
    }
    let ghost digits = unsigned(s@);
    let start: usize = i;
    assert(digits == s@.skip(start as int));
    if i == chars.len() {
        return None;
    }
    let mut value: usize = 0;
    assert(digits.take(0) =~= Seq::<char>::empty());
    while i < chars.len()
        invariant
            chars@ == s@,
            start <= i <= chars@.len(),
            digits == s@.skip(start as int),
            digits == unsigned(s@),
            forall|j: int| start <= j < i ==> is_digit(#[trigger] chars@[j]),
            value == digits_value(digits.take(i - start)),
        decreases chars@.len() - i,
    {
        let c: char = chars[i];
        assert(digits[i - start] == c);
        if c < '0' || c > '9' {
            return None;
        }
        proof {
            assert(digits.take(i + 1 - start).drop_last() == digits.take(i - start));
            if all_digits(digits) {
                lemma_prefix_value(digits, i + 1 - start);
            }
        }
        let d: usize = c as usize - '0' as usize;
        if value > (usize::MAX - d) / 10 {
            return None;
        }
        value = value * 10 + d;
        i += 1;
    }
    proof {
        assert(digits.take(i - start) == digits);
        assert forall|j: int| 0 <= j < digits.len() implies is_digit(#[trigger] digits[j]) by {
            assert(is_digit(chars@[start + j]));
        }
    }
    Some(value)
}

/// The decimal notation consists of digits only, is not empty, and denotes the number.
pub proof fn lemma_decimal_denotes(n: nat)
    ensures
        all_digits(decimal(n)),
        decimal(n).len() > 0,
        digits_value(decimal(n)) == n,
    decreases n,
{
    if n < 10 {
        assert(decimal(n).drop_last() =~= Seq::<char>::empty());
        assert(digits_value(decimal(n).drop_last()) == 0);
    } else {
        lemma_decimal_denotes(n / 10);
        let shorter = decimal(n / 10);
        let s = decimal(n);
        assert(s.drop_last() =~= shorter);
        assert forall|i: int| 0 <= i < s.len() implies is_digit(#[trigger] s[i]) by {
            if i < shorter.len() {
                assert(is_digit(shorter[i]));
            }
        }
    }
}

/// Reading back a number that was written in decimal notation gives the number.
pub proof fn law_number_round_trip(n: usize)
    ensures
        number_of(decimal(n as nat)) == Some(n),
{
    lemma_decimal_denotes(n as nat);
    assert(is_digit(decimal(n as nat)[0]));
}

/// The decimal notation of a number has the digit of each power of ten in its place, and no zero
/// in front.
pub proof fn law_digits_stand_in_their_places(n: nat)
    ensures
        decimal(n).len() > 0,
        forall|i: int|
            0 <= i < decimal(n).len() ==> #[trigger] decimal(n)[decimal(n).len() - 1 - i] as int
                == 48 + (n as int / pow(10, i as nat)) % 10,
        n < pow(10, decimal(n).len()),
        decimal(n).len() > 1 ==> pow(10, (decimal(n).len() - 1) as nat) <= n,
    decreases n,
{
    lemma_pow0(10);
    lemma_pow1(10);
    let s = decimal(n);
    if n < 10 {
        assert(s[0] as int == 48 + n as int);
        assert((n as int / pow(10, 0)) % 10 == n);
    } else {
        law_digits_stand_in_their_places(n / 10);
        let shorter = decimal(n / 10);
        let k = shorter.len();
        reveal(pow);
        assert(pow(10, k + 1) == 10 * pow(10, k));
        assert(n < pow(10, k + 1)) by (nonlinear_arith)
            requires
                n / 10 < pow(10, k),
                pow(10, k + 1) == 10 * pow(10, k),
        ;
        if k > 1 {
            assert(pow(10, k) == 10 * pow(10, (k - 1) as nat));
            assert(pow(10, k) <= n) by (nonlinear_arith)
                requires
                    pow(10, (k - 1) as nat) <= n / 10,
                    pow(10, k) == 10 * pow(10, (k - 1) as nat),
            ;
        }
        assert forall|i: int| 0 <= i < s.len() implies #[trigger] s[s.len() - 1 - i] as int == 48
            + (n as int / pow(10, i as nat)) % 10 by {
            if i == 0 {
                assert(s.last() as int == 48 + n as int % 10);
                assert(n as int / 1 == n);
            } else {
                let below = (i - 1) as nat;
                assert(s[s.len() - 1 - i] == shorter[shorter.len() - 1 - (i - 1)]);
                assert(pow(10, i as nat) == 10 * pow(10, below));
                lemma_pow_positive(10, below);
                lemma_div_denominator(n as int, 10, pow(10, below));
                assert(n as int / 10 == (n / 10) as int);
            }
        }
    }
}

/// A number is read digit by digit from the left, as long as it fits; it may have one plus sign
/// in front, and nothing but digits otherwise.
pub proof fn law_number_is_read_digit_by_digit(digits: Seq<char>, next: char)
    ensures
        number_of(Seq::<char>::empty()) is None,
        number_of(seq!['+']) is None,
        '0' <= next <= '9' ==> number_of(seq![next]) == Some((next as int - 48) as usize),
        digits.len() > 0 && (forall|i: int| 0 <= i < digits.len() ==> '0' <= #[trigger] digits[i]
            <= '9') ==> number_of(seq!['+'] + digits) == number_of(digits) && match number_of(
            digits,
        ) {
            Some(value) => '0' <= next <= '9' ==> number_of(digits.push(next)) == (if value * 10 + (
            next as int - 48) <= usize::MAX {
                Some((value * 10 + (next as int - 48)) as usize)
            } else {
                None
            }),
            None => number_of(digits.push(next)) is None,
        },
        (exists|i: int|
            0 <= i < digits.len() && !('0' <= #[trigger] digits[i] <= '9') && (i > 0 || digits[0]
                != '+')) ==> number_of(digits) is None,
{
    assert(unsigned(Seq::<char>::empty()) =~= Seq::<char>::empty());
    assert(unsigned(seq!['+']) =~= Seq::<char>::empty());
    if '0' <= next <= '9' {
        let one = seq![next];
        assert(unsigned(one) == one);
        assert(one.drop_last() =~= Seq::<char>::empty());
        assert(digits_value(one.drop_last()) == 0);
        assert(digits_value(one) == (next as u32 - '0' as u32) as nat);
        assert(all_digits(one));
    }
    if digits.len() > 0 && (forall|i: int|
        0 <= i < digits.len() ==> '0' <= #[trigger] digits[i] <= '9') {
        assert('0' <= digits[0]);
        assert(unsigned(digits) == digits);
        assert(unsigned(seq!['+'] + digits) =~= digits);
        let more = digits.push(next);
        assert(more[0] == digits[0]);
        assert(unsigned(more) == more);
        assert(more.drop_last() =~= digits);
        assert(all_digits(digits));
        if '0' <= next <= '9' {
            assert forall|i: int| 0 <= i < more.len() implies is_digit(#[trigger] more[i]) by {
                if i < digits.len() {
                    assert(more[i] == digits[i]);
                }
            }
        } else {
            assert(!is_digit(more[digits.len() as int]));
        }
        if all_digits(more) {
            lemma_prefix_value(more, digits.len() as int);
            assert(more.take(digits.len() as int) =~= digits);
        }
    }
    if exists|i: int|
        0 <= i < digits.len() && !('0' <= #[trigger] digits[i] <= '9') && (i > 0 || digits[0]
            != '+') {
        let i = choose|i: int|
            0 <= i < digits.len() && !('0' <= #[trigger] digits[i] <= '9') && (i > 0 || digits[0]
                != '+');
        let bare = unsigned(digits);
        if digits[0] == '+' {
            assert(bare[i - 1] == digits[i]);
            assert(!is_digit(bare[i - 1]));
        } else {
            assert(!is_digit(bare[i]));
        }
    }
}

} // verus!
