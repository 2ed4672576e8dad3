//! Decimal amounts as scaled integers.
//!
//! An amount is written as decimal digits with at most one `.`; it is read as
//! an integer number of the smallest unit of a ticker, that is, scaled by ten
//! to the power of the ticker's decimals.

use vstd::prelude::*;
use vstd::string::{StrSliceExecFns, StringExecFns};

verus! {

/// Why a decimal string is not an amount.
#[derive(Debug, Clone, Copy, PartialEq, Eq, Structural)]
pub enum AmountError {
    /// Not of the form digits, optional `.`, digits, with at least one digit.
    Malformed,
    /// More digits follow the `.` than the ticker has decimals.
    TooManyDecimals,
    /// The scaled value does not fit in 128 bits.
    Overflow,
}

pub open spec fn is_digit(c: char) -> bool {
    '0' <= c && c <= '9'
}

pub open spec fn digit_value(c: char) -> nat {
    (c as u32 - '0' as u32) as nat
}

pub open spec fn all_digits(s: Seq<char>) -> bool {
    forall|i: int| 0 <= i < s.len() ==> is_digit(#[trigger] s[i])
}

/// The number that a sequence of decimal digits denotes; the empty sequence
/// denotes zero.
pub open spec fn digits_value(s: Seq<char>) -> nat
    decreases s.len(),
{
    if s.len() == 0 {
        0
    } else {
        digits_value(s.drop_last()) * 10 + digit_value(s.last())
    }
}

pub open spec fn pow10(n: nat) -> nat
    decreases n,
{
    if n == 0 {
        1
    } else {
        10 * pow10((n - 1) as nat)
    }
}

/// Index of the first `.` in `s`, or `s.len()` if it has none.
pub open spec fn first_dot(s: Seq<char>) -> int
    decreases s.len(),
{
    if s.len() == 0 {
        0
    } else if s[0] == '.' {
        0
    } else {
        1 + first_dot(s.drop_first())
    }
}

/// What stands before the first `.`.
pub open spec fn integer_part(s: Seq<char>) -> Seq<char> {
    s.subrange(0, first_dot(s))
}

/// What stands after the first `.`; empty if there is none.
pub open spec fn fraction_part(s: Seq<char>) -> Seq<char> {
    if first_dot(s) < s.len() {
        s.subrange(first_dot(s) + 1, s.len() as int)
    } else {
        Seq::empty()
    }
}

/// The scaled value of a decimal string for a ticker with `decimals`
/// decimals, as an unbounded number.
///
/// A second `.` makes the string malformed whatever else it holds; a fraction
/// that is too long is reported before any other defect of the characters.
pub open spec fn scaled_value(s: Seq<char>, decimals: nat) -> Result<nat, AmountError> {
    let whole = integer_part(s);
    let frac = fraction_part(s);
    if frac.contains('.') {
        Err(AmountError::Malformed)
    } else if frac.len() > decimals {
        Err(AmountError::TooManyDecimals)
    } else if !all_digits(whole) || !all_digits(frac) || whole.len() + frac.len() == 0 {
        Err(AmountError::Malformed)
    } else {
        Ok(digits_value(whole + frac) * pow10((decimals - frac.len()) as nat))
    }
}

/// The result of [`parse_amount`]: the scaled value where it fits in 128
/// bits.
pub open spec fn parsed_amount(s: Seq<char>, decimals: nat) -> Result<u128, AmountError> {
    match scaled_value(s, decimals) {
        Ok(v) => if v <= u128::MAX {
            Ok(v as u128)
        } else {
            Err(AmountError::Overflow)
        },
        Err(e) => Err(e),
    }
}

pub proof fn lemma_first_dot(s: Seq<char>)
    ensures
        0 <= first_dot(s) <= s.len(),
        forall|j: int| 0 <= j < first_dot(s) ==> s[j] != '.',
        first_dot(s) < s.len() ==> s[first_dot(s)] == '.',
    decreases s.len(),
{
    if s.len() != 0 && s[0] != '.' {
        let t = s.drop_first();
        lemma_first_dot(t);
        assert forall|j: int| 0 <= j < first_dot(s) implies s[j] != '.' by {
            if j > 0 {
                assert(s[j] == t[j - 1]);
            }
        }
        if first_dot(s) < s.len() {
            assert(s[first_dot(s)] == t[first_dot(t)]);
        }
    }
}

/// The first `.` is where no `.` stands before and one stands at.
pub proof fn lemma_first_dot_is(s: Seq<char>, d: int)
    requires
        0 <= d <= s.len(),
        forall|j: int| 0 <= j < d ==> s[j] != '.',
        d < s.len() ==> s[d] == '.',
    ensures
        first_dot(s) == d,
{
    lemma_first_dot(s);
    let f = first_dot(s);
    if f < d {
        assert(s[f] == '.');
    } else if d < f {
        assert(s[d] == '.');
    }
}

pub proof fn lemma_digits_value_push(s: Seq<char>, c: char)
    ensures
        digits_value(s.push(c)) == digits_value(s) * 10 + digit_value(c),
{
    assert(s.push(c).drop_last() =~= s);
}

pub proof fn lemma_all_digits_push(s: Seq<char>, c: char)
    ensures
        all_digits(s.push(c)) == (all_digits(s) && is_digit(c)),
{
    let t = s.push(c);
    if all_digits(t) {
        assert(is_digit(t[s.len() as int]));
        assert forall|i: int| 0 <= i < s.len() implies is_digit(#[trigger] s[i]) by {
            assert(is_digit(t[i]));
        }
    }
}

pub proof fn lemma_all_digits_concat(a: Seq<char>, b: Seq<char>)
    ensures
        all_digits(a + b) == (all_digits(a) && all_digits(b)),
{
    let t = a + b;
    if all_digits(t) {
        assert forall|i: int| 0 <= i < a.len() implies is_digit(#[trigger] a[i]) by {
            assert(is_digit(t[i]));
        }
        assert forall|i: int| 0 <= i < b.len() implies is_digit(#[trigger] b[i]) by {
            assert(is_digit(t[a.len() + i]));
        }
    }
}

/// Reads a decimal string as an amount of a ticker with `decimals` decimals.
///
/// `"12.5"` with two decimals is 1250. The string may hold digits and at most
/// one `.`, with a digit on at least one side of it; no sign, exponent or
/// space is accepted.
pub fn parse_amount(s: &str, decimals: u8) -> (r: Result<u128, AmountError>)
    ensures
        r == parsed_amount(s@, decimals as nat),
{
    broadcast use vstd::string::axiom_spec_iter;

    let len: usize = s.unicode_len();
    let mut seen_dot: bool = false;
    let mut second_dot: bool = false;
    let mut bad: bool = false;
    let mut overflow: bool = false;
    let mut frac_len: usize = 0;
    let mut acc: u128 = 0;
    let ghost mut digits: Seq<char> = Seq::empty();
    let ghost mut d: int = 0;
    for c in it: s.chars()
        invariant
            it.seq() == s@,
            len == s@.len(),
            !seen_dot ==> {
                &&& forall|j: int| 0 <= j < it.index() ==> s@[j] != '.'
                &&& digits == s@.take(it.index() as int)
                &&& frac_len == 0
                &&& !second_dot
            },
            seen_dot ==> {
                &&& 0 <= d < it.index()
                &&& s@[d] == '.'
                &&& forall|j: int| 0 <= j < d ==> s@[j] != '.'
                &&& digits == s@.subrange(0, d) + s@.subrange(d + 1, it.index() as int)
                &&& frac_len == it.index() - d - 1
                &&& second_dot == s@.subrange(d + 1, it.index() as int).contains('.')
            },
            bad == !all_digits(digits),
            !bad && !overflow ==> acc == digits_value(digits),
            !bad && overflow ==> digits_value(digits) > u128::MAX,
    {
        let ghost i: int = it.index() as int;
        let ghost before: Seq<char> = digits;
        assert(c == s@[i]);
        if c == '.' && !seen_dot {
            seen_dot = true;
            proof {
                d = i;
                assert(s@.subrange(0, d) + s@.subrange(d + 1, i + 1) =~= s@.take(i));
                assert(!s@.subrange(d + 1, i + 1).contains('.'));
            }
        } else {
            proof {
                digits = digits.push(c);
                lemma_all_digits_push(before, c);
                lemma_digits_value_push(before, c);
            }
            if seen_dot {
                frac_len = frac_len + 1;
                proof {
                    let f0 = s@.subrange(d + 1, i);
                    let f1 = s@.subrange(d + 1, i + 1);
                    assert(f1 =~= f0.push(c));
                    assert(digits =~= s@.subrange(0, d) + f1);
                    if f0.contains('.') {
                        let w = choose|w: int| 0 <= w < f0.len() && f0[w] == '.';
                        assert(f1[w] == '.');
                    }
                    if c == '.' {
                        assert(f1[f1.len() - 1] == '.');
                    }
                    if f1.contains('.') && c != '.' {
                        let w = choose|w: int| 0 <= w < f1.len() && f1[w] == '.';
                        assert(f0[w] == '.');
                    }
                }
                if c == '.' {
                    second_dot = true;
                }
            } else {
                proof {
                    assert(digits =~= s@.take(i + 1));
                }
            }
            if c < '0' || c > '9' {
                bad = true;
            } else if !bad {
                let v: u128 = (c as u32 - '0' as u32) as u128;
                if overflow || acc > (u128::MAX - v) / 10 {
                    overflow = true;
                } else {
                    acc = acc * 10 + v;
                }
            }
        }
    }
    let ghost whole: Seq<char> = integer_part(s@);
    let ghost frac: Seq<char> = fraction_part(s@);
    proof {
        if seen_dot {
            lemma_first_dot_is(s@, d);
        } else {
            lemma_first_dot_is(s@, s@.len() as int);
            assert(s@.take(s@.len() as int) =~= s@);
            assert(s@.subrange(0, s@.len() as int) =~= s@);
        }
        assert(digits =~= whole + frac);
        lemma_all_digits_concat(whole, frac);
    }
    if second_dot {
        return Err(AmountError::Malformed);
    }
    if frac_len > decimals as usize {
        return Err(AmountError::TooManyDecimals);
    }
    let digit_count: usize = if seen_dot { len - 1 } else { len };
    if bad || digit_count == 0 {
        return Err(AmountError::Malformed);
    }
    let mut k: usize = frac_len;
    let ghost mut scaled: nat = digits_value(digits);
    assert(scaled == digits_value(digits) * pow10(0)) by {
        assert(pow10(0) == 1);
    }
    while k < decimals as usize
        invariant
            frac_len <= k <= decimals,
            scaled == digits_value(digits) * pow10((k - frac_len) as nat),
            !overflow ==> acc == scaled,
            overflow ==> scaled > u128::MAX,
        decreases decimals - k,
    {
        proof {
            let n = (k - frac_len) as nat;
            assert(pow10(n + 1) == 10 * pow10(n));
            assert(digits_value(digits) * (10 * pow10(n)) == (digits_value(digits) * pow10(n)) * 10)
                by (nonlinear_arith);
            scaled = scaled * 10;
        }
        if overflow || acc > u128::MAX / 10 {
            overflow = true;
        } else {
            acc = acc * 10;
        }
        k = k + 1;
    }
    if overflow {
        Err(AmountError::Overflow)
    } else {
        Ok(acc)
    }
}

/// What a string of one or more decimal digits denotes; nothing else is a
/// whole number.
pub open spec fn whole_number(s: Seq<char>) -> Option<nat> {
    if s.len() > 0 && all_digits(s) {
        Some(digits_value(s))
    } else {
        None
    }
}

/// What a string of decimal digits with an optional `-` before them
/// denotes.
pub open spec fn signed_number(s: Seq<char>) -> Option<int> {
    if s.len() > 0 && s[0] == '-' {
        match whole_number(s.drop_first()) {
            Some(v) => Some(-(v as int)),
            None => None,
        }
    } else {
        match whole_number(s) {
            Some(v) => Some(v as int),
            None => None,
        }
    }
}

/// The character of the digit `d`.
pub open spec fn digit_char(d: nat) -> char {
    if d == 0 {
        '0'
    } else if d == 1 {
        '1'
    } else if d == 2 {
        '2'
    } else if d == 3 {
        '3'
    } else if d == 4 {
        '4'
    } else if d == 5 {
        '5'
    } else if d == 6 {
        '6'
    } else if d == 7 {
        '7'
    } else if d == 8 {
        '8'
    } else {
        '9'
    }
}

/// The decimal digits of a number, without leading zeros.
pub open spec fn decimal_text(v: nat) -> Seq<char>
    decreases v,
{
    if v < 10 {
        seq![digit_char(v)]
    } else {
        decimal_text(v / 10).push(digit_char(v % 10))
    }
}

/// The decimal digits of an integer, with a `-` before them if it is
/// negative.
pub open spec fn signed_text(v: int) -> Seq<char> {
    if v < 0 {
        seq!['-'] + decimal_text((-v) as nat)
    } else {
        decimal_text(v as nat)
    }
}

/// The digits of a number denote it.
pub proof fn lemma_decimal_text(v: nat)
    ensures
        whole_number(decimal_text(v)) == Some(v),
        decimal_text(v)[0] != '-',
        !decimal_text(v).contains('.'),
    decreases v,
{
    let t = decimal_text(v);
    if v < 10 {
        assert(t.drop_last() =~= Seq::<char>::empty());
        assert(digits_value(t.drop_last()) == 0);
        assert(digit_value(digit_char(v)) == v);
    } else {
        let head = decimal_text(v / 10);
        let last = digit_char(v % 10);
        lemma_decimal_text(v / 10);
        lemma_all_digits_push(head, last);
        lemma_digits_value_push(head, last);
        assert(digit_value(last) == v % 10);
        assert(t[0] == head[0]);
    }
    assert(!t.contains('.')) by {
        if t.contains('.') {
            let i = choose|i: int| 0 <= i < t.len() && t[i] == '.';
            assert(is_digit(t[i]));
        }
    }
}

/// The text of an integer denotes it.
pub proof fn lemma_signed_text(v: int)
    ensures
        signed_number(signed_text(v)) == Some(v),
{
    if v < 0 {
        let digits = decimal_text((-v) as nat);
        lemma_decimal_text((-v) as nat);
        assert(signed_text(v).drop_first() =~= digits);
        assert(signed_text(v)[0] == '-');
    } else {
        lemma_decimal_text(v as nat);
    }
}

/// A number written without decimals is read back, whatever the number of
/// decimals of the ticker, as the number scaled by that many decimals.
pub proof fn lemma_scaled_value_of_whole(v: nat, decimals: nat)
    ensures
        scaled_value(decimal_text(v), decimals) == Ok::<nat, AmountError>(v * pow10(decimals)),
{
    let t = decimal_text(v);
    lemma_decimal_text(v);
    assert forall|j: int| 0 <= j < t.len() implies t[j] != '.' by {
        assert(is_digit(t[j]));
    }
    lemma_first_dot_is(t, t.len() as int);
    assert(integer_part(t) =~= t);
    assert(fraction_part(t) =~= Seq::<char>::empty());
    assert(integer_part(t) + fraction_part(t) =~= t);
}

/// The digit `d` as a string.
fn digit_text(d: u128) -> (r: &'static str)
    requires
        d < 10,
    ensures
        r@ == seq![digit_char(d as nat)],
{
    proof {
        reveal_strlit("0");
        reveal_strlit("1");
        reveal_strlit("2");
        reveal_strlit("3");
        reveal_strlit("4");
        reveal_strlit("5");
        reveal_strlit("6");
        reveal_strlit("7");
        reveal_strlit("8");
        reveal_strlit("9");
        assert("0"@ =~= seq!['0']);
        assert("1"@ =~= seq!['1']);
        assert("2"@ =~= seq!['2']);
        assert("3"@ =~= seq!['3']);
        assert("4"@ =~= seq!['4']);
        assert("5"@ =~= seq!['5']);
        assert("6"@ =~= seq!['6']);
        assert("7"@ =~= seq!['7']);
        assert("8"@ =~= seq!['8']);
        assert("9"@ =~= seq!['9']);
    }
    if d == 0 {
        "0"
    } else if d == 1 {
        "1"
    } else if d == 2 {
        "2"
    } else if d == 3 {
        "3"
    } else if d == 4 {
        "4"
    } else if d == 5 {
        "5"
    } else if d == 6 {
        "6"
    } else if d == 7 {
        "7"
    } else if d == 8 {
        "8"
    } else {
        "9"
    }
}

/// Writes a scaled amount as decimal digits.
pub fn render_amount(v: u128) -> (r: String)
    ensures
        r@ == decimal_text(v as nat),
    decreases v,
{
    if v < 10 {
        digit_text(v).to_owned()
    } else {
        let head: String = render_amount(v / 10);
        let last: &'static str = digit_text(v % 10);
        let r: String = head.concat(last);
        assert(r@ =~= head@.push(last@[0]));
        r
    }
}

/// Reads a string of decimal digits as a scaled amount.
pub fn parse_digits(s: &str) -> (r: Result<u128, AmountError>)
    ensures
        r == match whole_number(s@) {
            Some(v) => if v <= u128::MAX {
                Ok(v as u128)
            } else {
                Err(AmountError::Overflow)
            },
            None => Err(AmountError::Malformed),
        },
{
    broadcast use vstd::string::axiom_spec_iter;

    let len: usize = s.unicode_len();
    let mut bad: bool = false;
    let mut overflow: bool = false;
    let mut acc: u128 = 0;
    for c in it: s.chars()
        invariant
            it.seq() == s@,
            bad == !all_digits(s@.take(it.index() as int)),
            !bad && !overflow ==> acc == digits_value(s@.take(it.index() as int)),
            !bad && overflow ==> digits_value(s@.take(it.index() as int)) > u128::MAX,
    {
        proof {
            let before = s@.take(it.index() as int);
            assert(s@.take(it.index() + 1) =~= before.push(c));
            lemma_all_digits_push(before, c);
            lemma_digits_value_push(before, c);
        }
        if c < '0' || c > '9' {
            bad = true;
        } else if !bad {
            let v: u128 = (c as u32 - '0' as u32) as u128;
            if overflow || acc > (u128::MAX - v) / 10 {
                overflow = true;
            } else {
                acc = acc * 10 + v;
            }
        }
    }
    assert(s@.take(s@.len() as int) =~= s@);
    if bad || len == 0 {
        Err(AmountError::Malformed)
    } else if overflow {
        Err(AmountError::Overflow)
    } else {
        Ok(acc)
    }
}

/// Writes a balance as decimal digits, with a `-` before them if it is
/// negative.
pub fn render_balance(v: i128) -> (r: String)
    ensures
        r@ == signed_text(v as int),
{
    if v >= 0 {
        render_amount(v as u128)
    } else {
        let magnitude: u128 = if v == i128::MIN {
            0x8000_0000_0000_0000_0000_0000_0000_0000u128
        } else {
            (-v) as u128
        };
        let digits: String = render_amount(magnitude);
        let r: String = "-".to_owned().concat(digits.as_str());
        proof {
            reveal_strlit("-");
            assert("-"@ =~= seq!['-']);
        }
        r
    }
}

/// Reads a balance written as decimal digits with an optional `-` before
/// them; `None` where the string is not of that form or the number does not
/// fit in a signed 128-bit integer.
pub fn parse_balance(s: &str) -> (r: Option<i128>)
    ensures
        r == match signed_number(s@) {
            Some(v) => if i128::MIN <= v <= i128::MAX {
                Some(v as i128)
            } else {
                None
            },
            None => None,
        },
{
    let len: usize = s.unicode_len();
    if len > 0 && s.get_char(0) == '-' {
        let digits: &str = s.substring_char(1, len);
        assert(digits@ =~= s@.drop_first());
        match parse_digits(digits) {
            Ok(m) => {
                if m <= i128::MAX as u128 {
                    Some(-(m as i128))
                } else if m == 0x8000_0000_0000_0000_0000_0000_0000_0000u128 {
                    Some(i128::MIN)
                } else {
                    None
                }
            },
            Err(_) => None,
        }
    } else {
        match parse_digits(s) {
            Ok(m) => {
                if m <= i128::MAX as u128 {
                    Some(m as i128)
                } else {
                    None
                }
            },
            Err(_) => None,
        }
    }
}

} // verus!
