//! Decimal numerals: reading the integers a user types into a text field, the
//! way Rust's `str::parse` reads them, and writing integers back as text.

use vstd::prelude::*;
use vstd::string::*;

verus! {

pub open spec fn is_digit(c: char) -> bool {
    '0' <= c && c <= '9'
}

pub open spec fn digit_value(c: char) -> int {
    c as int - '0' as int
}

pub open spec fn all_digits(s: Seq<char>) -> bool {
    forall|i: int| 0 <= i < s.len() ==> is_digit(#[trigger] s[i])
}

/// The number that a string of decimal digits spells.
pub open spec fn digits_value(s: Seq<char>) -> int
    decreases s.len(),
{
    if s.len() == 0 {
        0
    } else {
        digits_value(s.drop_last()) * 10 + digit_value(s.last())
    }
}

/// The number an unsigned decimal numeral spells: one or more digits,
/// optionally preceded by `+`. Anything else spells no number.
pub open spec fn unsigned_numeral(s: Seq<char>) -> Option<int> {
    if numeral_digits(s).len() > 0 && all_digits(numeral_digits(s)) {
        Some(digits_value(numeral_digits(s)))
    } else {
        None
    }
}

/// The digits of an unsigned numeral: what follows an optional leading `+`.
pub open spec fn numeral_digits(s: Seq<char>) -> Seq<char> {
    if s.len() > 0 && s[0] == '+' {
        s.drop_first()
    } else {
        s
    }
}

/// The number a signed decimal numeral spells: an unsigned numeral, or `-`
/// followed by one or more digits.
pub open spec fn signed_numeral(s: Seq<char>) -> Option<int> {
    if s.len() > 0 && s[0] == '-' {
        let digits = s.drop_first();
        if digits.len() > 0 && all_digits(digits) {
            Some(-digits_value(digits))
        } else {
            None
        }
    } else {
        unsigned_numeral(s)
    }
}

/// What `str::parse::<usize>` yields for `s`: the number it spells, if that
/// fits in a `usize`.
pub open spec fn decimal_usize(s: Seq<char>) -> Option<usize> {
    match unsigned_numeral(s) {
        Some(v) => if v <= usize::MAX {
            Some(v as usize)
        } else {
            None
        },
        None => None,
    }
}

/// What `str::parse::<i32>` yields for `s`: the number it spells, if that
/// fits in an `i32`.
pub open spec fn decimal_i32(s: Seq<char>) -> Option<i32> {
    match signed_numeral(s) {
        Some(v) => if i32::MIN <= v <= i32::MAX {
            Some(v as i32)
        } else {
            None
        },
        None => None,
    }
}

pub open spec fn digit_char(d: int) -> char {
    if d == 0 {
        '0'
    } else if d == 1 {
        '1'
    } else if d == 2 {
        '2'
    } else if d == 3 {
        '3'
    } else if d == 4 {
        '4'
    } else if d == 5 {
        '5'
    } else if d == 6 {
        '6'
    } else if d == 7 {
        '7'
    } else if d == 8 {
        '8'
    } else {
        '9'
    }
}

/// The shortest decimal numeral of `n`, as `to_string` writes it.
pub open spec fn decimal(n: nat) -> Seq<char>
    decreases n,
{
    if n < 10 {
        seq![digit_char(n as int)]
    } else {
        decimal(n / 10).push(digit_char((n % 10) as int))
    }
}

/// The numeral `to_string` writes for an `i32`: a `-` before the digits of
/// a negative number.
pub open spec fn signed_decimal(n: int) -> Seq<char> {
    if n < 0 {
        seq!['-'] + decimal((-n) as nat)
    } else {
        decimal(n as nat)
    }
}

proof fn lemma_digits_value_nonnegative(s: Seq<char>)
    requires
        all_digits(s),
    ensures
        digits_value(s) >= 0,
    decreases s.len(),
{
    if s.len() > 0 {
        lemma_digits_value_nonnegative(s.drop_last());
        assert(is_digit(s[s.len() - 1]));
    }
}

proof fn lemma_numeral_nonnegative(s: Seq<char>)
    ensures
        unsigned_numeral(s) matches Some(v) ==> v >= 0,
        signed_numeral(s) matches Some(v) ==> (s.len() > 0 && s[0] == '-') || v >= 0,
{
    if all_digits(numeral_digits(s)) {
        lemma_digits_value_nonnegative(numeral_digits(s));
    }
}

/// Extending a string of digits never makes its value smaller.
proof fn lemma_digits_value_prefix(s: Seq<char>, k: int)
    requires
        all_digits(s),
        0 <= k <= s.len(),
    ensures
        digits_value(s.subrange(0, k)) <= digits_value(s),
    decreases s.len(),
{
    if k < s.len() {
        let shorter = s.drop_last();
        assert(shorter.subrange(0, k) =~= s.subrange(0, k));
        lemma_digits_value_prefix(shorter, k);
        lemma_digits_value_nonnegative(shorter);
        assert(is_digit(s[s.len() - 1]));
    } else {
        assert(s.subrange(0, k) =~= s);
    }
}

proof fn lemma_digits_value_step(s: Seq<char>, k: int)
    requires
        0 <= k < s.len(),
    ensures
        digits_value(s.subrange(0, k + 1)) == digits_value(s.subrange(0, k)) * 10 + digit_value(
            s[k],
        ),
{
    assert(s.subrange(0, k + 1).drop_last() =~= s.subrange(0, k));
}

proof fn lemma_digit_char(d: int)
    requires
        0 <= d < 10,
    ensures
        is_digit(digit_char(d)),
        digit_value(digit_char(d)) == d,
{
}

/// The numeral of a number consists of digits, does not start with a sign,
/// and spells the number back.
proof fn lemma_decimal_spells(n: nat)
    ensures
        decimal(n).len() > 0,
        all_digits(decimal(n)),
        is_digit(decimal(n)[0]),
        digits_value(decimal(n)) == n,
    decreases n,
{
    if n >= 10 {
        lemma_decimal_spells(n / 10);
        let prefix = decimal(n / 10);
        let d = digit_char((n % 10) as int);
        lemma_digit_char((n % 10) as int);
        assert(decimal(n) == prefix.push(d));
        assert(decimal(n).drop_last() =~= prefix);
        assert forall|i: int| 0 <= i < decimal(n).len() implies is_digit(#[trigger] decimal(n)[i]) by {
            if i < prefix.len() {
                assert(decimal(n)[i] == prefix[i]);
            }
        }
        assert(digits_value(decimal(n)) == digits_value(prefix) * 10 + digit_value(d));
        assert(n == (n / 10) * 10 + n % 10);
    } else {
        lemma_digit_char(n as int);
        assert(decimal(n).drop_last() =~= Seq::<char>::empty());
        assert(digits_value(decimal(n)) == digits_value(Seq::<char>::empty()) * 10 + digit_value(
            digit_char(n as int),
        ));
    }
}

/// Writing a `usize` and reading it back gives the same number.
pub proof fn lemma_usize_round_trip(n: usize)
    ensures
        decimal_usize(decimal(n as nat)) == Some(n),
{
    lemma_decimal_spells(n as nat);
}

/// Writing an `i32` and reading it back gives the same number.
pub proof fn lemma_i32_round_trip(n: i32)
    ensures
        decimal_i32(signed_decimal(n as int)) == Some(n),
{
    if n < 0 {
        let digits = decimal((-n) as nat);
        lemma_decimal_spells((-n) as nat);
        let s = seq!['-'] + digits;
        assert(s.drop_first() =~= digits);
        assert(s[0] == '-');
    } else {
        lemma_decimal_spells(n as nat);
    }
}

/// Reads an unsigned decimal numeral of at most `limit`, as `str::parse` reads
/// one for an unsigned type whose largest value is `limit`.
fn parse_unsigned_up_to(text: &str, limit: u64) -> (value: Option<u64>)
    requires
        limit >= 9,
    ensures
        value == (match unsigned_numeral(text@) {
            Some(v) => if v <= limit {
                Some(v as u64)
            } else {
                None
            },
            None => None,
        }),
        value matches Some(v) ==> v <= limit,
{
    let len = text.unicode_len();
    if len == 0 {
        return None;
    }
    let mut start: usize = 0;
    if text.get_char(0) == '+' {
        start = 1;
    }
    if start == len {
        return None;
    }
    let ghost digits = numeral_digits(text@);
    let mut value: u64 = 0;
    let mut i: usize = start;
    while i < len
        invariant
            len == text@.len(),
            start < len,
            start <= i <= len,
            digits == numeral_digits(text@),
            digits =~= text@.subrange(start as int, len as int),
            all_digits(digits.subrange(0, i - start)),
            value == digits_value(digits.subrange(0, i - start)),
            value <= limit,
            limit >= 9,
        decreases len - i,
    {
        let c = text.get_char(i);
        if !(c >= '0' && c <= '9') {
            proof {
                assert(digits[i - start] == c);
                assert(!is_digit(digits[i - start]));
                assert(!all_digits(digits));
                assert(unsigned_numeral(text@) == None::<int>);
            }
            return None;
        }
        let d = (c as u32 - '0' as u32) as u64;
        proof {
            assert(digits[i - start] == c);
            lemma_digits_value_step(digits, i - start);
            assert(digits.subrange(0, i - start + 1).drop_last() =~= digits.subrange(
                0,
                i - start,
            ));
            assert forall|m: int| 0 <= m < i - start + 1 implies is_digit(
                #[trigger] digits.subrange(0, i - start + 1)[m],
            ) by {
                if m < i - start {
                    assert(digits.subrange(0, i - start + 1)[m] == digits.subrange(
                        0,
                        i - start,
                    )[m]);
                }
            }
        }
        if value > (limit - d) / 10 {
            proof {
                assert(value * 10 + d > limit) by (nonlinear_arith)
                    requires
                        value > (limit - d) / 10,
                        0 <= d,
                        d <= limit,
                ;
                let rest = text@.subrange(start as int, len as int);
                if all_digits(rest) {
                    lemma_digits_value_prefix(rest, i - start + 1);
                }
            }
            return None;
        }
        proof {
            assert(value * 10 + d <= limit) by (nonlinear_arith)
                requires
                    value <= (limit - d) / 10,
                    0 <= d <= limit,
            ;
        }
        value = value * 10 + d;
        i += 1;
    }
    proof {
        assert(digits.subrange(0, len - start) =~= digits);
    }
    Some(value)
}

/// Reads a `usize` the way `str::parse::<usize>` does.
pub fn parse_usize(text: &str) -> (value: Option<usize>)
    ensures
        value == decimal_usize(text@),
{
    proof {
        lemma_numeral_nonnegative(text@);
    }
    match parse_unsigned_up_to(text, usize::MAX as u64) {
        Some(v) => Some(v as usize),
        None => None,
    }
}

/// Reads an `i32` the way `str::parse::<i32>` does.
pub fn parse_i32(text: &str) -> (value: Option<i32>)
    ensures
        value == decimal_i32(text@),
{
    let len = text.unicode_len();
    proof {
        lemma_numeral_nonnegative(text@);
    }
    if len > 0 && text.get_char(0) == '-' {
        let rest = text.substring_char(1, len);
        proof {
            assert(rest@ =~= text@.drop_first());
            lemma_numeral_nonnegative(rest@);
        }
        if rest.unicode_len() > 0 && rest.get_char(0) == '+' {
            proof {
                assert(!all_digits(rest@)) by {
                    assert(!is_digit(rest@[0]));
                }
            }
            return None;
        }
        match parse_unsigned_up_to(rest, 2147483648u64) {
            Some(v) => {
                proof {
                    assert(rest@.len() == 0 || rest@[0] != '+');
                    assert(v <= 2147483648u64);
                }
                Some((0i64 - v as i64) as i32)
            },
            None => {
                proof {
                    assert(rest@.len() == 0 || rest@[0] != '+');
                }
                None
            },
        }
    } else {
        match parse_unsigned_up_to(text, 2147483647u64) {
            Some(v) => Some(v as i32),
            None => None,
        }
    }
}

fn digit_text(d: u64) -> (text: &'static str)
    requires
        d < 10,
    ensures
        text@ == seq![digit_char(d as int)],
{
    if d == 0 {
        proof {
            reveal_strlit("0");
        }
        "0"
    } else if d == 1 {
        proof {
            reveal_strlit("1");
        }
        "1"
    } else if d == 2 {
        proof {
            reveal_strlit("2");
        }
        "2"
    } else if d == 3 {
        proof {
            reveal_strlit("3");
        }
        "3"
    } else if d == 4 {
        proof {
            reveal_strlit("4");
        }
        "4"
    } else if d == 5 {
        proof {
            reveal_strlit("5");
        }
        "5"
    } else if d == 6 {
        proof {
            reveal_strlit("6");
        }
        "6"
    } else if d == 7 {
        proof {
            reveal_strlit("7");
        }
        "7"
    } else if d == 8 {
        proof {
            reveal_strlit("8");
        }
        "8"
    } else {
        proof {
            reveal_strlit("9");
        }
        "9"
    }
}

pub(crate) fn push_decimal(text: &mut String, n: u64)
    ensures
        final(text)@ == old(text)@ + decimal(n as nat),
    decreases n,
{
    if n >= 10 {
        push_decimal(text, n / 10);
    }
    text.append(digit_text(n % 10));
    proof {
        if n >= 10 {
            assert(decimal(n as nat) == decimal((n / 10) as nat).push(digit_char((n % 10) as int)));
        }
    }
}

/// Writes a `usize` as `to_string` does.
pub fn format_usize(n: usize) -> (text: String)
    ensures
        text@ == decimal(n as nat),
{
    let mut text = String::new();
    push_decimal(&mut text, n as u64);
    proof {
        assert(text@ =~= decimal(n as nat));
    }
    text
}

/// Writes an `i32` as `to_string` does.
pub fn format_i32(n: i32) -> (text: String)
    ensures
        text@ == signed_decimal(n as int),
{
    let mut text = String::new();
    if n < 0 {
        proof {
            reveal_strlit("-");
        }
        text.append("-");
        push_decimal(&mut text, (0i64 - n as i64) as u64);
    } else {
        push_decimal(&mut text, n as u64);
    }
    proof {
        assert(text@ =~= signed_decimal(n as int));
    }
    text
}

} // verus!
