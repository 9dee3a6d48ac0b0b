//! Amounts as decimal text: reading and writing 128-bit numbers.

use crate::error::LedgerError;
use vstd::prelude::*;
use vstd::string::{is_ascii_spec_bytes, StringExecFns};

verus! {

/// Whether `c` is one of the ten decimal digits.
pub open spec fn is_digit(c: char) -> bool {
    '0' <= c <= '9'
}

/// The digit that `c` stands for.
pub open spec fn digit_value(c: char) -> int {
    c as int - '0' as int
}

/// The character of the digit `d`.
pub open spec fn digit_char(d: int) -> char {
    if d == 0 {
        '0'
    } else if d == 1 {
        '1'
    } else if d == 2 {
        '2'
    } else if d == 3 {
        '3'
    } else if d == 4 {
        '4'
    } else if d == 5 {
        '5'
    } else if d == 6 {
        '6'
    } else if d == 7 {
        '7'
    } else if d == 8 {
        '8'
    } else {
        '9'
    }
}

/// Whether `s` holds digits only.
pub open spec fn all_digits(s: Seq<char>) -> bool {
    forall|i: int| 0 <= i < s.len() ==> is_digit(#[trigger] s[i])
}

/// The number that the digits of `s` write, most significant digit first.
pub open spec fn digits_value(s: Seq<char>) -> int
    decreases s.len(),
{
    if s.len() == 0 {
        0
    } else {
        digits_value(s.drop_last()) * 10 + digit_value(s.last())
    }
}

/// `s` without a leading plus sign.
pub open spec fn unsigned_part(s: Seq<char>) -> Seq<char> {
    if s.len() > 0 && s[0] == '+' {
        s.subrange(1, s.len() as int)
    } else {
        s
    }
}

/// The amount that `s` writes: an optional plus sign, then at least one
/// decimal digit, with a value that fits 128 bits. Anything else is no amount.
pub open spec fn parse_spec(s: Seq<char>) -> Option<u128> {
    let body = unsigned_part(s);
    if body.len() > 0 && all_digits(body) && digits_value(body) <= u128::MAX {
        Some(digits_value(body) as u128)
    } else {
        None
    }
}

/// The decimal digits of `n`, without leading zeros.
pub open spec fn decimal(n: nat) -> Seq<char>
    decreases n,
{
    if n < 10 {
        seq![digit_char(n as int)]
    } else {
        decimal(n / 10).push(digit_char((n % 10) as int))
    }
}

/// A longer digit string is worth at least as much as any of its prefixes.
proof fn lemma_prefix_value(s: Seq<char>, n: int)
    requires
        all_digits(s),
        0 <= n <= s.len(),
    ensures
        0 <= digits_value(s.subrange(0, n)) <= digits_value(s),
    decreases s.len() - n,
{
    lemma_value_nonnegative(s.subrange(0, n));
    if n == s.len() {
        assert(s.subrange(0, n) =~= s);
    } else {
        lemma_prefix_value(s, n + 1);
        let t = s.subrange(0, n + 1);
        assert(t.drop_last() =~= s.subrange(0, n));
        assert(is_digit(s[n]));
        assert(t.last() == s[n]);
    }
}

proof fn lemma_value_nonnegative(s: Seq<char>)
    requires
        all_digits(s),
    ensures
        digits_value(s) >= 0,
    decreases s.len(),
{
    if s.len() > 0 {
        assert(is_digit(s[s.len() - 1]));
        lemma_value_nonnegative(s.drop_last());
    }
}

/// Writing a number in decimal and reading it back gives the number.
pub proof fn lemma_decimal_digits(n: nat)
    ensures
        decimal(n).len() > 0,
        all_digits(decimal(n)),
        digits_value(decimal(n)) == n,
        decimal(n)[0] != '+',
    decreases n,
{
    if n < 10 {
        let s = decimal(n);
        assert(s.drop_last() =~= Seq::<char>::empty());
        assert(digits_value(s.drop_last()) == 0);
    } else {
        lemma_decimal_digits(n / 10);
        let s = decimal(n);
        assert(s.drop_last() =~= decimal(n / 10));
        assert(s[0] == decimal(n / 10)[0]);
    }
}

/// Every 128-bit amount is read back from its decimal text.
pub proof fn lemma_parse_decimal(n: u128)
    ensures
        parse_spec(decimal(n as nat)) == Some(n),
{
    lemma_decimal_digits(n as nat);
}

/// Reads a decimal amount.
///
/// Accepts what [`parse_spec`] describes and rejects everything else with
/// [`LedgerError::ParseError`].
#[verifier::loop_isolation(false)]
pub fn parse_amount(text: &String) -> (r: Result<u128, LedgerError>)
    ensures
        r == match parse_spec(text@) {
            Some(v) => Ok::<u128, LedgerError>(v),
            None => Err(LedgerError::ParseError),
        },
{
    let s = text.as_str();
    let ghost chars = s@;
    let ghost body = unsigned_part(chars);
    if !s.is_ascii() {
        proof {
            let i = choose|i: int| 0 <= i < chars.len() && !('\0' <= #[trigger] chars[i] <= '\u{7f}');
            if chars[0] == '+' {
                assert(i >= 1);
                assert(body[i - 1] == chars[i]);
                assert(!is_digit(body[i - 1]));
            } else {
                assert(!is_digit(body[i]));
            }
        }
        return Err(LedgerError::ParseError);
    }
    let bytes = s.as_bytes();
    proof {
        is_ascii_spec_bytes(s);
    }
    let n = bytes.len();
    assert(n == chars.len());
    assert(forall|i: int| 0 <= i < n ==> bytes@[i] as int == #[trigger] chars[i] as int);
    let start: usize = if n > 0 && bytes[0] == 43u8 {
        1
    } else {
        0
    };
    assert(body =~= chars.subrange(start as int, n as int));
    if start == n {
        return Err(LedgerError::ParseError);
    }
    let mut value: u128 = 0;
    let mut i: usize = start;
    while i < n
        invariant
            start <= i <= n,
            n == chars.len(),
            body == chars.subrange(start as int, n as int),
            forall|j: int| 0 <= j < n ==> bytes@[j] as int == #[trigger] chars[j] as int,
            all_digits(body.subrange(0, i - start)),
            value == digits_value(body.subrange(0, i - start)),
        decreases n - i,
    {
        let b = bytes[i];
        let ghost prefix = body.subrange(0, i - start);
        let ghost next = body.subrange(0, i - start + 1);
        assert(next.drop_last() =~= prefix);
        assert(next.last() == chars[i as int]);
        if b < 48u8 || b > 57u8 {
            assert(!is_digit(body[i - start]));
            return Err(LedgerError::ParseError);
        }
        assert(is_digit(chars[i as int]));
        assert(all_digits(next));
        let d: u128 = (b - 48u8) as u128;
        assert(d == digit_value(chars[i as int]));
        let grown = match value.checked_mul(10) {
            Some(v) => v.checked_add(d),
            None => None,
        };
        match grown {
            Some(v) => {
                value = v;
            },
            None => {
                proof {
                    assert(digits_value(next) > u128::MAX);
                    if all_digits(body) {
                        lemma_prefix_value(body, i - start + 1);
                    }
                }
                return Err(LedgerError::ParseError);
            },
        }
        i = i + 1;
    }
    assert(body.subrange(0, i - start) =~= body);
    Ok(value)
}

fn digit_text(d: u8) -> (t: &'static str)
    requires
        d < 10,
    ensures
        t@ == seq![digit_char(d as int)],
{
    proof {
        reveal_strlit("0");
        reveal_strlit("1");
        reveal_strlit("2");
        reveal_strlit("3");
        reveal_strlit("4");
        reveal_strlit("5");
        reveal_strlit("6");
        reveal_strlit("7");
        reveal_strlit("8");
        reveal_strlit("9");
    }
    let t = if d == 0 {
        "0"
    } else if d == 1 {
        "1"
    } else if d == 2 {
        "2"
    } else if d == 3 {
        "3"
    } else if d == 4 {
        "4"
    } else if d == 5 {
        "5"
    } else if d == 6 {
        "6"
    } else if d == 7 {
        "7"
    } else if d == 8 {
        "8"
    } else {
        "9"
    };
    assert(t@ =~= seq![digit_char(d as int)]);
    t
}

/// Writes an amount in decimal, without sign or leading zeros.
pub fn format_amount(n: u128) -> (s: String)
    ensures
        s@ == decimal(n as nat),
{
    let mut digits: Vec<u8> = Vec::new();
    let mut rest: u128 = n;
    while rest >= 10
        invariant
            forall|j: int| 0 <= j < digits@.len() ==> #[trigger] digits@[j] < 10,
            decimal(n as nat) == decimal(rest as nat) + Seq::new(
                digits@.len(),
                |j: int| digit_char(digits@[digits@.len() - 1 - j] as int),
            ),
        decreases rest,
    {
        let ghost tail = Seq::new(
            digits@.len(),
            |j: int| digit_char(digits@[digits@.len() - 1 - j] as int),
        );
        let ghost old_digits = digits@;
        let d: u8 = (rest % 10) as u8;
        digits.push(d);
        let ghost new_tail = Seq::new(
            digits@.len(),
            |j: int| digit_char(digits@[digits@.len() - 1 - j] as int),
        );
        assert(decimal(rest as nat) =~= decimal((rest / 10) as nat).push(digit_char(d as int)));
        assert(new_tail =~= seq![digit_char(d as int)] + tail);
        assert(decimal((rest / 10) as nat).push(digit_char(d as int)) + tail =~= decimal(
            (rest / 10) as nat,
        ) + new_tail);
        rest = rest / 10;
    }
    let mut out = String::from_str(digit_text(rest as u8));
    assert(out@ =~= decimal(rest as nat));
    let mut i: usize = digits.len();
    let ghost tail = Seq::new(
        digits@.len(),
        |j: int| digit_char(digits@[digits@.len() - 1 - j] as int),
    );
    while i > 0
        invariant
            i <= digits@.len(),
            forall|j: int| 0 <= j < digits@.len() ==> #[trigger] digits@[j] < 10,
            tail == Seq::new(
                digits@.len(),
                |j: int| digit_char(digits@[digits@.len() - 1 - j] as int),
            ),
            out@ == decimal(rest as nat) + tail.subrange(0, digits@.len() - i),
        decreases i,
    {
        i = i - 1;
        let ghost before = out@;
        out.append(digit_text(digits[i]));
        assert(out@ =~= decimal(rest as nat) + tail.subrange(0, digits@.len() - i)) by {
            assert(tail.subrange(0, digits@.len() - i) =~= tail.subrange(
                0,
                digits@.len() - i - 1,
            ).push(tail[digits@.len() - i - 1]));
        }
    }
    assert(tail.subrange(0, digits@.len() as int) =~= tail);
    out
}

} // verus!
