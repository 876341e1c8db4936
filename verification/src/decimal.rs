//! Decimal text for identifiers.
//!
//! Identifiers cross the transport boundary as decimal text. This module
//! gives that grammar an exact meaning — an optional leading minus sign
//! followed by at least one digit — and provides a parser and a formatter
//! proved against it.

use vstd::prelude::*;
use vstd::string::StringExecFns;

use crate::errors::CoreError;

verus! {

/// A decimal digit.
pub open spec fn is_digit(c: char) -> bool {
    '0' as int <= c as int <= '9' as int
}

/// The numeric value of one digit.
pub open spec fn digit_value(c: char) -> int {
    c as int - '0' as int
}

/// Every character of the text is a digit.
pub open spec fn all_digits(s: Seq<char>) -> bool {
    forall|i: int| 0 <= i < s.len() ==> is_digit(#[trigger] s[i])
}

/// The value of a run of digits, most significant first.
pub open spec fn digits_value(s: Seq<char>) -> int
    decreases s.len(),
{
    if s.len() == 0 {
        0
    } else {
        digits_value(s.drop_last()) * 10 + digit_value(s.last())
    }
}

/// The grammar of identifier text: an optional minus sign, then one or
/// more digits.
pub open spec fn is_decimal_text(s: Seq<char>) -> bool {
    if s.len() > 0 && s[0] == '-' {
        s.len() >= 2 && all_digits(s.skip(1))
    } else {
        s.len() >= 1 && all_digits(s)
    }
}

/// The signed value that a piece of decimal text denotes.
pub open spec fn decimal_value(s: Seq<char>) -> int {
    if s.len() > 0 && s[0] == '-' {
        -digits_value(s.skip(1))
    } else {
        digits_value(s)
    }
}

/// A run of digits never denotes a negative value.
pub proof fn lemma_digits_value_nonneg(s: Seq<char>)
    requires
        all_digits(s),
    ensures
        digits_value(s) >= 0,
    decreases s.len(),
{
    if s.len() > 0 {
        assert(all_digits(s.drop_last()));
        lemma_digits_value_nonneg(s.drop_last());
    }
}

/// Extending a run of digits on the right never shrinks its value.
pub proof fn lemma_digits_value_prefix_le(s: Seq<char>, k: int)
    requires
        all_digits(s),
        0 <= k <= s.len(),
    ensures
        digits_value(s.subrange(0, k)) <= digits_value(s),
    decreases s.len() - k,
{
    if k == s.len() {
        assert(s.subrange(0, k) =~= s);
    } else {
        let t = s.drop_last();
        assert(all_digits(t));
        assert(s.subrange(0, k) =~= t.subrange(0, k));
        lemma_digits_value_prefix_le(t, k);
        lemma_digits_value_nonneg(t);
    }
}

/// Parses decimal text into a 32-bit integer.
///
/// Returns the denoted value exactly when the text follows the decimal
/// grammar and the value fits; every other input is a `ParseError`.
pub fn parse_i32(s: &str) -> (r: Result<i32, CoreError>)
    ensures
        r matches Ok(n) ==> is_decimal_text(s@) && i32::MIN <= decimal_value(s@) <= i32::MAX
            && n as int == decimal_value(s@),
        r is Err ==> !(is_decimal_text(s@) && i32::MIN <= decimal_value(s@) <= i32::MAX)
            && r == Err::<i32, CoreError>(CoreError::ParseError),
{
    let len: usize = s.unicode_len();
    if len == 0 {
        return Err(CoreError::ParseError);
    }
    let neg: bool = s.get_char(0) == '-';
    let start: usize = if neg { 1 } else { 0 };
    if start == len {
        return Err(CoreError::ParseError);
    }
    let ghost digits = s@.skip(start as int);
    let mut acc: i64 = 0;
    let mut i: usize = start;
    while i < len
        invariant
            start <= i <= len,
            len == s@.len(),
            start == (if neg { 1int } else { 0int }),
            neg ==> s@[0] == '-',
            !neg ==> (s@.len() == 0 || s@[0] != '-'),
            start < len,
            digits == s@.skip(start as int),
            all_digits(digits.subrange(0, i - start)),
            0 <= acc <= 2147483648,
            acc == digits_value(digits.subrange(0, i - start)),
        decreases len - i,
    {
        let c: char = s.get_char(i);
        let d: u32 = c as u32;
        if d < 48 || d > 57 {
            proof {
                assert(digits[i - start] == c);
                assert(!is_digit(c));
                if is_decimal_text(s@) {
                    if neg {
                        assert(all_digits(s@.skip(1)));
                        assert(is_digit(s@.skip(1)[i - 1]));
                    } else {
                        assert(is_digit(s@[i as int]));
                    }
                }
            }
            return Err(CoreError::ParseError);
        }
        let ghost pre = digits.subrange(0, i - start);
        acc = acc * 10 + ((d - 48) as i64);
        proof {
            let post = digits.subrange(0, i + 1 - start);
            assert(post.drop_last() =~= pre);
            assert(post.last() == c);
            assert(is_digit(c));
            assert(all_digits(post));
            lemma_digits_value_nonneg(post);
        }
        if acc > 2147483648 {
            proof {
                let post = digits.subrange(0, i + 1 - start);
                if is_decimal_text(s@) {
                    if neg {
                        assert(s@.skip(1) =~= digits);
                    } else {
                        assert(digits =~= s@);
                    }
                    assert(all_digits(digits));
                    lemma_digits_value_prefix_le(digits, i + 1 - start);
                    lemma_digits_value_nonneg(digits);
                    assert(digits_value(digits) > 2147483648);
                    if neg {
                        assert(decimal_value(s@) == -digits_value(digits));
                    } else {
                        assert(decimal_value(s@) == digits_value(digits));
                    }
                }
            }
            return Err(CoreError::ParseError);
        }
        i = i + 1;
    }
    proof {
        assert(digits.subrange(0, len - start) =~= digits);
        if neg {
            assert(s@.skip(1) =~= digits);
        } else {
            assert(digits =~= s@);
        }
        assert(is_decimal_text(s@));
    }
    if neg {
        Ok((-acc) as i32)
    } else {
        if acc > 2147483647 {
            return Err(CoreError::ParseError);
        }
        Ok(acc as i32)
    }
}

/// The canonical digit text of a non-negative value.
pub open spec fn dec_digits(n: int) -> Seq<char>
    decreases n,
{
    if n < 10 {
        seq![digit_char(n)]
    } else {
        dec_digits(n / 10) + seq![digit_char(n % 10)]
    }
}

/// The character for one digit value; values outside the digit range give
/// an unspecified placeholder that never arises below.
pub open spec fn digit_char(d: int) -> char {
    if d == 0 { '0' }
    else if d == 1 { '1' }
    else if d == 2 { '2' }
    else if d == 3 { '3' }
    else if d == 4 { '4' }
    else if d == 5 { '5' }
    else if d == 6 { '6' }
    else if d == 7 { '7' }
    else if d == 8 { '8' }
    else if d == 9 { '9' }
    else { '0' }
}

/// The canonical digit text denotes the value it was made from.
pub proof fn lemma_dec_digits_value(n: int)
    requires
        n >= 0,
    ensures
        all_digits(dec_digits(n)),
        dec_digits(n).len() >= 1,
        digits_value(dec_digits(n)) == n,
    decreases n,
{
    assert(digit_value(digit_char(n % 10)) == n % 10 && is_digit(digit_char(n % 10))) by {
        let d = n % 10;
        assert(0 <= d < 10);
        if d == 0 {
        } else if d == 1 {
        } else if d == 2 {
        } else if d == 3 {
        } else if d == 4 {
        } else if d == 5 {
        } else if d == 6 {
        } else if d == 7 {
        } else if d == 8 {
        } else {
            assert(d == 9);
        }
    }
    if n < 10 {
        let s = dec_digits(n);
        assert(n % 10 == n);
        assert(s.len() == 1);
        assert(s.drop_last() =~= Seq::<char>::empty());
        assert(digits_value(Seq::<char>::empty()) == 0);
        assert(s.last() == digit_char(n));
        assert(digits_value(s) == digit_value(digit_char(n)));
    } else {
        lemma_dec_digits_value(n / 10);
        let s = dec_digits(n);
        assert(s.drop_last() =~= dec_digits(n / 10));
        assert(s.last() == digit_char(n % 10));
        assert(digits_value(s) == (n / 10) * 10 + n % 10);
    }
}

/// Appends the canonical decimal digits of `n` to `out`.
fn append_decimal_digits(n: u64, out: &mut String)
    ensures
        final(out)@ == old(out)@ + dec_digits(n as int),
    decreases n,
{
    if n >= 10 {
        append_decimal_digits(n / 10, out);
    }
    let d: u64 = n % 10;
    proof {
        reveal_strlit("0");
        reveal_strlit("1");
        reveal_strlit("2");
        reveal_strlit("3");
        reveal_strlit("4");
        reveal_strlit("5");
        reveal_strlit("6");
        reveal_strlit("7");
        reveal_strlit("8");
        reveal_strlit("9");
    }
    match d {
        0 => out.append("0"),
        1 => out.append("1"),
        2 => out.append("2"),
        3 => out.append("3"),
        4 => out.append("4"),
        5 => out.append("5"),
        6 => out.append("6"),
        7 => out.append("7"),
        8 => out.append("8"),
        _ => out.append("9"),
    }
    proof {
        if n < 10 {
            assert(out@ =~= old(out)@ + dec_digits(n as int));
        } else {
            assert(out@ =~= old(out)@ + dec_digits(n as int));
        }
    }
}

/// Renders a 32-bit integer as decimal text denoting the same value.
pub fn render_i32(n: i32) -> (r: String)
    ensures
        is_decimal_text(r@),
        decimal_value(r@) == n as int,
{
    let mut out = String::new();
    if n < 0 {
        proof {
            reveal_strlit("-");
        }
        out.append("-");
        let m: u64 = (-(n as i64)) as u64;
        append_decimal_digits(m, &mut out);
        proof {
            lemma_dec_digits_value(m as int);
            assert(out@ =~= seq!['-'] + dec_digits(m as int));
            assert(out@[0] == '-');
            assert(out@.skip(1) =~= dec_digits(m as int));
        }
    } else {
        append_decimal_digits(n as u64, &mut out);
        proof {
            lemma_dec_digits_value(n as int);
            assert(out@ =~= dec_digits(n as int));
            assert(is_digit(out@[0]));
            assert(out@[0] != '-');
        }
    }
    out
}

} // verus!
