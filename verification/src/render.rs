//! Rendering values as text: decimal numbers and Rust debug-quoted strings.
use vstd::prelude::*;
use crate::text::{all_digits, digit_value, digits_value, is_digit, parse_u32};

verus! {

/// The ASCII digit for `d < 10`.
pub open spec fn digit_char(d: nat) -> char {
    (0x30 + d) as char
}

/// The decimal numeral of `n`, without leading zeros.
pub open spec fn decimal_nat(n: nat) -> Seq<char>
    decreases n,
{
    if n < 10 {
        seq![digit_char(n)]
    } else {
        decimal_nat(n / 10).push(digit_char(n % 10))
    }
}

/// What `i64`'s `Display` writes: a `-` for negative values, then the decimal
/// numeral of the magnitude.
pub open spec fn decimal_i64(x: i64) -> Seq<char> {
    if x < 0 {
        seq!['-'] + decimal_nat((-x) as nat)
    } else {
        decimal_nat(x as nat)
    }
}

/// What `<str as Debug>::fmt` writes for a string: the string in double quotes,
/// with quotes, backslashes, control and non-printable characters escaped.
pub uninterp spec fn debug_quoted(s: Seq<char>) -> Seq<char>;

/// Renders `s` through `format!("{:?}", s)` (std's `Debug` for `str`).
///
/// Claimed of std: the result is [`debug_quoted`] of the characters of `s`, a
/// function of them alone. What the escaping does character by character is not
/// stated.
#[verifier::external_body]
pub fn quote_debug(s: &str) -> (r: String)
    ensures
        r@ == debug_quoted(s@),
{
    format!("{s:?}")
}

/// Appends a character with `String::push`.
///
/// Claimed of std, as its documentation says: the character is appended to the end.
#[verifier::external_body]
pub fn push_char(s: &mut String, c: char)
    ensures
        final(s)@ == old(s)@.push(c),
{
    s.push(c);
}

/// The decimal text of an `i64`, as `to_string` renders it.
pub fn decimal_text(x: i64) -> (r: String)
    ensures
        r@ == decimal_i64(x),
{
    let negative = x < 0;
    let magnitude: u64 = if negative {
        (0i128 - (x as i128)) as u64
    } else {
        x as u64
    };
    let ghost total: nat = magnitude as nat;
    let mut m: u64 = magnitude;
    let mut rev: Vec<char> = Vec::new();
    let d0 = m % 10;
    rev.push(((d0 as u8) + 0x30) as char);
    m = m / 10;
    proof {
        assert(rev@.reverse() =~= seq![digit_char(d0 as nat)]);
        if total >= 10 {
            assert(decimal_nat(total) =~= decimal_nat(m as nat) + rev@.reverse());
        }
    }
    while m > 0
        invariant
            m == 0 ==> decimal_nat(total) == rev@.reverse(),
            m > 0 ==> decimal_nat(total) == decimal_nat(m as nat) + rev@.reverse(),
        decreases m,
    {
        let d = m % 10;
        let ghost before = rev@;
        let ghost mm = m as nat;
        rev.push(((d as u8) + 0x30) as char);
        m = m / 10;
        proof {
            assert(rev@.reverse() =~= seq![digit_char(d as nat)] + before.reverse());
            if mm >= 10 {
                assert(decimal_nat(mm) == decimal_nat(m as nat).push(digit_char(d as nat)));
                assert(decimal_nat(mm) + before.reverse() =~= decimal_nat(m as nat)
                    + rev@.reverse());
            } else {
                assert(decimal_nat(mm) == seq![digit_char(d as nat)]);
                assert(decimal_nat(mm) + before.reverse() =~= rev@.reverse());
            }
        }
    }
    let mut out = String::new();
    if negative {
        push_char(&mut out, '-');
    }
    let ghost lead = out@;
    let mut i: usize = rev.len();
    while i > 0
        invariant
            i <= rev@.len(),
            out@ == lead + rev@.reverse().take(rev@.len() - i),
        decreases i,
    {
        push_char(&mut out, rev[i - 1]);
        proof {
            assert(rev@.reverse().take(rev@.len() - i + 1) =~= rev@.reverse().take(
                rev@.len() - i,
            ).push(rev@[i - 1]));
        }
        i = i - 1;
    }
    proof {
        assert(rev@.reverse().take(rev@.len() as int) =~= rev@.reverse());
        if negative {
            assert(lead =~= seq!['-']);
            assert(total == -x);
        } else {
            assert(lead =~= Seq::<char>::empty());
            assert(out@ =~= rev@.reverse());
        }
    }
    out
}


/// Decimal numerals read back: the numeral of `n` is a non-empty run of ASCII
/// digits without a leading zero (unless `n` is zero) whose value is `n`; for a
/// `u32`, parsing it as `str::parse::<u32>` does gives `n` back.
pub proof fn decimal_reads_back(n: nat)
    ensures
        decimal_nat(n).len() > 0,
        all_digits(decimal_nat(n)),
        digits_value(decimal_nat(n)) == n,
        decimal_nat(n).len() > 1 ==> decimal_nat(n)[0] != '0',
        n <= u32::MAX ==> parse_u32(decimal_nat(n)) == Some(n as u32),
    decreases n,
{
    let s = decimal_nat(n);
    if n < 10 {
        assert(s.drop_last() =~= Seq::<char>::empty());
        assert(digits_value(s.drop_last()) == 0);
        assert((digit_char(n) as u32) == 0x30 + n);
        assert(is_digit(s[0]));
    } else {
        assert((digit_char(n % 10) as u32) == 0x30 + n % 10);
        assert(n == (n / 10) * 10 + n % 10) by (nonlinear_arith);
        decimal_reads_back(n / 10);
        let p = decimal_nat(n / 10);
        assert(s.drop_last() =~= p);
        assert forall|i: int| 0 <= i < s.len() implies is_digit(#[trigger] s[i]) by {
            if i < p.len() {
                assert(s[i] == p[i]);
            }
        }
        assert(s[0] == p[0]);
        if p.len() == 1 {
            assert(p[0] != '0') by {
                assert(n / 10 >= 1);
                if p[0] == '0' {
                    assert(digits_value(p) == 0) by {
                        assert(p.drop_last() =~= Seq::<char>::empty());
                        assert(digits_value(p.drop_last()) == 0);
                        assert(p.last() == '0');
                        assert(digit_value('0') == 0);
                    }
                }
            }
        }
    }
    if n <= u32::MAX {
        assert(s[0] != '+') by {
            assert(is_digit(s[0]));
        }
    }
}

} // verus!
