//! Decimal rendering and parsing of the integer ids carried by the protocol.

use vstd::prelude::*;

verus! {

/// The character for one decimal digit.
pub open spec fn digit_char(d: int) -> char {
    if d == 0 {
        '0'
    } else if d == 1 {
        '1'
    } else if d == 2 {
        '2'
    } else if d == 3 {
        '3'
    } else if d == 4 {
        '4'
    } else if d == 5 {
        '5'
    } else if d == 6 {
        '6'
    } else if d == 7 {
        '7'
    } else if d == 8 {
        '8'
    } else {
        '9'
    }
}

/// Decimal digits of a non-negative number, most significant first.
pub open spec fn dec_digits(n: nat) -> Seq<char>
    decreases n,
{
    if n < 10 {
        seq![digit_char(n as int)]
    } else {
        dec_digits(n / 10) + seq![digit_char((n % 10) as int)]
    }
}

/// Decimal rendering of a signed number.
pub open spec fn dec_int(n: int) -> Seq<char> {
    if n < 0 {
        seq!['-'] + dec_digits((-n) as nat)
    } else {
        dec_digits(n as nat)
    }
}

fn digit_str(d: u64) -> (r: &'static str)
    requires
        d < 10,
    ensures
        r@ == seq![digit_char(d as int)],
{
    proof {
        reveal_strlit("0");
        reveal_strlit("1");
        reveal_strlit("2");
        reveal_strlit("3");
        reveal_strlit("4");
        reveal_strlit("5");
        reveal_strlit("6");
        reveal_strlit("7");
        reveal_strlit("8");
        reveal_strlit("9");
    }
    let r: &'static str = if d == 0 {
        "0"
    } else if d == 1 {
        "1"
    } else if d == 2 {
        "2"
    } else if d == 3 {
        "3"
    } else if d == 4 {
        "4"
    } else if d == 5 {
        "5"
    } else if d == 6 {
        "6"
    } else if d == 7 {
        "7"
    } else if d == 8 {
        "8"
    } else {
        "9"
    };
    proof {
        assert(r@ =~= seq![digit_char(d as int)]);
    }
    r
}

/// Append the decimal digits of `n` to `out`.
pub fn push_dec_u64(out: &mut String, n: u64)
    ensures
        final(out)@ == old(out)@ + dec_digits(n as nat),
    decreases n,
{
    if n < 10 {
        out.append(digit_str(n));
    } else {
        let ghost out0 = out@;
        push_dec_u64(out, n / 10);
        out.append(digit_str(n % 10));
        proof {
            assert((out0 + dec_digits((n / 10) as nat)) + seq![digit_char((n % 10) as int)] =~= out0
                + (dec_digits((n / 10) as nat) + seq![digit_char((n % 10) as int)]));
        }
    }
}

/// Append the decimal rendering of a signed number to `out`.
pub fn push_dec_i64(out: &mut String, n: i64)
    ensures
        final(out)@ == old(out)@ + dec_int(n as int),
{
    if n < 0 {
        let ghost out0 = out@;
        out.append("-");
        let m: u64 = ((-(n as i128)) as u64);
        proof {
            reveal_strlit("-");
            assert("-"@ =~= seq!['-']);
            assert(m as int == -(n as int));
        }
        push_dec_u64(out, m);
        proof {
            assert((out0 + seq!['-']) + dec_digits(m as nat) =~= out0 + (seq!['-'] + dec_digits(
                m as nat,
            )));
        }
    } else {
        push_dec_u64(out, n as u64);
    }
}

/// The decimal rendering of a signed number as a fresh string.
pub fn i64_to_string(n: i64) -> (r: String)
    ensures
        r@ == dec_int(n as int),
{
    let mut out = String::new();
    push_dec_i64(&mut out, n);
    proof {
        assert(Seq::<char>::empty() + dec_int(n as int) =~= dec_int(n as int));
    }
    out
}

/// Whether `c` is a decimal digit.
pub open spec fn is_digit(c: char) -> bool {
    '0' <= c && c <= '9'
}

/// The numeric value of a digit character.
pub open spec fn digit_val(c: char) -> int {
    c as int - '0' as int
}

/// The value of a digit string, most significant first.
pub open spec fn dec_val(s: Seq<char>) -> int
    decreases s.len(),
{
    if s.len() == 0 {
        0
    } else {
        dec_val(s.drop_last()) * 10 + digit_val(s.last())
    }
}

/// The value of a digit string, negated when `neg`, provided every character
/// is a digit and the value fits in a signed 64-bit integer.
pub open spec fn spec_digits_value(digits: Seq<char>, neg: bool) -> Option<int> {
    if digits.len() > 0 && (forall|i: int| 0 <= i < digits.len() ==> is_digit(digits[i])) {
        let v = if neg {
            -dec_val(digits)
        } else {
            dec_val(digits)
        };
        if i64::MIN <= v <= i64::MAX {
            Some(v)
        } else {
            None
        }
    } else {
        None
    }
}

/// Whether `s` is a well-formed decimal rendering of a signed 64-bit value:
/// an optional leading minus sign, then at least one digit, with the value in
/// range.
pub open spec fn spec_parse_i64(s: Seq<char>) -> Option<int> {
    if s.len() > 0 && s[0] == '-' {
        spec_digits_value(s.drop_first(), true)
    } else {
        spec_digits_value(s, false)
    }
}

proof fn lemma_dec_val_nonneg(s: Seq<char>)
    requires
        forall|i: int| 0 <= i < s.len() ==> is_digit(s[i]),
    ensures
        dec_val(s) >= 0,
    decreases s.len(),
{
    if s.len() > 0 {
        lemma_dec_val_nonneg(s.drop_last());
    }
}

/// Parse a decimal string into a signed 64-bit value; `None` on empty input,
/// a non-digit character, or overflow.
pub fn parse_i64(s: &str) -> (r: Option<i64>)
    ensures
        match r {
            Some(v) => spec_parse_i64(s@) == Some(v as int),
            None => spec_parse_i64(s@) is None,
        },
{
    let n = s.unicode_len();
    let neg = n > 0 && s.get_char(0) == '-';
    let start: usize = if neg {
        1
    } else {
        0
    };
    let ghost digits = if neg {
        s@.drop_first()
    } else {
        s@
    };
    if start >= n {
        return None;
    }
    let mut acc: u64 = 0;
    let mut i: usize = start;
    proof {
        assert(digits.subrange(0, 0) =~= Seq::<char>::empty());
    }
    while i < n
        invariant
            start <= i <= n,
            n == s@.len(),
            start == if neg {
                1int
            } else {
                0int
            },
            neg ==> s@.len() > 0 && s@[0] == '-',
            !neg ==> s@.len() == 0 || s@[0] != '-',
            digits == if neg {
                s@.drop_first()
            } else {
                s@
            },
            forall|j: int| 0 <= j < i - start ==> is_digit(digits[j]),
            acc as int == dec_val(digits.subrange(0, i - start)),
            acc <= 0x8000_0000_0000_0000u64,
        decreases n - i,
    {
        let c = s.get_char(i);
        proof {
            assert(digits[i - start] == c);
        }
        let u = c as u32;
        if u < 48 || u > 57 {
            proof {
                assert(!is_digit(digits[i - start]));
                assert(spec_digits_value(digits, neg) is None);
            }
            return None;
        }
        let d: u64 = (u - 48) as u64;
        proof {
            assert(is_digit(c));
            assert(d as int == digit_val(c));
        }
        if acc > 0x0ccc_cccc_cccc_ccccu64 || 10 * acc > 0x8000_0000_0000_0000u64 - d {
            // The value no longer fits in a signed 64-bit integer, whichever
            // sign it carries.
            proof {
                let pref = digits.subrange(0, i + 1 - start);
                assert(pref.drop_last() =~= digits.subrange(0, i - start));
                assert(pref.last() == c);
                assert(dec_val(pref) == acc as int * 10 + d);
                assert(dec_val(pref) > 0x8000_0000_0000_0000int);
                if forall|j: int| 0 <= j < digits.len() ==> is_digit(digits[j]) {
                    lemma_dec_val_prefix_bound(digits, i + 1 - start);
                    assert(dec_val(digits) > 0x8000_0000_0000_0000int);
                    assert(spec_digits_value(digits, neg) is None);
                } else {
                    assert(spec_digits_value(digits, neg) is None);
                }
            }
            return None;
        }
        acc = 10 * acc + d;
        proof {
            let pref = digits.subrange(0, i + 1 - start);
            assert(pref.drop_last() =~= digits.subrange(0, i - start));
            assert(pref.last() == c);
            assert(dec_val(pref) == acc as int);
        }
        i = i + 1;
    }
    proof {
        assert(digits.subrange(0, n - start) =~= digits);
    }
    if neg {
        let v: i64 = (-(acc as i128)) as i64;
        proof {
            assert(v as int == -(acc as int));
        }
        Some(v)
    } else {
        if acc == 0x8000_0000_0000_0000u64 {
            proof {
                assert(dec_val(digits) > i64::MAX);
            }
            return None;
        }
        let v: i64 = acc as i64;
        Some(v)
    }
}

/// A digit string's value only grows as more digits are appended, so once a
/// prefix exceeds the signed 64-bit range (for either sign) the whole string
/// does too.
proof fn lemma_dec_val_prefix_bound(s: Seq<char>, k: int)
    requires
        0 <= k <= s.len(),
        forall|i: int| 0 <= i < s.len() ==> is_digit(s[i]),
        dec_val(s.subrange(0, k)) > 0x8000_0000_0000_0000int,
    ensures
        dec_val(s) > 0x8000_0000_0000_0000int,
    decreases s.len() - k,
{
    if k < s.len() {
        let pref = s.subrange(0, k);
        let next = s.subrange(0, k + 1);
        assert(next.drop_last() =~= pref);
        assert(is_digit(next.last()));
        lemma_dec_val_nonneg(pref);
        assert(dec_val(next) == dec_val(pref) * 10 + digit_val(next.last()));
        assert(dec_val(next) > 0x8000_0000_0000_0000int);
        lemma_dec_val_prefix_bound(s, k + 1);
    } else {
        assert(s.subrange(0, k) =~= s);
    }
}

} // verus!
