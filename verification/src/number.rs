//! Decimal numbers as they stand in a timestamp field.
//!
//! A field is read the way `str::parse` reads an integer: an optional sign, at
//! least one ASCII digit, nothing else, and a value inside the range of the
//! target type.

use vstd::prelude::*;
use vstd::string::*;

verus! {

/// An ASCII decimal digit.
pub open spec fn is_digit(c: char) -> bool {
    '0' as int <= c as int <= '9' as int
}

/// The number that a digit stands for.
pub open spec fn digit_value(c: char) -> int {
    c as int - '0' as int
}

/// Every character of `s` is an ASCII decimal digit.
pub open spec fn all_digits(s: Seq<char>) -> bool {
    forall|i: int| 0 <= i < s.len() ==> is_digit(#[trigger] s[i])
}

/// The value of a run of digits, most significant digit first.
pub open spec fn digits_value(s: Seq<char>) -> int
    decreases s.len(),
{
    if s.len() == 0 {
        0
    } else {
        10 * digits_value(s.drop_last()) + digit_value(s.last())
    }
}

/// The integer written in `s`: an optional `+`, or `-` where `signed` allows
/// it, then one or more digits. `None` for anything else.
pub open spec fn decimal(s: Seq<char>, signed: bool) -> Option<int> {
    let negative = signed && s.len() > 0 && s[0] == '-';
    let marked = s.len() > 0 && (s[0] == '+' || negative);
    let body = if marked {
        s.skip(1)
    } else {
        s
    };
    if body.len() == 0 || !all_digits(body) {
        None
    } else if negative {
        Some(-digits_value(body))
    } else {
        Some(digits_value(body))
    }
}

/// The integer written in `s`, where it lies in `lo ..= hi`.
pub open spec fn decimal_in(s: Seq<char>, signed: bool, lo: int, hi: int) -> Option<int> {
    match decimal(s, signed) {
        Some(v) => if lo <= v <= hi {
            Some(v)
        } else {
            None
        },
        None => None,
    }
}

/// An `i32` field.
pub open spec fn decimal_i32(s: Seq<char>) -> Option<int> {
    decimal_in(s, true, i32::MIN as int, i32::MAX as int)
}

/// A `u32` field.
pub open spec fn decimal_u32(s: Seq<char>) -> Option<int> {
    decimal_in(s, false, 0, u32::MAX as int)
}

/// An `i64` field.
pub open spec fn decimal_i64(s: Seq<char>) -> Option<int> {
    decimal_in(s, true, i64::MIN as int, i64::MAX as int)
}

/// The value of a run of digits is never negative.
pub proof fn lemma_digits_value_nonnegative(s: Seq<char>)
    requires
        all_digits(s),
    ensures
        digits_value(s) >= 0,
    decreases s.len(),
{
    if s.len() > 0 {
        lemma_digits_value_nonnegative(s.drop_last());
    }
}

/// Reads the integer written in `s` and returns it where it lies in
/// `lo ..= hi`.
pub fn parse_decimal(s: &str, signed: bool, lo: i64, hi: i64) -> (r: Option<i64>)
    ensures
        match r {
            Some(v) => decimal_in(s@, signed, lo as int, hi as int) == Some(v as int),
            None => decimal_in(s@, signed, lo as int, hi as int) is None,
        },
{
    if !s.is_ascii() {
        proof {
            let i = choose|i: int| 0 <= i < s@.len() && !('\0' <= #[trigger] s@[i] <= '\u{7f}');
            let marked = s@.len() > 0 && (s@[0] == '+' || (signed && s@[0] == '-'));
            if marked {
                assert(i > 0);
                assert(s@.skip(1)[i - 1] == s@[i]);
                assert(!is_digit(s@.skip(1)[i - 1]));
            } else {
                assert(!is_digit(s@[i]));
            }
        }
        return None;
    }
    let bytes = s.as_bytes();
    let n = bytes.len();
    proof {
        is_ascii_spec_bytes(s);
        assert(bytes@.len() == s@.len());
        assert forall|i: int| 0 <= i < n implies bytes@[i] as int == #[trigger] s@[i] as int by {
            assert('\0' <= s@[i] <= '\u{7f}');
            assert(bytes@[i] == s@[i] as u8);
        }
    }
    if n == 0 {
        return None;
    }
    let negative = signed && bytes[0] == 45u8;
    let marked = bytes[0] == 43u8 || negative;
    let first: usize = if marked {
        1
    } else {
        0
    };
    if first == n {
        return None;
    }
    let ghost body = if marked {
        s@.skip(1)
    } else {
        s@
    };
    assert(body.len() == n - first);
    assert(forall|i: int| 0 <= i < body.len() ==> body[i] == s@[i + first]);
    // `acc` is the value of the digits read so far, until it leaves the range
    // of every 64-bit integer; from then on only the digits are looked at.
    let limit: i128 = 9_223_372_036_854_775_808;
    let mut acc: i128 = 0;
    let mut over = false;
    let mut i: usize = first;
    while i < n
        invariant
            first <= i <= n,
            n == bytes@.len(),
            n == s@.len(),
            first == (if marked { 1usize } else { 0usize }),
            negative == (signed && s@[0] == '-'),
            marked == (s@[0] == '+' || negative),
            body == (if marked { s@.skip(1) } else { s@ }),
            body.len() == n - first,
            limit == 9_223_372_036_854_775_808,
            forall|k: int| 0 <= k < n ==> bytes@[k] as int == #[trigger] s@[k] as int,
            forall|k: int| 0 <= k < body.len() ==> body[k] == s@[k + first],
            all_digits(body.take(i - first)),
            !over ==> acc == digits_value(body.take(i - first)) && 0 <= acc <= limit,
            over ==> digits_value(body.take(i - first)) > limit,
        decreases n - i,
    {
        let b = bytes[i];
        let ghost prefix = body.take(i - first);
        let ghost longer = body.take(i + 1 - first);
        proof {
            assert(longer.drop_last() =~= prefix);
            assert(longer.last() == body[i - first]);
            assert(body[i - first] == s@[i as int]);
        }
        if b < 48u8 || b > 57u8 {
            proof {
                assert(!is_digit(body[i - first]));
            }
            return None;
        }
        proof {
            assert(is_digit(body[i - first]));
            assert forall|k: int| 0 <= k < longer.len() implies is_digit(#[trigger] longer[k]) by {
                if k < prefix.len() {
                    assert(longer[k] == prefix[k]);
                }
            }
            lemma_digits_value_nonnegative(prefix);
        }
        if !over {
            acc = acc * 10 + (b - 48u8) as i128;
            if acc > limit {
                over = true;
            }
        }
        i = i + 1;
    }
    proof {
        assert(body.take(n - first) =~= body);
    }
    if over {
        return None;
    }
    let value: i128 = if negative {
        -acc
    } else {
        acc
    };
    if value < lo as i128 || value > hi as i128 {
        None
    } else {
        Some(value as i64)
    }
}

} // verus!
