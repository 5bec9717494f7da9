//! Readings: decimal cell text to tenths of a hectopascal, and rounding.

use vstd::prelude::*;

verus! {

/// Whether `c` is an ASCII decimal digit.
pub open spec fn is_digit(c: char) -> bool {
    '0' <= c && c <= '9'
}

/// The value of a decimal digit.
pub open spec fn digit_value(c: char) -> int {
    c as int - '0' as int
}

/// Every character of `s` is a decimal digit.
pub open spec fn all_digits(s: Seq<char>) -> bool {
    forall|i: int| 0 <= i < s.len() ==> is_digit(#[trigger] s[i])
}

/// The number that a string of decimal digits spells (0 for the empty string).
pub open spec fn digits_value(s: Seq<char>) -> int
    decreases s.len(),
{
    if s.len() == 0 {
        0
    } else {
        digits_value(s.drop_last()) * 10 + digit_value(s.last())
    }
}

/// Tenths spelled by an unsigned decimal: `12`, `12.`, `12.5` or `.5`.
pub open spec fn unsigned_tenths(b: Seq<char>) -> Option<int> {
    if b.len() > 0 && all_digits(b) {
        Some(10 * digits_value(b))
    } else if b.len() >= 2 && b.last() == '.' && all_digits(b.drop_last()) {
        Some(10 * digits_value(b.drop_last()))
    } else if b.len() >= 2 && is_digit(b.last()) && b[b.len() - 2] == '.' && all_digits(
        b.take(b.len() - 2),
    ) {
        Some(10 * digits_value(b.take(b.len() - 2)) + digit_value(b.last()))
    } else {
        None
    }
}

/// Tenths spelled by a decimal with an optional leading `+` or `-`.
pub open spec fn text_tenths(s: Seq<char>) -> Option<int> {
    if s.len() > 0 && s[0] == '-' {
        match unsigned_tenths(s.drop_first()) {
            Some(v) => Some(-v),
            None => None,
        }
    } else if s.len() > 0 && s[0] == '+' {
        unsigned_tenths(s.drop_first())
    } else {
        unsigned_tenths(s)
    }
}

/// `t`, negated where `neg` holds.
pub open spec fn signed(neg: bool, t: Option<int>) -> Option<int> {
    match t {
        Some(v) => Some(if neg { -v } else { v }),
        None => None,
    }
}

/// The reading that a cell text gives: its tenths, where they fit in an `i32`.
pub open spec fn reading_of_text(s: Seq<char>) -> Option<i32> {
    match text_tenths(s) {
        Some(v) => if i32::MIN <= v <= i32::MAX {
            Some(v as i32)
        } else {
            None
        },
        None => None,
    }
}

/// `floor(x + 1/2)` where `x` is `tenths * scale / 10`.
pub open spec fn round_scaled_spec(tenths: int, scale: int) -> int {
    (tenths * scale + 5) / 10
}

/// A longer run of digits spells at least as much as its prefix.
proof fn lemma_digits_value_prefix(s: Seq<char>, k: int)
    requires
        all_digits(s),
        0 <= k <= s.len(),
    ensures
        0 <= digits_value(s.take(k)) <= digits_value(s),
    decreases s.len(),
{
    if s.len() > 0 {
        assert(is_digit(s[s.len() - 1]));
        let k2 = if k < s.len() {
            k
        } else {
            s.len() - 1
        };
        lemma_digits_value_prefix(s.drop_last(), k2);
        if k < s.len() {
            assert(s.drop_last().take(k) =~= s.take(k));
        } else {
            assert(s.take(k) =~= s);
        }
    } else {
        assert(s.take(k) =~= s);
    }
}

/// Whether `c` is an ASCII decimal digit.
fn is_ascii_digit(c: char) -> (r: bool)
    ensures
        r == is_digit(c),
{
    '0' <= c && c <= '9'
}

/// Parses a cell text as a reading, in tenths of a hectopascal.
///
/// Accepts an optional sign, then digits with at most one digit after the
/// point (`1013`, `1013.`, `1013.2`, `.5`); anything else, or a value out of
/// the range of `i32`, gives `None`.
pub fn parse_reading(s: &str) -> (r: Option<i32>)
    ensures
        r == reading_of_text(s@),
{
    let n = s.unicode_len();
    let mut i: usize = 0;
    let mut neg = false;
    if n > 0 {
        let c = s.get_char(0);
        if c == '-' {
            neg = true;
            i = 1;
        } else if c == '+' {
            i = 1;
        }
    }
    let start = i;
    let ghost b = s@.skip(start as int);
    assert(neg ==> s@.drop_first() =~= b);
    assert(!neg && start == 1 ==> s@.drop_first() =~= b);
    assert(start == 0 ==> s@ =~= b);
    assert(text_tenths(s@) == signed(neg, unsigned_tenths(b)));
    let mut acc: i64 = 0;
    while i < n && is_ascii_digit(s.get_char(i))
        invariant
            start <= i <= n,
            n == s@.len(),
            b == s@.skip(start as int),
            text_tenths(s@) == signed(neg, unsigned_tenths(b)),
            all_digits(s@.subrange(start as int, i as int)),
            acc == digits_value(s@.subrange(start as int, i as int)),
            0 <= acc <= 214748364,
        decreases n - i,
    {
        let c = s.get_char(i);
        let d = (c as u32 - '0' as u32) as i64;
        proof {
            let p = s@.subrange(start as int, i as int + 1);
            assert(p.drop_last() =~= s@.subrange(start as int, i as int));
        }
        acc = acc * 10 + d;
        i = i + 1;
        if acc > 214748364 {
            proof {
                let p = s@.subrange(start as int, i as int);
                assert(p =~= b.take(i - start));
                if b.len() > 0 && all_digits(b) {
                    lemma_digits_value_prefix(b, i - start);
                } else if b.len() >= 2 && b.last() == '.' && all_digits(b.drop_last()) {
                    if i - start == b.len() {
                        assert(p[b.len() - 1] == b.last());
                    }
                    assert(b.drop_last().take(i - start) =~= p);
                    lemma_digits_value_prefix(b.drop_last(), i - start);
                } else if b.len() >= 2 && is_digit(b.last()) && b[b.len() - 2] == '.'
                    && all_digits(b.take(b.len() - 2)) {
                    if i - start >= b.len() - 1 {
                        assert(p[b.len() - 2] == b[b.len() - 2]);
                    }
                    assert(b.take(b.len() - 2).take(i - start) =~= p);
                    lemma_digits_value_prefix(b.take(b.len() - 2), i - start);
                }
            }
            return None;
        }
    }
    let ghost d = s@.subrange(start as int, i as int);
    let ndig = i - start;
    let tenths: i64;
    if i == n {
        if ndig == 0 {
            assert(b.len() == 0);
            return None;
        }
        assert(b =~= d);
        tenths = acc * 10;
    } else if s.get_char(i) != '.' {
        proof {
            assert(!is_digit(b[i - start]));
            assert(!all_digits(b));
            if b.len() >= 2 && b.last() == '.' {
                assert(b.drop_last()[i - start] == b[i - start]);
            }
            if b.len() >= 2 && is_digit(b.last()) && b[b.len() - 2] == '.' {
                assert(b.take(b.len() - 2)[i - start] == b[i - start]);
            }
        }
        return None;
    } else if i + 1 == n {
        if ndig == 0 {
            return None;
        }
        assert(b.drop_last() =~= d);
        assert(!is_digit(b[i - start]));
        tenths = acc * 10;
    } else if i + 2 == n && '0' <= s.get_char(i + 1) && s.get_char(i + 1) <= '9' {
        let f = (s.get_char(i + 1) as u32 - '0' as u32) as i64;
        assert(b.take(b.len() - 2) =~= d);
        assert(!is_digit(b[i - start]));
        tenths = acc * 10 + f;
    } else {
        proof {
            assert(!is_digit(b[i - start]));
            assert(!all_digits(b));
            if b.len() >= 2 && b.last() == '.' {
                assert(b.drop_last()[i - start] == b[i - start]);
            }
            if b.len() >= 2 && is_digit(b.last()) && b[b.len() - 2] == '.' && i + 2 < n {
                assert(b.take(b.len() - 2)[i - start] == b[i - start]);
            }
        }
        return None;
    }
    let v: i64 = if neg {
        -tenths
    } else {
        tenths
    };
    if v < -2147483648 || v > 2147483647 {
        None
    } else {
        Some(v as i32)
    }
}

/// Rounds `tenths * scale / 10` half up, that is to `floor(x + 1/2)`.
pub fn round_scaled(tenths: i32, scale: u64) -> (r: i128)
    ensures
        r == round_scaled_spec(tenths as int, scale as int),
        10 * r <= tenths * scale + 5 < 10 * r + 10,
{
    assert(-0x80000000 * 0x10000000000000000 <= (tenths as int) * (scale as int)
        <= 0x80000000 * 0x10000000000000000) by (nonlinear_arith)
        requires
            -0x80000000 <= tenths < 0x80000000,
            0 <= scale < 0x10000000000000000,
    ;
    let x: i128 = (tenths as i128) * (scale as i128) + 5;
    floor_div(x, 10)
}

/// Rounds a reading, in tenths, half up to a whole number of hectopascals.
pub fn round(tenths: i32) -> (r: i128)
    ensures
        r == round_scaled_spec(tenths as int, 1),
        10 * r <= tenths + 5 < 10 * r + 10,
{
    round_scaled(tenths, 1)
}

/// Floor division by a positive divisor.
pub fn floor_div(x: i128, d: i128) -> (r: i128)
    requires
        d > 0,
        x > i128::MIN,
    ensures
        r == x as int / d as int,
        d * r <= x < d * r + d,
{
    if x >= 0 {
        let q = x / d;
        assert(d * q <= x < d * q + d) by (nonlinear_arith)
            requires
                q == x / d,
                x >= 0,
                d > 0,
        ;
        q
    } else {
        let y = -x - 1;
        let q = y / d;
        assert(d * q <= y < d * q + d) by (nonlinear_arith)
            requires
                q == y / d,
                y >= 0,
                d > 0,
        ;
        let r = -q - 1;
        assert(d * r <= x < d * r + d) by (nonlinear_arith)
            requires
                d * q <= y < d * q + d,
                y == -x - 1,
                r == -q - 1,
        ;
        proof {
            vstd::arithmetic::div_mod::lemma_fundamental_div_mod_converse(
                x as int,
                d as int,
                r as int,
                x - d * r,
            );
        }
        r
    }
}

} // verus!
