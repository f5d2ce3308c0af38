//! Decimal text for session ids.
//!
//! A session id travels inside the cookie as its decimal string.  The
//! functions here render an `i32` the way the standard library does (no
//! leading zeros, a leading `-` for negative values) and parse it back,
//! accepting exactly the strings that `str::parse::<i32>` accepts: an
//! optional `+` or `-` sign, then one or more digits, with the value in
//! range.

use vstd::prelude::*;

verus! {

pub open spec fn spec_is_digit(c: char) -> bool {
    '0' <= c && c <= '9'
}

pub open spec fn spec_digit_val(c: char) -> int {
    c as int - '0' as int
}

pub open spec fn spec_all_digits(s: Seq<char>) -> bool {
    forall|i: int| 0 <= i < s.len() ==> spec_is_digit(#[trigger] s[i])
}

/// Value of a digit string, most significant digit first.
pub open spec fn spec_digits_value(s: Seq<char>) -> int
    decreases s.len(),
{
    if s.len() == 0 {
        0
    } else {
        spec_digits_value(s.drop_last()) * 10 + spec_digit_val(s.last())
    }
}

pub open spec fn spec_digit_char(d: int) -> char {
    if d == 0 {
        '0'
    } else if d == 1 {
        '1'
    } else if d == 2 {
        '2'
    } else if d == 3 {
        '3'
    } else if d == 4 {
        '4'
    } else if d == 5 {
        '5'
    } else if d == 6 {
        '6'
    } else if d == 7 {
        '7'
    } else if d == 8 {
        '8'
    } else {
        '9'
    }
}

/// Decimal rendering of a non-negative value: no sign, no leading zeros.
pub open spec fn spec_nat_string(n: int) -> Seq<char>
    recommends
        n >= 0,
    decreases n,
{
    if n < 10 {
        seq![spec_digit_char(n)]
    } else {
        spec_nat_string(n / 10).push(spec_digit_char(n % 10))
    }
}

/// Decimal rendering of an `i32` value, as `i32::to_string` produces it.
pub open spec fn spec_i32_string(n: int) -> Seq<char> {
    if n < 0 {
        seq!['-'] + spec_nat_string(-n)
    } else {
        spec_nat_string(n)
    }
}

/// What `str::parse::<i32>` yields: an optional sign, then only digits,
/// and the signed value within `i32` range; otherwise nothing.
pub open spec fn spec_parse_i32(s: Seq<char>) -> Option<i32> {
    let signed = s.len() > 0 && (s[0] == '-' || s[0] == '+');
    let neg = s.len() > 0 && s[0] == '-';
    let ds = if signed {
        s.subrange(1, s.len() as int)
    } else {
        s
    };
    if ds.len() == 0 || !spec_all_digits(ds) {
        None
    } else {
        let v = if neg {
            -spec_digits_value(ds)
        } else {
            spec_digits_value(ds)
        };
        if i32::MIN <= v <= i32::MAX {
            Some(v as i32)
        } else {
            None
        }
    }
}

/// Relies on `String::push`: appends exactly the given character.
#[verifier::external_body]
fn string_push(s: &mut String, c: char)
    ensures
        final(s)@ == old(s)@.push(c),
{
    s.push(c);
}

fn digit_char(d: u32) -> (c: char)
    requires
        d < 10,
    ensures
        c == spec_digit_char(d as int),
{
    match d {
        0 => '0',
        1 => '1',
        2 => '2',
        3 => '3',
        4 => '4',
        5 => '5',
        6 => '6',
        7 => '7',
        8 => '8',
        _ => '9',
    }
}

proof fn lemma_digits_value_nonneg(s: Seq<char>)
    requires
        spec_all_digits(s),
    ensures
        spec_digits_value(s) >= 0,
    decreases s.len(),
{
    if s.len() > 0 {
        assert(spec_all_digits(s.drop_last()));
        lemma_digits_value_nonneg(s.drop_last());
    }
}

/// A digit string's value only grows as digits are appended.
proof fn lemma_digits_value_prefix_le(s: Seq<char>, k: int)
    requires
        spec_all_digits(s),
        0 <= k <= s.len(),
    ensures
        spec_digits_value(s.subrange(0, k)) <= spec_digits_value(s),
    decreases s.len() - k,
{
    if k == s.len() {
        assert(s.subrange(0, k) =~= s);
    } else {
        let t = s.subrange(0, k + 1);
        assert(t.drop_last() =~= s.subrange(0, k));
        assert(spec_all_digits(s.subrange(0, k)));
        lemma_digits_value_nonneg(s.subrange(0, k));
        assert(spec_digits_value(t) == spec_digits_value(s.subrange(0, k)) * 10 + spec_digit_val(
            t.last(),
        ));
        lemma_digits_value_prefix_le(s, k + 1);
    }
}

/// Renders `n` in decimal, as `u32::to_string` does.
pub fn u32_to_string(n: u32) -> (s: String)
    ensures
        s@ == spec_nat_string(n as int),
{
    let mut digits: Vec<char> = Vec::new();
    let mut m: u32 = n;
    while m >= 10
        invariant
            spec_nat_string(n as int) =~= spec_nat_string(m as int) + digits@.reverse(),
        decreases m,
    {
        let ghost pre = digits@;
        digits.push(digit_char(m % 10));
        proof {
            assert(digits@.reverse() =~= seq![spec_digit_char(m as int % 10)] + pre.reverse());
            assert(spec_nat_string(m as int) =~= spec_nat_string(m as int / 10).push(
                spec_digit_char(m as int % 10),
            ));
            assert(spec_nat_string(m as int / 10) + digits@.reverse() =~= spec_nat_string(
                m as int,
            ) + pre.reverse());
        }
        m = m / 10;
    }
    let ghost pre = digits@;
    digits.push(digit_char(m));
    proof {
        assert(digits@.reverse() =~= seq![spec_digit_char(m as int)] + pre.reverse());
        assert(spec_nat_string(m as int) =~= seq![spec_digit_char(m as int)]);
        assert(spec_nat_string(n as int) =~= digits@.reverse());
    }
    let mut s = String::new();
    let count = digits.len();
    let mut i: usize = 0;
    while i < count
        invariant
            count == digits@.len(),
            i <= count,
            s@ =~= digits@.reverse().subrange(0, i as int),
        decreases count - i,
    {
        let c = digits[count - 1 - i];
        string_push(&mut s, c);
        proof {
            assert(digits@.reverse()[i as int] == digits@[count - 1 - i]);
            assert(s@ =~= digits@.reverse().subrange(0, i + 1));
        }
        i = i + 1;
    }
    proof {
        assert(s@ =~= digits@.reverse());
    }
    s
}

/// Renders `n` in decimal, as `i32::to_string` does.
pub fn i32_to_string(n: i32) -> (s: String)
    ensures
        s@ == spec_i32_string(n as int),
{
    if n >= 0 {
        u32_to_string(n as u32)
    } else {
        let m: u32 = (-(n as i64)) as u32;
        let digits = u32_to_string(m);
        let mut s = String::new();
        string_push(&mut s, '-');
        proof {
            assert(s@ =~= seq!['-']);
        }
        let r = s.concat(digits.as_str());
        proof {
            assert(r@ =~= seq!['-'] + spec_nat_string(m as int));
        }
        r
    }
}

/// Parses a decimal `i32`, accepting exactly what `str::parse::<i32>`
/// accepts.
pub fn parse_i32(s: &str) -> (r: Option<i32>)
    ensures
        r == spec_parse_i32(s@),
{
    let len = s.unicode_len();
    if len == 0 {
        return None;
    }
    let first = s.get_char(0);
    let signed = first == '-' || first == '+';
    let neg = first == '-';
    let start: usize = if signed {
        1
    } else {
        0
    };
    let ghost ds = if signed {
        s@.subrange(1, s@.len() as int)
    } else {
        s@
    };
    if start == len {
        return None;
    }
    let mut acc: u64 = 0;
    let mut i: usize = start;
    while i < len
        invariant
            start <= i <= len,
            len == s@.len(),
            signed == (s@.len() > 0 && (s@[0] == '-' || s@[0] == '+')),
            neg == (s@.len() > 0 && s@[0] == '-'),
            start == if signed {
                1int
            } else {
                0int
            },
            ds =~= s@.subrange(start as int, len as int),
            ds =~= if signed {
                s@.subrange(1, s@.len() as int)
            } else {
                s@
            },
            spec_all_digits(ds.subrange(0, i - start)),
            acc == spec_digits_value(ds.subrange(0, i - start)),
            acc <= 0x8000_0000,
        decreases len - i,
    {
        let c = s.get_char(i);
        if !(c >= '0' && c <= '9') {
            proof {
                assert(ds[i - start] == c);
                assert(!spec_all_digits(ds));
            }
            return None;
        }
        let d: u32 = (c as u32) - 48;
        proof {
            assert(d == spec_digit_val(c));
            assert(ds.subrange(0, i + 1 - start).drop_last() =~= ds.subrange(0, i - start));
            assert(ds.subrange(0, i + 1 - start).last() == c);
        }
        acc = acc * 10 + (d as u64);
        i = i + 1;
        if acc > 0x8000_0000 {
            // Any digits that follow only enlarge the magnitude, so the
            // value cannot fit in an `i32` whichever sign it carries.
            proof {
                if spec_all_digits(ds) {
                    lemma_digits_value_prefix_le(ds, i - start);
                }
            }
            return None;
        }
    }
    proof {
        assert(ds.subrange(0, len - start) =~= ds);
    }
    if neg {
        let v: i64 = -(acc as i64);
        proof {
            assert(i32::MIN <= v <= i32::MAX);
        }
        Some(v as i32)
    } else {
        if acc > 0x7FFF_FFFF {
            return None;
        }
        Some(acc as i32)
    }
}

/// Two-digit zero-padded rendering of a value below one hundred.
pub open spec fn spec_two_digit_string(n: int) -> Seq<char>
    recommends
        0 <= n < 100,
{
    if n < 10 {
        seq!['0'] + spec_nat_string(n)
    } else {
        spec_nat_string(n)
    }
}

/// Renders `n` as exactly two digits, padding with a leading zero.
pub fn two_digit_string(n: u32) -> (s: String)
    requires
        n < 100,
    ensures
        s@ == spec_two_digit_string(n as int),
{
    let digits = u32_to_string(n);
    if n < 10 {
        let mut s = String::new();
        string_push(&mut s, '0');
        proof {
            assert(s@ =~= seq!['0']);
        }
        s.concat(digits.as_str())
    } else {
        digits
    }
}

proof fn lemma_nat_string_digits(n: int)
    requires
        n >= 0,
    ensures
        spec_nat_string(n).len() >= 1,
        spec_all_digits(spec_nat_string(n)),
        spec_digits_value(spec_nat_string(n)) == n,
    decreases n,
{
    if n < 10 {
        assert(spec_nat_string(n) =~= seq![spec_digit_char(n)]);
        assert(spec_digit_val(spec_digit_char(n)) == n);
        assert(spec_digits_value(Seq::<char>::empty()) == 0);
        assert(seq![spec_digit_char(n)].drop_last() =~= Seq::<char>::empty());
    } else {
        lemma_nat_string_digits(n / 10);
        let s = spec_nat_string(n);
        assert(s =~= spec_nat_string(n / 10).push(spec_digit_char(n % 10)));
        assert(s.drop_last() =~= spec_nat_string(n / 10));
        assert(spec_digit_val(s.last()) == n % 10);
        assert(spec_digits_value(s) == (n / 10) * 10 + n % 10);
    }
}

/// Rendering an `i32` in decimal and parsing it back yields the same value.
pub proof fn lemma_i32_string_round_trip(n: i32)
    ensures
        spec_parse_i32(spec_i32_string(n as int)) == Some(n),
{
    if n >= 0 {
        let s = spec_i32_string(n as int);
        lemma_nat_string_digits(n as int);
        assert(spec_is_digit(s[0]));
        assert(s[0] != '-' && s[0] != '+');
        assert(spec_digits_value(s) == n as int);
    } else {
        let m = -(n as int);
        lemma_nat_string_digits(m);
        let s = spec_i32_string(n as int);
        assert(s =~= seq!['-'] + spec_nat_string(m));
        assert(s[0] == '-');
        let ds = s.subrange(1, s.len() as int);
        assert(ds =~= spec_nat_string(m));
        assert(spec_digits_value(ds) == m);
    }
}

} // verus!
