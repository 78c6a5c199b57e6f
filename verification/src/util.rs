use vstd::prelude::*;

verus! {

/// Saturating addition clamped to the `i64` range, as a mathematical function.
pub open spec fn sat_add_i64_spec(a: int, b: int) -> int {
    if a + b > i64::MAX as int {
        i64::MAX as int
    } else if a + b < i64::MIN as int {
        i64::MIN as int
    } else {
        a + b
    }
}

/// Adds two `i64` values, clamping on overflow.
pub fn sat_add_i64(a: i64, b: i64) -> (r: i64)
    ensures
        r as int == sat_add_i64_spec(a as int, b as int),
{
    if b >= 0 {
        if a > i64::MAX - b {
            i64::MAX
        } else {
            a + b
        }
    } else {
        if a < i64::MIN - b {
            i64::MIN
        } else {
            a + b
        }
    }
}

/// Saturating addition clamped to the `u64` range, as a mathematical function.
pub open spec fn sat_add_u64_spec(a: int, b: int) -> int {
    if a + b > u64::MAX as int {
        u64::MAX as int
    } else {
        a + b
    }
}

/// Adds two `u64` values, clamping on overflow.
pub fn sat_add_u64(a: u64, b: u64) -> (r: u64)
    ensures
        r as int == sat_add_u64_spec(a as int, b as int),
{
    if a > u64::MAX - b {
        u64::MAX
    } else {
        a + b
    }
}

/// The smaller of two `i64` values.
pub fn min_i64(a: i64, b: i64) -> (r: i64)
    ensures
        r == if a <= b { a } else { b },
{
    if a <= b {
        a
    } else {
        b
    }
}

/// The larger of two `i64` values.
pub fn max_i64(a: i64, b: i64) -> (r: i64)
    ensures
        r == if a >= b { a } else { b },
{
    if a >= b {
        a
    } else {
        b
    }
}

/// Clamps a mathematical integer to the `i64` range.
pub open spec fn sat_i64(n: int) -> int {
    if n > i64::MAX as int {
        i64::MAX as int
    } else if n < i64::MIN as int {
        i64::MIN as int
    } else {
        n
    }
}

/// Subtracts two `i64` values, clamping on overflow.
pub fn sat_sub_i64(a: i64, b: i64) -> (r: i64)
    ensures
        r as int == sat_i64(a as int - b as int),
{
    if b >= 0 {
        if a < i64::MIN + b {
            i64::MIN
        } else {
            a - b
        }
    } else {
        if a > i64::MAX + b {
            i64::MAX
        } else {
            a - b
        }
    }
}

/// Relies on `String::push`: appends exactly the one character to the end
/// of the string.
#[verifier::external_body]
pub fn push_char(s: &mut String, c: char)
    ensures
        final(s)@ == old(s)@.push(c),
{
    s.push(c);
}

/// Whether two string slices hold the same characters.
pub fn str_eq(a: &str, b: &str) -> (r: bool)
    ensures
        r == (a@ == b@),
{
    let sa = a.to_owned();
    let sb = b.to_owned();
    sa == sb
}

/// Whether a character is a decimal digit.
pub open spec fn is_dec_digit(c: char) -> bool {
    '0' <= c && c <= '9'
}

/// The numeric value of a decimal digit.
pub open spec fn digit_val(c: char) -> int {
    c as int - '0' as int
}

/// Whether every character of a sequence is a decimal digit.
pub open spec fn all_digits(s: Seq<char>) -> bool {
    forall|i: int| 0 <= i < s.len() ==> is_dec_digit(#[trigger] s[i])
}

/// The value of a sequence of decimal digits, most significant first.
pub open spec fn dec_val(s: Seq<char>) -> int
    decreases s.len(),
{
    if s.len() == 0 {
        0
    } else {
        dec_val(s.drop_last()) * 10 + digit_val(s.last())
    }
}

/// Ten to the `n`.
pub open spec fn pow10(n: int) -> int
    decreases n,
{
    if n <= 0 {
        1
    } else {
        10 * pow10(n - 1)
    }
}

/// A digit string's value is below ten to its length.
pub proof fn lemma_dec_val_bound(s: Seq<char>)
    requires
        all_digits(s),
    ensures
        0 <= dec_val(s) < pow10(s.len() as int),
    decreases s.len(),
{
    if s.len() > 0 {
        assert(all_digits(s.drop_last())) by {
            assert(forall|i: int|
                0 <= i < s.len() - 1 ==> s.drop_last()[i] == #[trigger] s[i]);
        }
        lemma_dec_val_bound(s.drop_last());
        assert(0 <= digit_val(s.last()) <= 9);
    }
}

/// The decimal value of an unsigned digit string of one to fifteen digits;
/// anything else — empty, longer, or holding a non-digit — reads as
/// nothing.
pub open spec fn spec_parse_uint(s: Seq<char>) -> Option<int> {
    if 1 <= s.len() <= 15 && all_digits(s) {
        Some(dec_val(s))
    } else {
        None
    }
}

/// Reads an unsigned decimal integer, as [`spec_parse_uint`] says.
pub fn parse_uint(s: &str) -> (r: Option<u64>)
    ensures
        match r {
            Some(v) => spec_parse_uint(s@) == Some(v as int),
            None => spec_parse_uint(s@) is None,
        },
{
    let n = s.unicode_len();
    if n < 1 || n > 15 {
        return None;
    }
    let mut acc: u64 = 0;
    let mut i: usize = 0;
    proof {
        assert(s@.take(0).len() == 0);
    }
    while i < n
        invariant
            0 <= i <= n,
            n == s@.len(),
            1 <= n <= 15,
            all_digits(s@.take(i as int)),
            acc as int == dec_val(s@.take(i as int)),
            (acc as int) < pow10(i as int),
        decreases n - i,
    {
        let c = s.get_char(i);
        if c < '0' || c > '9' {
            return None;
        }
        let d = (c as u32) - ('0' as u32);
        proof {
            lemma_dec_val_bound(s@.take(i as int));
            assert(pow10(i as int) <= pow10(15)) by {
                lemma_pow10_le(i as int, 15);
            }
            assert(pow10(15) == 1_000_000_000_000_000) by {
                reveal_with_fuel(pow10, 16);
            }
            assert(s@.take(i + 1).drop_last() =~= s@.take(i as int));
            assert(s@.take(i + 1).last() == s@[i as int]);
            assert(all_digits(s@.take(i + 1))) by {
                assert(forall|k: int|
                    0 <= k < i ==> s@.take(i + 1)[k] == #[trigger] s@.take(i as int)[k]);
            }
        }
        acc = acc * 10 + (d as u64);
        i += 1;
        proof {
            lemma_dec_val_bound(s@.take(i as int));
            lemma_pow10_le(i as int, 15);
            assert(pow10(15) == 1_000_000_000_000_000) by {
                reveal_with_fuel(pow10, 16);
            }
        }
    }
    proof {
        assert(s@.take(n as int) =~= s@);
    }
    Some(acc)
}

/// `pow10` grows with its argument.
pub proof fn lemma_pow10_le(a: int, b: int)
    requires
        a <= b,
    ensures
        pow10(a) <= pow10(b),
        pow10(a) >= 1,
    decreases b - a,
{
    lemma_pow10_pos(a);
    if a < b {
        lemma_pow10_le(a, b - 1);
        lemma_pow10_pos(b - 1);
    }
}

/// `pow10` is positive.
pub proof fn lemma_pow10_pos(n: int)
    ensures
        pow10(n) >= 1,
    decreases n,
{
    if n > 0 {
        lemma_pow10_pos(n - 1);
    }
}

/// The milli fixed-point value of a plain decimal string: an optional
/// minus, one to twelve integer digits, and optionally a point with at most
/// three fraction digits.  Anything else reads as nothing.
pub open spec fn spec_parse_milli(s: Seq<char>) -> Option<int> {
    let neg = s.len() > 0 && s[0] == '-';
    let body = if neg {
        s.drop_first()
    } else {
        s
    };
    let dot = spec_find_char(body, '.', 0);
    let ip = body.take(dot);
    let fp = if dot < body.len() {
        body.skip(dot + 1)
    } else {
        Seq::empty()
    };
    if 1 <= ip.len() <= 12 && all_digits(ip) && fp.len() <= 3 && all_digits(fp) {
        let m = dec_val(ip) * 1000 + dec_val(fp) * pow10(3 - fp.len());
        if neg {
            Some(-m)
        } else {
            Some(m)
        }
    } else {
        None
    }
}

/// The first position of `c` in `s` at or after `from`, or the length.
pub open spec fn spec_find_char(s: Seq<char>, c: char, from: int) -> int
    decreases s.len() - from,
{
    if from < 0 || from >= s.len() {
        s.len() as int
    } else if s[from] == c {
        from
    } else {
        spec_find_char(s, c, from + 1)
    }
}

/// Reads a plain decimal number into milli fixed point, as
/// [`spec_parse_milli`] says.
pub fn parse_milli(s: &str) -> (r: Option<i64>)
    ensures
        match r {
            Some(v) => spec_parse_milli(s@) == Some(v as int),
            None => spec_parse_milli(s@) is None,
        },
{
    let n = s.unicode_len();
    let neg = n > 0 && s.get_char(0) == '-';
    let start: usize = if neg {
        1
    } else {
        0
    };
    let ghost body = if neg {
        s@.drop_first()
    } else {
        s@
    };
    let mut dotpos: usize = n;
    let mut i: usize = start;
    proof {
        assert(spec_find_char(body, '.', 0) == spec_find_char(body, '.', i - start));
    }
    while i < n
        invariant_except_break
            dotpos == n,
            spec_find_char(body, '.', 0) == spec_find_char(body, '.', i - start),
        invariant
            start <= i <= n,
            start <= 1,
            n == s@.len(),
            start <= n,
            body == if start == 1 {
                s@.drop_first()
            } else {
                s@
            },
        ensures
            start <= dotpos <= n,
            n == s@.len(),
            dotpos - start == spec_find_char(body, '.', 0),
            dotpos < n ==> s@[dotpos as int] == '.',
        decreases n - i,
    {
        proof {
            assert(body[i - start] == s@[i as int]);
        }
        if s.get_char(i) == '.' {
            dotpos = i;
            break ;
        }
        i += 1;
    }
    if dotpos - start < 1 || dotpos - start > 12 {
        return None;
    }
    let ip = s.substring_char(start, dotpos);
    proof {
        assert(ip@ =~= body.take(dotpos - start));
    }
    let ipv = match parse_uint(ip) {
        Some(v) => v,
        None => {
            return None;
        },
    };
    proof {
        lemma_dec_val_bound(ip@);
        lemma_pow10_le(ip@.len() as int, 12);
        assert(pow10(12) == 1_000_000_000_000) by {
            reveal_with_fuel(pow10, 13);
        }
    }
    let mut frac: u64 = 0;
    let ghost fp = if dotpos < n {
        body.skip(dotpos - start + 1)
    } else {
        Seq::<char>::empty()
    };
    if dotpos < n {
        let fplen = n - dotpos - 1;
        if fplen > 3 {
            return None;
        }
        let fs = s.substring_char(dotpos + 1, n);
        proof {
            assert(fs@ =~= fp);
        }
        if fplen == 0 {
            frac = 0;
        } else {
            let fv = match parse_uint(fs) {
                Some(v) => v,
                None => {
                    return None;
                },
            };
            proof {
                lemma_dec_val_bound(fs@);
                lemma_pow10_le(fs@.len() as int, 3);
                assert(pow10(3) == 1000) by {
                    reveal_with_fuel(pow10, 4);
                }
            }
            if fplen == 1 {
                frac = fv * 100;
            } else if fplen == 2 {
                frac = fv * 10;
            } else {
                frac = fv;
            }
        }
    }
    proof {
        assert(pow10(0) == 1 && pow10(1) == 10 && pow10(2) == 100 && pow10(3) == 1000) by {
            reveal_with_fuel(pow10, 4);
        }
        assert(dec_val(Seq::<char>::empty()) == 0);
    }
    let m = ipv * 1000 + frac;
    if neg {
        Some(-(m as i64))
    } else {
        Some(m as i64)
    }
}

} // verus!
