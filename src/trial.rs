//! The evaluation period: how long it runs from installation and how far
//! past or before its end a given moment lies.

use vstd::prelude::*;

verus! {

/// Length of the evaluation period, in days.
pub const TRIAL_DAYS: i64 = 5;

/// Milliseconds in a day.
pub const MILLIS_PER_DAY: i64 = 86_400_000;

/// The end of the evaluation period, in milliseconds since the Unix epoch,
/// for an installation at `install_secs` seconds since the epoch.
pub open spec fn expiry_of(install_secs: int) -> int {
    install_secs * 1000 + TRIAL_DAYS * MILLIS_PER_DAY
}

/// The whole days in `delta_ms` milliseconds, truncated toward zero.
pub open spec fn whole_days(delta_ms: int) -> int {
    if delta_ms >= 0 {
        delta_ms / (MILLIS_PER_DAY as int)
    } else {
        -((-delta_ms) / (MILLIS_PER_DAY as int))
    }
}

/// The end of the evaluation period for an installation at `install_secs`.
pub fn trial_expiry(install_secs: i64) -> (r: i128)
    ensures
        r == expiry_of(install_secs as int),
{
    let days = TRIAL_DAYS as i128;
    let day = MILLIS_PER_DAY as i128;
    assert(days == 5 && day == 86_400_000);
    install_secs as i128 * 1000 + days * day
}

fn days_in(delta_ms: i128) -> (r: i64)
    requires
        -0x10_0000_0000_0000_0000_0000 <= delta_ms <= 0x10_0000_0000_0000_0000_0000,
    ensures
        r == whole_days(delta_ms as int),
{
    if delta_ms >= 0 {
        let q = delta_ms as u128 / MILLIS_PER_DAY as u128;
        assert(q < 0x8000_0000_0000_0000) by (nonlinear_arith)
            requires
                q == delta_ms as u128 / 86_400_000u128,
                0 <= delta_ms <= 0x10_0000_0000_0000_0000_0000,
        ;
        q as i64
    } else {
        let q = (-delta_ms) as u128 / MILLIS_PER_DAY as u128;
        assert(q < 0x8000_0000_0000_0000) by (nonlinear_arith)
            requires
                q == (-delta_ms) as u128 / 86_400_000u128,
                0 < -delta_ms <= 0x10_0000_0000_0000_0000_0000,
        ;
        -(q as i64)
    }
}

/// How many whole days ago the evaluation period ended, at `now_ms`
/// milliseconds since the epoch; `None` while it has not ended.
pub fn trial_days_expired(install_secs: i64, now_ms: i64) -> (r: Option<i64>)
    ensures
        r is Some <==> now_ms > expiry_of(install_secs as int),
        r matches Some(d) ==> d == whole_days(now_ms - expiry_of(install_secs as int)),
{
    let expiry = trial_expiry(install_secs);
    if now_ms as i128 > expiry {
        Some(days_in(now_ms as i128 - expiry))
    } else {
        None
    }
}

/// How many whole days of the evaluation period are left at `now_ms`,
/// truncated toward zero; negative once it is more than a day over.
pub fn trial_days_remaining(install_secs: i64, now_ms: i64) -> (r: i64)
    ensures
        r == whole_days(expiry_of(install_secs as int) - now_ms),
{
    days_in(trial_expiry(install_secs) - now_ms as i128)
}

/// Whether `c` has the Unicode `White_Space` property, the characters that
/// `str::trim` removes.
pub open spec fn is_white_space(c: char) -> bool {
    ('\u{9}' <= c <= '\u{d}') || c == ' ' || c == '\u{85}' || c == '\u{a0}' || c == '\u{1680}'
        || ('\u{2000}' <= c <= '\u{200a}') || c == '\u{2028}' || c == '\u{2029}' || c
        == '\u{202f}' || c == '\u{205f}' || c == '\u{3000}'
}

fn white_space(c: char) -> (r: bool)
    ensures
        r == is_white_space(c),
{
    ('\u{9}' <= c && c <= '\u{d}') || c == ' ' || c == '\u{85}' || c == '\u{a0}' || c
        == '\u{1680}' || ('\u{2000}' <= c && c <= '\u{200a}') || c == '\u{2028}' || c
        == '\u{2029}' || c == '\u{202f}' || c == '\u{205f}' || c == '\u{3000}'
}

/// `s` without leading and trailing white space.
pub open spec fn trimmed(s: Seq<char>) -> Seq<char>
    decreases s.len(),
{
    if s.len() == 0 {
        s
    } else if is_white_space(s[0]) {
        trimmed(s.skip(1))
    } else if is_white_space(s.last()) {
        trimmed(s.drop_last())
    } else {
        s
    }
}

/// Whether `c` is a decimal digit.
pub open spec fn is_digit(c: char) -> bool {
    '0' <= c <= '9'
}

/// Whether every character of `s` is a decimal digit.
pub open spec fn all_digits(s: Seq<char>) -> bool {
    forall|i: int| 0 <= i < s.len() ==> is_digit(#[trigger] s[i])
}

/// The number that the decimal digits `s` write.
pub open spec fn digits_value(s: Seq<char>) -> int
    decreases s.len(),
{
    if s.len() == 0 {
        0
    } else {
        digits_value(s.drop_last()) * 10 + (s.last() as int - '0' as int)
    }
}

/// The integer that `s` writes: an optional sign followed by one or more
/// decimal digits.
pub open spec fn integer_value(s: Seq<char>) -> Option<int> {
    if s.len() > 1 && s[0] == '-' && all_digits(s.skip(1)) {
        Some(-digits_value(s.skip(1)))
    } else if s.len() > 1 && s[0] == '+' && all_digits(s.skip(1)) {
        Some(digits_value(s.skip(1)))
    } else if s.len() > 0 && all_digits(s) {
        Some(digits_value(s))
    } else {
        None
    }
}

/// The installation time that a license file holding `text` records: the
/// integer it writes, white space around it ignored, when that fits in an
/// `i64`.
pub open spec fn install_time_of(text: Seq<char>) -> Option<i64> {
    match integer_value(trimmed(text)) {
        Some(v) => if i64::MIN <= v <= i64::MAX {
            Some(v as i64)
        } else {
            None
        },
        None => None,
    }
}

proof fn lemma_digits_grow(s: Seq<char>, j: int)
    requires
        0 <= j <= s.len(),
        all_digits(s),
    ensures
        digits_value(s) >= digits_value(s.subrange(0, j)) >= 0,
    decreases s.len(),
{
    if s.len() > 0 {
        let p = s.drop_last();
        assert(all_digits(p)) by {
            assert forall|i: int| 0 <= i < p.len() implies is_digit(#[trigger] p[i]) by {
                assert(p[i] == s[i]);
            }
        }
        if j == s.len() {
            assert(s.subrange(0, j) == s);
            lemma_digits_grow(p, p.len() as int);
            assert(p.subrange(0, p.len() as int) == p);
        } else {
            lemma_digits_grow(p, j);
            assert(p.subrange(0, j) == s.subrange(0, j));
        }
        assert(is_digit(s[s.len() - 1]));
    }
}

proof fn lemma_not_integer(w: Seq<char>, d: Seq<char>, signed: bool)
    requires
        w.len() > 0,
        signed <==> (w[0] == '-' || w[0] == '+'),
        signed ==> d == w.skip(1),
        !signed ==> d == w,
        !all_digits(d),
    ensures
        integer_value(w) is None,
{
    if signed {
        assert(!is_digit(w[0]));
        assert(!all_digits(w));
    }
}

/// The installation time, in seconds since the epoch, that a license file
/// holding `text` records; `None` when the text is not such a number.
pub fn parse_install_time(text: &str) -> (r: Option<i64>)
    ensures
        r == install_time_of(text@),
{
    let n = text.unicode_len();
    let ghost t = text@;
    let mut lo: usize = 0;
    let mut hi: usize = n;
    proof {
        assert(t.subrange(0, n as int) == t);
    }
    while lo < hi && white_space(text.get_char(lo))
        invariant
            lo <= hi == n,
            n == t.len(),
            t == text@,
            trimmed(t) == trimmed(t.subrange(lo as int, hi as int)),
        decreases hi - lo,
    {
        proof {
            assert(t.subrange(lo as int, hi as int).skip(1) == t.subrange(lo + 1, hi as int));
        }
        lo = lo + 1;
    }
    while hi > lo && white_space(text.get_char(hi - 1))
        invariant
            lo <= hi <= n,
            n == t.len(),
            t == text@,
            lo < hi ==> !is_white_space(t[lo as int]),
            trimmed(t) == trimmed(t.subrange(lo as int, hi as int)),
        decreases hi - lo,
    {
        proof {
            assert(t.subrange(lo as int, hi as int).drop_last() == t.subrange(lo as int, hi - 1));
        }
        hi = hi - 1;
    }
    let ghost w = t.subrange(lo as int, hi as int);
    proof {
        if lo < hi {
            assert(w[0] == t[lo as int]);
            assert(w.last() == t[hi - 1]);
        }
        assert(trimmed(w) == w);
    }
    if lo == hi {
        return None;
    }
    let first = text.get_char(lo);
    proof {
        assert(w[0] == first);
    }
    let negative = first == '-';
    let signed = first == '-' || first == '+';
    let start: usize = if signed {
        lo + 1
    } else {
        lo
    };
    if start == hi {
        return None;
    }
    let ghost d = t.subrange(start as int, hi as int);
    proof {
        if signed {
            assert(w.skip(1) == d);
        } else {
            assert(w == d);
        }
    }
    let limit: u128 = 0x8000_0000_0000_0000;
    let mut acc: u128 = 0;
    let mut j: usize = start;
    while j < hi
        invariant
            start <= j <= hi <= n,
            n == t.len(),
            t == text@,
            d == t.subrange(start as int, hi as int),
            w.len() > 0,
            signed <==> (w[0] == '-' || w[0] == '+'),
            negative <==> w[0] == '-',
            signed ==> d == w.skip(1),
            !signed ==> d == w,
            trimmed(t) == w,
            acc <= limit,
            limit == 0x8000_0000_0000_0000u128,
            all_digits(t.subrange(start as int, j as int)),
            acc == digits_value(t.subrange(start as int, j as int)),
        decreases hi - j,
    {
        let c = text.get_char(j);
        let ghost prev = t.subrange(start as int, j as int);
        proof {
            assert(t.subrange(start as int, j + 1).drop_last() == prev);
            assert(d.subrange(0, j - start + 1) == t.subrange(start as int, j + 1));
        }
        if !('0' <= c && c <= '9') {
            proof {
                assert(d[j - start] == c);
                assert(!all_digits(d));
                lemma_not_integer(w, d, signed);
            }
            return None;
        }
        let digit = (c as u32 - '0' as u32) as u128;
        acc = acc * 10 + digit;
        proof {
            assert forall|i: int| 0 <= i < j + 1 - start implies is_digit(
                #[trigger] t.subrange(start as int, j + 1)[i],
            ) by {
                if i < j - start {
                    assert(t.subrange(start as int, j + 1)[i] == prev[i]);
                }
            }
        }
        if acc > limit {
            proof {
                assert(d.subrange(0, j - start + 1) == t.subrange(start as int, j + 1));
                if all_digits(d) {
                    lemma_digits_grow(d, j - start + 1);
                    if signed {
                        assert(!is_digit(w[0]));
                        assert(!all_digits(w));
                    }
                } else {
                    lemma_not_integer(w, d, signed);
                }
            }
            return None;
        }
        j = j + 1;
    }
    proof {
        assert(t.subrange(start as int, hi as int) == d);
    }
    if negative {
        Some((0 - acc as i128) as i64)
    } else if acc == limit {
        None
    } else {
        Some(acc as i64)
    }
}

} // verus!
