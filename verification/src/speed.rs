//! The playback-speed multiplier and the frame rate derived from it.
//!
//! Speeds are decimal numbers on the command line. The tool keeps them as
//! fixed-point values with three fractional digits, so that the arithmetic
//! behind frame-rate selection and filter construction is exact.
use vstd::prelude::*;
use vstd::string::*;

verus! {

/// A playback-speed multiplier, held in thousandths: `millis` is the speed
/// times 1000, so `1.0` is 1000 and `0.5` is 500.
#[derive(Debug)]
pub struct Speed {
    pub millis: i64,
}

impl Speed {
    /// A speed passes validation only when it is strictly positive.
    pub open spec fn spec_is_positive(&self) -> bool {
        self.millis > 0
    }

    pub fn is_positive(&self) -> (r: bool)
        ensures
            r == self.spec_is_positive(),
    {
        self.millis > 0
    }
}

pub open spec fn spec_is_digit(c: char) -> bool {
    48 <= (c as u32) && (c as u32) <= 57
}

pub open spec fn spec_digit_val(c: char) -> int {
    (c as u32) as int - 48
}

pub open spec fn spec_all_digits(s: Seq<char>) -> bool {
    forall|i: int| 0 <= i < s.len() ==> spec_is_digit(#[trigger] s[i])
}

/// The value of a digit string read most significant digit first.
pub open spec fn spec_digits_val(s: Seq<char>) -> int
    decreases s.len(),
{
    if s.len() == 0 {
        0
    } else {
        spec_digits_val(s.drop_last()) * 10 + spec_digit_val(s.last())
    }
}

/// The index of the first `'.'` in `s`, or `s.len()` when there is none.
pub open spec fn spec_first_dot(s: Seq<char>) -> int
    decreases s.len(),
{
    if s.len() == 0 {
        0
    } else if s[0] == '.' {
        0
    } else {
        1 + spec_first_dot(s.drop_first())
    }
}

pub open spec fn spec_pow10(n: nat) -> int
    decreases n,
{
    if n == 0 {
        1
    } else {
        10 * spec_pow10((n - 1) as nat)
    }
}

/// An unsigned decimal literal: digits with at most one `'.'`, at least one
/// digit in all, and at most twelve digits before the point (so that the
/// fixed-point value stays well inside the machine range).
pub open spec fn spec_is_unsigned_decimal(s: Seq<char>) -> bool {
    let k = spec_first_dot(s);
    let int_part = s.take(k);
    let frac = if k < s.len() {
        s.skip(k + 1)
    } else {
        Seq::<char>::empty()
    };
    spec_all_digits(int_part) && spec_all_digits(frac) && int_part.len() + frac.len() > 0
        && int_part.len() <= 12
}

/// The value in thousandths of an unsigned decimal literal; fractional
/// digits beyond the third are dropped.
pub open spec fn spec_frac_millis(s: Seq<char>) -> int {
    if s.len() >= 3 {
        spec_digits_val(s.take(3))
    } else if s.len() == 2 {
        spec_digits_val(s) * 10
    } else if s.len() == 1 {
        spec_digits_val(s) * 100
    } else {
        0
    }
}

pub open spec fn spec_unsigned_millis(s: Seq<char>) -> int {
    let k = spec_first_dot(s);
    let int_part = s.take(k);
    let frac = if k < s.len() {
        s.skip(k + 1)
    } else {
        Seq::<char>::empty()
    };
    spec_digits_val(int_part) * 1000 + spec_frac_millis(frac)
}

/// What a speed token means: an optional leading `'-'`, then an unsigned
/// decimal literal; `None` when the token has any other shape.
pub open spec fn spec_speed_millis_of(t: Seq<char>) -> Option<int> {
    let neg = t.len() > 0 && t[0] == '-';
    let body = if neg {
        t.drop_first()
    } else {
        t
    };
    if spec_is_unsigned_decimal(body) {
        if neg {
            Some(-spec_unsigned_millis(body))
        } else {
            Some(spec_unsigned_millis(body))
        }
    } else {
        None
    }
}

proof fn lemma_first_dot_at(s: Seq<char>, k: int)
    requires
        0 <= k <= s.len(),
        forall|j: int| 0 <= j < k ==> s[j] != '.',
        k < s.len() ==> s[k] == '.',
    ensures
        spec_first_dot(s) == k,
    decreases k,
{
    if k == 0 {
    } else {
        assert(s[0] != '.');
        let rest = s.drop_first();
        assert(forall|j: int| 0 <= j < k - 1 ==> rest[j] == s[j + 1] && rest[j] != '.');
        lemma_first_dot_at(rest, k - 1);
    }
}

proof fn lemma_digits_val_step(s: Seq<char>, i: int)
    requires
        0 <= i < s.len(),
    ensures
        spec_digits_val(s.take(i + 1)) == spec_digits_val(s.take(i)) * 10 + spec_digit_val(s[i]),
{
    assert(s.take(i + 1).drop_last() =~= s.take(i));
    assert(s.take(i + 1).last() == s[i]);
}

proof fn lemma_digits_val_bound(s: Seq<char>)
    requires
        spec_all_digits(s),
    ensures
        0 <= spec_digits_val(s) < spec_pow10(s.len()),
    decreases s.len(),
{
    if s.len() == 0 {
    } else {
        let head = s.drop_last();
        assert(forall|i: int| 0 <= i < head.len() ==> head[i] == s[i]);
        lemma_digits_val_bound(head);
        assert(spec_is_digit(s.last()));
    }
}

proof fn lemma_pow10_mono(a: nat, b: nat)
    requires
        a <= b,
    ensures
        spec_pow10(a) <= spec_pow10(b),
    decreases b,
{
    if a < b {
        lemma_pow10_mono(a, (b - 1) as nat);
        assert(spec_pow10((b - 1) as nat) >= 1) by {
            lemma_pow10_mono(0, (b - 1) as nat);
        }
    }
}

proof fn lemma_pow10_vals()
    ensures
        spec_pow10(3) == 1000,
        spec_pow10(12) == 1000000000000,
{
    assert(spec_pow10(0) == 1);
    assert(spec_pow10(1) == 10);
    assert(spec_pow10(2) == 100);
    assert(spec_pow10(3) == 1000);
    assert(spec_pow10(4) == 10000);
    assert(spec_pow10(5) == 100000);
    assert(spec_pow10(6) == 1000000);
    assert(spec_pow10(7) == 10000000);
    assert(spec_pow10(8) == 100000000);
    assert(spec_pow10(9) == 1000000000);
    assert(spec_pow10(10) == 10000000000);
    assert(spec_pow10(11) == 100000000000);
    assert(spec_pow10(12) == 1000000000000);
}

/// True exactly when every character of `s` in `[from, to)` is a digit.
fn check_digits(s: &str, from: usize, to: usize) -> (ok: bool)
    requires
        from <= to,
        to <= s@.len(),
    ensures
        ok == spec_all_digits(s@.subrange(from as int, to as int)),
{
    let ghost sub = s@.subrange(from as int, to as int);
    let mut i: usize = from;
    while i < to
        invariant
            from <= i <= to,
            to <= s@.len(),
            sub == s@.subrange(from as int, to as int),
            forall|j: int| 0 <= j < i - from ==> spec_is_digit(#[trigger] sub[j]),
        decreases to - i,
    {
        let c = s.get_char(i);
        let u = c as u32;
        if !(48 <= u && u <= 57) {
            proof {
                assert(sub[i - from] == s@[i as int]);
            }
            return false;
        }
        i += 1;
    }
    true
}

/// The value of the digit run of `s` in `[from, to)`, most significant
/// digit first.
fn digits_value(s: &str, from: usize, to: usize) -> (v: u64)
    requires
        from <= to,
        to <= s@.len(),
        to - from <= 12,
        spec_all_digits(s@.subrange(from as int, to as int)),
    ensures
        v as int == spec_digits_val(s@.subrange(from as int, to as int)),
        v <= 999999999999,
{
    let ghost sub = s@.subrange(from as int, to as int);
    let mut v: u64 = 0;
    let mut i: usize = from;
    while i < to
        invariant
            from <= i <= to,
            to <= s@.len(),
            to - from <= 12,
            sub == s@.subrange(from as int, to as int),
            spec_all_digits(sub),
            v as int == spec_digits_val(sub.take(i as int - from as int)),
            v <= 999999999999,
        decreases to - i,
    {
        let c = s.get_char(i);
        proof {
            assert(sub[i as int - from as int] == s@[i as int]);
            assert(spec_is_digit(sub[i as int - from as int]));
            lemma_digits_val_step(sub, i as int - from as int);
            let next = sub.take(i as int - from as int + 1);
            assert(forall|q: int|
                0 <= q < next.len() ==> next[q] == sub[q] && spec_is_digit(#[trigger] next[q]));
            lemma_digits_val_bound(next);
            lemma_pow10_mono((i - from + 1) as nat, 12);
            lemma_pow10_vals();
        }
        let d = (c as u32 - 48) as u64;
        v = v * 10 + d;
        i += 1;
    }
    proof {
        assert(sub.take(to as int - from as int) =~= sub);
    }
    v
}

/// Reads a speed token. Returns the fixed-point speed exactly when the
/// token is a decimal literal with an optional leading minus sign.
pub fn parse_speed(t: &str) -> (r: Option<Speed>)
    ensures
        (match r {
            Some(sp) => spec_speed_millis_of(t@) == Some(sp.millis as int),
            None => spec_speed_millis_of(t@) is None,
        }),
{
    let n = t.unicode_len();
    let neg = n > 0 && t.get_char(0) == '-';
    let start: usize = if neg {
        1
    } else {
        0
    };
    let body = t.substring_char(start, n);
    proof {
        if neg {
            assert(body@ =~= t@.drop_first());
        } else {
            assert(body@ =~= t@);
        }
    }
    let m = body.unicode_len();

    // Find the first dot.
    let mut k: usize = 0;
    while k < m && body.get_char(k) != '.'
        invariant
            m == body@.len(),
            0 <= k <= m,
            forall|j: int| 0 <= j < k ==> body@[j] != '.',
        decreases m - k,
    {
        k += 1;
    }
    proof {
        lemma_first_dot_at(body@, k as int);
        assert(body@.take(k as int) =~= body@.subrange(0, k as int));
        if k < m {
            assert(body@.skip(k as int + 1) =~= body@.subrange(k as int + 1, m as int));
        }
    }

    let frac_len: usize = if k < m {
        m - k - 1
    } else {
        0
    };
    if k + frac_len == 0 {
        return None;
    }
    if k > 12 {
        return None;
    }
    if !check_digits(body, 0, k) {
        return None;
    }
    if k < m {
        if !check_digits(body, k + 1, m) {
            return None;
        }
    }
    proof {
        assert(spec_is_unsigned_decimal(body@));
    }

    let val = digits_value(body, 0, k);
    let fc: usize = if frac_len >= 3 {
        3
    } else {
        frac_len
    };
    let fval: u64 = if k < m {
        proof {
            let whole = body@.subrange(k as int + 1, m as int);
            let part = body@.subrange(k as int + 1, k as int + 1 + fc as int);
            assert(forall|q: int|
                0 <= q < part.len() ==> part[q] == whole[q] && spec_is_digit(#[trigger] part[q]));
        }
        digits_value(body, k + 1, k + 1 + fc)
    } else {
        0
    };
    let fmillis: u64 = if fc == 3 {
        fval
    } else if fc == 2 {
        fval * 10
    } else if fc == 1 {
        fval * 100
    } else {
        0
    };
    proof {
        let frac = if k < m {
            body@.skip(k as int + 1)
        } else {
            Seq::<char>::empty()
        };
        if k < m {
            assert(body@.subrange(k as int + 1, k as int + 1 + fc as int) =~= frac.take(fc as int));
            if fc >= frac_len {
                assert(frac.take(fc as int) =~= frac);
            }
        } else {
            assert(frac.len() == 0);
            assert(fval == 0);
        }
        assert(fmillis as int == spec_frac_millis(frac));
    }

    let millis_u: u64 = val * 1000 + fmillis;
    let millis: i64 = if neg {
        -(millis_u as i64)
    } else {
        millis_u as i64
    };
    proof {
        assert(millis_u as int == spec_unsigned_millis(body@));
    }
    Some(Speed { millis })
}

/// The frame rate chosen for a speed, in thousandths of a frame per second:
/// speeds of one or more sample at ten frames per second per unit of speed,
/// capped at thirty; slower speeds keep at least five frames per second.
pub open spec fn spec_fps_millis(s: int) -> int {
    if s >= 1000 {
        vstd::math::min(10 * s, 30000)
    } else {
        vstd::math::max(10 * s, 5000)
    }
}

/// Derives the sampling frame rate from a validated speed.
pub fn derive_fps(speed: &Speed) -> (r: u64)
    requires
        speed.spec_is_positive(),
    ensures
        r as int == spec_fps_millis(speed.millis as int),
        5000 <= r <= 30000,
{
    let m = speed.millis;
    if m >= 3000 {
        30000
    } else if m >= 1000 {
        (10 * m) as u64
    } else if m <= 500 {
        5000
    } else {
        (10 * m) as u64
    }
}

} // verus!
