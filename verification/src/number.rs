//! Integer and decimal parsing. Numeric option values (window sizes, icon
//! size and alpha, progress, timer seconds) are held as [`Decimal`]: a count
//! of thousandths, read from decimal notation with an optional exponent.

use crate::text::{find_char, find_in};
use vstd::prelude::*;

verus! {

pub open spec fn is_digit(c: char) -> bool {
    '0' <= c <= '9'
}

pub open spec fn all_digits(s: Seq<char>) -> bool {
    forall|k: int| 0 <= k < s.len() ==> is_digit(#[trigger] s[k])
}

pub open spec fn digit_value(c: char) -> int {
    (c as int) - ('0' as int)
}

/// The number a run of decimal digits spells.
pub open spec fn digits_value(s: Seq<char>) -> int
    decreases s.len(),
{
    if s.len() == 0 {
        0
    } else {
        digits_value(s.subrange(0, s.len() - 1)) * 10 + digit_value(s[s.len() - 1])
    }
}

pub proof fn lemma_digits_nonneg(s: Seq<char>)
    requires
        all_digits(s),
    ensures
        digits_value(s) >= 0,
    decreases s.len(),
{
    if s.len() > 0 {
        lemma_digits_nonneg(s.subrange(0, s.len() - 1));
    }
}

/// Appending digits never makes the number smaller.
pub proof fn lemma_digits_prefix_le(s: Seq<char>, k: int)
    requires
        all_digits(s),
        0 <= k <= s.len(),
    ensures
        digits_value(s.subrange(0, k)) <= digits_value(s),
    decreases s.len(),
{
    if k < s.len() {
        let p = s.subrange(0, s.len() - 1);
        lemma_digits_prefix_le(p, k);
        assert(p.subrange(0, k) =~= s.subrange(0, k));
        lemma_digits_nonneg(p);
    } else {
        assert(s.subrange(0, k) =~= s);
    }
}

/// `Some(value)` when `s` is all digits spelling a number at most `bound`.
pub open spec fn bounded_digits(s: Seq<char>, bound: int) -> Option<int> {
    if all_digits(s) && digits_value(s) <= bound {
        Some(digits_value(s))
    } else {
        None
    }
}

/// Reads `v[a..b]` as decimal digits whose value is at most `bound`.
pub fn parse_digits(v: &Vec<char>, a: usize, b: usize, bound: u64) -> (r: Option<u64>)
    requires
        a <= b <= v.len(),
        bound >= 9,
    ensures
        r matches Some(n) ==> bounded_digits(v@.subrange(a as int, b as int), bound as int) == Some(
            n as int,
        ),
        r is None ==> bounded_digits(v@.subrange(a as int, b as int), bound as int) is None,
{
    let ghost s = v@.subrange(a as int, b as int);
    let mut val: u64 = 0;
    let mut i = a;
    while i < b
        invariant
            a <= i <= b <= v.len(),
            s == v@.subrange(a as int, b as int),
            all_digits(s.subrange(0, i - a)),
            val as int == digits_value(s.subrange(0, i - a)),
            val <= bound,
            bound >= 9,
        decreases b - i,
    {
        let c = v[i];
        if !('0' <= c && c <= '9') {
            assert(!is_digit(s[i - a]));
            return None;
        }
        assert(48 <= c as u32 <= 57);
        let d = (c as u32 - 48) as u64;
        assert(d as int == digit_value(c));
        let ghost p = s.subrange(0, i - a + 1);
        assert(p.subrange(0, p.len() - 1) =~= s.subrange(0, i - a));
        assert(all_digits(p));
        if val > (bound - d) / 10 {
            proof {
                assert(val * 10 + d > bound) by (nonlinear_arith)
                    requires
                        val > (bound - d) / 10,
                        d <= 9,
                        bound >= 9,
                ;
                if all_digits(s) {
                    lemma_digits_prefix_le(s, i - a + 1);
                    assert(s.subrange(0, i - a + 1) =~= p);
                }
            }
            return None;
        }
        proof {
            assert(val * 10 + d <= bound) by (nonlinear_arith)
                requires
                    val <= (bound - d) / 10,
                    d <= 9,
                    bound >= 9,
            ;
        }
        val = val * 10 + d;
        i = i + 1;
    }
    assert(s.subrange(0, (b - a) as int) =~= s);
    Some(val)
}

/// `str::parse::<usize>`: an optional `+`, then one or more digits, within range.
pub open spec fn spec_parse_usize(s: Seq<char>) -> Option<usize> {
    let body = if s.len() > 0 && s[0] == '+' {
        s.subrange(1, s.len() as int)
    } else {
        s
    };
    if body.len() > 0 && all_digits(body) && digits_value(body) <= usize::MAX {
        Some(digits_value(body) as usize)
    } else {
        None
    }
}

/// `str::parse::<usize>` of `v[a..b]`.
pub fn parse_usize(v: &Vec<char>, a: usize, b: usize) -> (r: Option<usize>)
    requires
        a <= b <= v.len(),
    ensures
        r == spec_parse_usize(v@.subrange(a as int, b as int)),
{
    let ghost s = v@.subrange(a as int, b as int);
    let mut i = a;
    if i < b && v[i] == '+' {
        i = i + 1;
        assert(s.subrange(1, s.len() as int) =~= v@.subrange(i as int, b as int));
    } else {
        assert(s =~= v@.subrange(i as int, b as int));
    }
    if i == b {
        return None;
    }
    match parse_digits(v, i, b, usize::MAX as u64) {
        Some(n) => Some(n as usize),
        None => None,
    }
}

/// A decimal quantity in thousandths (`1.5` is 1500).
#[derive(Clone, Copy, Debug, PartialEq, Eq)]
pub struct Decimal {
    pub thousandths: i64,
}

/// The largest magnitude read, in thousandths; keeps every value inside `i64`.
pub const MAX_THOUSANDTHS: u64 = 9_000_000_000_000_000_999;

impl Decimal {
    pub open spec fn value(self) -> int {
        self.thousandths as int
    }

    /// A whole number.
    pub fn whole(n: i64) -> (d: Decimal)
        requires
            -9_000_000_000_000_000 <= n <= 9_000_000_000_000_000,
        ensures
            d.value() == n * 1000,
    {
        Decimal { thousandths: n * 1000 }
    }
}

/// Digit `k` of `d` as a number, and 0 past its end.
pub open spec fn digit_or_zero(d: Seq<char>, k: int) -> int {
    if 0 <= k < d.len() {
        digit_value(d[k])
    } else {
        0
    }
}

/// The number spelled by the first `m` digits of `d`, with zeros past its end.
pub open spec fn leading_value(d: Seq<char>, m: nat) -> int
    decreases m,
{
    if m == 0 {
        0
    } else {
        leading_value(d, (m - 1) as nat) * 10 + digit_or_zero(d, m - 1)
    }
}

pub open spec fn pow10(n: nat) -> int
    decreases n,
{
    if n == 0 {
        1
    } else {
        10 * pow10((n - 1) as nat)
    }
}

/// The earlier of two optional positions.
pub open spec fn earlier(x: Option<int>, y: Option<int>) -> Option<int> {
    match x {
        Some(p) => match y {
            Some(q) => Some(
                if p <= q {
                    p
                } else {
                    q
                },
            ),
            None => Some(p),
        },
        None => y,
    }
}

/// Where the exponent marker (`e` or `E`) of a number stands.
pub open spec fn exponent_mark(s: Seq<char>) -> Option<int> {
    earlier(find_char(s, 'e'), find_char(s, 'E'))
}

/// The digits of an exponent, after its optional sign.
pub open spec fn exponent_digits(x: Seq<char>) -> Seq<char> {
    if x.len() > 0 && (x[0] == '+' || x[0] == '-') {
        x.subrange(1, x.len() as int)
    } else {
        x
    }
}

/// An exponent: `[+|-]` and one or more digits.
pub open spec fn exponent_ok(x: Seq<char>) -> bool {
    exponent_digits(x).len() > 0 && all_digits(exponent_digits(x))
}

pub open spec fn exponent_value(x: Seq<char>) -> int {
    if x.len() > 0 && x[0] == '-' {
        -digits_value(exponent_digits(x))
    } else {
        digits_value(exponent_digits(x))
    }
}

/// `e` held inside `[-cap, cap]`.
pub open spec fn clamp(e: int, cap: int) -> int {
    if e > cap {
        cap
    } else if e < -cap {
        -cap
    } else {
        e
    }
}

/// Thousandths of the number whose digits are `d`, the first `w` of them
/// before the point, times ten to the `e`; digits past the thousandths are
/// dropped.
pub open spec fn scaled_thousandths(d: Seq<char>, w: int, e: int) -> int {
    let m = w + e + 3;
    if m <= 0 {
        0
    } else {
        leading_value(d, m as nat)
    }
}

/// Decimal notation `[+|-] digits [. digits] [(e|E) [+|-] digits]`, the
/// syntax `str::parse::<f64>` reads for numbers (either run of digits around
/// the point may be empty, not both), in thousandths toward zero; `None` for
/// anything else and for magnitudes above [`MAX_THOUSANDTHS`].
pub open spec fn spec_parse_decimal(s: Seq<char>) -> Option<int> {
    let neg = s.len() > 0 && s[0] == '-';
    let body = if s.len() > 0 && (s[0] == '-' || s[0] == '+') {
        s.subrange(1, s.len() as int)
    } else {
        s
    };
    let mark = exponent_mark(body);
    let mant = match mark {
        Some(k) => body.subrange(0, k),
        None => body,
    };
    let ex = match mark {
        Some(k) => body.subrange(k + 1, body.len() as int),
        None => Seq::<char>::empty(),
    };
    let whole = match find_char(mant, '.') {
        Some(i) => mant.subrange(0, i),
        None => mant,
    };
    let frac = match find_char(mant, '.') {
        Some(i) => mant.subrange(i + 1, mant.len() as int),
        None => Seq::<char>::empty(),
    };
    let e = if mark is Some {
        exponent_value(ex)
    } else {
        0
    };
    let t = scaled_thousandths(whole + frac, whole.len() as int, e);
    if all_digits(whole) && all_digits(frac) && whole.len() + frac.len() > 0 && (mark is None
        || exponent_ok(ex)) && t <= MAX_THOUSANDTHS {
        Some(
            if neg {
                -t
            } else {
                t
            },
        )
    } else {
        None
    }
}

/// Whether `v[a..b]` is all decimal digits.
pub fn digits_only(v: &Vec<char>, a: usize, b: usize) -> (r: bool)
    requires
        a <= b <= v.len(),
    ensures
        r == all_digits(v@.subrange(a as int, b as int)),
{
    let mut i = a;
    while i < b
        invariant
            a <= i <= b <= v.len(),
            forall|k: int| a <= k < i ==> is_digit(#[trigger] v@[k]),
        decreases b - i,
    {
        if !('0' <= v[i] && v[i] <= '9') {
            assert(!is_digit(v@.subrange(a as int, b as int)[i - a]));
            return false;
        }
        i = i + 1;
    }
    assert forall|k: int| 0 <= k < b - a implies is_digit(
        #[trigger] v@.subrange(a as int, b as int)[k],
    ) by {
        assert(v@.subrange(a as int, b as int)[k] == v@[a + k]);
    }
    true
}

/// Position after an optional leading sign of `v[a..b]`, and whether it was `-`.
fn sign_prefix(v: &Vec<char>, a: usize, b: usize) -> (r: (usize, bool))
    requires
        a <= b <= v.len(),
    ensures
        a <= r.0 <= b,
        r.1 == (v@.subrange(a as int, b as int).len() > 0 && v@.subrange(a as int, b as int)[0]
            == '-'),
        v@.subrange(r.0 as int, b as int) == (if v@.subrange(a as int, b as int).len() > 0 && (
        v@.subrange(a as int, b as int)[0] == '-' || v@.subrange(a as int, b as int)[0] == '+') {
            v@.subrange(a as int, b as int).subrange(1, (b - a) as int)
        } else {
            v@.subrange(a as int, b as int)
        }),
{
    let ghost s = v@.subrange(a as int, b as int);
    if a < b && (v[a] == '-' || v[a] == '+') {
        assert(s.subrange(1, s.len() as int) =~= v@.subrange(a + 1, b as int));
        (a + 1, v[a] == '-')
    } else {
        (a, false)
    }
}

proof fn lemma_leading_nonneg(d: Seq<char>, m: nat)
    requires
        all_digits(d),
    ensures
        leading_value(d, m) >= 0,
    decreases m,
{
    if m > 0 {
        lemma_leading_nonneg(d, (m - 1) as nat);
        if m - 1 < d.len() {
            assert(is_digit(d[m - 1]));
        }
    }
}

/// More digits never make the number smaller.
proof fn lemma_leading_mono(d: Seq<char>, k: nat, m: nat)
    requires
        all_digits(d),
        k <= m,
    ensures
        leading_value(d, k) <= leading_value(d, m),
    decreases m,
{
    if k < m {
        lemma_leading_mono(d, k, (m - 1) as nat);
        lemma_leading_nonneg(d, (m - 1) as nat);
        if m - 1 < d.len() {
            assert(is_digit(d[m - 1]));
        }
    }
}

/// `t` more digits multiply the number by at least ten to the `t`.
proof fn lemma_leading_scale(d: Seq<char>, k: nat, t: nat)
    requires
        all_digits(d),
    ensures
        leading_value(d, k + t) >= leading_value(d, k) * pow10(t),
    decreases t,
{
    if t > 0 {
        lemma_leading_scale(d, k, (t - 1) as nat);
        lemma_leading_nonneg(d, k);
        let n = (k + t - 1) as nat;
        assert(n + 1 == k + t);
        if n < d.len() {
            assert(is_digit(d[n as int]));
        }
        let x = leading_value(d, k);
        let y = leading_value(d, n);
        let p = pow10((t - 1) as nat);
        assert(y * 10 >= x * (10 * p)) by (nonlinear_arith)
            requires
                y >= x * p,
                x >= 0,
        ;
    }
}

proof fn lemma_leading_zero(d: Seq<char>, m: nat)
    requires
        forall|j: int| 0 <= j < d.len() ==> d[j] == '0',
    ensures
        leading_value(d, m) == 0,
    decreases m,
{
    if m > 0 {
        lemma_leading_zero(d, (m - 1) as nat);
        if m - 1 < d.len() {
            assert(d[m - 1] == '0');
        }
    }
}

/// Holding the exponent inside `[-cap, cap]`, `cap` being the digit count
/// plus 25, changes neither whether the number is in range nor its value:
/// beyond it the number is either zero or far out of range.
proof fn lemma_exponent_clamp(d: Seq<char>, w: int, e: int, cap: int)
    requires
        all_digits(d),
        0 <= w <= d.len(),
        cap == d.len() + 25,
    ensures
        (scaled_thousandths(d, w, e) <= MAX_THOUSANDTHS) == (scaled_thousandths(d, w, clamp(e, cap))
            <= MAX_THOUSANDTHS),
        scaled_thousandths(d, w, e) <= MAX_THOUSANDTHS ==> scaled_thousandths(d, w, e)
            == scaled_thousandths(d, w, clamp(e, cap)),
{
    if e > cap {
        let mc = (w + cap + 3) as nat;
        let me = (w + e + 3) as nat;
        if exists|j: int| 0 <= j < d.len() && d[j] != '0' {
            let j = choose|j: int| 0 <= j < d.len() && d[j] != '0';
            assert(is_digit(d[j]));
            lemma_leading_nonneg(d, j as nat);
            assert(leading_value(d, (j + 1) as nat) >= 1);
            lemma_leading_mono(d, (j + 1) as nat, (mc - 20) as nat);
            lemma_leading_scale(d, (mc - 20) as nat, 20);
            assert(pow10(20) == 100_000_000_000_000_000_000) by {
                reveal_with_fuel(pow10, 21);
            }
            assert(leading_value(d, mc) > MAX_THOUSANDTHS);
            lemma_leading_mono(d, mc, me);
        } else {
            lemma_leading_zero(d, mc);
            lemma_leading_zero(d, me);
        }
    }
}

/// The first `e` or `E` in `v[a..b]`, relative to `a`.
fn find_exponent_mark(v: &Vec<char>, a: usize, b: usize) -> (r: Option<usize>)
    requires
        a <= b <= v.len(),
    ensures
        r matches Some(k) ==> exponent_mark(v@.subrange(a as int, b as int)) == Some(k as int) && a
            + k < b,
        r is None ==> exponent_mark(v@.subrange(a as int, b as int)) is None,
{
    let lower = find_in(v, a, b, 'e');
    let upper = find_in(v, a, b, 'E');
    match lower {
        Some(p) => match upper {
            Some(q) => if p <= q {
                Some(p)
            } else {
                Some(q)
            },
            None => Some(p),
        },
        None => upper,
    }
}

/// Reads the exponent `v[a..b]`, its magnitude held at `cap`.
fn read_exponent(v: &Vec<char>, a: usize, b: usize, cap: u128) -> (r: Option<i128>)
    requires
        a <= b <= v.len(),
        cap <= 0x1_0000_0000_0000_0000_0000,
    ensures
        r is Some == exponent_ok(v@.subrange(a as int, b as int)),
        r matches Some(x) ==> x == clamp(exponent_value(v@.subrange(a as int, b as int)), cap as int),
{
    let ghost x = v@.subrange(a as int, b as int);
    let mut i = a;
    let mut neg = false;
    if a < b && (v[a] == '+' || v[a] == '-') {
        neg = v[a] == '-';
        i = a + 1;
    }
    assert(exponent_digits(x) =~= v@.subrange(i as int, b as int));
    if i == b {
        return None;
    }
    let ghost ds = v@.subrange(i as int, b as int);
    let mut ev: u128 = 0;
    let mut k = i;
    while k < b
        invariant
            i <= k <= b <= v.len(),
            ds == v@.subrange(i as int, b as int),
            x == v@.subrange(a as int, b as int),
            exponent_digits(x) == ds,
            all_digits(ds.subrange(0, k - i)),
            ev as int == (if digits_value(ds.subrange(0, k - i)) <= cap {
                digits_value(ds.subrange(0, k - i))
            } else {
                cap as int
            }),
            cap <= 0x1_0000_0000_0000_0000_0000,
        decreases b - k,
    {
        let c = v[k];
        if !('0' <= c && c <= '9') {
            assert(!is_digit(ds[k - i]));
            return None;
        }
        assert(48 <= c as u32 <= 57);
        let d = (c as u32 - 48) as u128;
        let ghost q = ds.subrange(0, k - i);
        let ghost p = ds.subrange(0, k - i + 1);
        assert(p.subrange(0, p.len() - 1) =~= q);
        assert(p[p.len() - 1] == c);
        assert(all_digits(p));
        proof {
            lemma_digits_nonneg(q);
        }
        assert(digits_value(p) == digits_value(q) * 10 + d);
        if ev < cap {
            let nv = ev * 10 + d;
            ev = if nv > cap {
                cap
            } else {
                nv
            };
        }
        k = k + 1;
    }
    assert(ds.subrange(0, (b - i) as int) =~= ds);
    let mag = ev as i128;
    if neg {
        Some(-mag)
    } else {
        Some(mag)
    }
}

/// [`scaled_thousandths`] of the digits `v[i..we]` followed by `v[fs..me]`,
/// the first run before the point, when it is at most [`MAX_THOUSANDTHS`].
fn scaled_in(v: &Vec<char>, i: usize, we: usize, fs: usize, me: usize, e: i128) -> (r: Option<u64>)
    requires
        i <= we <= fs <= me <= v.len(),
        all_digits(v@.subrange(i as int, we as int)),
        all_digits(v@.subrange(fs as int, me as int)),
        -0x1_0000_0000_0000_0000_0000 <= e <= 0x1_0000_0000_0000_0000_0000,
    ensures
        r matches Some(x) ==> x as int == scaled_thousandths(
            v@.subrange(i as int, we as int) + v@.subrange(fs as int, me as int),
            (we - i) as int,
            e as int,
        ) && x <= MAX_THOUSANDTHS,
        r is None ==> scaled_thousandths(
            v@.subrange(i as int, we as int) + v@.subrange(fs as int, me as int),
            (we - i) as int,
            e as int,
        ) > MAX_THOUSANDTHS,
{
    let ghost d = v@.subrange(i as int, we as int) + v@.subrange(fs as int, me as int);
    let w = we - i;
    let len = w + (me - fs);
    let m: i128 = w as i128 + e + 3;
    if m <= 0 {
        return Some(0);
    }
    assert(all_digits(d)) by {
        assert forall|k: int| 0 <= k < d.len() implies is_digit(#[trigger] d[k]) by {
            if k < w {
                assert(d[k] == v@.subrange(i as int, we as int)[k]);
            } else {
                assert(d[k] == v@.subrange(fs as int, me as int)[k - w]);
            }
        }
    }
    let mut acc: u128 = 0;
    let mut k: i128 = 0;
    while k < m
        invariant
            0 <= k <= m,
            m == w + e + 3,
            i <= we <= fs <= me <= v.len(),
            w == we - i,
            len == w + (me - fs),
            d == v@.subrange(i as int, we as int) + v@.subrange(fs as int, me as int),
            d.len() == len,
            all_digits(d),
            acc as int == leading_value(d, k as nat),
            acc <= MAX_THOUSANDTHS,
        decreases m - k,
    {
        let dig: u128 = if k < w as i128 {
            let c = v[i + k as usize];
            assert(c == d[k as int]);
            assert(is_digit(d[k as int]));
            (c as u32 - 48) as u128
        } else if k < len as i128 {
            let c = v[fs + (k as usize - w)];
            assert(c == d[k as int]);
            assert(is_digit(d[k as int]));
            (c as u32 - 48) as u128
        } else {
            0
        };
        assert(dig as int == digit_or_zero(d, k as int));
        assert(leading_value(d, (k + 1) as nat) == leading_value(d, k as nat) * 10 + digit_or_zero(
            d,
            k as int,
        ));
        let nv = acc * 10 + dig;
        if nv > MAX_THOUSANDTHS as u128 {
            proof {
                lemma_leading_mono(d, (k + 1) as nat, m as nat);
            }
            return None;
        }
        acc = nv;
        k = k + 1;
    }
    Some(acc as u64)
}

/// Reads `v[a..b]` as a decimal (see [`spec_parse_decimal`]).
#[verifier::rlimit(40)]
pub fn parse_decimal(v: &Vec<char>, a: usize, b: usize) -> (r: Option<Decimal>)
    requires
        a <= b <= v.len(),
    ensures
        r matches Some(d) ==> spec_parse_decimal(v@.subrange(a as int, b as int)) == Some(
            d.value(),
        ),
        r is None ==> spec_parse_decimal(v@.subrange(a as int, b as int)) is None,
{
    let (i, neg) = sign_prefix(v, a, b);
    let ghost body = v@.subrange(i as int, b as int);
    let (me, xs) = match find_exponent_mark(v, i, b) {
        Some(k) => {
            assert(body.subrange(0, k as int) =~= v@.subrange(i as int, i + k));
            assert(body.subrange(k + 1, body.len() as int) =~= v@.subrange(i + k + 1, b as int));
            (i + k, i + k + 1)
        },
        None => (b, b),
    };
    let ghost mant = v@.subrange(i as int, me as int);
    let (we, fs) = match find_in(v, i, me, '.') {
        Some(p) => {
            assert(mant.subrange(0, p as int) =~= v@.subrange(i as int, i + p));
            assert(mant.subrange(p + 1, mant.len() as int) =~= v@.subrange(i + p + 1, me as int));
            (i + p, i + p + 1)
        },
        None => {
            assert(v@.subrange(me as int, me as int) =~= Seq::<char>::empty());
            (me, me)
        },
    };
    let ghost whole = v@.subrange(i as int, we as int);
    let ghost frac = v@.subrange(fs as int, me as int);
    let ghost ex = v@.subrange(xs as int, b as int);
    if we - i + (me - fs) == 0 {
        return None;
    }
    if !digits_only(v, i, we) {
        return None;
    }
    if !digits_only(v, fs, me) {
        return None;
    }
    let cap: u128 = (we - i) as u128 + (me - fs) as u128 + 25;
    let e: i128 = if me < b {
        match read_exponent(v, xs, b, cap) {
            Some(x) => x,
            None => return None,
        }
    } else {
        0
    };
    let ghost e_text: int = if me < b {
        exponent_value(ex)
    } else {
        0
    };
    assert(e as int == clamp(e_text, cap as int));
    proof {
        lemma_exponent_clamp(whole + frac, whole.len() as int, e_text, cap as int);
    }
    match scaled_in(v, i, we, fs, me, e) {
        Some(t) => {
            let mag = t as i64;
            if neg {
                Some(Decimal { thousandths: -mag })
            } else {
                Some(Decimal { thousandths: mag })
            }
        },
        None => None,
    }
}

} // verus!
