//! Byte counts for people to read.
//!
//! Sizes are shown in decimal units with the rounding of double-precision
//! arithmetic: the count is brought to 53 significant bits, divided by the
//! unit with a result of 53 significant bits, and that quotient is rounded to
//! the shown number of decimals. Every rounding goes to the nearest value, and
//! to the even one of two that are equally near.

use vstd::prelude::*;
use vstd::string::*;
use vstd::arithmetic::power2::*;
use crate::text;

verus! {

/// Bytes in a kilobyte.
pub const KB: u64 = 1000;

/// Bytes in a megabyte.
pub const MB: u64 = 1000000;

/// Bytes in a gigabyte.
pub const GB: u64 = 1000000000;

/// Two to the 53rd: the first integer with 54 binary digits.
pub const DOUBLE_END: u64 = 9007199254740992;

/// Two to the 52nd: the first integer with 53 binary digits.
pub const DOUBLE_START: u64 = 4503599627370496;

/// `num / den`, rounded to the nearest integer, ties to the even one.
pub open spec fn round_even(num: nat, den: nat) -> nat {
    let q = num / den;
    let r = num % den;
    if 2 * r < den || (2 * r == den && q % 2 == 0) {
        q
    } else {
        q + 1
    }
}

/// How many binary digits `n` has beyond 53.
pub open spec fn spare_digits(n: nat) -> nat
    decreases n,
{
    if n < DOUBLE_END {
        0
    } else {
        1 + spare_digits(n / 2)
    }
}

/// `n` rounded to 53 significant binary digits.
pub open spec fn as_double(n: nat) -> nat {
    let unit = pow2(spare_digits(n));
    round_even(n, unit) * unit
}

/// How far `n` is below `end`.
pub open spec fn below(n: nat, end: nat) -> nat {
    if n < end {
        (end - n) as nat
    } else {
        0
    }
}

/// By how many doublings `n / d` reaches 53 binary digits.
pub open spec fn doublings(n: nat, d: nat) -> nat
    decreases below(n, DOUBLE_START as nat * d),
{
    if n == 0 || n >= DOUBLE_START as nat * d {
        0
    } else {
        1 + doublings(2 * n, d)
    }
}

/// `n / d` rounded to 53 significant binary digits, as a multiple of
/// `1 / pow2(doublings(n, d))`.
pub open spec fn quotient(n: nat, d: nat) -> nat {
    round_even(n * pow2(doublings(n, d)), d)
}

/// `n / d` to the given number of steps per unit (10 for one decimal).
pub open spec fn shown(n: nat, d: nat, steps: nat) -> nat {
    round_even(steps * quotient(n, d), pow2(doublings(n, d)))
}

/// A number of tenths, as units and one decimal.
pub open spec fn tenths_text(t: nat) -> Seq<char> {
    text::dec(t / 10) + "."@ + text::dec(t % 10)
}

/// What [`human_size`] shows.
pub open spec fn size_text(bytes: int) -> Seq<char> {
    let b = as_double(bytes as nat);
    if bytes <= 0 {
        "unknown size"@
    } else if b >= GB {
        tenths_text(shown(b, GB as nat, 10)) + " GB"@
    } else if b >= MB {
        tenths_text(shown(b, MB as nat, 10)) + " MB"@
    } else if b >= KB {
        text::dec(shown(b, KB as nat, 1)) + " KB"@
    } else {
        text::dec(bytes as nat) + " B"@
    }
}

fn divide_even(num: u128, den: u128) -> (r: u128)
    requires
        0 < den <= num < 0x8000_0000_0000_0000_0000_0000_0000_0000,
    ensures
        r == round_even(num as nat, den as nat),
        r <= num,
        r * den <= num + den,
{
    let q: u128 = num / den;
    let m: u128 = num % den;
    proof {
        assert(num == q * den + m && 0 <= m < den) by (nonlinear_arith)
            requires
                q == num / den,
                m == num % den,
                den > 0,
        ;
        assert(q <= num) by (nonlinear_arith)
            requires
                num == q * den + m,
                m >= 0,
                den >= 1,
        ;
        assert((q + 1) * den == q * den + den) by (nonlinear_arith);
        if q == num {
            assert(q * den >= num) by (nonlinear_arith)
                requires
                    q == num,
                    den >= 1,
            ;
        }
    }
    if m < den - m || (m == den - m && q % 2 == 0) {
        q
    } else {
        proof {
            assert(q + 1 <= num) by {
                if q + 1 > num {
                    assert(m == 0) by (nonlinear_arith)
                        requires
                            num == q * den + m,
                            q >= num,
                            den >= 1,
                            m >= 0,
                            num >= 1,
                    ;
                }
            }
        }
        q + 1
    }
}

/// `n` rounded to 53 significant binary digits.
fn to_double(n: u64) -> (r: u64)
    requires
        0 < n < 0x8000_0000_0000_0000,
    ensures
        r == as_double(n as nat),
        n < DOUBLE_END ==> r == n,
        r <= 2 * n,
{
    let mut m: u64 = n;
    let mut unit: u64 = 1;
    let ghost mut i: nat = 0;
    proof {
        lemma2_to64();
    }
    while m >= DOUBLE_END
        invariant
            0 < n < 0x8000_0000_0000_0000,
            0 < m <= n,
            unit == pow2(i),
            unit * m <= n,
            unit >= 1,
            spare_digits(n as nat) == i + spare_digits(m as nat),
            n < DOUBLE_END ==> i == 0,
        decreases m,
    {
        proof {
            lemma_pow2_unfold(i + 1);
            assert(unit * 2 <= n && (unit * 2) * (m / 2) <= n) by (nonlinear_arith)
                requires
                    unit * m <= n,
                    m >= 2,
                    unit >= 1,
            ;
            i = i + 1;
        }
        m = m / 2;
        unit = unit * 2;
    }
    proof {
        assert(unit <= n) by (nonlinear_arith)
            requires
                unit * m <= n,
                m >= 1,
        ;
    }
    let steps: u128 = divide_even(n as u128, unit as u128);
    proof {
        if n < DOUBLE_END {
            lemma2_to64();
            assert(unit == 1);
            assert(n as nat / 1 == n && n as nat % 1 == 0) by (nonlinear_arith);
            assert(round_even(n as nat, 1) == n);
            assert(steps == n);
            assert(steps * unit == n) by (nonlinear_arith)
                requires
                    steps == n,
                    unit == 1,
            ;
        }
        assert(steps * unit <= 2 * n);
    }
    (steps * unit as u128) as u64
}

/// `n / d`, rounded to 53 significant binary digits and then to the given
/// number of steps per unit.
fn divide_shown(n: u64, d: u64, steps: u64) -> (r: u64)
    requires
        1000 <= d <= n,
        d <= GB,
        1 <= steps <= 10,
    ensures
        r == shown(n as nat, d as nat, steps as nat),
{
    let end: u128 = DOUBLE_START as u128 * d as u128;
    let mut x: u128 = n as u128;
    let mut p: u128 = 1;
    let ghost mut i: nat = 0;
    proof {
        lemma2_to64();
        assert(end <= 4503599627370496 * 1000000000) by (nonlinear_arith)
            requires
                end == 4503599627370496 * d,
                d <= 1000000000,
        ;
    }
    while x < end
        invariant
            0 < d <= n,
            d <= GB,
            end == DOUBLE_START * d,
            end <= 4503599627370496 * 1000000000,
            p == pow2(i),
            p >= 1,
            x == n * p,
            x <= 2 * end || x == n,
            doublings(n as nat, d as nat) == i + doublings(x as nat, d as nat),
        decreases below(x as nat, end as nat),
    {
        proof {
            lemma_pow2_unfold(i + 1);
            assert(n * (2 * p) == 2 * (n * p)) by (nonlinear_arith);
            assert(p <= x) by (nonlinear_arith)
                requires
                    x == n * p,
                    n >= 1,
                    p >= 1,
            ;
            assert(x > 0) by (nonlinear_arith)
                requires
                    x == n * p,
                    n >= 1,
                    p >= 1,
            ;
            i = i + 1;
        }
        x = 2 * x;
        p = 2 * p;
    }
    proof {
        assert(doublings(x as nat, d as nat) == 0);
        assert(i == doublings(n as nat, d as nat));
        assert(d <= x && d * p <= x) by (nonlinear_arith)
            requires
                x == n * p,
                d <= n,
                p >= 1,
        ;
    }
    let m: u128 = divide_even(x, d as u128);
    proof {
        assert(p <= m && m <= x) by {
            assert(round_even(x as nat, d as nat) >= x as nat / d as nat);
            assert(x as nat / d as nat >= p) by (nonlinear_arith)
                requires
                    d * p <= x,
                    d > 0,
            ;
        }
        assert(p <= m * steps) by (nonlinear_arith)
            requires
                p <= m,
                steps >= 1,
        ;
        assert(steps * m == m * steps) by (nonlinear_arith);
        assert(m * steps <= x * 10) by (nonlinear_arith)
            requires
                m <= x,
                steps <= 10,
        ;
    }
    let t: u128 = divide_even(m * steps as u128, p);
    proof {
        assert(t * d <= 10 * n + 11 * d) by {
            assert((t * d) * p <= (10 * n + 11 * d) * p) by (nonlinear_arith)
                requires
                    t * p <= m * steps + p,
                    m * d <= x + d,
                    x == n * p,
                    d >= 1,
                    m >= 0,
                    1 <= steps <= 10,
                    p >= 1,
            ;
            assert(t * d <= 10 * n + 11 * d) by (nonlinear_arith)
                requires
                    (t * d) * p <= (10 * n + 11 * d) * p,
                    p >= 1,
            ;
        }
        assert(t <= n) by (nonlinear_arith)
            requires
                t * d <= 10 * n + 11 * d,
                1000 <= d <= n,
        ;
    }
    t as u64
}

/// Format a byte count for human-readable status and reply messages.
///
/// Decimal units, in step with the download limit of the public Bot API and
/// with the Finder.
pub fn human_size(bytes: i64) -> (r: String)
    ensures
        r@ == size_text(bytes as int),
{
    if bytes <= 0 {
        return "unknown size".to_owned();
    }
    let b: u64 = to_double(bytes as u64);
    if b >= GB {
        one_decimal(divide_shown(b, GB, 10), " GB")
    } else if b >= MB {
        one_decimal(divide_shown(b, MB, 10), " MB")
    } else if b >= KB {
        let mut s = text::decimal(divide_shown(b, KB, 1));
        s.append(" KB");
        s
    } else {
        let mut s = text::decimal(bytes as u64);
        s.append(" B");
        s
    }
}

fn one_decimal(tenths: u64, unit: &str) -> (r: String)
    ensures
        r@ == tenths_text(tenths as nat) + unit@,
{
    let mut s = text::decimal(tenths / 10);
    s.append(".");
    s.append(text::decimal(tenths % 10).as_str());
    s.append(unit);
    s
}

// ---- what the sizes promise ----

/// Rounding never goes below a whole number that the quotient reaches.
proof fn lemma_round_at_least(num: nat, den: nat, k: nat)
    requires
        den > 0,
        k * den <= num,
    ensures
        round_even(num, den) >= k,
{
    assert(num / den >= k) by (nonlinear_arith)
        requires
            den > 0,
            k * den <= num,
    ;
}

/// A count that fits in 53 binary digits is kept as it is.
proof fn lemma_small_counts_are_kept(n: nat)
    requires
        n < DOUBLE_END,
    ensures
        as_double(n) == n,
{
    lemma2_to64();
    assert(n / 1 == n && n % 1 == 0) by (nonlinear_arith);
    assert(round_even(n, 1) * 1 == n) by (nonlinear_arith)
        requires
            round_even(n, 1) == n,
    ;
}

/// A file of so many whole megabytes or more is never shown as less: one just
/// over a limit of whole megabytes does not read as if it were under it.
pub proof fn sizes_are_not_understated(bytes: int, megabytes: nat)
    requires
        1 <= megabytes,
        megabytes * MB <= bytes < GB,
    ensures
        ({
            let t = shown(bytes as nat, MB as nat, 10);
            &&& size_text(bytes) == tenths_text(t) + " MB"@
            &&& t / 10 >= megabytes
        }),
{
    let n = bytes as nat;
    let d = MB as nat;
    let p = pow2(doublings(n, d));
    lemma_pow2_pos(doublings(n, d));
    assert(n >= MB) by (nonlinear_arith)
        requires
            megabytes * MB <= n,
            megabytes >= 1,
    ;
    lemma_small_counts_are_kept(n);
    assert((megabytes * p) * d <= n * p) by (nonlinear_arith)
        requires
            megabytes * d <= n,
            p >= 0,
    ;
    lemma_round_at_least(n * p, d, megabytes * p);
    let m = quotient(n, d);
    assert((10 * megabytes) * p <= 10 * m) by (nonlinear_arith)
        requires
            megabytes * p <= m,
    ;
    lemma_round_at_least(10 * m, p, 10 * megabytes);
}

/// Rounding is to the nearest.
proof fn lemma_round_is_near(num: nat, den: nat)
    requires
        den > 0,
    ensures
        -(den as int) <= 2 * (round_even(num, den) * den - num) <= den as int,
{
    let q = num / den;
    let r = num % den;
    assert(num == q * den + r && 0 <= r < den) by (nonlinear_arith)
        requires
            q == num / den,
            r == num % den,
            den > 0,
    ;
    assert((q + 1) * den == q * den + den) by (nonlinear_arith);
}

/// The doublings bring the quotient up to 53 binary digits.
proof fn lemma_doubled_enough(n: nat, d: nat)
    requires
        n > 0,
    ensures
        n * pow2(doublings(n, d)) >= DOUBLE_START as nat * d,
    decreases below(n, DOUBLE_START as nat * d),
{
    if n >= DOUBLE_START as nat * d {
        lemma2_to64();
        assert(n * 1 == n) by (nonlinear_arith);
    } else {
        lemma_doubled_enough(2 * n, d);
        let k = doublings(2 * n, d);
        lemma_pow2_unfold(k + 1);
        let p = pow2(k);
        let pp = pow2(k + 1);
        assert(n * pp == (2 * n) * p) by (nonlinear_arith)
            requires
                pp == 2 * p,
        ;
    }
}

/// What is shown of a count is the nearest step.
proof fn lemma_shown_is_nearest(n: nat, d: nat, steps: nat)
    requires
        0 < n < 400_000_000_000_000,
        d > 0,
        1 <= steps <= 10,
    ensures
        -(d as int) <= 2 * (shown(n, d, steps) * d - steps * n) <= d as int,
{
    let p = pow2(doublings(n, d));
    let q = quotient(n, d);
    let t = shown(n, d, steps);
    lemma_pow2_pos(doublings(n, d));
    lemma_doubled_enough(n, d);
    lemma_round_is_near(n * p, d);
    lemma_round_is_near(steps * q, p);
    assert(p > steps * d) by (nonlinear_arith)
        requires
            n * p >= 4503599627370496 * d,
            0 < n < 400_000_000_000_000,
            d > 0,
            1 <= steps <= 10,
    ;
    let x = t * d - steps * n;
    let e = q * d - n * p;
    let f = t * p - steps * q;
    assert(x * p == f * d + steps * e) by (nonlinear_arith)
        requires
            x == t * d - steps * n,
            e == q * d - n * p,
            f == t * p - steps * q,
    ;
    assert(-(d as int) <= 2 * x <= d as int) by (nonlinear_arith)
        requires
            x * p == f * d + steps * e,
            -(d as int) <= 2 * e <= d as int,
            -(p as int) <= 2 * f <= p as int,
            p > steps * d,
            d > 0,
            p > 0,
            1 <= steps <= 10,
    ;
}

/// Fewer than a thousand bytes are counted; from there on the size is shown in
/// whole kilobytes, from a million on in megabytes and from a thousand million
/// on in gigabytes with one decimal. What is shown is never further off than
/// half of its last digit.
pub proof fn sizes_are_to_the_nearest(bytes: int)
    requires
        bytes < 400_000_000_000_000,
    ensures
        bytes <= 0 ==> size_text(bytes) == "unknown size"@,
        1 <= bytes < 1_000 ==> size_text(bytes) == text::dec(bytes as nat) + " B"@,
        1_000 <= bytes < 1_000_000 ==> exists|k: nat|
            size_text(bytes) == #[trigger] text::dec(k) + " KB"@ && -500 <= 1_000 * k - bytes
                <= 500,
        1_000_000 <= bytes < 1_000_000_000 ==> exists|m: nat, x: nat|
            size_text(bytes) == #[trigger] text::dec(m) + "."@ + #[trigger] text::dec(x) + " MB"@
                && x < 10 && -50_000 <= 1_000_000 * m + 100_000 * x - bytes <= 50_000,
        1_000_000_000 <= bytes ==> exists|g: nat, x: nat|
            size_text(bytes) == #[trigger] text::dec(g) + "."@ + #[trigger] text::dec(x) + " GB"@
                && x < 10 && -50_000_000 <= 1_000_000_000 * g + 100_000_000 * x - bytes
                <= 50_000_000,
{
    if bytes > 0 {
        let n = bytes as nat;
        lemma_small_counts_are_kept(n);
        if bytes >= 1_000_000_000 {
            let t = shown(n, 1_000_000_000, 10);
            lemma_shown_is_nearest(n, 1_000_000_000, 10);
            assert(size_text(bytes) == text::dec(t / 10) + "."@ + text::dec(t % 10) + " GB"@);
        } else if bytes >= 1_000_000 {
            let t = shown(n, 1_000_000, 10);
            lemma_shown_is_nearest(n, 1_000_000, 10);
            assert(size_text(bytes) == text::dec(t / 10) + "."@ + text::dec(t % 10) + " MB"@);
        } else if bytes >= 1_000 {
            let t = shown(n, 1_000, 1);
            lemma_shown_is_nearest(n, 1_000, 1);
            assert(size_text(bytes) == text::dec(t) + " KB"@);
        }
    }
}

/// Few digits are spare.
proof fn lemma_spare(n: nat, k: nat)
    requires
        n < DOUBLE_END as nat * pow2(k),
    ensures
        spare_digits(n) <= k,
    decreases k,
{
    if k == 0 {
        lemma2_to64();
        assert(DOUBLE_END as nat * 1 == DOUBLE_END) by (nonlinear_arith);
    } else if n >= DOUBLE_END {
        let j = (k - 1) as nat;
        lemma_pow2_unfold(k);
        let p = pow2(j);
        assert(DOUBLE_END as nat * pow2(k) == 2 * (DOUBLE_END as nat * p)) by (nonlinear_arith)
            requires
                pow2(k) == 2 * p,
        ;
        lemma_spare(n / 2, j);
    }
}

/// A count is off by no more than half a thousand bytes as a double.
proof fn lemma_as_double_is_near(n: nat)
    requires
        n < 0x8000_0000_0000_0000,
    ensures
        -512 <= as_double(n) - n <= 512,
        n >= GB ==> as_double(n) >= GB,
{
    lemma2_to64();
    let k = spare_digits(n);
    assert(n < DOUBLE_END as nat * pow2(10)) by {
        assert(DOUBLE_END as nat * 1024 == 0x8000_0000_0000_0000) by (nonlinear_arith);
    }
    lemma_spare(n, 10);
    lemma_pow2_pos(k);
    if k < 10 {
        lemma_pow2_strictly_increases(k, 10);
    }
    lemma_round_is_near(n, pow2(k));
    if n < DOUBLE_END {
        lemma_small_counts_are_kept(n);
    }
}

/// Sizes beyond that are in gigabytes, too, and are off by no more than the
/// double-precision arithmetic is: a few hundred bytes beyond half of the last
/// digit.
pub proof fn large_sizes_are_near(bytes: int)
    requires
        1_000_000_000 <= bytes <= i64::MAX,
    ensures
        exists|g: nat, x: nat|
            size_text(bytes) == #[trigger] text::dec(g) + "."@ + #[trigger] text::dec(x) + " GB"@
                && x < 10 && -50_002_000 <= 1_000_000_000 * g + 100_000_000 * x - bytes
                <= 50_002_000,
{
    let n = bytes as nat;
    let b = as_double(n);
    lemma_as_double_is_near(n);
    let d: nat = 1_000_000_000;
    let p = pow2(doublings(b, d));
    let q = quotient(b, d);
    let t = shown(b, d, 10);
    lemma_pow2_pos(doublings(b, d));
    lemma_doubled_enough(b, d);
    lemma_round_is_near(b * p, d);
    lemma_round_is_near(10 * q, p);
    let x = t * d - 10 * b;
    let e = q * d - b * p;
    let f = t * p - 10 * q;
    assert(x * p == f * d + 10 * e) by (nonlinear_arith)
        requires
            x == t * d - 10 * b,
            e == q * d - b * p,
            f == t * p - 10 * q,
    ;
    assert(20_490 * p > 10 * d) by (nonlinear_arith)
        requires
            b * p >= 4503599627370496 * d,
            0 < b <= 0x8000_0000_0000_0200,
            d > 0,
    ;
    assert(-(d + 20_490) <= 2 * x <= d + 20_490) by (nonlinear_arith)
        requires
            x * p == f * d + 10 * e,
            -(d as int) <= 2 * e <= d as int,
            -(p as int) <= 2 * f <= p as int,
            20_490 * p > 10 * d,
            d > 0,
            p > 0,
    ;
    assert(size_text(bytes) == text::dec(t / 10) + "."@ + text::dec(t % 10) + " GB"@);
}

} // verus!
