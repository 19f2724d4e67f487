//! Numbers, as far as the program reads them.
//!
//! A probability, a confidence, a score or a cut is an IEEE 754 double. It is held here as
//! its 64-bit pattern, which fixes its value, next to the forms in which it is printed.
//! Order and rounding are computed on the pattern; contracts speak of the value itself.

use vstd::arithmetic::div_mod::*;
use vstd::arithmetic::power2::*;
use vstd::prelude::*;

use crate::codec::writable;
use crate::json::Json;
use crate::text;

verus! {

/// The sign bit of a double.
pub const SIGN: u64 = 0x8000_0000_0000_0000;

/// The pattern of positive infinity: every larger magnitude is not a number.
pub const INFINITE: u64 = 0x7ff0_0000_0000_0000;

/// The weight of the implicit bit: 2^52.
pub const HIDDEN: u64 = 0x0010_0000_0000_0000;

/// The pattern of 0.
pub const ZERO: u64 = 0;

/// The pattern of 1.
pub const ONE: u64 = 0x3ff0_0000_0000_0000;

/// The pattern without its sign bit.
pub open spec fn magnitude(bits: u64) -> nat {
    if bits >= SIGN {
        (bits - SIGN) as nat
    } else {
        bits as nat
    }
}

pub open spec fn is_nan(bits: u64) -> bool {
    magnitude(bits) > INFINITE
}

pub open spec fn is_finite(bits: u64) -> bool {
    magnitude(bits) < INFINITE
}

/// The size of a double in units of 2^-1074, the smallest step between doubles. Infinity
/// counts as the next step above the largest finite double.
pub open spec fn steps(magnitude: nat) -> nat {
    let exponent = magnitude / (HIDDEN as nat);
    let fraction = magnitude % (HIDDEN as nat);
    if exponent == 0 {
        fraction
    } else {
        (HIDDEN + fraction) as nat * pow2((exponent - 1) as nat)
    }
}

/// The exact value of a double, in units of 2^-1074.
pub open spec fn value(bits: u64) -> int {
    if bits >= SIGN {
        -(steps(magnitude(bits)) as int)
    } else {
        steps(magnitude(bits)) as int
    }
}

/// `a <= b`. Nothing is at most or at least something that is not a number.
pub open spec fn le(a: u64, b: u64) -> bool {
    !is_nan(a) && !is_nan(b) && value(a) <= value(b)
}

/// `a < b`.
pub open spec fn lt(a: u64, b: u64) -> bool {
    !is_nan(a) && !is_nan(b) && value(a) < value(b)
}

proof fn lemma_steps_grow(a: nat, b: nat)
    requires
        a < b,
    ensures
        steps(a) < steps(b),
{
    let h = HIDDEN as nat;
    let ea = a / h;
    let eb = b / h;
    let fa = a % h;
    let fb = b % h;
    assert(ea <= eb) by (nonlinear_arith)
        requires
            a < b,
            h > 0,
            ea == a / h,
            eb == b / h,
    ;
    if ea == eb {
        assert(fa < fb) by (nonlinear_arith)
            requires
                a < b,
                h > 0,
                a / h == b / h,
                fa == a % h,
                fb == b % h,
        ;
        if ea > 0 {
            let p = pow2((ea - 1) as nat);
            lemma_pow2_pos((ea - 1) as nat);
            assert((h + fa) * p < (h + fb) * p) by (nonlinear_arith)
                requires
                    fa < fb,
                    p > 0,
            ;
        }
    } else {
        let pb = pow2((eb - 1) as nat);
        lemma_pow2_pos((eb - 1) as nat);
        assert(h * pb <= (h + fb) * pb) by (nonlinear_arith)
            requires
                pb > 0,
                fb >= 0,
        ;
        if ea == 0 {
            assert(h <= h * pb) by (nonlinear_arith)
                requires
                    pb > 0,
                    h > 0,
            ;
        } else {
            let pa = pow2((ea - 1) as nat);
            lemma_pow2_pos((ea - 1) as nat);
            lemma_pow2_unfold(ea);
            assert((h + fa) * pa < h * pow2(ea)) by (nonlinear_arith)
                requires
                    fa < h,
                    pa > 0,
                    pow2(ea) == 2 * pa,
            ;
            if ea < eb - 1 {
                lemma_pow2_strictly_increases(ea, (eb - 1) as nat);
            }
            assert(h * pow2(ea) <= h * pb) by (nonlinear_arith)
                requires
                    pow2(ea) <= pb,
                    h > 0,
            ;
        }
    }
}

proof fn lemma_zero_steps()
    ensures
        steps(0) == 0,
{
}

/// The order of the patterns, sign taken into account, is the order of the values.
pub proof fn lemma_order(a: u64, b: u64)
    ensures
        signed(a) < signed(b) ==> value(a) < value(b),
        signed(a) == signed(b) ==> value(a) == value(b),
{
    lemma_zero_steps();
    let ma = magnitude(a);
    let mb = magnitude(b);
    if ma < mb {
        lemma_steps_grow(ma, mb);
    }
    if mb < ma {
        lemma_steps_grow(mb, ma);
    }
    if 0 < ma {
        lemma_steps_grow(0, ma);
    }
    if 0 < mb {
        lemma_steps_grow(0, mb);
    }
}

/// The pattern as a number with a sign.
pub open spec fn signed(bits: u64) -> int {
    if bits >= SIGN {
        -(magnitude(bits) as int)
    } else {
        magnitude(bits) as int
    }
}

fn signed_pattern(bits: u64) -> (r: i128)
    ensures
        r == signed(bits),
{
    if bits >= SIGN {
        -((bits - SIGN) as i128)
    } else {
        bits as i128
    }
}

fn nan(bits: u64) -> (r: bool)
    ensures
        r == is_nan(bits),
{
    if bits >= SIGN {
        bits - SIGN > INFINITE
    } else {
        bits > INFINITE
    }
}

/// Whether a double is a number and not infinite.
pub fn finite(bits: u64) -> (r: bool)
    ensures
        r == is_finite(bits),
{
    if bits >= SIGN {
        bits - SIGN < INFINITE
    } else {
        bits < INFINITE
    }
}

/// Whether `a <= b`, for two doubles given by their patterns.
pub fn at_most(a: u64, b: u64) -> (r: bool)
    ensures
        r == le(a, b),
{
    proof {
        lemma_order(a, b);
        lemma_order(b, a);
    }
    !nan(a) && !nan(b) && signed_pattern(a) <= signed_pattern(b)
}

/// Whether `a < b`, for two doubles given by their patterns.
pub fn below(a: u64, b: u64) -> (r: bool)
    ensures
        r == lt(a, b),
{
    proof {
        lemma_order(a, b);
        lemma_order(b, a);
    }
    !nan(a) && !nan(b) && signed_pattern(a) < signed_pattern(b)
}

/// A double and the forms in which it is printed.
#[derive(Debug, PartialEq, Eq)]
pub struct Real {
    /// Its 64-bit pattern.
    pub bits: u64,
    /// As a JSON number.
    pub text: String,
    /// With as many digits as it takes to tell it apart, and no exponent.
    pub plain: String,
}

/// What a [`Real`] holds.
pub struct RealView {
    pub bits: u64,
    pub text: Seq<char>,
    pub plain: Seq<char>,
}

impl View for Real {
    type V = RealView;

    open spec fn view(&self) -> RealView {
        RealView { bits: self.bits, text: self.text@, plain: self.plain@ }
    }
}

/// A number as it stands in a JSON value: a whole number or a double.
#[derive(Debug, PartialEq, Eq)]
pub struct Number {
    /// As JSON text.
    pub text: String,
    /// The number itself, where it is whole, not negative and below 2^64.
    pub whole: Option<u64>,
    /// The double nearest to it.
    pub real: Real,
}

/// What a [`Number`] holds.
pub struct NumberView {
    pub text: Seq<char>,
    pub whole: Option<u64>,
    pub real: RealView,
}

impl View for Number {
    type V = NumberView;

    open spec fn view(&self) -> NumberView {
        NumberView { text: self.text@, whole: self.whole, real: self.real@ }
    }
}

/// 0.9.
pub open spec fn nine_tenths() -> RealView {
    RealView { bits: 0x3fec_cccc_cccc_cccd, text: "0.9"@, plain: "0.9"@ }
}

/// 0.1.
pub open spec fn one_tenth() -> RealView {
    RealView { bits: 0x3fb9_9999_9999_999a, text: "0.1"@, plain: "0.1"@ }
}

/// The pattern of 2^53: from there on every double is a whole number.
pub const ALL_WHOLE: u64 = 0x4340_0000_0000_0000;

/// The whole number nearest to a value that is not negative, halves rounded up.
pub open spec fn nearest(value: int) -> int {
    (2 * value + pow2(1074)) / (pow2(1075) as int)
}

/// The level that a score stands for: the whole number nearest to it, but never below 0.
pub open spec fn level_of(r: RealView) -> Seq<char> {
    if is_nan(r.bits) || value(r.bits) <= 0 {
        text::decimal_of(0)
    } else if r.bits >= ALL_WHOLE {
        r.plain
    } else {
        text::decimal_of(nearest(value(r.bits)) as nat)
    }
}

proof fn lemma_nearest(exponent: nat, fraction: nat, v: int)
    requires
        fraction < HIDDEN,
        v == steps((exponent * HIDDEN + fraction) as nat),
        exponent <= 1075,
    ensures
        exponent < 1022 ==> nearest(v) == 0,
        exponent == 1075 ==> nearest(v) == HIDDEN + fraction,
        1022 <= exponent < 1075 ==> nearest(v) == (HIDDEN + fraction + pow2((1074 - exponent) as nat)) / (
        pow2((1075 - exponent) as nat) as int),
{
    let h = HIDDEN as int;
    let m = h + fraction;
    let half = pow2(1074) as int;
    let d = pow2(1075) as int;
    lemma_pow2_unfold(1075);
    lemma_pow2_pos(1074);
    assert((exponent * h + fraction) / h == exponent && (exponent * h + fraction) % h == fraction) by {
        lemma_fundamental_div_mod_converse(exponent * h + fraction, h, exponent as int, fraction as int);
    }
    lemma2_to64_rest();
    if exponent == 0 {
        lemma_pow2_strictly_increases(53, 1074);
        assert((2 * v + half) / d == 0) by {
            lemma_fundamental_div_mod_converse(2 * v + half, d, 0, 2 * v + half);
        }
    } else {
        lemma_pow2_unfold(exponent);
        let p = pow2(exponent) as int;
        lemma_pow2_pos(exponent);
        assert(2 * v == m * p) by (nonlinear_arith)
            requires
                v == m * pow2((exponent - 1) as nat),
                p == 2 * pow2((exponent - 1) as nat),
        ;
        if exponent < 1022 {
            if exponent < 1021 {
                lemma_pow2_strictly_increases(exponent, 1021);
            }
            lemma_pow2_adds(53, 1021);
            assert(m * p < half) by (nonlinear_arith)
                requires
                    0 < m < 0x20000000000000,
                    0 < p <= pow2(1021),
                    half == 0x20000000000000 * pow2(1021),
            ;
            assert(m * p >= 0) by (nonlinear_arith)
                requires
                    0 < m,
                    0 < p,
            ;
            lemma_fundamental_div_mod_converse(2 * v + half, d, 0, 2 * v + half);
        } else if exponent == 1075 {
            assert(m * p == d * m) by (nonlinear_arith)
                requires
                    p == d,
            ;
            lemma_div_multiples_vanish_fancy(m, half, d);
        } else {
            let low = (1074 - exponent) as nat;
            let k = (1075 - exponent) as nat;
            lemma_pow2_adds(exponent, low);
            lemma_pow2_adds(exponent, k);
            lemma_pow2_pos(low);
            lemma_pow2_pos(k);
            let a = m + pow2(low);
            assert(p * a == 2 * v + half) by (nonlinear_arith)
                requires
                    a == m + pow2(low),
                    2 * v == m * p,
                    half == p * pow2(low),
            ;
            lemma_div_multiples_vanish_quotient(p, a, pow2(k) as int);
        }
    }
}

/// A size in units of 2^-1074 as a whole number of hundredths: the nearest, and of two that
/// are equally near the even one.
pub open spec fn hundredths(size: nat) -> nat {
    let unit = pow2(1074);
    let down = 100 * size / unit;
    let rest = 100 * size % unit;
    if 2 * rest > unit || (2 * rest == unit && down % 2 == 1) {
        down + 1
    } else {
        down
    }
}

/// A double with two digits after the point.
pub open spec fn fixed_of(bits: u64) -> Seq<char> {
    let sign = if bits >= SIGN {
        "-"@
    } else {
        ""@
    };
    let h = hundredths(steps(magnitude(bits)));
    if is_nan(bits) {
        "NaN"@
    } else if !is_finite(bits) {
        sign + "inf"@
    } else {
        sign + text::decimal_of(h / 100) + "."@ + text::decimal_of(h / 10 % 10) + text::decimal_of(h % 10)
    }
}

proof fn lemma_scaled(p: int, a: int, b: int)
    requires
        p > 0,
        a >= 0,
        b > 0,
    ensures
        p * b > 0,
        (p * a) / (p * b) == a / b,
        (p * a) % (p * b) == p * (a % b),
        2 * (p * (a % b)) > p * b <==> 2 * (a % b) > b,
        2 * (p * (a % b)) == p * b <==> 2 * (a % b) == b,
{
    let q = a / b;
    let r = a % b;
    lemma_fundamental_div_mod(a, b);
    lemma_mod_bound(a, b);
    assert(p * a == q * (p * b) + p * r) by (nonlinear_arith)
        requires
            a == b * q + r,
    ;
    assert(0 <= p * r < p * b && p * b > 0) by (nonlinear_arith)
        requires
            p > 0,
            b > 0,
            0 <= r < b,
    ;
    lemma_fundamental_div_mod_converse(p * a, p * b, q, p * r);
    assert(2 * (p * r) > p * b <==> 2 * r > b) by (nonlinear_arith)
        requires
            p > 0,
    ;
    assert(2 * (p * r) == p * b <==> 2 * r == b) by (nonlinear_arith)
        requires
            p > 0,
    ;
}

/// The nearest hundredth of `m` times 2^-k.
spec fn rounded(m: int, k: nat) -> int {
    let unit = pow2(k) as int;
    let down = 100 * m / unit;
    let rest = 100 * m % unit;
    if 2 * rest > unit || (2 * rest == unit && down % 2 == 1) {
        down + 1
    } else {
        down
    }
}

proof fn lemma_hundredths(m: nat, shift: nat)
    requires
        m < 0x20000000000000,
    ensures
        shift <= 1074 ==> hundredths(m * pow2(shift)) == rounded(m as int, (1074 - shift) as nat),
        shift + 61 <= 1074 ==> hundredths(m * pow2(shift)) == 0,
        shift >= 1074 ==> hundredths(m * pow2(shift)) == 100 * (m * pow2((shift - 1074) as nat)),
{
    let unit = pow2(1074) as int;
    lemma_pow2_pos(1074);
    lemma_pow2_pos(shift);
    let p = pow2(shift) as int;
    assert(100 * (m * p) == p * (100 * m)) by (nonlinear_arith);
    if shift <= 1074 {
        let k = (1074 - shift) as nat;
        lemma_pow2_adds(shift, k);
        lemma_pow2_pos(k);
        lemma_scaled(p, 100 * (m as int), pow2(k) as int);
        if k >= 61 {
            lemma2_to64_rest();
            if k > 61 {
                lemma_pow2_strictly_increases(61, k);
            }
            lemma_fundamental_div_mod_converse(100 * (m as int), pow2(k) as int, 0, 100 * (m as int));
        }
    }
    if shift >= 1074 {
        let k = (shift - 1074) as nat;
        lemma_pow2_adds(1074, k);
        let whole = 100 * (m * pow2(k));
        assert(100 * (m * p) == whole * unit + 0) by (nonlinear_arith)
            requires
                p == unit * pow2(k),
                whole == 100 * (m * pow2(k)),
        ;
        lemma_fundamental_div_mod_converse(100 * (m * p), unit, whole as int, 0);
    }
}

fn power(k: u64) -> (r: u64)
    requires
        k <= 60,
    ensures
        r == pow2(k as nat),
{
    let mut r: u64 = 1;
    let mut i: u64 = 0;
    proof {
        lemma2_to64();
        lemma2_to64_rest();
    }
    while i < k
        invariant
            i <= k <= 60,
            r == pow2(i as nat),
            pow2(60) == 0x1000000000000000,
        decreases k - i,
    {
        proof {
            lemma_pow2_unfold((i + 1) as nat);
            lemma_pow2_strictly_increases(i as nat, 60);
        }
        r = 2 * r;
        i += 1;
    }
    r
}

impl Clone for Real {
    fn clone(&self) -> (r: Real)
        ensures
            r == *self,
    {
        Real { bits: self.bits, text: self.text.clone(), plain: self.plain.clone() }
    }
}

impl Clone for Number {
    fn clone(&self) -> (r: Number)
        ensures
            r == *self,
    {
        Number { text: self.text.clone(), whole: self.whole, real: self.real.clone() }
    }
}

impl Real {
    /// 0.9, as its text reads.
    pub fn nine_tenths() -> (r: Real)
        ensures
            r@ == nine_tenths(),
            writable(r@),
    {
        match Json::parse("0.9") {
            Ok(Json::Number(n)) => n.real,
            _ => vstd::pervasive::unreached(),
        }
    }

    /// 0.1, as its text reads.
    pub fn one_tenth() -> (r: Real)
        ensures
            r@ == one_tenth(),
            writable(r@),
    {
        match Json::parse("0.1") {
            Ok(Json::Number(n)) => n.real,
            _ => vstd::pervasive::unreached(),
        }
    }

    /// The level that a score stands for, in decimal.
    pub fn level(&self) -> (r: String)
        ensures
            r@ == level_of(self@),
    {
        proof {
            lemma_order(self.bits, ZERO);
            lemma_order(ZERO, self.bits);
            lemma_zero_steps();
        }
        if nan(self.bits) || self.bits >= SIGN || self.bits == 0 {
            return text::decimal(0);
        }
        if self.bits >= ALL_WHOLE {
            return self.plain.clone();
        }
        let exponent: u64 = self.bits / HIDDEN;
        let fraction: u64 = self.bits % HIDDEN;
        proof {
            assert(exponent * HIDDEN + fraction == self.bits) by {
                lemma_fundamental_div_mod(self.bits as int, HIDDEN as int);
            }
            lemma_nearest(exponent as nat, fraction as nat, value(self.bits));
        }
        if exponent < 1022 {
            return text::decimal(0);
        }
        if exponent == 1075 {
            return text::decimal(HIDDEN + fraction);
        }
        let k: u64 = 1075 - exponent;
        let half = power(k - 1);
        let unit = power(k);
        proof {
            lemma2_to64_rest();
            if k < 53 {
                lemma_pow2_strictly_increases(k as nat, 53);
            }
            if k - 1 < 53 {
                lemma_pow2_strictly_increases((k - 1) as nat, 53);
            }
            lemma_pow2_pos(k as nat);
        }
        text::decimal((HIDDEN + fraction + half) / unit)
    }

    /// The double with two digits after the point.
    pub fn fixed(&self) -> (r: String)
        ensures
            r@ == fixed_of(self.bits),
    {
        if nan(self.bits) {
            return "NaN".to_owned();
        }
        let negative = self.bits >= SIGN;
        let sign = if negative {
            "-"
        } else {
            ""
        };
        let size: u64 = if negative {
            self.bits - SIGN
        } else {
            self.bits
        };
        if size >= INFINITE {
            return text::cat(sign, "inf");
        }
        let exponent: u64 = size / HIDDEN;
        let fraction: u64 = size % HIDDEN;
        let m: u64 = if exponent == 0 {
            fraction
        } else {
            HIDDEN + fraction
        };
        let shift: u64 = if exponent == 0 {
            0
        } else {
            exponent - 1
        };
        proof {
            lemma2_to64();
            assert(steps(size as nat) == m as nat * pow2(shift as nat));
            lemma_hundredths(m as nat, shift as nat);
        }
        if shift >= 1074 {
            let whole = text::shifted_decimal(m, shift - 1074);
            let r = text::cat5(sign, whole.as_str(), ".", "0", "0");
            proof {
                let v = m as nat * pow2((shift - 1074) as nat);
                assert(100 * v / 100 == v && 100 * v / 10 % 10 == 0 && 100 * v % 10 == 0);
                lemma_zero_digit();
            }
            return r;
        }
        let h: u64 = if 1074 - shift >= 61 {
            0
        } else {
            let unit = power(1074 - shift);
            proof {
                lemma2_to64_rest();
                lemma_pow2_pos((1074 - shift) as nat);
                if 1074 - shift < 60 {
                    lemma_pow2_strictly_increases((1074 - shift) as nat, 60);
                }
            }
            let down: u64 = 100 * m / unit;
            let rest: u64 = 100 * m % unit;
            if 2 * rest > unit || (2 * rest == unit && down % 2 == 1) {
                down + 1
            } else {
                down
            }
        };
        text::cat5(
            sign,
            text::decimal(h / 100).as_str(),
            ".",
            text::decimal(h / 10 % 10).as_str(),
            text::decimal(h % 10).as_str(),
        )
    }
}

proof fn lemma_zero_digit()
    ensures
        "0"@ == text::decimal_of(0),
{
    reveal_strlit("0");
    assert("0"@ =~= text::decimal_of(0));
}

}
