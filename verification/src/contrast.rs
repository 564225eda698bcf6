//! Contrast: moving every colour channel away from the midpoint, or towards
//! it.
//!
//! A channel `c` becomes `(c - 128) * ((100 + a) / 100)^2 + 128`, rounded
//! down and clamped, where `a` is the amount. The amount is taken for exactly
//! the number that its bits stand for, `±sig * 2^(k - 150)`, so the result is
//! decided on whole numbers in units of 2^-150: a value `v` is not above the
//! result exactly when `(v - 128) * u^2 <= (c - 128) * w^2`, where `u` stands
//! for 100 and `w` for 100 plus the amount.

use vstd::prelude::*;
use vstd::arithmetic::power2::{lemma_pow2_adds, pow2};
use crate::pixel::Rgba;
use crate::scalar::{is_finite, scale, sign_set, significand, Class, Scalar};
use crate::wide::{at_most, doubled, one, plus, times, value};

verus! {

/// The contrast amount of the vintage look: the bits of -10.
pub const VINTAGE_CONTRAST: u32 = 0xc120_0000;

/// The amount 100 in units of 2^-150.
pub open spec fn hundred() -> int {
    100 * (pow2(150) as int)
}

/// The magnitude of a finite amount in units of 2^-150.
pub open spec fn magnitude(bits: u32) -> int {
    significand(bits) * (pow2(scale(bits) as nat) as int)
}

/// 100 plus a finite amount, in units of 2^-150.
pub open spec fn widened(bits: u32) -> int {
    if sign_set(bits) {
        hundred() - magnitude(bits)
    } else {
        hundred() + magnitude(bits)
    }
}

/// Whether `v` is at most `(c - 128) * ((100 + a) / 100)^2 + 128` for the
/// amount `a` that `bits` stand for.
pub open spec fn reaches(v: int, c: int, bits: u32) -> bool {
    (v - 128) * (hundred() * hundred()) <= (c - 128) * (widened(bits) * widened(bits))
}

/// The largest of the values `1..=n` that the channel reaches, or 0 where
/// it reaches none.
pub open spec fn highest_reached(n: int, c: int, bits: u32) -> int
    decreases n,
{
    if n <= 0 {
        0
    } else if reaches(n, c, bits) {
        n
    } else {
        highest_reached(n - 1, c, bits)
    }
}

/// A channel moved away from the midpoint 128, or towards it, by the factor
/// `((100 + a) / 100)^2`, rounded down and clamped to 0..=255: the largest
/// channel value that is not above the exact result.
pub open spec fn contrasted(c: int, bits: u32) -> int {
    highest_reached(255, c, bits)
}

/// Each colour channel changes its distance from the midpoint; alpha is
/// kept.
pub open spec fn contrasted_pixel(p: Rgba, bits: u32) -> Rgba {
    Rgba {
        r: contrasted(p.r as int, bits) as u8,
        g: contrasted(p.g as int, bits) as u8,
        b: contrasted(p.b as int, bits) as u8,
        a: p.a,
    }
}

/// The highest value reached lies in the range it was sought in.
pub proof fn lemma_highest_reached_in_range(n: int, c: int, bits: u32)
    requires
        0 <= n,
    ensures
        0 <= highest_reached(n, c, bits) <= n,
    decreases n,
{
    if n > 0 && !reaches(n, c, bits) {
        lemma_highest_reached_in_range(n - 1, c, bits);
    }
}

/// What is reached at a value is reached at every lower value.
pub proof fn lemma_reaches_downward(low: int, high: int, c: int, bits: u32)
    requires
        low <= high,
        reaches(high, c, bits),
    ensures
        reaches(low, c, bits),
{
    let square = hundred() * hundred();
    assert((low - 128) * square <= (high - 128) * square) by (nonlinear_arith)
        requires
            low <= high,
            square == hundred() * hundred(),
    ;
}

/// Where nothing above `found` is reached, the highest value up to `n` is
/// the highest up to `found`.
proof fn lemma_highest_reached_skips(n: int, found: int, c: int, bits: u32)
    requires
        0 <= found <= n,
        found == n || !reaches(found + 1, c, bits),
    ensures
        highest_reached(n, c, bits) == highest_reached(found, c, bits),
    decreases n,
{
    if n > found {
        if reaches(n, c, bits) {
            lemma_reaches_downward(found + 1, n, c, bits);
        }
        lemma_highest_reached_skips(n - 1, found, c, bits);
    }
}

/// A value that is reached, while its successor is not, is the highest.
pub proof fn lemma_highest_reached_found(found: int, c: int, bits: u32)
    requires
        0 <= found <= 255,
        found == 0 || reaches(found, c, bits),
        found == 255 || !reaches(found + 1, c, bits),
    ensures
        contrasted(c, bits) == found,
{
    lemma_highest_reached_skips(255, found, c, bits);
}

/// The wide numbers of an amount: `plain` is the square of 100, and `grown`
/// less `taken` is the square of 100 plus the amount.
pub(crate) struct Spread {
    plain: Vec<u32>,
    grown: Vec<u32>,
    taken: Vec<u32>,
}

impl Spread {
    pub(crate) closed spec fn of(self, bits: u32) -> bool {
        &&& value(self.plain@) == hundred() * hundred()
        &&& value(self.grown@) - value(self.taken@) == widened(bits) * widened(bits)
    }
}

/// The squares that the wide numbers of an amount are made of.
proof fn lemma_squares(sig: int, k: nat)
    ensures
        10000 * pow2(300) == (100 * pow2(150)) * (100 * pow2(150)),
        (sig * sig) * pow2(2 * k) == (sig * pow2(k)) * (sig * pow2(k)),
        (200 * sig) * pow2(150 + k) == 2 * ((100 * pow2(150)) * (sig * pow2(k))),
{
    lemma_pow2_adds(150, 150);
    lemma_pow2_adds(k, k);
    lemma_pow2_adds(150, k);
    let p = pow2(150) as int;
    let q = pow2(k) as int;
    assert(10000 * (p * p) == (100 * p) * (100 * p)) by (nonlinear_arith);
    assert((sig * sig) * (q * q) == (sig * q) * (sig * q)) by (nonlinear_arith);
    assert((200 * sig) * (p * q) == 2 * ((100 * p) * (sig * q))) by (nonlinear_arith);
}

/// Works out the wide numbers of an amount.
pub(crate) fn spread_of(amount: Scalar) -> (spread: Spread)
    ensures
        spread.of(amount.bits),
{
    let sig: u32 = amount.significand_of();
    let k: u32 = amount.scale_of();
    let plain: Vec<u32> = doubled(&times(&one(), 10000), 300);
    let squared: Vec<u32> = doubled(&times(&times(&one(), sig as u128), sig as u128), 2 * k);
    let cross: Vec<u32> = doubled(&times(&times(&one(), 200), sig as u128), 150 + k);
    let sum: Vec<u32> = plus(&plain, &squared);
    proof {
        lemma_squares(sig as int, k as nat);
        let u = hundred();
        let m = magnitude(amount.bits);
        assert((u + m) * (u + m) == u * u + m * m + 2 * (u * m)) by (nonlinear_arith);
        assert((u - m) * (u - m) == u * u + m * m - 2 * (u * m)) by (nonlinear_arith);
    }
    if amount.has_sign() {
        Spread { plain, grown: sum, taken: cross }
    } else {
        let nothing: Vec<u32> = Vec::new();
        assert(value(nothing@) == 0);
        Spread { plain, grown: plus(&sum, &cross), taken: nothing }
    }
}

/// The inequality of the products, with every term on the side where it is
/// not negative.
proof fn lemma_sides(a: int, b: int, plain: int, grown: int, taken: int)
    ensures
        a * plain <= b * (grown - taken) <==> (if a >= 0 {
            plain * a
        } else {
            0
        }) + (if b < 0 {
            grown * (-b)
        } else {
            taken * b
        }) <= (if a < 0 {
            plain * (-a)
        } else {
            0
        }) + (if b >= 0 {
            grown * b
        } else {
            taken * (-b)
        }),
{
    assert(a * plain == plain * a) by (nonlinear_arith);
    assert(plain * (-a) == -(plain * a)) by (nonlinear_arith);
    assert(b * (grown - taken) == grown * b - taken * b) by (nonlinear_arith);
    assert(grown * (-b) == -(grown * b)) by (nonlinear_arith);
    assert(taken * (-b) == -(taken * b)) by (nonlinear_arith);
}

/// Whether the channel `c` reaches the value `v`.
fn reaches_at(v: u32, c: u8, spread: &Spread) -> (yes: bool)
    requires
        v <= 256,
    ensures
        yes == ((v - 128) * value(spread.plain@) <= (c - 128) * (value(spread.grown@) - value(
            spread.taken@,
        ))),
{
    let above: bool = v >= 128;
    let bright: bool = c >= 128;
    let a: u32 = if above {
        v - 128
    } else {
        128 - v
    };
    let b: u32 = if bright {
        c as u32 - 128
    } else {
        128 - c as u32
    };
    let weighed: Vec<u32> = times(&spread.plain, a as u128);
    let more: Vec<u32> = times(&spread.grown, b as u128);
    let less: Vec<u32> = times(&spread.taken, b as u128);
    proof {
        lemma_sides(
            v - 128,
            c - 128,
            value(spread.plain@) as int,
            value(spread.grown@) as int,
            value(spread.taken@) as int,
        );
    }
    if above {
        if bright {
            at_most(&plus(&weighed, &less), &more)
        } else {
            at_most(&plus(&weighed, &more), &less)
        }
    } else {
        if bright {
            at_most(&less, &plus(&weighed, &more))
        } else {
            at_most(&more, &plus(&weighed, &less))
        }
    }
}

/// Changes the contrast of one channel by an amount whose wide numbers are
/// at hand.
pub(crate) fn contrast_with(c: u8, spread: &Spread, Ghost(bits): Ghost<u32>) -> (out: u8)
    requires
        spread.of(bits),
    ensures
        out == contrasted(c as int, bits),
{
    let mut low: u32 = 0;
    let mut high: u32 = 256;
    while high - low > 1
        invariant
            low < high <= 256,
            spread.of(bits),
            low == 0 || reaches(low as int, c as int, bits),
            high == 256 || !reaches(high as int, c as int, bits),
        decreases high - low,
    {
        let v: u32 = low + (high - low) / 2;
        if reaches_at(v, c, spread) {
            low = v;
        } else {
            high = v;
        }
    }
    proof {
        lemma_highest_reached_found(low as int, c as int, bits);
    }
    low as u8
}

/// What every channel value becomes under an amount: entry `c` of the table
/// is `contrasted(c, bits)`.
pub(crate) fn contrast_table(amount: Scalar) -> (table: Vec<u8>)
    requires
        is_finite(amount.bits),
    ensures
        table@.len() == 256,
        forall|c: int| 0 <= c < 256 ==> table@[c] == contrasted(c, amount.bits),
{
    let spread: Spread = spread_of(amount);
    let mut table: Vec<u8> = Vec::with_capacity(256);
    let mut c: u32 = 0;
    while c < 256
        invariant
            c <= 256,
            table@.len() == c,
            spread.of(amount.bits),
            forall|k: int| 0 <= k < c ==> table@[k] == contrasted(k, amount.bits),
        decreases 256 - c,
    {
        let out: u8 = contrast_with(c as u8, &spread, Ghost(amount.bits));
        table.push(out);
        c += 1;
    }
    table
}

/// Changes the contrast of one channel. There is no result for an amount
/// that is not finite.
pub fn contrast_channel(c: u8, amount: Scalar) -> (out: Option<u8>)
    ensures
        out is Some <==> is_finite(amount.bits),
        out matches Some(v) ==> v == contrasted(c as int, amount.bits),
{
    match amount.classify() {
        Class::Nan => None,
        Class::Infinite => None,
        _ => {
            let spread: Spread = spread_of(amount);
            Some(contrast_with(c, &spread, Ghost(amount.bits)))
        },
    }
}

/// Changes the contrast of a pixel. There is no result for an amount that
/// is not finite.
pub fn contrast_pixel(p: Rgba, amount: Scalar) -> (out: Option<Rgba>)
    ensures
        out is Some <==> is_finite(amount.bits),
        out matches Some(q) ==> q == contrasted_pixel(p, amount.bits),
{
    match amount.classify() {
        Class::Nan => None,
        Class::Infinite => None,
        _ => {
            let spread: Spread = spread_of(amount);
            let q: Rgba = Rgba {
                r: contrast_with(p.r, &spread, Ghost(amount.bits)),
                g: contrast_with(p.g, &spread, Ghost(amount.bits)),
                b: contrast_with(p.b, &spread, Ghost(amount.bits)),
                a: p.a,
            };
            proof {
                lemma_highest_reached_in_range(255, p.r as int, amount.bits);
                lemma_highest_reached_in_range(255, p.g as int, amount.bits);
                lemma_highest_reached_in_range(255, p.b as int, amount.bits);
            }
            Some(q)
        },
    }
}

} // verus!
