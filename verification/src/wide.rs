//! Natural numbers of any size.
//!
//! A number is held as limbs of 32 bits, the least significant first. Only
//! what the exact comparison of sums of products needs is here: multiplying
//! by a bounded factor, adding, and telling which of two numbers is larger.

use vstd::prelude::*;
use vstd::arithmetic::mul::lemma_mul_is_associative;
use vstd::arithmetic::power2::{lemma2_to64, lemma_pow2_adds, pow2};

verus! {

/// The largest factor that `times` takes: 2^96 - 1.
pub const FACTOR_MAX: u128 = 0xffff_ffff_ffff_ffff_ffff_ffff;

/// The weight of limb `n`: 2^(32 n).
pub open spec fn weight(n: nat) -> nat
    decreases n,
{
    if n == 0 {
        1
    } else {
        0x1_0000_0000 * weight((n - 1) as nat)
    }
}

/// The number that a sequence of limbs stands for.
pub open spec fn value(limbs: Seq<u32>) -> nat
    decreases limbs.len(),
{
    if limbs.len() == 0 {
        0
    } else {
        value(limbs.drop_last()) + limbs.last() as nat * weight((limbs.len() - 1) as nat)
    }
}

/// A limb put on top adds its value at the weight of its place.
pub proof fn lemma_pushed(limbs: Seq<u32>, limb: u32)
    ensures
        value(limbs.push(limb)) == value(limbs) + limb as nat * weight(limbs.len()),
{
    assert(limbs.push(limb).drop_last() =~= limbs);
}

/// A number of `n` limbs is below the weight of limb `n`.
pub proof fn lemma_below_weight(limbs: Seq<u32>)
    ensures
        value(limbs) < weight(limbs.len()),
    decreases limbs.len(),
{
    if limbs.len() > 0 {
        lemma_below_weight(limbs.drop_last());
        let w = weight((limbs.len() - 1) as nat);
        let below = value(limbs.drop_last());
        let top = limbs.last() as nat;
        assert(below + top * w < 0x1_0000_0000 * w) by (nonlinear_arith)
            requires
                below < w,
                top <= 0xffff_ffff,
        ;
    }
}

/// Two numbers of equal length that agree from limb `from` upwards differ
/// by as much as their parts below limb `from`.
pub proof fn lemma_tops_agree(a: Seq<u32>, b: Seq<u32>, from: int)
    requires
        a.len() == b.len(),
        0 <= from <= a.len(),
        forall|k: int| from <= k < a.len() ==> a[k] == b[k],
    ensures
        value(a) - value(a.take(from)) == value(b) - value(b.take(from)),
    decreases a.len(),
{
    if from == a.len() {
        assert(a.take(from) =~= a);
        assert(b.take(from) =~= b);
    } else {
        lemma_tops_agree(a.drop_last(), b.drop_last(), from);
        assert(a.drop_last().take(from) =~= a.take(from));
        assert(b.drop_last().take(from) =~= b.take(from));
    }
}

/// Of two numbers of equal length that agree above limb `at`, the one with
/// the smaller limb `at` is the smaller.
pub proof fn lemma_limb_decides(a: Seq<u32>, b: Seq<u32>, at: int)
    requires
        a.len() == b.len(),
        0 <= at < a.len(),
        forall|k: int| at < k < a.len() ==> a[k] == b[k],
        a[at] < b[at],
    ensures
        value(a) < value(b),
{
    lemma_tops_agree(a, b, at + 1);
    let low_a = a.take(at + 1);
    let low_b = b.take(at + 1);
    assert(low_a.drop_last() =~= a.take(at));
    assert(low_b.drop_last() =~= b.take(at));
    lemma_below_weight(a.take(at));
    let w = weight(at as nat);
    let x = a[at] as nat;
    let y = b[at] as nat;
    assert(x * w + w <= y * w) by (nonlinear_arith)
        requires
            x + 1 <= y,
    ;
}

/// The number one.
pub(crate) fn one() -> (limbs: Vec<u32>)
    ensures
        value(limbs@) == 1,
{
    let mut limbs: Vec<u32> = Vec::new();
    limbs.push(1);
    proof {
        lemma_pushed(Seq::<u32>::empty(), 1);
        assert(limbs@ =~= Seq::<u32>::empty().push(1));
    }
    limbs
}

/// Multiplies a number by a factor of at most 96 bits.
pub(crate) fn times(limbs: &Vec<u32>, factor: u128) -> (out: Vec<u32>)
    requires
        factor <= FACTOR_MAX,
    ensures
        value(out@) == value(limbs@) * factor,
{
    let mut out: Vec<u32> = Vec::new();
    let mut carry: u128 = 0;
    let mut i: usize = 0;
    proof {
        assert(limbs@.take(0) =~= Seq::<u32>::empty());
        assert(value(out@) == 0);
        assert(value(limbs@.take(0)) == 0);
        assert(carry * weight(0) == 0) by (nonlinear_arith)
            requires
                carry == 0,
        ;
        assert(value(limbs@.take(0)) * factor == 0) by (nonlinear_arith)
            requires
                value(limbs@.take(0)) == 0,
        ;
    }
    while i < limbs.len()
        invariant
            i <= limbs@.len(),
            out@.len() == i,
            factor <= FACTOR_MAX,
            carry <= factor,
            value(out@) + carry * weight(i as nat) == value(limbs@.take(i as int)) * factor,
        decreases limbs@.len() - i,
    {
        let limb: u32 = limbs[i];
        assert(limb * factor <= 0xffff_ffff * factor) by (nonlinear_arith)
            requires
                limb <= 0xffff_ffff,
                0 <= factor,
        ;
        let product: u128 = limb as u128 * factor + carry;
        let low: u32 = (product % 0x1_0000_0000) as u32;
        let high: u128 = product / 0x1_0000_0000;
        proof {
            let w = weight(i as nat);
            let done = value(out@);
            let part = value(limbs@.take(i as int));
            lemma_pushed(out@, low);
            assert(limbs@.take(i + 1).drop_last() =~= limbs@.take(i as int));
            assert(value(limbs@.take(i + 1)) == part + limb as nat * w);
            assert(done + low * w + high * (0x1_0000_0000 * w) == (part + limb * w) * factor)
                by (nonlinear_arith)
                requires
                    done + carry * w == part * factor,
                    low + high * 0x1_0000_0000 == limb * factor + carry,
            ;
        }
        out.push(low);
        carry = high;
        i += 1;
    }
    assert(limbs@.take(i as int) =~= limbs@);
    while carry > 0
        invariant
            value(out@) + carry * weight(out@.len()) == value(limbs@) * factor,
        decreases carry,
    {
        let low: u32 = (carry % 0x1_0000_0000) as u32;
        let high: u128 = carry / 0x1_0000_0000;
        proof {
            let w = weight(out@.len());
            let done = value(out@);
            lemma_pushed(out@, low);
            assert(done + low * w + high * (0x1_0000_0000 * w) == done + carry * w)
                by (nonlinear_arith)
                requires
                    low + high * 0x1_0000_0000 == carry,
            ;
        }
        out.push(low);
        carry = high;
    }
    out
}

/// A copy of a number with limbs of zero on top, up to `length` limbs.
fn padded(limbs: &Vec<u32>, length: usize) -> (out: Vec<u32>)
    ensures
        value(out@) == value(limbs@),
        out@.len() == if limbs@.len() < length {
            length as nat
        } else {
            limbs@.len()
        },
{
    let mut out: Vec<u32> = limbs.clone();
    while out.len() < length
        invariant
            value(out@) == value(limbs@),
            out@.len() >= limbs@.len(),
            out@.len() <= length || out@.len() == limbs@.len(),
        decreases length - out@.len(),
    {
        proof {
            lemma_pushed(out@, 0);
        }
        out.push(0);
    }
    out
}

/// A number times 2^`bits`.
pub(crate) fn doubled(limbs: &Vec<u32>, bits: u32) -> (out: Vec<u32>)
    ensures
        value(out@) == value(limbs@) * pow2(bits as nat),
{
    let mut out: Vec<u32> = times(limbs, 1);
    let mut done: u32 = 0;
    proof {
        lemma2_to64();
    }
    while done < bits
        invariant
            done <= bits,
            value(out@) == value(limbs@) * pow2(done as nat),
        decreases bits - done,
    {
        let ghost before = value(out@);
        let ghost start = value(limbs@) as int;
        if bits - done >= 32 {
            out = times(&out, 0x1_0000_0000);
            proof {
                lemma2_to64();
                lemma_pow2_adds(done as nat, 32);
                lemma_mul_is_associative(start, pow2(done as nat) as int, 0x1_0000_0000);
            }
            done += 32;
        } else {
            out = times(&out, 2);
            proof {
                lemma2_to64();
                lemma_pow2_adds(done as nat, 1);
                lemma_mul_is_associative(start, pow2(done as nat) as int, 2);
            }
            done += 1;
        }
    }
    out
}

/// The sum of two numbers.
pub(crate) fn plus(first: &Vec<u32>, second: &Vec<u32>) -> (out: Vec<u32>)
    ensures
        value(out@) == value(first@) + value(second@),
{
    let a: Vec<u32> = padded(first, second.len());
    let b: Vec<u32> = padded(second, first.len());
    let mut out: Vec<u32> = Vec::new();
    let mut carry: u64 = 0;
    let mut i: usize = 0;
    proof {
        assert(a@.take(0) =~= Seq::<u32>::empty());
        assert(b@.take(0) =~= Seq::<u32>::empty());
        assert(value(out@) == 0);
        assert(value(a@.take(0)) == 0);
        assert(value(b@.take(0)) == 0);
    }
    while i < a.len()
        invariant
            i <= a@.len(),
            a@.len() == b@.len(),
            out@.len() == i,
            carry <= 1,
            value(out@) + carry * weight(i as nat) == value(a@.take(i as int)) + value(
                b@.take(i as int),
            ),
        decreases a@.len() - i,
    {
        let sum: u64 = a[i] as u64 + b[i] as u64 + carry;
        let low: u32 = (sum % 0x1_0000_0000) as u32;
        let high: u64 = sum / 0x1_0000_0000;
        proof {
            let w = weight(i as nat);
            let done = value(out@);
            let part_a = value(a@.take(i as int));
            let part_b = value(b@.take(i as int));
            let limb_a = a@[i as int] as nat;
            let limb_b = b@[i as int] as nat;
            lemma_pushed(out@, low);
            assert(a@.take(i + 1).drop_last() =~= a@.take(i as int));
            assert(b@.take(i + 1).drop_last() =~= b@.take(i as int));
            assert(value(a@.take(i + 1)) == part_a + limb_a * w);
            assert(value(b@.take(i + 1)) == part_b + limb_b * w);
            assert(done + low * w + high * (0x1_0000_0000 * w) == (part_a + limb_a * w) + (part_b
                + limb_b * w)) by (nonlinear_arith)
                requires
                    done + carry * w == part_a + part_b,
                    low + high * 0x1_0000_0000 == limb_a + limb_b + carry,
            ;
        }
        out.push(low);
        carry = high;
        i += 1;
    }
    assert(a@.take(i as int) =~= a@);
    assert(b@.take(i as int) =~= b@);
    if carry > 0 {
        proof {
            lemma_pushed(out@, 1);
        }
        out.push(1);
    }
    out
}

/// Whether the first number is at most the second.
pub(crate) fn at_most(first: &Vec<u32>, second: &Vec<u32>) -> (yes: bool)
    ensures
        yes == (value(first@) <= value(second@)),
{
    let a: Vec<u32> = padded(first, second.len());
    let b: Vec<u32> = padded(second, first.len());
    let mut i: usize = a.len();
    while i > 0
        invariant
            i <= a@.len(),
            a@.len() == b@.len(),
            value(a@) == value(first@),
            value(b@) == value(second@),
            forall|k: int| i <= k < a@.len() ==> a@[k] == b@[k],
        decreases i,
    {
        i -= 1;
        if a[i] < b[i] {
            proof {
                lemma_limb_decides(a@, b@, i as int);
            }
            return true;
        }
        if a[i] > b[i] {
            proof {
                lemma_limb_decides(b@, a@, i as int);
            }
            return false;
        }
    }
    assert(a@ =~= b@);
    true
}

} // verus!
