use vstd::prelude::*;
use ark_bls12_381::Fr;
use ark_ff::{BigInt, Field, PrimeField};

verus! {

/// The order of the scalar field of BLS12-381.
pub open spec fn modulus() -> int {
    limbs_value(0xffff_ffff_0000_0001, 0x53bd_a402_fffe_5bfe, 0x3339_d808_09a1_d805, 0x73ed_a753_299d_7d48)
}

/// The radix of one limb.
pub open spec fn limb_base() -> int {
    0x1_0000_0000_0000_0000
}

/// Field addition on canonical representatives.
pub open spec fn fadd(a: int, b: int) -> int {
    (a + b) % modulus()
}

/// Field multiplication on canonical representatives.
pub open spec fn fmul(a: int, b: int) -> int {
    (a * b) % modulus()
}

/// The value of four little-endian 64-bit limbs.
pub open spec fn limbs_value(l0: u64, l1: u64, l2: u64, l3: u64) -> int {
    let w = limb_base();
    l0 as int + l1 as int * w + l2 as int * (w * w) + l3 as int * (w * w * w)
}

/// The value an optional element stands for.
pub open spec fn opt_val(v: Option<Fe>) -> Option<int> {
    match v {
        Some(x) => Some(x.val()),
        None => None,
    }
}

/// An element of the scalar field, held as its canonical representative
/// in little-endian limbs.
#[derive(Clone, Copy, Debug, PartialEq, Eq, Structural)]
pub struct Fe {
    pub l0: u64,
    pub l1: u64,
    pub l2: u64,
    pub l3: u64,
}

impl Fe {
    /// The integer this element stands for.
    pub open spec fn val(&self) -> int {
        limbs_value(self.l0, self.l1, self.l2, self.l3)
    }

    /// The limbs hold a canonical representative.
    pub open spec fn wf(&self) -> bool {
        self.val() < modulus()
    }

    /// The element `n`; every `u64` lies below the modulus.
    pub fn from_u64(n: u64) -> (r: Fe)
        ensures
            r.wf(),
            r.val() == n as int,
    {
        Fe { l0: n, l1: 0, l2: 0, l3: 0 }
    }

    /// The limbs, least significant first.
    pub fn words(&self) -> (r: [u64; 4])
        ensures
            r@ == seq![self.l0, self.l1, self.l2, self.l3],
    {
        let r = [self.l0, self.l1, self.l2, self.l3];
        assert(r@ =~= seq![self.l0, self.l1, self.l2, self.l3]);
        r
    }

    /// The element `-1`.
    pub fn minus_one() -> (r: Fe)
        ensures
            r.wf(),
            r.val() == modulus() - 1,
    {
        Fe { l0: 0xffff_ffff_0000_0000, l1: 0x53bd_a402_fffe_5bfe, l2: 0x3339_d808_09a1_d805, l3: 0x73ed_a753_299d_7d48 }
    }

    /// Equality of field elements; canonical limbs make it limb equality.
    pub fn equals(&self, other: &Fe) -> (r: bool)
        requires
            self.wf(),
            other.wf(),
        ensures
            r == (self.val() == other.val()),
    {
        proof {
            lemma_limbs_injective(*self, *other);
        }
        self.l0 == other.l0 && self.l1 == other.l1 && self.l2 == other.l2 && self.l3 == other.l3
    }
}

proof fn lemma_limbs_injective(a: Fe, b: Fe)
    ensures
        a.val() == b.val() <==> a == b,
{
    let w = limb_base();
    let (a0, a1, a2, a3) = (a.l0 as int, a.l1 as int, a.l2 as int, a.l3 as int);
    let (b0, b1, b2, b3) = (b.l0 as int, b.l1 as int, b.l2 as int, b.l3 as int);
    assert(a.val() == a0 + w * (a1 + w * (a2 + w * a3))) by (nonlinear_arith)
        requires
            a.val() == a0 + a1 * w + a2 * (w * w) + a3 * (w * w * w),
    ;
    assert(b.val() == b0 + w * (b1 + w * (b2 + w * b3))) by (nonlinear_arith)
        requires
            b.val() == b0 + b1 * w + b2 * (w * w) + b3 * (w * w * w),
    ;
    assert(0 <= a2 + w * a3 && 0 <= b2 + w * b3) by (nonlinear_arith)
        requires
            0 <= a2,
            0 <= a3,
            0 <= b2,
            0 <= b3,
            w > 0,
    ;
    assert(0 <= a1 + w * (a2 + w * a3) && 0 <= b1 + w * (b2 + w * b3)) by (nonlinear_arith)
        requires
            0 <= a1,
            0 <= a2 + w * a3,
            0 <= b1,
            0 <= b2 + w * b3,
            w > 0,
    ;
    lemma_digits(a0, b0, a1 + w * (a2 + w * a3), b1 + w * (b2 + w * b3), w);
    lemma_digits(a1, b1, a2 + w * a3, b2 + w * b3, w);
    lemma_digits(a2, b2, a3, b3, w);
}

/// The modulus exceeds every 64-bit value.
pub proof fn lemma_modulus_large()
    ensures
        modulus() > 0xffff_ffff_ffff_ffff,
{
    let b = limb_base();
    let (l1, l2, l3) = (0x53bd_a402_fffe_5bfe as int, 0x3339_d808_09a1_d805 as int, 0x73ed_a753_299d_7d48 as int);
    assert(l1 * b + l2 * (b * b) + l3 * (b * b * b) >= b) by (nonlinear_arith)
        requires
            b > 0,
            l1 >= 0,
            l2 >= 0,
            l3 >= 1,
    ;
}

proof fn lemma_digits(x: int, y: int, hx: int, hy: int, w: int)
    requires
        0 <= x < w,
        0 <= y < w,
        0 <= hx,
        0 <= hy,
    ensures
        x + w * hx == y + w * hy <==> (x == y && hx == hy),
{
    if x + w * hx == y + w * hy {
        if hx < hy {
            assert(w * hx + w <= w * hy) by (nonlinear_arith)
                requires
                    hx < hy,
                    w > 0,
            ;
        } else if hy < hx {
            assert(w * hy + w <= w * hx) by (nonlinear_arith)
                requires
                    hy < hx,
                    w > 0,
            ;
        }
    }
}

/// Relies on ark_ff's `Fp::new` and `PrimeField::into_bigint` for BLS12-381's
/// `Fr`, and on its `Add`: the sum is reduced modulo the field order and
/// handed back in canonical form.
#[verifier::external_body]
pub(crate) fn fe_add(a: &Fe, b: &Fe) -> (r: Fe)
    requires
        a.wf(),
        b.wf(),
    ensures
        r.wf(),
        r.val() == fadd(a.val(), b.val()),
{
    let s = Fr::new(BigInt::new([a.l0, a.l1, a.l2, a.l3])) + Fr::new(BigInt::new([b.l0, b.l1, b.l2, b.l3]));
    let l = s.into_bigint().0;
    Fe { l0: l[0], l1: l[1], l2: l[2], l3: l[3] }
}

/// Relies on ark_ff's `Fp::new`, `PrimeField::into_bigint` and `Mul` for
/// BLS12-381's `Fr`: the product modulo the field order, in canonical form.
#[verifier::external_body]
pub(crate) fn fe_mul(a: &Fe, b: &Fe) -> (r: Fe)
    requires
        a.wf(),
        b.wf(),
    ensures
        r.wf(),
        r.val() == fmul(a.val(), b.val()),
{
    let p = Fr::new(BigInt::new([a.l0, a.l1, a.l2, a.l3])) * Fr::new(BigInt::new([b.l0, b.l1, b.l2, b.l3]));
    let l = p.into_bigint().0;
    Fe { l0: l[0], l1: l[1], l2: l[2], l3: l[3] }
}

/// Relies on ark_ff's `Field::square` for BLS12-381's `Fr`: the element
/// times itself modulo the field order, in canonical form.
#[verifier::external_body]
pub(crate) fn fe_square(a: &Fe) -> (r: Fe)
    requires
        a.wf(),
    ensures
        r.wf(),
        r.val() == fmul(a.val(), a.val()),
{
    let s = Fr::new(BigInt::new([a.l0, a.l1, a.l2, a.l3])).square();
    let l = s.into_bigint().0;
    Fe { l0: l[0], l1: l[1], l2: l[2], l3: l[3] }
}

} // verus!
