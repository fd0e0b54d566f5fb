//! Scalars of the secp256k1 group, held as their 32-byte big-endian encoding.

use schnorr_fun::fun::marker::{NonZero, Secret, Zero};
use schnorr_fun::fun::Scalar as CurveScalar;
use vstd::prelude::*;

verus! {

/// The order of the secp256k1 group.
pub open spec fn order() -> nat {
    0xFFFF_FFFF_FFFF_FFFF_FFFF_FFFF_FFFF_FFFE * 0x1_0000_0000_0000_0000 * 0x1_0000_0000_0000_0000
        + 0xBAAE_DCE6_AF48_A03B_BFD2_5E8C_D036_4141
}

/// The integer that a sequence of bytes encodes, most significant byte first.
pub open spec fn be_nat(s: Seq<u8>) -> nat
    decreases s.len(),
{
    if s.len() == 0 {
        0
    } else {
        be_nat(s.drop_last()) * 256 + s.last() as nat
    }
}

/// `b` is a multiplicative inverse of `a` modulo the group order.
pub open spec fn is_inverse(a: nat, b: nat) -> bool {
    b < order() && (a * b) % order() == 1
}

/// The multiplicative inverse of `a` modulo the group order (unique, the
/// order being prime).
pub open spec fn inverse(a: nat) -> nat {
    choose|b: nat| #[trigger] is_inverse(a, b)
}

/// A scalar modulo the group order, as 32 big-endian bytes.
#[derive(Clone, Copy, Debug, PartialEq, Eq)]
pub struct Scalar {
    pub bytes: [u8; 32],
}

impl Scalar {
    /// The integer this scalar stands for.
    pub open spec fn value(&self) -> nat {
        be_nat(self.bytes@)
    }

    /// The bytes are the canonical encoding of an element of the field.
    pub open spec fn wf(&self) -> bool {
        self.value() < order()
    }

    pub open spec fn is_nonzero(&self) -> bool {
        self.wf() && self.value() != 0
    }

    /// The scalar zero.
    pub fn zero() -> (r: Scalar)
        ensures
            r.wf(),
            r.value() == 0,
    {
        let r = Scalar { bytes: [0u8; 32] };
        proof {
            lemma_be_nat_zero(r.bytes@);
        }
        r
    }

    /// Whether the scalar is zero.
    pub fn is_zero(&self) -> (r: bool)
        ensures
            r == (self.value() == 0),
    {
        let mut i: usize = 0;
        while i < 32
            invariant
                0 <= i <= 32,
                forall|j: int| 0 <= j < i ==> self.bytes@[j] == 0,
            decreases 32 - i,
        {
            if self.bytes[i] != 0 {
                proof {
                    lemma_be_nat_zero(self.bytes@);
                    assert(!all_zero(self.bytes@));
                }
                return false;
            }
            i = i + 1;
        }
        proof {
            lemma_be_nat_zero(self.bytes@);
        }
        true
    }
}

/// All bytes are zero.
pub open spec fn all_zero(b: Seq<u8>) -> bool {
    forall|i: int| 0 <= i < b.len() ==> b[i] == 0
}

/// A big-endian integer is zero exactly when all its bytes are.
pub proof fn lemma_be_nat_zero(b: Seq<u8>)
    ensures
        (be_nat(b) == 0) == all_zero(b),
    decreases b.len(),
{
    if b.len() > 0 {
        lemma_be_nat_zero(b.drop_last());
        if all_zero(b) {
            assert(all_zero(b.drop_last()));
        }
        if be_nat(b) == 0 {
            assert forall|i: int| 0 <= i < b.len() implies b[i] == 0 by {
                if i < b.len() - 1 {
                    assert(b.drop_last()[i] == b[i]);
                }
            }
        }
    }
}

/// Relies on `Scalar::from_bytes` of secp256kfun: accepts exactly the
/// big-endian encodings of integers below the group order.
#[verifier::external_body]
pub(crate) fn scalar_from_bytes(b: [u8; 32]) -> (r: Option<Scalar>)
    ensures
        r.is_some() == (be_nat(b@) < order()),
        r.is_some() ==> r.unwrap().bytes == b,
{
    CurveScalar::<Secret, Zero>::from_bytes(b).map(|s| Scalar { bytes: s.to_bytes() })
}

/// Relies on `op::scalar_mul` of secp256kfun: the product modulo the group
/// order, non-zero when both factors are (the order is prime; the crate marks
/// such a product `NonZero`).
#[verifier::external_body]
pub(crate) fn scalar_mul(a: &Scalar, b: &Scalar) -> (r: Scalar)
    requires
        a.wf(),
        b.wf(),
    ensures
        r.wf(),
        r.value() == (a.value() * b.value()) % order(),
        a.value() != 0 && b.value() != 0 ==> r.value() != 0,
{
    let x = CurveScalar::<Secret, Zero>::from_bytes_mod_order(a.bytes);
    let y = CurveScalar::<Secret, Zero>::from_bytes_mod_order(b.bytes);
    Scalar { bytes: schnorr_fun::fun::op::scalar_mul(&x, &y).to_bytes() }
}

/// Relies on `op::scalar_add` of secp256kfun: the sum modulo the group order.
#[verifier::external_body]
pub(crate) fn scalar_add(a: &Scalar, b: &Scalar) -> (r: Scalar)
    requires
        a.wf(),
        b.wf(),
    ensures
        r.wf(),
        r.value() == (a.value() + b.value()) % order(),
{
    let x = CurveScalar::<Secret, Zero>::from_bytes_mod_order(a.bytes);
    let y = CurveScalar::<Secret, Zero>::from_bytes_mod_order(b.bytes);
    Scalar { bytes: schnorr_fun::fun::op::scalar_add(&x, &y).to_bytes() }
}

/// Relies on `Scalar::invert` of secp256kfun: the multiplicative inverse of a
/// non-zero scalar.
#[verifier::external_body]
pub(crate) fn scalar_invert(a: &Scalar) -> (r: Scalar)
    requires
        a.is_nonzero(),
    ensures
        r.wf(),
        is_inverse(a.value(), r.value()),
        r.value() == inverse(a.value()),
{
    let x = CurveScalar::<Secret, Zero>::from_bytes_mod_order(a.bytes).non_zero().unwrap();
    Scalar { bytes: x.invert().to_bytes() }
}

/// Relies on `Scalar::random` of secp256kfun over the operating system's
/// generator: some non-zero scalar.
#[verifier::external_body]
pub(crate) fn random_nonzero_scalar() -> (r: Scalar)
    ensures
        r.is_nonzero(),
{
    Scalar { bytes: CurveScalar::<Secret, NonZero>::random(&mut rand::rngs::OsRng).to_bytes() }
}

/// The integers that a sequence of scalars stands for.
pub open spec fn values(s: Seq<Scalar>) -> Seq<nat> {
    s.map_values(|x: Scalar| x.value())
}

/// All scalars of a sequence are canonical.
pub open spec fn all_wf(s: Seq<Scalar>) -> bool {
    forall|i: int| 0 <= i < s.len() ==> (#[trigger] s[i]).wf()
}

/// The polynomial with coefficients `c` (constant term first) evaluated at
/// `x`, modulo the group order.
pub open spec fn poly_eval(c: Seq<nat>, x: nat) -> nat
    decreases c.len(),
{
    if c.len() == 0 {
        0
    } else {
        (c[0] + x * poly_eval(c.drop_first(), x)) % order()
    }
}

/// The sum of a sequence of integers modulo the group order.
pub open spec fn sum_mod(c: Seq<nat>) -> nat
    decreases c.len(),
{
    if c.len() == 0 {
        0
    } else {
        (sum_mod(c.drop_last()) + c.last()) % order()
    }
}

/// Relies on `poly::scalar::eval` of secp256kfun: the polynomial evaluated at
/// `x` modulo the group order.
#[verifier::external_body]
pub(crate) fn scalar_poly_eval(poly: &Vec<Scalar>, x: u32) -> (r: Scalar)
    requires
        all_wf(poly@),
    ensures
        r.wf(),
        r.value() == poly_eval(values(poly@), x as nat),
{
    let coeffs: Vec<CurveScalar<Secret, Zero>> =
        poly.iter().map(|c| CurveScalar::<Secret, Zero>::from_bytes_mod_order(c.bytes)).collect();
    let at = CurveScalar::<Secret, Zero>::from(x);
    Scalar { bytes: schnorr_fun::fun::poly::scalar::eval(&coeffs, at).to_bytes() }
}

} // verus!
