//! Points of the secp256k1 group, held as their 33-byte compressed encoding.

use crate::field::Scalar;
use schnorr_fun::fun::marker::{Normal, NonZero, Public, Secret, Zero};
use schnorr_fun::fun::{Point as CurvePoint, Scalar as CurveScalar};
use vstd::prelude::*;

verus! {

/// The bytes are the compressed encoding of a non-zero point of the curve.
pub uninterp spec fn point_valid(b: Seq<u8>) -> bool;

/// The encoding of `k·G`.
pub uninterp spec fn base_mul_of(k: nat) -> Seq<u8>;

/// The encoding of `k·P` where `p` encodes `P`.
pub uninterp spec fn point_mul_of(p: Seq<u8>, k: nat) -> Seq<u8>;

/// The encoding of `A + B` where `a` and `b` encode `A` and `B`.
pub uninterp spec fn point_sum_of(a: Seq<u8>, b: Seq<u8>) -> Seq<u8>;

/// The encoding of the point polynomial with coefficients `poly` evaluated at `x`.
pub uninterp spec fn point_poly_eval_of(poly: Seq<Seq<u8>>, x: nat) -> Seq<u8>;

/// The encoding of the identity element: 33 zero bytes.
pub open spec fn zero_point_bytes() -> Seq<u8> {
    Seq::new(33, |i: int| 0u8)
}

/// The first byte of a compressed encoding tells the parity of `y`.
pub open spec fn compressed_prefix(b: Seq<u8>) -> bool {
    b.len() == 33 && (b[0] == 2 || b[0] == 3)
}

/// The bytes encode a point, possibly the identity.
pub open spec fn decodes(b: Seq<u8>) -> bool {
    point_valid(b) || b == zero_point_bytes()
}

/// A point of the group, as 33 compressed bytes.
#[derive(Clone, Copy, Debug, PartialEq, Eq)]
pub struct Point {
    pub bytes: [u8; 33],
}

impl Point {
    /// The point is a valid non-zero curve point.
    pub open spec fn wf(&self) -> bool {
        point_valid(self.bytes@) && compressed_prefix(self.bytes@)
    }
}

/// The encodings of a sequence of points.
pub open spec fn encodings(s: Seq<Point>) -> Seq<Seq<u8>> {
    s.map_values(|p: Point| p.bytes@)
}

/// Every point of a sequence is a valid non-zero point.
pub open spec fn all_valid(s: Seq<Point>) -> bool {
    forall|i: int| 0 <= i < s.len() ==> (#[trigger] s[i]).wf()
}

/// Every point of a sequence decodes, possibly to the identity.
pub open spec fn all_decode(s: Seq<Point>) -> bool {
    forall|i: int| 0 <= i < s.len() ==> decodes((#[trigger] s[i]).bytes@)
}

/// Relies on `Point::from_bytes` of secp256kfun (non-zero points): whether the
/// bytes are a compressed encoding of a point on the curve, which starts with
/// 2 or 3.
#[verifier::external_body]
pub(crate) fn point_is_valid(b: &[u8; 33]) -> (r: bool)
    ensures
        r == point_valid(b@),
        r ==> compressed_prefix(b@),
{
    CurvePoint::<Normal, Public, NonZero>::from_bytes(*b).is_some()
}

/// Relies on `poly::scalar::to_point_poly` of secp256kfun, on one
/// coefficient: the multiple `k·G`; a valid non-zero point (compressed, so starting with 2
/// or 3) when `k` is not zero, the identity's 33 zero bytes otherwise.
#[verifier::external_body]
pub(crate) fn base_mul(k: &Scalar) -> (r: Point)
    requires
        k.wf(),
    ensures
        r.bytes@ == base_mul_of(k.value()),
        decodes(r.bytes@),
        k.value() != 0 ==> r.wf(),
{
    let s = CurveScalar::<Secret, Zero>::from_bytes_mod_order(k.bytes);
    Point { bytes: schnorr_fun::fun::poly::scalar::to_point_poly([s])[0].to_bytes() }
}

/// Relies on `op::scalar_mul_point` of secp256kfun: the multiple `k·P`.
#[verifier::external_body]
pub(crate) fn point_mul(p: &Point, k: &Scalar) -> (r: Point)
    requires
        p.wf(),
        k.wf(),
    ensures
        r.bytes@ == point_mul_of(p.bytes@, k.value()),
{
    let q = CurvePoint::<Normal, Public, NonZero>::from_bytes(p.bytes).unwrap();
    let s = CurveScalar::<Secret, Zero>::from_bytes_mod_order(k.bytes);
    Point { bytes: schnorr_fun::fun::op::scalar_mul_point(&s, &q).normalize().to_bytes() }
}

/// Relies on `op::point_add` of secp256kfun: the sum of two points, each of
/// which may be the identity; the sum is again encoded in that way.
#[verifier::external_body]
pub(crate) fn point_add(a: &Point, b: &Point) -> (r: Point)
    requires
        decodes(a.bytes@),
        decodes(b.bytes@),
    ensures
        r.bytes@ == point_sum_of(a.bytes@, b.bytes@),
        decodes(r.bytes@),
{
    let x = CurvePoint::<Normal, Public, Zero>::from_bytes(a.bytes).unwrap();
    let y = CurvePoint::<Normal, Public, Zero>::from_bytes(b.bytes).unwrap();
    Point { bytes: schnorr_fun::fun::op::point_add(&x, &y).normalize().to_bytes() }
}

/// Relies on `poly::point::eval` of secp256kfun: the point polynomial
/// evaluated at `x`.
#[verifier::external_body]
pub(crate) fn point_poly_eval(poly: &Vec<Point>, x: u32) -> (r: Point)
    requires
        all_decode(poly@),
    ensures
        r.bytes@ == point_poly_eval_of(encodings(poly@), x as nat),
        decodes(r.bytes@),
{
    let coeffs: Vec<CurvePoint<Normal, Public, Zero>> = poly
        .iter()
        .map(|p| CurvePoint::<Normal, Public, Zero>::from_bytes(p.bytes).unwrap())
        .collect();
    let at = CurveScalar::<Public, Zero>::from(x);
    Point { bytes: schnorr_fun::fun::poly::point::eval(&coeffs, at).normalize().to_bytes() }
}

/// The public image `k·G` of a non-zero scalar.
pub fn public_point(k: &Scalar) -> (r: Point)
    requires
        k.is_nonzero(),
    ensures
        r.wf(),
        r.bytes@ == base_mul_of(k.value()),
{
    base_mul(k)
}

/// Whether two points have the same encoding.
pub fn same_point(a: &Point, b: &Point) -> (r: bool)
    ensures
        r == (a.bytes@ == b.bytes@),
{
    let mut i: usize = 0;
    while i < 33
        invariant
            0 <= i <= 33,
            forall|j: int| 0 <= j < i ==> a.bytes@[j] == b.bytes@[j],
        decreases 33 - i,
    {
        if a.bytes[i] != b.bytes[i] {
            return false;
        }
        i = i + 1;
    }
    assert(a.bytes@ =~= b.bytes@);
    true
}

} // verus!
