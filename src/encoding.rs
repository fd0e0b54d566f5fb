//! The canonical fixed-width byte encoding of scalars, points and binonces.

use crate::field::{all_zero, be_nat, lemma_be_nat_zero, order, scalar_from_bytes, Scalar};
use crate::group::{point_is_valid, point_valid, zero_point_bytes, Point};
use vstd::prelude::*;

verus! {

/// Width of an encoded scalar.
pub const SCALAR_LEN: usize = 32;

/// Width of an encoded point.
pub const POINT_LEN: usize = 33;

/// Width of an encoded binonce.
pub const BINONCE_LEN: usize = 66;

/// Why bytes could not be decoded.
#[derive(Clone, Copy, Debug, PartialEq, Eq, Structural)]
pub enum DecodeError {
    /// The input does not have the width of the value.
    TruncatedInput,
    /// The bytes do not encode an element of the field or of the group.
    InvalidEncoding,
    /// The bytes encode zero where a non-zero value is required.
    UnexpectedZero,
}

/// What decoding `b` as a scalar gives: `Ok` with exactly these bytes, or the
/// first failing check.
pub open spec fn scalar_decoding(b: Seq<u8>, nonzero: bool, r: Result<Scalar, DecodeError>) -> bool {
    if b.len() != 32 {
        r == Err::<Scalar, DecodeError>(DecodeError::TruncatedInput)
    } else if be_nat(b) >= order() {
        r == Err::<Scalar, DecodeError>(DecodeError::InvalidEncoding)
    } else if nonzero && be_nat(b) == 0 {
        r == Err::<Scalar, DecodeError>(DecodeError::UnexpectedZero)
    } else {
        r is Ok && r->Ok_0.bytes@ == b
    }
}

/// What decoding `b` as a non-zero point gives.
pub open spec fn point_decoding(b: Seq<u8>, r: Result<Point, DecodeError>) -> bool {
    if b.len() != 33 {
        r == Err::<Point, DecodeError>(DecodeError::TruncatedInput)
    } else if b == zero_point_bytes() {
        r == Err::<Point, DecodeError>(DecodeError::UnexpectedZero)
    } else if !point_valid(b) {
        r == Err::<Point, DecodeError>(DecodeError::InvalidEncoding)
    } else {
        r is Ok && r->Ok_0.bytes@ == b
    }
}

/// Whether the bytes are all zero.
fn is_all_zero(b: &[u8]) -> (r: bool)
    ensures
        r == all_zero(b@),
{
    let mut i: usize = 0;
    while i < b.len()
        invariant
            0 <= i <= b.len(),
            forall|j: int| 0 <= j < i ==> b@[j] == 0,
        decreases b.len() - i,
    {
        if b[i] != 0 {
            return false;
        }
        i = i + 1;
    }
    true
}

/// Copies a 32-byte slice into an array.
fn to_array32(b: &[u8]) -> (r: [u8; 32])
    requires
        b@.len() == 32,
    ensures
        r@ == b@,
{
    let mut r = [0u8; 32];
    let mut i: usize = 0;
    while i < 32
        invariant
            0 <= i <= 32,
            b@.len() == 32,
            forall|j: int| 0 <= j < i ==> r@[j] == b@[j],
        decreases 32 - i,
    {
        r[i] = b[i];
        i = i + 1;
    }
    assert(r@ =~= b@);
    r
}

/// Copies a 33-byte slice into an array.
fn to_array33(b: &[u8]) -> (r: [u8; 33])
    requires
        b@.len() == 33,
    ensures
        r@ == b@,
{
    let mut r = [0u8; 33];
    let mut i: usize = 0;
    while i < 33
        invariant
            0 <= i <= 33,
            b@.len() == 33,
            forall|j: int| 0 <= j < i ==> r@[j] == b@[j],
        decreases 33 - i,
    {
        r[i] = b[i];
        i = i + 1;
    }
    assert(r@ =~= b@);
    r
}

/// Copies a 66-byte slice into an array.
fn to_array66(b: &[u8]) -> (r: [u8; 66])
    requires
        b@.len() == 66,
    ensures
        r@ == b@,
{
    let mut r = [0u8; 66];
    let mut i: usize = 0;
    while i < 66
        invariant
            0 <= i <= 66,
            b@.len() == 66,
            forall|j: int| 0 <= j < i ==> r@[j] == b@[j],
        decreases 66 - i,
    {
        r[i] = b[i];
        i = i + 1;
    }
    assert(r@ =~= b@);
    r
}

/// Copies an array into a new vector.
pub fn bytes_to_vec(b: &[u8]) -> (r: Vec<u8>)
    ensures
        r@ == b@,
{
    let mut r: Vec<u8> = Vec::new();
    let mut i: usize = 0;
    while i < b.len()
        invariant
            0 <= i <= b.len(),
            r@ == b@.subrange(0, i as int),
        decreases b.len() - i,
    {
        r.push(b[i]);
        i = i + 1;
    }
    assert(r@ =~= b@);
    r
}

/// The canonical encoding of a scalar: its 32 big-endian bytes.
pub fn encode_scalar(s: &Scalar) -> (r: Vec<u8>)
    ensures
        r@ == s.bytes@,
{
    bytes_to_vec(&s.bytes)
}

/// Decodes a scalar, refusing a wrong width, an integer not below the group
/// order and, where `nonzero` asks for it, zero.
pub fn decode_scalar(b: &[u8], nonzero: bool) -> (r: Result<Scalar, DecodeError>)
    ensures
        scalar_decoding(b@, nonzero, r),
        r is Ok ==> r->Ok_0.wf(),
{
    if b.len() != SCALAR_LEN {
        return Err(DecodeError::TruncatedInput);
    }
    let arr = to_array32(b);
    match scalar_from_bytes(arr) {
        None => Err(DecodeError::InvalidEncoding),
        Some(s) => {
            proof {
                lemma_be_nat_zero(b@);
            }
            if nonzero && is_all_zero(b) {
                Err(DecodeError::UnexpectedZero)
            } else {
                Ok(s)
            }
        },
    }
}

/// The canonical encoding of a point: its 33 compressed bytes.
pub fn encode_point(p: &Point) -> (r: Vec<u8>)
    ensures
        r@ == p.bytes@,
{
    bytes_to_vec(&p.bytes)
}

/// Decodes a non-zero point, refusing a wrong width, the identity and bytes
/// that are not a point of the curve.
pub fn decode_point(b: &[u8]) -> (r: Result<Point, DecodeError>)
    ensures
        point_decoding(b@, r),
        r is Ok ==> r->Ok_0.wf(),
{
    if b.len() != POINT_LEN {
        return Err(DecodeError::TruncatedInput);
    }
    let arr = to_array33(b);
    if is_all_zero(b) {
        assert(b@ =~= zero_point_bytes());
        return Err(DecodeError::UnexpectedZero);
    }
    assert(b@ != zero_point_bytes()) by {
        if b@ == zero_point_bytes() {
            assert(all_zero(b@));
        }
    }
    if !point_is_valid(&arr) {
        return Err(DecodeError::InvalidEncoding);
    }
    Ok(Point { bytes: arr })
}

/// The two halves of a binonce both encode non-zero points.
pub open spec fn binonce_valid(b: Seq<u8>) -> bool {
    b.len() == 66 && point_valid(b.subrange(0, 33)) && point_valid(b.subrange(33, 66))
}

/// The 33 bytes of a binonce that start at `start`.
fn binonce_half(b: &[u8; 66], start: usize) -> (r: [u8; 33])
    requires
        start == 0 || start == 33,
    ensures
        r@ == b@.subrange(start as int, start + 33),
{
    let mut r = [0u8; 33];
    let mut i: usize = 0;
    while i < 33
        invariant
            0 <= i <= 33,
            start == 0 || start == 33,
            forall|j: int| 0 <= j < i ==> r@[j] == b@[start + j],
        decreases 33 - i,
    {
        r[i] = b[start + i];
        i = i + 1;
    }
    assert(r@ =~= b@.subrange(start as int, start + 33));
    r
}

/// What decoding `b` as a binonce gives.
pub open spec fn binonce_decoding(b: Seq<u8>, r: Result<[u8; 66], DecodeError>) -> bool {
    if b.len() != 66 {
        r == Err::<[u8; 66], DecodeError>(DecodeError::TruncatedInput)
    } else if !binonce_valid(b) {
        r == Err::<[u8; 66], DecodeError>(DecodeError::InvalidEncoding)
    } else {
        r is Ok && r->Ok_0@ == b
    }
}

/// Decodes a binonce, refusing a wrong width and bytes that are not two
/// non-zero points, as `binonce::Nonce::from_bytes` of schnorr_fun does.
pub fn decode_binonce(b: &[u8]) -> (r: Result<[u8; 66], DecodeError>)
    ensures
        binonce_decoding(b@, r),
{
    if b.len() != BINONCE_LEN {
        return Err(DecodeError::TruncatedInput);
    }
    let arr = to_array66(b);
    let first = binonce_half(&arr, 0);
    let second = binonce_half(&arr, 33);
    if !point_is_valid(&first) || !point_is_valid(&second) {
        return Err(DecodeError::InvalidEncoding);
    }
    Ok(arr)
}

/// Decoding the encoding of a canonical scalar gives the scalar back; where
/// a non-zero scalar is required, this holds of every non-zero one.
pub proof fn lemma_scalar_round_trip(s: Scalar, nonzero: bool, r: Result<Scalar, DecodeError>)
    requires
        s.wf(),
        nonzero ==> s.value() != 0,
        scalar_decoding(s.bytes@, nonzero, r),
    ensures
        r == Ok::<Scalar, DecodeError>(s),
{
    assert(r->Ok_0.bytes =~= s.bytes);
}

/// Decoding the encoding of a valid point gives the point back.
pub proof fn lemma_point_round_trip(p: Point, r: Result<Point, DecodeError>)
    requires
        p.wf(),
        point_decoding(p.bytes@, r),
    ensures
        r == Ok::<Point, DecodeError>(p),
{
    assert(p.bytes@ != zero_point_bytes()) by {
        assert(p.bytes@[0] != zero_point_bytes()[0]);
    }
    assert(r->Ok_0.bytes =~= p.bytes);
}

/// Decoding the encoding of a valid binonce gives the binonce back.
pub proof fn lemma_binonce_round_trip(n: [u8; 66], r: Result<[u8; 66], DecodeError>)
    requires
        binonce_valid(n@),
        binonce_decoding(n@, r),
    ensures
        r == Ok::<[u8; 66], DecodeError>(n),
{
    assert(r->Ok_0 =~= n);
}

/// Distinct scalars have distinct encodings.
pub proof fn lemma_scalar_encoding_injective(a: Scalar, b: Scalar)
    requires
        a != b,
    ensures
        a.bytes@ != b.bytes@,
{
    if a.bytes@ == b.bytes@ {
        assert(a.bytes =~= b.bytes);
    }
}

/// Distinct points have distinct encodings.
pub proof fn lemma_point_encoding_injective(a: Point, b: Point)
    requires
        a != b,
    ensures
        a.bytes@ != b.bytes@,
{
    if a.bytes@ == b.bytes@ {
        assert(a.bytes =~= b.bytes);
    }
}

} // verus!
