//! Blinding, share signing, share verification and combination of the
//! threshold blind signature scheme.

use crate::encoding::{decode_scalar, encode_scalar, scalar_decoding, DecodeError};
use crate::field::{
    inverse, is_inverse, order, scalar_invert, sum_mod, scalar_mul, random_nonzero_scalar,
    values, all_wf, Scalar,
};
use crate::group::{
    all_valid, base_mul, base_mul_of, encodings, point_mul, point_mul_of, same_point, Point,
};
use schnorr_fun::fun::marker::{Public, Secret, Zero};
use schnorr_fun::fun::Scalar as CurveScalar;
use vstd::prelude::*;

verus! {

/// The message to be signed, as a scalar.
#[derive(Clone, Copy, Debug, PartialEq, Eq)]
pub struct MessageScalar(pub Scalar);

/// The requester's secret blinding factor.
#[derive(Clone, Copy, Debug, PartialEq, Eq)]
pub struct BlindingKey(pub Scalar);

/// A message multiplied by a blinding key.
#[derive(Clone, Copy, Debug, PartialEq, Eq)]
pub struct BlindedMessage(pub Scalar);

/// The combination of enough signature shares over a blinded message.
#[derive(Clone, Copy, Debug, PartialEq, Eq)]
pub struct BlindedSignature(pub Scalar);

/// One signer's partial signature over a blinded message.
#[derive(Clone, Copy, Debug, PartialEq, Eq)]
pub struct BlindedSignatureShare(pub Scalar);

/// An unblinded signature over the original message.
#[derive(Clone, Copy, Debug, PartialEq, Eq)]
pub struct Signature(pub Scalar);

/// Why signature shares could not be combined.
#[derive(Clone, Copy, Debug, PartialEq, Eq, Structural)]
pub enum CombineError {
    /// Fewer shares than the threshold.
    InsufficientShares,
    /// A signer index that cannot stand for a party.
    IndexOutOfRange,
    /// Two shares from the same signer.
    DuplicateShare,
    /// The combination came out zero; the session is to be retried.
    ZeroSignature,
}

/// The product, modulo the group order, of the abscissae of `xs` other than `xj`.
pub open spec fn basis_numerator(xs: Seq<nat>, xj: nat) -> nat
    decreases xs.len(),
{
    if xs.len() == 0 {
        1
    } else {
        (basis_numerator(xs.drop_last(), xj) * (if xs.last() == xj { 1 } else { xs.last() }))
            % order()
    }
}

/// The product, modulo the group order, of `x - xj` over the abscissae `x`
/// of `xs` other than `xj`.
pub open spec fn basis_denominator(xs: Seq<nat>, xj: nat) -> nat
    decreases xs.len(),
{
    if xs.len() == 0 {
        1
    } else {
        (basis_denominator(xs.drop_last(), xj) * (if xs.last() == xj {
            1
        } else {
            ((xs.last() - xj) % (order() as int)) as nat
        })) % order()
    }
}

/// The Lagrange coefficient at zero of abscissa `xj` among `xs`.
pub open spec fn lagrange_at_zero(xs: Seq<nat>, xj: nat) -> nat {
    (basis_numerator(xs, xj) * inverse(basis_denominator(xs, xj))) % order()
}

/// The interpolation at zero, modulo the group order, of the polynomial
/// through the points `(xs[i], ys[i])`.
pub open spec fn interpolate_at_zero_of(xs: Seq<nat>, ys: Seq<nat>) -> nat {
    sum_mod(Seq::new(xs.len(), |j: int| (ys[j] * lagrange_at_zero(xs, xs[j])) % order()))
}

/// Relies on `poly::scalar::interpolate_and_eval_poly_at_0` of secp256kfun:
/// the sum of each ordinate times its Lagrange coefficient at zero, which
/// `poly::eval_basis_poly_at_0` computes as the product of the other
/// abscissae divided by the product of their differences from its own.
#[verifier::external_body]
fn interpolate_at_zero(xs: &Vec<u32>, ys: &Vec<Scalar>) -> (r: Scalar)
    requires
        xs@.len() == ys@.len(),
        all_wf(ys@),
        forall|i: int| 0 <= i < xs@.len() ==> xs@[i] != 0,
    ensures
        r.wf(),
        r.value() == interpolate_at_zero_of(xs@.map_values(|x: u32| x as nat), values(ys@)),
{
    let mut points: Vec<(CurveScalar<Public>, CurveScalar<Secret, Zero>)> = Vec::new();
    for (x, y) in xs.iter().zip(ys.iter()) {
        let x = CurveScalar::<Public, Zero>::from(*x).non_zero().unwrap();
        points.push((x, CurveScalar::<Secret, Zero>::from_bytes_mod_order(y.bytes)));
    }
    Scalar { bytes: schnorr_fun::fun::poly::scalar::interpolate_and_eval_poly_at_0(&points).to_bytes() }
}

/// The product of two scalars modulo the group order.
pub open spec fn mul_mod(a: nat, b: nat) -> nat {
    (a * b) % order()
}

/// The value of the blinded message for a key and a message.
pub open spec fn blinded_value(key: nat, msg: nat) -> nat {
    mul_mod(key, msg)
}

/// The value of a signature share: the secret share times the message.
pub open spec fn share_value(secret: nat, msg: nat) -> nat {
    mul_mod(secret, msg)
}

/// The value of an unblinded signature.
pub open spec fn unblinded_value(key: nat, sig: nat) -> nat {
    mul_mod(sig, inverse(key))
}

/// The signer indices of a list of shares are pairwise distinct.
pub open spec fn distinct_signers(s: Seq<(usize, BlindedSignatureShare)>) -> bool {
    forall|i: int, j: int| 0 <= i < j < s.len() ==> (#[trigger] s[i].0) != (#[trigger] s[j].0)
}

/// Every signer index of a list of shares has a successor that fits in 32 bits.
pub open spec fn indices_in_range(s: Seq<(usize, BlindedSignatureShare)>) -> bool {
    forall|i: int| 0 <= i < s.len() ==> (#[trigger] s[i].0) < 0xFFFF_FFFF
}

/// Every share of a list is a canonical non-zero scalar.
pub open spec fn shares_wf(s: Seq<(usize, BlindedSignatureShare)>) -> bool {
    forall|i: int| 0 <= i < s.len() ==> (#[trigger] s[i].1).0.is_nonzero()
}

/// The interpolation of the first `t` shares: signer `i` stands at abscissa `i + 1`.
pub open spec fn combined_value(s: Seq<(usize, BlindedSignatureShare)>, t: nat) -> nat {
    interpolate_at_zero_of(
        s.take(t as int).map_values(|p: (usize, BlindedSignatureShare)| (p.0 + 1) as nat),
        s.take(t as int).map_values(|p: (usize, BlindedSignatureShare)| p.1.0.value()),
    )
}

/// What combining `s` with threshold `t` gives.
pub open spec fn combination(
    s: Seq<(usize, BlindedSignatureShare)>,
    t: nat,
    r: Result<BlindedSignature, CombineError>,
) -> bool {
    if s.len() < t {
        r == Err::<BlindedSignature, CombineError>(CombineError::InsufficientShares)
    } else if !indices_in_range(s) {
        r == Err::<BlindedSignature, CombineError>(CombineError::IndexOutOfRange)
    } else if !distinct_signers(s) {
        r == Err::<BlindedSignature, CombineError>(CombineError::DuplicateShare)
    } else if combined_value(s, t) == 0 {
        r == Err::<BlindedSignature, CombineError>(CombineError::ZeroSignature)
    } else {
        r is Ok && r->Ok_0.0.wf() && r->Ok_0.0.value() == combined_value(s, t)
    }
}

impl BlindingKey {
    /// The canonical 32-byte encoding of the blinding key.
    pub fn consensus_encode(&self) -> (r: Vec<u8>)
        ensures
            r@ == self.0.bytes@,
    {
        encode_scalar(&self.0)
    }

    /// Decodes a blinding key: 32 bytes of a non-zero scalar below the group order.
    pub fn consensus_decode(b: &[u8]) -> (r: Result<BlindingKey, DecodeError>)
        ensures
            r is Ok ==> scalar_decoding(b@, true, Ok(r->Ok_0.0)),
            r is Err ==> scalar_decoding(b@, true, Err(r->Err_0)),
            r is Ok ==> r->Ok_0.0.is_nonzero(),
    {
        match decode_scalar(b, true) {
            Ok(s) => Ok(BlindingKey(s)),
            Err(e) => Err(e),
        }
    }
}

impl BlindedMessage {
    /// The canonical 32-byte encoding of the blinded message.
    pub fn consensus_encode(&self) -> (r: Vec<u8>)
        ensures
            r@ == self.0.bytes@,
    {
        encode_scalar(&self.0)
    }

    /// Decodes a blinded message: 32 bytes of a non-zero scalar below the group order.
    pub fn consensus_decode(b: &[u8]) -> (r: Result<BlindedMessage, DecodeError>)
        ensures
            r is Ok ==> scalar_decoding(b@, true, Ok(r->Ok_0.0)),
            r is Err ==> scalar_decoding(b@, true, Err(r->Err_0)),
            r is Ok ==> r->Ok_0.0.is_nonzero(),
    {
        match decode_scalar(b, true) {
            Ok(s) => Ok(BlindedMessage(s)),
            Err(e) => Err(e),
        }
    }
}

impl BlindedSignature {
    /// The canonical 32-byte encoding of the blinded signature.
    pub fn consensus_encode(&self) -> (r: Vec<u8>)
        ensures
            r@ == self.0.bytes@,
    {
        encode_scalar(&self.0)
    }

    /// Decodes a blinded signature: 32 bytes of a non-zero scalar below the group order.
    pub fn consensus_decode(b: &[u8]) -> (r: Result<BlindedSignature, DecodeError>)
        ensures
            r is Ok ==> scalar_decoding(b@, true, Ok(r->Ok_0.0)),
            r is Err ==> scalar_decoding(b@, true, Err(r->Err_0)),
            r is Ok ==> r->Ok_0.0.is_nonzero(),
    {
        match decode_scalar(b, true) {
            Ok(s) => Ok(BlindedSignature(s)),
            Err(e) => Err(e),
        }
    }
}

impl BlindedSignatureShare {
    /// The canonical 32-byte encoding of the signature share.
    pub fn consensus_encode(&self) -> (r: Vec<u8>)
        ensures
            r@ == self.0.bytes@,
    {
        encode_scalar(&self.0)
    }

    /// Decodes a signature share: 32 bytes of a non-zero scalar below the group order.
    pub fn consensus_decode(b: &[u8]) -> (r: Result<BlindedSignatureShare, DecodeError>)
        ensures
            r is Ok ==> scalar_decoding(b@, true, Ok(r->Ok_0.0)),
            r is Err ==> scalar_decoding(b@, true, Err(r->Err_0)),
            r is Ok ==> r->Ok_0.0.is_nonzero(),
    {
        match decode_scalar(b, true) {
            Ok(s) => Ok(BlindedSignatureShare(s)),
            Err(e) => Err(e),
        }
    }
}

impl Signature {
    /// The canonical 32-byte encoding of the signature.
    pub fn consensus_encode(&self) -> (r: Vec<u8>)
        ensures
            r@ == self.0.bytes@,
    {
        encode_scalar(&self.0)
    }

    /// Decodes a signature: 32 bytes of a non-zero scalar below the group order.
    pub fn consensus_decode(b: &[u8]) -> (r: Result<Signature, DecodeError>)
        ensures
            r is Ok ==> scalar_decoding(b@, true, Ok(r->Ok_0.0)),
            r is Err ==> scalar_decoding(b@, true, Err(r->Err_0)),
            r is Ok ==> r->Ok_0.0.is_nonzero(),
    {
        match decode_scalar(b, true) {
            Ok(s) => Ok(Signature(s)),
            Err(e) => Err(e),
        }
    }
}

impl BlindingKey {
    /// A fresh random blinding key.
    pub fn random() -> (r: BlindingKey)
        ensures
            r.0.is_nonzero(),
    {
        BlindingKey(random_nonzero_scalar())
    }
}

/// Blinds a message with a given key: the blinded message is `key · msg`.
pub fn blind_message_with_key(msg: &MessageScalar, key: &BlindingKey) -> (r: BlindedMessage)
    requires
        msg.0.is_nonzero(),
        key.0.is_nonzero(),
    ensures
        r.0.is_nonzero(),
        r.0.value() == blinded_value(key.0.value(), msg.0.value()),
{
    BlindedMessage(scalar_mul(&key.0, &msg.0))
}

/// Blinds a message with a fresh random key, returned beside the blinded message.
pub fn blind_message(msg: MessageScalar) -> (r: (BlindingKey, BlindedMessage))
    requires
        msg.0.is_nonzero(),
    ensures
        r.0.0.is_nonzero(),
        r.1.0.is_nonzero(),
        r.1.0.value() == blinded_value(r.0.0.value(), msg.0.value()),
{
    let key = BlindingKey::random();
    let blinded = blind_message_with_key(&msg, &key);
    (key, blinded)
}

/// A signer's share over a blinded message: its secret share times the message.
pub fn sign_blinded_msg(msg: BlindedMessage, secret_share: Scalar) -> (r: BlindedSignatureShare)
    requires
        msg.0.is_nonzero(),
        secret_share.is_nonzero(),
    ensures
        r.0.is_nonzero(),
        r.0.value() == share_value(secret_share.value(), msg.0.value()),
{
    BlindedSignatureShare(scalar_mul(&secret_share, &msg.0))
}

/// Removes the blinding from a blinded signature: multiplies it by the
/// inverse of the blinding key.
pub fn unblind_signature(blinding_key: BlindingKey, blinded_sig: BlindedSignature) -> (r: Signature)
    requires
        blinding_key.0.is_nonzero(),
        blinded_sig.0.is_nonzero(),
    ensures
        r.0.is_nonzero(),
        r.0.value() == unblinded_value(blinding_key.0.value(), blinded_sig.0.value()),
{
    let inv = scalar_invert(&blinding_key.0);
    assert(inv.value() != 0) by (nonlinear_arith)
        requires
            (blinding_key.0.value() * inv.value()) % order() == 1,
    {
    }
    Signature(scalar_mul(&blinded_sig.0, &inv))
}

/// Whether a signature share is the one the signer with that verification
/// share owes for the blinded message: `share · G == msg · V`.
pub fn verify_signature_share(
    share: &BlindedSignatureShare,
    msg: &BlindedMessage,
    verification_share: &Point,
) -> (r: bool)
    requires
        share.0.is_nonzero(),
        msg.0.wf(),
        verification_share.wf(),
    ensures
        r == (base_mul_of(share.0.value()) == point_mul_of(
            verification_share.bytes@,
            msg.0.value(),
        )),
{
    let lhs = base_mul(&share.0);
    let rhs = point_mul(verification_share, &msg.0);
    same_point(&lhs, &rhs)
}

/// Whether a signature is valid for a message under a public key:
/// `sig · G == msg · P`.
pub fn verify_signature(sig: &Signature, msg: &MessageScalar, public_key: &Point) -> (r: bool)
    requires
        sig.0.is_nonzero(),
        msg.0.wf(),
        public_key.wf(),
    ensures
        r == (base_mul_of(sig.0.value()) == point_mul_of(public_key.bytes@, msg.0.value())),
{
    let lhs = base_mul(&sig.0);
    let rhs = point_mul(public_key, &msg.0);
    same_point(&lhs, &rhs)
}

/// The share `p` from signer `p.0` verifies against that signer's
/// verification share among `vs`, for the blinded message of value `msg`.
pub open spec fn share_verifies(p: (usize, BlindedSignatureShare), msg: nat, vs: Seq<Seq<u8>>) -> bool {
    p.0 < vs.len() && base_mul_of(p.1.0.value()) == point_mul_of(vs[p.0 as int], msg)
}

/// The shares of `s` that verify, in their order.
pub open spec fn accepted_shares(
    s: Seq<(usize, BlindedSignatureShare)>,
    msg: nat,
    vs: Seq<Seq<u8>>,
) -> Seq<(usize, BlindedSignatureShare)>
    decreases s.len(),
{
    if s.len() == 0 {
        Seq::empty()
    } else {
        let sub = accepted_shares(s.drop_last(), msg, vs);
        if share_verifies(s.last(), msg, vs) {
            sub.push(s.last())
        } else {
            sub
        }
    }
}

/// The signers whose shares in `s` do not verify, in their order.
pub open spec fn rejected_signers(s: Seq<(usize, BlindedSignatureShare)>, msg: nat, vs: Seq<Seq<u8>>) -> Seq<usize>
    decreases s.len(),
{
    if s.len() == 0 {
        Seq::empty()
    } else {
        let sub = rejected_signers(s.drop_last(), msg, vs);
        if share_verifies(s.last(), msg, vs) {
            sub
        } else {
            sub.push(s.last().0)
        }
    }
}

/// Checks every signature share against its signer's verification share.
/// Returns the shares that verify, ready to be combined, and the signers
/// whose shares were invalid and are dropped.
pub fn verify_signature_shares(
    sig_shares: &Vec<(usize, BlindedSignatureShare)>,
    msg: &BlindedMessage,
    verification_shares: &Vec<Point>,
) -> (r: (Vec<(usize, BlindedSignatureShare)>, Vec<usize>))
    requires
        shares_wf(sig_shares@),
        msg.0.wf(),
        all_valid(verification_shares@),
    ensures
        r.0@ == accepted_shares(sig_shares@, msg.0.value(), encodings(verification_shares@)),
        r.1@ == rejected_signers(sig_shares@, msg.0.value(), encodings(verification_shares@)),
        shares_wf(r.0@),
{
    let ghost vs = encodings(verification_shares@);
    let ghost m = msg.0.value();
    let mut good: Vec<(usize, BlindedSignatureShare)> = Vec::new();
    let mut bad: Vec<usize> = Vec::new();
    let mut i: usize = 0;
    while i < sig_shares.len()
        invariant
            0 <= i <= sig_shares@.len(),
            shares_wf(sig_shares@),
            msg.0.wf(),
            all_valid(verification_shares@),
            vs == encodings(verification_shares@),
            m == msg.0.value(),
            good@ == accepted_shares(sig_shares@.take(i as int), m, vs),
            bad@ == rejected_signers(sig_shares@.take(i as int), m, vs),
            shares_wf(good@),
        decreases sig_shares@.len() - i,
    {
        let (idx, share) = sig_shares[i];
        let ghost t = sig_shares@.take(i as int + 1);
        assert(t.drop_last() =~= sig_shares@.take(i as int));
        assert(t.last() == sig_shares@[i as int]);
        assert(share.0.is_nonzero());
        let ok = if idx < verification_shares.len() {
            assert(verification_shares@[idx as int].wf());
            verify_signature_share(&share, msg, &verification_shares[idx])
        } else {
            false
        };
        if ok {
            good.push((idx, share));
        } else {
            bad.push(idx);
        }
        i = i + 1;
    }
    assert(sig_shares@.take(sig_shares@.len() as int) =~= sig_shares@);
    (good, bad)
}

/// Combines already verified signature shares into a blinded signature by
/// interpolating the first `threshold` of them at zero. Checking the shares
/// is the caller's duty; the combination refuses too few shares, indices out
/// of range, two shares of one signer, and a zero result.
pub fn combine_valid_shares(
    sig_shares: &Vec<(usize, BlindedSignatureShare)>,
    threshold: usize,
) -> (r: Result<BlindedSignature, CombineError>)
    requires
        threshold >= 1,
        shares_wf(sig_shares@),
    ensures
        combination(sig_shares@, threshold as nat, r),
{
    let n = sig_shares.len();
    if n < threshold {
        return Err(CombineError::InsufficientShares);
    }
    let mut i: usize = 0;
    while i < n
        invariant
            0 <= i <= n,
            threshold <= n,
            n == sig_shares@.len(),
            forall|k: int| 0 <= k < i ==> (#[trigger] sig_shares@[k].0) < 0xFFFF_FFFF,
        decreases n - i,
    {
        if sig_shares[i].0 >= 0xFFFF_FFFF {
            assert(!indices_in_range(sig_shares@)) by {
                assert(sig_shares@[i as int].0 >= 0xFFFF_FFFF);
            }
            return Err(CombineError::IndexOutOfRange);
        }
        i = i + 1;
    }
    let mut i: usize = 0;
    while i < n
        invariant
            0 <= i <= n,
            threshold <= n,
            n == sig_shares@.len(),
            indices_in_range(sig_shares@),
            forall|a: int, b: int|
                0 <= a < b < n && a < i ==> (#[trigger] sig_shares@[a].0) != (#[trigger] sig_shares@[b].0),
        decreases n - i,
    {
        let mut j: usize = i + 1;
        while j < n
            invariant
                0 <= i < n,
                i + 1 <= j <= n,
                threshold <= n,
                n == sig_shares@.len(),
                indices_in_range(sig_shares@),
                forall|a: int, b: int|
                    0 <= a < b < n && a < i ==> (#[trigger] sig_shares@[a].0) != (#[trigger] sig_shares@[b].0),
                forall|b: int| i < b < j ==> sig_shares@[i as int].0 != (#[trigger] sig_shares@[b].0),
            decreases n - j,
        {
            if sig_shares[i].0 == sig_shares[j].0 {
                assert(!distinct_signers(sig_shares@)) by {
                    assert(sig_shares@[i as int].0 == sig_shares@[j as int].0);
                }
                return Err(CombineError::DuplicateShare);
            }
            j = j + 1;
        }
        i = i + 1;
    }
    let mut xs: Vec<u32> = Vec::new();
    let mut ys: Vec<Scalar> = Vec::new();
    let mut k: usize = 0;
    while k < threshold
        invariant
            0 <= k <= threshold <= n,
            n == sig_shares@.len(),
            indices_in_range(sig_shares@),
            shares_wf(sig_shares@),
            xs@.len() == k,
            ys@.len() == k,
            forall|m: int| 0 <= m < k ==> xs@[m] as nat == (sig_shares@[m].0 + 1) as nat,
            forall|m: int| 0 <= m < k ==> ys@[m] == sig_shares@[m].1.0,
        decreases threshold - k,
    {
        let (idx, share) = sig_shares[k];
        assert(sig_shares@[k as int].0 < 0xFFFF_FFFF);
        xs.push((idx + 1) as u32);
        ys.push(share.0);
        k = k + 1;
    }
    let ghost s = sig_shares@.take(threshold as int);
    assert(xs@.map_values(|x: u32| x as nat) =~= s.map_values(
        |p: (usize, BlindedSignatureShare)| (p.0 + 1) as nat,
    ));
    assert(values(ys@) =~= s.map_values(|p: (usize, BlindedSignatureShare)| p.1.0.value()));
    assert(all_wf(ys@)) by {
        assert forall|m: int| 0 <= m < ys@.len() implies (#[trigger] ys@[m]).wf() by {
            assert(sig_shares@[m].1.0.is_nonzero());
        }
    }
    let combined = interpolate_at_zero(&xs, &ys);
    if combined.is_zero() {
        return Err(CombineError::ZeroSignature);
    }
    Ok(BlindedSignature(combined))
}

/// Fewer shares than the threshold never combine into a signature.
pub proof fn lemma_below_threshold_fails(
    s: Seq<(usize, BlindedSignatureShare)>,
    t: nat,
    r: Result<BlindedSignature, CombineError>,
)
    requires
        s.len() < t,
        combination(s, t, r),
    ensures
        r == Err::<BlindedSignature, CombineError>(CombineError::InsufficientShares),
{
}

/// Exactly `t` shares from distinct signers combine into a signature whose
/// value is their interpolation at zero, unless that interpolation is zero.
pub proof fn lemma_threshold_succeeds(
    s: Seq<(usize, BlindedSignatureShare)>,
    t: nat,
    r: Result<BlindedSignature, CombineError>,
)
    requires
        s.len() == t,
        distinct_signers(s),
        indices_in_range(s),
        combined_value(s, t) != 0,
        combination(s, t, r),
    ensures
        r is Ok,
        r->Ok_0.0.value() == combined_value(s, t),
{
}

/// Shares beyond the threshold do not change the signature: combining `t`
/// distinct shares, and the same shares followed by more from other signers,
/// both succeed or fail alike, and give signatures of the same value.
pub proof fn lemma_extra_shares_agree(
    s: Seq<(usize, BlindedSignatureShare)>,
    extra: Seq<(usize, BlindedSignatureShare)>,
    t: nat,
    r1: Result<BlindedSignature, CombineError>,
    r2: Result<BlindedSignature, CombineError>,
)
    requires
        s.len() == t,
        distinct_signers(s + extra),
        indices_in_range(s + extra),
        combination(s, t, r1),
        combination(s + extra, t, r2),
    ensures
        r1 is Ok <==> r2 is Ok,
        r1 is Err ==> r1 == r2,
        r1 is Ok ==> r1->Ok_0.0.value() == r2->Ok_0.0.value(),
{
    let all = s + extra;
    assert(all.take(t as int) =~= s.take(t as int));
    assert(indices_in_range(s)) by {
        assert forall|i: int| 0 <= i < s.len() implies (#[trigger] s[i].0) < 0xFFFF_FFFF by {
            assert(all[i] == s[i]);
        }
    }
    assert(distinct_signers(s)) by {
        assert forall|i: int, j: int| 0 <= i < j < s.len() implies (#[trigger] s[i].0) != (
        #[trigger] s[j].0) by {
            assert(all[i] == s[i] && all[j] == s[j]);
        }
    }
    assert(combined_value(s, t) == combined_value(all, t));
}

/// Unblinding the signature share of a blinded message with the blinding key
/// gives the share of the plain message: `((x·(b·m))·b⁻¹) = x·m`. It holds
/// of every invertible key, that is, every non-zero one.
pub proof fn lemma_unblind_recovers_signature(key: nat, msg: nat, secret: nat)
    requires
        exists|w: nat| is_inverse(key, w),
    ensures
        unblinded_value(key, share_value(secret, blinded_value(key, msg))) == share_value(
            secret,
            msg,
        ),
{
    let n = order();
    let w = inverse(key);
    assert(is_inverse(key, w));
    let bm = key * msg;
    vstd::arithmetic::div_mod::lemma_mul_mod_noop_right(secret as int, bm as int, n as int);
    vstd::arithmetic::div_mod::lemma_mul_mod_noop_left((secret * bm) as int, w as int, n as int);
    assert((secret * (key * msg)) * w == (secret * msg) * (key * w)) by (nonlinear_arith);
    vstd::arithmetic::div_mod::lemma_mul_mod_noop_right((secret * msg) as int, (key * w) as int, n as int);
}

/// Two distinct blinding keys blind the same message to distinct values.
/// It holds of every invertible message, that is, every non-zero one.
pub proof fn lemma_distinct_keys_distinct_blinded(k1: nat, k2: nat, msg: nat)
    requires
        k1 < order(),
        k2 < order(),
        k1 != k2,
        exists|w: nat| is_inverse(msg, w),
    ensures
        blinded_value(k1, msg) != blinded_value(k2, msg),
{
    let n = order();
    let w = inverse(msg);
    assert(is_inverse(msg, w));
    if blinded_value(k1, msg) == blinded_value(k2, msg) {
        assert forall|k: nat| k < n implies #[trigger] (((k * msg) % n) * w) % n == k by {
            vstd::arithmetic::div_mod::lemma_mul_mod_noop_left((k * msg) as int, w as int, n as int);
            assert((k * msg) * w == k * (msg * w)) by (nonlinear_arith);
            vstd::arithmetic::div_mod::lemma_mul_mod_noop_right(k as int, (msg * w) as int, n as int);
            vstd::arithmetic::div_mod::lemma_small_mod(k, n);
        }
        assert((((k1 * msg) % n) * w) % n == k1);
        assert((((k2 * msg) % n) * w) % n == k2);
    }
}

} // verus!
