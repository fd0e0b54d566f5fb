//! Distributed key generation: every party commits to a secret polynomial,
//! sends each other party the polynomial's value at that party's index, and
//! sums what it received into its secret share of the joint key.

use crate::field::{
    all_wf, poly_eval, random_nonzero_scalar, scalar_add, scalar_poly_eval, sum_mod,
    values, Scalar,
};
use crate::group::{
    all_valid, base_mul, base_mul_of, decodes, encodings, point_add, point_is_valid,
    point_poly_eval, point_poly_eval_of, point_sum_of, point_valid, same_point,
    zero_point_bytes, Point,
};
use schnorr_fun::fun::marker::{NonZero, Normal, Public, Secret, Zero};
use schnorr_fun::fun::{Point as CurvePoint, Scalar as CurveScalar};
use vstd::prelude::*;

verus! {

/// The federation's joint key.
#[derive(Clone, Debug, PartialEq, Eq)]
pub struct JointKey {
    /// The joint public key: the sum of every party's constant-term commitment.
    pub public_key: Point,
    /// The image of each party's secret share, by party index.
    pub verification_shares: Vec<Point>,
    /// How many signature shares make a signature.
    pub threshold: usize,
}

impl JointKey {
    pub open spec fn wf(&self) -> bool {
        &&& self.public_key.wf()
        &&& all_valid(self.verification_shares@)
        &&& 1 <= self.threshold <= self.verification_shares@.len()
    }

    /// The key as plain values.
    pub open spec fn view(&self) -> (Seq<u8>, Seq<Seq<u8>>, nat) {
        (self.public_key.bytes@, encodings(self.verification_shares@), self.threshold as nat)
    }
}

/// Why key generation failed.
#[derive(Clone, Copy, Debug, PartialEq, Eq, Structural)]
pub enum KeyGenError {
    /// No party, or fewer parties than the threshold.
    NotEnoughParties,
    /// More parties than indices can number.
    TooManyParties,
    /// An empty commitment, or commitments of different lengths.
    InvalidCommitment,
    /// The joint public key or a verification share came out as the identity.
    DegenerateKey,
    /// A party did not receive exactly one share and one proof from each party.
    WrongShareCount,
    /// The proof of possession of the party at this index does not verify.
    InvalidProofOfPossession(usize),
    /// The share from the party at this index does not match its commitment.
    InvalidShare(usize),
    /// The sum of the received shares is zero.
    ZeroSecretShare,
}

/// The commitments as plain values.
pub open spec fn commitment_views(c: Seq<Vec<Point>>) -> Seq<Seq<Seq<u8>>> {
    c.map_values(|v: Vec<Point>| encodings(v@))
}

/// Every point of every commitment is a valid non-zero point.
pub open spec fn commitments_valid(c: Seq<Vec<Point>>) -> bool {
    forall|i: int| 0 <= i < c.len() ==> all_valid(#[trigger] c[i]@)
}

/// There is at least one commitment, none is empty, and all have one length.
pub open spec fn uniform(cs: Seq<Seq<Seq<u8>>>) -> bool {
    &&& cs.len() >= 1
    &&& cs[0].len() >= 1
    &&& forall|i: int| 0 <= i < cs.len() ==> (#[trigger] cs[i]).len() == cs[0].len()
}

/// The sum of the `k`-th coefficients of the first `m` commitments.
pub open spec fn column_sum(cs: Seq<Seq<Seq<u8>>>, k: int, m: nat) -> Seq<u8>
    decreases m,
{
    if m == 0 {
        zero_point_bytes()
    } else {
        point_sum_of(column_sum(cs, k, (m - 1) as nat), cs[m - 1][k])
    }
}

/// The joint point polynomial: the coefficient-wise sum of all commitments.
pub open spec fn joint_poly(cs: Seq<Seq<Seq<u8>>>) -> Seq<Seq<u8>> {
    Seq::new(cs[0].len(), |k: int| column_sum(cs, k, cs.len()))
}

/// The verification share of party `j`: the joint polynomial at `j + 1`.
pub open spec fn verification_point(cs: Seq<Seq<Seq<u8>>>, j: int) -> Seq<u8> {
    point_poly_eval_of(joint_poly(cs), (j + 1) as nat)
}

/// The joint key or a verification share is not a valid non-zero point.
pub open spec fn degenerate(cs: Seq<Seq<Seq<u8>>>) -> bool {
    ||| !point_valid(joint_poly(cs)[0])
    ||| exists|j: int| 0 <= j < cs.len() && !point_valid(#[trigger] verification_point(cs, j))
}

/// What aggregating the commitments `cs` into a joint key gives.
pub open spec fn keygen_outcome(cs: Seq<Seq<Seq<u8>>>, r: Result<JointKey, KeyGenError>) -> bool {
    if cs.len() == 0 {
        r == Err::<JointKey, KeyGenError>(KeyGenError::NotEnoughParties)
    } else if cs.len() >= 0xFFFF_FFFF {
        r == Err::<JointKey, KeyGenError>(KeyGenError::TooManyParties)
    } else if !uniform(cs) {
        r == Err::<JointKey, KeyGenError>(KeyGenError::InvalidCommitment)
    } else if cs.len() < cs[0].len() {
        r == Err::<JointKey, KeyGenError>(KeyGenError::NotEnoughParties)
    } else if degenerate(cs) {
        r == Err::<JointKey, KeyGenError>(KeyGenError::DegenerateKey)
    } else {
        &&& r is Ok
        &&& r->Ok_0.wf()
        &&& r->Ok_0.public_key.bytes@ == joint_poly(cs)[0]
        &&& r->Ok_0.threshold == cs[0].len()
        &&& r->Ok_0.verification_shares@.len() == cs.len()
        &&& forall|j: int|
            0 <= j < cs.len() ==> (#[trigger] r->Ok_0.verification_shares@[j]).bytes@
                == verification_point(cs, j)
    }
}

/// Sums the `k`-th coefficients of all commitments.
fn sum_column(commitments: &Vec<Vec<Point>>, k: usize) -> (r: Point)
    requires
        commitments_valid(commitments@),
        forall|i: int| 0 <= i < commitments@.len() ==> k < (#[trigger] commitments@[i])@.len(),
    ensures
        r.bytes@ == column_sum(commitment_views(commitments@), k as int, commitments@.len()),
        decodes(r.bytes@),
{
    let ghost cs = commitment_views(commitments@);
    let zero = [0u8; 33];
    assert(zero@ =~= zero_point_bytes());
    let mut acc = Point { bytes: zero };
    let mut i: usize = 0;
    while i < commitments.len()
        invariant
            0 <= i <= commitments@.len(),
            cs == commitment_views(commitments@),
            commitments_valid(commitments@),
            forall|m: int| 0 <= m < commitments@.len() ==> k < (#[trigger] commitments@[m])@.len(),
            acc.bytes@ == column_sum(cs, k as int, i as nat),
            decodes(acc.bytes@),
        decreases commitments@.len() - i,
    {
        let c = &commitments[i];
        assert(all_valid(commitments@[i as int]@));
        assert(c@[k as int].wf());
        assert(cs[i as int][k as int] == c@[k as int].bytes@);
        acc = point_add(&acc, &c[k]);
        i = i + 1;
    }
    acc
}

/// Whether the commitments are uniform: none empty, all of one length.
fn is_uniform(commitments: &Vec<Vec<Point>>) -> (r: bool)
    requires
        commitments@.len() >= 1,
    ensures
        r == uniform(commitment_views(commitments@)),
{
    let ghost cs = commitment_views(commitments@);
    let n = commitments.len();
    let t = commitments[0].len();
    if t == 0 {
        return false;
    }
    let mut i: usize = 0;
    while i < n
        invariant
            0 <= i <= n,
            1 <= n,
            n == commitments@.len(),
            cs == commitment_views(commitments@),
            t == cs[0].len(),
            t >= 1,
            forall|m: int| 0 <= m < i ==> (#[trigger] cs[m]).len() == t,
        decreases n - i,
    {
        if commitments[i].len() != t {
            assert(cs[i as int].len() != t);
            return false;
        }
        i = i + 1;
    }
    true
}

/// Aggregates every party's commitment into the joint key: the joint public
/// key is the sum of the constant terms, and the verification share of party
/// `j` is the summed polynomial evaluated at `j + 1`.
pub fn new_keygen(commitments: &Vec<Vec<Point>>) -> (r: Result<JointKey, KeyGenError>)
    requires
        commitments_valid(commitments@),
    ensures
        keygen_outcome(commitment_views(commitments@), r),
{
    let ghost cs = commitment_views(commitments@);
    let n = commitments.len();
    if n == 0 {
        return Err(KeyGenError::NotEnoughParties);
    }
    if n >= 0xFFFF_FFFF {
        return Err(KeyGenError::TooManyParties);
    }
    if !is_uniform(commitments) {
        return Err(KeyGenError::InvalidCommitment);
    }
    let t = commitments[0].len();
    assert(uniform(cs));
    if n < t {
        return Err(KeyGenError::NotEnoughParties);
    }
    let mut joint: Vec<Point> = Vec::new();
    let mut k: usize = 0;
    while k < t
        invariant
            0 <= k <= t,
            n == commitments@.len(),
            cs == commitment_views(commitments@),
            uniform(cs),
            t == cs[0].len(),
            commitments_valid(commitments@),
            joint@.len() == k,
            forall|m: int| 0 <= m < k ==> (#[trigger] joint@[m]).bytes@ == joint_poly(cs)[m],
            forall|m: int| 0 <= m < k ==> decodes((#[trigger] joint@[m]).bytes@),
        decreases t - k,
    {
        assert forall|i: int| 0 <= i < commitments@.len() implies k < (
        #[trigger] commitments@[i])@.len() by {
            assert(cs[i].len() == t);
        }
        let c = sum_column(commitments, k);
        joint.push(c);
        k = k + 1;
    }
    assert(encodings(joint@) =~= joint_poly(cs));
    if !point_is_valid(&joint[0].bytes) {
        return Err(KeyGenError::DegenerateKey);
    }
    let public_key = joint[0];
    assert(public_key.bytes@ == joint_poly(cs)[0]);
    let mut shares: Vec<Point> = Vec::new();
    let mut j: usize = 0;
    while j < n
        invariant
            0 <= j <= n,
            n == cs.len(),
            n < 0xFFFF_FFFF,
            cs == commitment_views(commitments@),
            uniform(cs),
            cs[0].len() <= n,
            point_valid(joint_poly(cs)[0]),
            encodings(joint@) == joint_poly(cs),
            forall|m: int| 0 <= m < joint@.len() ==> decodes((#[trigger] joint@[m]).bytes@),
            shares@.len() == j,
            forall|m: int| 0 <= m < j ==> (#[trigger] shares@[m]).bytes@ == verification_point(cs, m),
            all_valid(shares@),
        decreases n - j,
    {
        let v = point_poly_eval(&joint, (j + 1) as u32);
        if !point_is_valid(&v.bytes) {
            assert(!point_valid(verification_point(cs, j as int)));
            return Err(KeyGenError::DegenerateKey);
        }
        shares.push(v);
        j = j + 1;
    }
    assert forall|m: int| 0 <= m < cs.len() implies point_valid(
        #[trigger] verification_point(cs, m),
    ) by {
        assert(shares@[m].wf());
    }
    assert(!degenerate(cs));
    Ok(JointKey { public_key, verification_shares: shares, threshold: t })
}

/// The encodings of the images `a·G` of a polynomial's coefficients.
pub open spec fn commitment_of(poly: Seq<Scalar>) -> Seq<Seq<u8>> {
    poly.map_values(|a: Scalar| base_mul_of(a.value()))
}

/// The commitments of every party's polynomial.
pub open spec fn commitments_of(polys: Seq<Vec<Scalar>>) -> Seq<Seq<Seq<u8>>> {
    polys.map_values(|p: Vec<Scalar>| commitment_of(p@))
}

/// Every coefficient of a polynomial is a non-zero scalar.
pub open spec fn coeffs_nonzero(poly: Seq<Scalar>) -> bool {
    forall|k: int| 0 <= k < poly.len() ==> (#[trigger] poly[k]).is_nonzero()
}

/// Commits to a secret polynomial: the image `a·G` of each coefficient.
pub fn commit(poly: &Vec<Scalar>) -> (r: Vec<Point>)
    requires
        coeffs_nonzero(poly@),
    ensures
        encodings(r@) == commitment_of(poly@),
        all_valid(r@),
{
    let mut r: Vec<Point> = Vec::new();
    let mut k: usize = 0;
    while k < poly.len()
        invariant
            0 <= k <= poly@.len(),
            coeffs_nonzero(poly@),
            r@.len() == k,
            forall|m: int| 0 <= m < k ==> (#[trigger] r@[m]).bytes@ == base_mul_of(poly@[m].value()),
            all_valid(r@),
        decreases poly@.len() - k,
    {
        assert(poly@[k as int].is_nonzero());
        let p = base_mul(&poly[k]);
        r.push(p);
        k = k + 1;
    }
    assert(encodings(r@) =~= commitment_of(poly@));
    r
}

/// The shares a party hands out: its polynomial at `1, ..., n_parties`;
/// the share for party `j` is the value at `j + 1`.
pub fn create_shares(poly: &Vec<Scalar>, n_parties: usize) -> (r: Vec<Scalar>)
    requires
        all_wf(poly@),
        n_parties < 0xFFFF_FFFF,
    ensures
        r@.len() == n_parties,
        all_wf(r@),
        forall|j: int|
            0 <= j < n_parties ==> (#[trigger] r@[j]).value() == poly_eval(
                values(poly@),
                (j + 1) as nat,
            ),
{
    let mut r: Vec<Scalar> = Vec::new();
    let mut j: usize = 0;
    while j < n_parties
        invariant
            0 <= j <= n_parties < 0xFFFF_FFFF,
            all_wf(poly@),
            r@.len() == j,
            all_wf(r@),
            forall|m: int|
                0 <= m < j ==> (#[trigger] r@[m]).value() == poly_eval(values(poly@), (m + 1) as nat),
        decreases n_parties - j,
    {
        let s = scalar_poly_eval(poly, (j + 1) as u32);
        r.push(s);
        j = j + 1;
    }
    r
}

/// The 64-byte Schnorr signature with `secret` over `msg`.
pub uninterp spec fn pop_of(secret: nat, msg: Seq<u8>) -> Seq<u8>;

/// `sig` is a valid Schnorr signature over `msg` for the x-only form of `key`.
pub uninterp spec fn pop_valid(key: Seq<u8>, msg: Seq<u8>, sig: Seq<u8>) -> bool;

/// Relies on `Schnorr::sign` of schnorr_fun with SHA-256 and deterministic
/// nonces: a signature that depends on the secret and the message alone.
#[verifier::external_body]
fn pop_sign(secret: &Scalar, msg: &[u8; 33]) -> (r: [u8; 64])
    requires
        secret.is_nonzero(),
    ensures
        r@ == pop_of(secret.value(), msg@),
{
    let schnorr = schnorr_fun::Schnorr::<sha2::Sha256, schnorr_fun::nonce::Deterministic<sha2::Sha256>>::default();
    let sk = CurveScalar::<Secret, Zero>::from_bytes_mod_order(secret.bytes).non_zero().unwrap();
    schnorr.sign(&schnorr.new_keypair(sk), schnorr_fun::Message::raw(msg)).to_bytes()
}

/// Relies on `Schnorr::verify` of schnorr_fun with SHA-256 (bytes that are no
/// signature do not verify).
#[verifier::external_body]
fn pop_verify(key: &Point, msg: &[u8; 33], sig: &[u8; 64]) -> (r: bool)
    requires
        key.wf(),
    ensures
        r == pop_valid(key.bytes@, msg@, sig@),
{
    let schnorr = schnorr_fun::Schnorr::<sha2::Sha256, schnorr_fun::nonce::Deterministic<sha2::Sha256>>::default();
    let pk = CurvePoint::<Normal, Public, NonZero>::from_bytes(key.bytes).unwrap().into_point_with_even_y().0;
    match schnorr_fun::Signature::from_bytes(*sig) {
        Some(s) => schnorr.verify(&pk, schnorr_fun::Message::raw(msg), &s),
        None => false,
    }
}

/// A party's proof that it knows the constant term of its polynomial: a
/// signature with it over the encoding of its image.
pub fn prove_possession(poly: &Vec<Scalar>, commitment: &Vec<Point>) -> (r: [u8; 64])
    requires
        poly@.len() >= 1,
        commitment@.len() >= 1,
        poly@[0].is_nonzero(),
    ensures
        r@ == pop_of(poly@[0].value(), commitment@[0].bytes@),
{
    pop_sign(&poly[0], &commitment[0].bytes)
}

/// The proof of possession `pop` is valid for the commitment `c`.
pub open spec fn pop_ok(c: Seq<Seq<u8>>, pop: Seq<u8>) -> bool {
    pop_valid(c[0], c[0], pop)
}

/// The share `share` matches commitment `c` at party `my_index`:
/// `share·G == C(my_index + 1)`.
pub open spec fn share_ok(c: Seq<Seq<u8>>, my_index: int, share: nat) -> bool {
    base_mul_of(share) == point_poly_eval_of(c, (my_index + 1) as nat)
}

/// What finishing key generation at party `my_index` gives.
pub open spec fn finish_outcome(
    cs: Seq<Seq<Seq<u8>>>,
    my_index: int,
    shares: Seq<nat>,
    pops: Seq<Seq<u8>>,
    r: Result<Scalar, KeyGenError>,
) -> bool {
    if cs.len() >= 0xFFFF_FFFF {
        r == Err::<Scalar, KeyGenError>(KeyGenError::TooManyParties)
    } else if !uniform(cs) {
        r == Err::<Scalar, KeyGenError>(KeyGenError::InvalidCommitment)
    } else if shares.len() != cs.len() || pops.len() != cs.len() {
        r == Err::<Scalar, KeyGenError>(KeyGenError::WrongShareCount)
    } else if exists|i: int| 0 <= i < cs.len() && !pop_ok(cs[i], #[trigger] pops[i]) {
        exists|i: int|
            0 <= i < cs.len() && !pop_ok(cs[i], #[trigger] pops[i]) && r == Err::<
                Scalar,
                KeyGenError,
            >(KeyGenError::InvalidProofOfPossession(i as usize)) && forall|m: int|
                0 <= m < i ==> pop_ok(cs[m], #[trigger] pops[m])
    } else if exists|i: int| 0 <= i < cs.len() && !share_ok(cs[i], my_index, #[trigger] shares[i]) {
        exists|i: int|
            0 <= i < cs.len() && !share_ok(cs[i], my_index, #[trigger] shares[i]) && r == Err::<
                Scalar,
                KeyGenError,
            >(KeyGenError::InvalidShare(i as usize)) && forall|m: int|
                0 <= m < i ==> share_ok(cs[m], my_index, #[trigger] shares[m])
    } else if sum_mod(shares) == 0 {
        r == Err::<Scalar, KeyGenError>(KeyGenError::ZeroSecretShare)
    } else {
        r is Ok && r->Ok_0.is_nonzero() && r->Ok_0.value() == sum_mod(shares)
    }
}

/// Finishing key generation at party `my_index` succeeds: every check of
/// [`finish_outcome`] passes.
pub open spec fn finish_passes(
    cs: Seq<Seq<Seq<u8>>>,
    my_index: int,
    shares: Seq<nat>,
    pops: Seq<Seq<u8>>,
) -> bool {
    &&& cs.len() < 0xFFFF_FFFF
    &&& uniform(cs)
    &&& shares.len() == cs.len()
    &&& pops.len() == cs.len()
    &&& forall|i: int| 0 <= i < cs.len() ==> pop_ok(cs[i], #[trigger] pops[i])
    &&& forall|i: int| 0 <= i < cs.len() ==> share_ok(cs[i], my_index, #[trigger] shares[i])
    &&& sum_mod(shares) != 0
}

/// Finishes key generation at party `my_index`: checks that the commitments
/// are uniform, then every party's proof of possession, then every received share against its sender's
/// commitment, and sums the shares into this party's secret share.
pub fn finish_keygen(
    commitments: &Vec<Vec<Point>>,
    my_index: usize,
    shares: &Vec<Scalar>,
    proofs_of_possession: &Vec<[u8; 64]>,
) -> (r: Result<Scalar, KeyGenError>)
    requires
        commitments_valid(commitments@),
        my_index < commitments@.len(),
        all_wf(shares@),
    ensures
        finish_outcome(
            commitment_views(commitments@),
            my_index as int,
            values(shares@),
            proofs_of_possession@.map_values(|p: [u8; 64]| p@),
            r,
        ),
{
    let ghost cs = commitment_views(commitments@);
    let ghost pops = proofs_of_possession@.map_values(|p: [u8; 64]| p@);
    let ghost vals = values(shares@);
    let n = commitments.len();
    if n >= 0xFFFF_FFFF {
        return Err(KeyGenError::TooManyParties);
    }
    if !is_uniform(commitments) {
        return Err(KeyGenError::InvalidCommitment);
    }
    if shares.len() != n || proofs_of_possession.len() != n {
        return Err(KeyGenError::WrongShareCount);
    }
    let mut i: usize = 0;
    while i < n
        invariant
            0 <= i <= n,
            n < 0xFFFF_FFFF,
            n == cs.len(),
            n == pops.len(),
            n == vals.len(),
            cs == commitment_views(commitments@),
            pops == proofs_of_possession@.map_values(|p: [u8; 64]| p@),
            vals == values(shares@),
            commitments_valid(commitments@),
            uniform(cs),
            forall|m: int| 0 <= m < i ==> pop_ok(cs[m], #[trigger] pops[m]),
        decreases n - i,
    {
        let c = &commitments[i];
        assert(cs[i as int].len() == cs[0].len());
        assert(all_valid(commitments@[i as int]@));
        assert(c@[0].wf());
        if !pop_verify(&c[0], &c[0].bytes, &proofs_of_possession[i]) {
            assert(!pop_ok(cs[i as int], pops[i as int]));
            return Err(KeyGenError::InvalidProofOfPossession(i));
        }
        i = i + 1;
    }
    let mut i: usize = 0;
    while i < n
        invariant
            0 <= i <= n,
            n == cs.len(),
            n == vals.len(),
            n == pops.len(),
            pops == proofs_of_possession@.map_values(|p: [u8; 64]| p@),
            n < 0xFFFF_FFFF,
            my_index < n,
            cs == commitment_views(commitments@),
            uniform(cs),
            vals == values(shares@),
            commitments_valid(commitments@),
            all_wf(shares@),
            forall|m: int| 0 <= m < n ==> pop_ok(cs[m], #[trigger] pops[m]),
            forall|m: int| 0 <= m < i ==> share_ok(cs[m], my_index as int, #[trigger] vals[m]),
        decreases n - i,
    {
        let image = base_mul(&shares[i]);
        assert(all_valid(commitments@[i as int]@));
        assert(encodings(commitments@[i as int]@) == cs[i as int]);
        let expected = point_poly_eval(&commitments[i], (my_index + 1) as u32);
        if !same_point(&image, &expected) {
            assert(!share_ok(cs[i as int], my_index as int, vals[i as int]));
            return Err(KeyGenError::InvalidShare(i));
        }
        i = i + 1;
    }
    let mut total = Scalar::zero();
    let mut i: usize = 0;
    while i < n
        invariant
            0 <= i <= n,
            n == vals.len(),
            vals == values(shares@),
            all_wf(shares@),
            total.wf(),
            total.value() == sum_mod(vals.take(i as int)),
        decreases n - i,
    {
        assert(vals.take(i as int + 1).drop_last() =~= vals.take(i as int));
        assert(shares@[i as int].wf());
        total = scalar_add(&total, &shares[i]);
        i = i + 1;
    }
    assert(vals.take(n as int) =~= vals);
    if total.is_zero() {
        return Err(KeyGenError::ZeroSecretShare);
    }
    Ok(total)
}

/// The shares party `j` receives: every party's polynomial at `j + 1`.
pub open spec fn party_received(polys: Seq<Vec<Scalar>>, j: int) -> Seq<nat> {
    Seq::new(polys.len(), |i: int| poly_eval(values(polys[i]@), (j + 1) as nat))
}

/// The proofs of possession every party hands out.
pub open spec fn dealt_pops(polys: Seq<Vec<Scalar>>) -> Seq<Seq<u8>> {
    Seq::new(polys.len(), |i: int| pop_of(polys[i]@[0].value(), commitments_of(polys)[i][0]))
}

/// Party `j`'s secret share after an honest run: the sum over all parties'
/// polynomials of their values at `j + 1`.
pub open spec fn dealt_secret(polys: Seq<Vec<Scalar>>, j: int) -> nat {
    sum_mod(party_received(polys, j))
}

/// Every proof and every share of an honest run checks, and no party's
/// secret share sums to zero.
pub open spec fn honest_checks_pass(polys: Seq<Vec<Scalar>>) -> bool {
    let cs = commitments_of(polys);
    &&& forall|i: int| 0 <= i < polys.len() ==> pop_ok(cs[i], #[trigger] dealt_pops(polys)[i])
    &&& forall|i: int, j: int|
        0 <= i < polys.len() && 0 <= j < polys.len() ==> share_ok(
            cs[i],
            j,
            #[trigger] party_received(polys, j)[i],
        )
    &&& forall|j: int| 0 <= j < polys.len() ==> #[trigger] dealt_secret(polys, j) != 0
}

/// `key` is the joint key aggregated from the commitments of `polys`, and
/// `secrets` the secret shares dealt from them.
pub open spec fn dealt_from(polys: Seq<Vec<Scalar>>, key: JointKey, secrets: Seq<Scalar>) -> bool {
    &&& keygen_outcome(commitments_of(polys), Ok(key))
    &&& secrets.len() == polys.len()
    &&& forall|j: int|
        0 <= j < polys.len() ==> (#[trigger] secrets[j]).is_nonzero() && secrets[j].value()
            == dealt_secret(polys, j)
}

/// What running key generation for all parties on `polys` gives: an
/// aggregation error, else the first party's failure to finish, else the
/// key and every party's secret share.
pub open spec fn dealer_outcome(
    polys: Seq<Vec<Scalar>>,
    r: Result<(JointKey, Vec<Point>, Vec<Scalar>), KeyGenError>,
) -> bool {
    let cs = commitments_of(polys);
    &&& forall|e: KeyGenError|
        keygen_outcome(cs, Err(e)) ==> r == Err::<(JointKey, Vec<Point>, Vec<Scalar>), KeyGenError>(
            e,
        )
    &&& r is Err ==> keygen_outcome(cs, Err(r->Err_0)) || exists|j: int|
        0 <= j < polys.len() && finish_outcome(
            cs,
            j,
            #[trigger] party_received(polys, j),
            dealt_pops(polys),
            Err(r->Err_0),
        ) && forall|m: int|
            0 <= m < j ==> finish_passes(cs, m, #[trigger] party_received(polys, m), dealt_pops(polys))
    &&& (forall|e: KeyGenError| !keygen_outcome(cs, Err(e))) && honest_checks_pass(polys)
        ==> r is Ok
    &&& r is Ok ==> dealt_from(polys, r->Ok_0.0, r->Ok_0.2@) && r->Ok_0.1@
        == r->Ok_0.0.verification_shares@ && forall|m: int|
        0 <= m < polys.len() ==> finish_passes(
            cs,
            m,
            #[trigger] party_received(polys, m),
            dealt_pops(polys),
        )
}

/// Finishing cannot both pass its checks and fail.
proof fn lemma_passes_not_err(
    cs: Seq<Seq<Seq<u8>>>,
    j: int,
    shares: Seq<nat>,
    pops: Seq<Seq<u8>>,
    e: KeyGenError,
)
    requires
        finish_passes(cs, j, shares, pops),
    ensures
        !finish_outcome(cs, j, shares, pops, Err(e)),
{
}

/// Key generation on given polynomials is a function of them: two runs on
/// the same polynomials give the same joint key and secret shares, or the
/// same error.
pub proof fn lemma_dealer_deterministic(
    polys: Seq<Vec<Scalar>>,
    r1: Result<(JointKey, Vec<Point>, Vec<Scalar>), KeyGenError>,
    r2: Result<(JointKey, Vec<Point>, Vec<Scalar>), KeyGenError>,
)
    requires
        dealer_outcome(polys, r1),
        dealer_outcome(polys, r2),
    ensures
        r1 is Ok <==> r2 is Ok,
        r1 is Err ==> r1 == r2,
        r1 is Ok ==> r1->Ok_0.0.view() == r2->Ok_0.0.view() && values(r1->Ok_0.2@) == values(
            r2->Ok_0.2@,
        ),
{
    let cs = commitments_of(polys);
    let pp = dealt_pops(polys);
    if r1 is Ok && r2 is Ok {
        lemma_keygen_consistent(cs, Ok(r1->Ok_0.0), Ok(r2->Ok_0.0));
        assert(values(r1->Ok_0.2@) =~= values(r2->Ok_0.2@));
    } else if r1 is Err && r2 is Err {
        if keygen_outcome(cs, Err(r1->Err_0)) {
        } else if keygen_outcome(cs, Err(r2->Err_0)) {
        } else {
            let j1 = choose|j: int|
                0 <= j < polys.len() && finish_outcome(
                    cs,
                    j,
                    #[trigger] party_received(polys, j),
                    pp,
                    Err(r1->Err_0),
                ) && forall|m: int|
                    0 <= m < j ==> finish_passes(cs, m, #[trigger] party_received(polys, m), pp);
            let j2 = choose|j: int|
                0 <= j < polys.len() && finish_outcome(
                    cs,
                    j,
                    #[trigger] party_received(polys, j),
                    pp,
                    Err(r2->Err_0),
                ) && forall|m: int|
                    0 <= m < j ==> finish_passes(cs, m, #[trigger] party_received(polys, m), pp);
            if j1 < j2 {
                lemma_passes_not_err(cs, j1, party_received(polys, j1), pp, r1->Err_0);
            } else if j2 < j1 {
                lemma_passes_not_err(cs, j2, party_received(polys, j2), pp, r2->Err_0);
            }
            lemma_finish_functional(cs, j1, party_received(polys, j1), pp, r1->Err_0, r2->Err_0);
        }
    } else if r1 is Ok {
        if !keygen_outcome(cs, Err(r2->Err_0)) {
            let j = choose|j: int|
                0 <= j < polys.len() && finish_outcome(
                    cs,
                    j,
                    #[trigger] party_received(polys, j),
                    pp,
                    Err(r2->Err_0),
                ) && forall|m: int|
                    0 <= m < j ==> finish_passes(cs, m, #[trigger] party_received(polys, m), pp);
            lemma_passes_not_err(cs, j, party_received(polys, j), pp, r2->Err_0);
        }
    } else {
        if !keygen_outcome(cs, Err(r1->Err_0)) {
            let j = choose|j: int|
                0 <= j < polys.len() && finish_outcome(
                    cs,
                    j,
                    #[trigger] party_received(polys, j),
                    pp,
                    Err(r1->Err_0),
                ) && forall|m: int|
                    0 <= m < j ==> finish_passes(cs, m, #[trigger] party_received(polys, m), pp);
            lemma_passes_not_err(cs, j, party_received(polys, j), pp, r1->Err_0);
        }
    }
}

/// Finishing key generation fails with at most one error.
proof fn lemma_finish_functional(
    cs: Seq<Seq<Seq<u8>>>,
    j: int,
    shares: Seq<nat>,
    pops: Seq<Seq<u8>>,
    e1: KeyGenError,
    e2: KeyGenError,
)
    requires
        finish_outcome(cs, j, shares, pops, Err(e1)),
        finish_outcome(cs, j, shares, pops, Err(e2)),
    ensures
        e1 == e2,
{
    if cs.len() < 0xFFFF_FFFF && uniform(cs) && shares.len() == cs.len() && pops.len() == cs.len() {
        if exists|i: int| 0 <= i < cs.len() && !pop_ok(cs[i], #[trigger] pops[i]) {
            let i1 = choose|i: int|
                0 <= i < cs.len() && !pop_ok(cs[i], #[trigger] pops[i]) && Err::<
                    Scalar,
                    KeyGenError,
                >(e1) == Err::<Scalar, KeyGenError>(KeyGenError::InvalidProofOfPossession(i as usize))
                    && forall|m: int| 0 <= m < i ==> pop_ok(cs[m], #[trigger] pops[m]);
            let i2 = choose|i: int|
                0 <= i < cs.len() && !pop_ok(cs[i], #[trigger] pops[i]) && Err::<
                    Scalar,
                    KeyGenError,
                >(e2) == Err::<Scalar, KeyGenError>(KeyGenError::InvalidProofOfPossession(i as usize))
                    && forall|m: int| 0 <= m < i ==> pop_ok(cs[m], #[trigger] pops[m]);
            assert(i1 == i2) by {
                if i1 < i2 {
                    assert(pop_ok(cs[i1], pops[i1]));
                } else if i2 < i1 {
                    assert(pop_ok(cs[i2], pops[i2]));
                }
            }
        } else if exists|i: int| 0 <= i < cs.len() && !share_ok(cs[i], j, #[trigger] shares[i]) {
            let i1 = choose|i: int|
                0 <= i < cs.len() && !share_ok(cs[i], j, #[trigger] shares[i]) && Err::<
                    Scalar,
                    KeyGenError,
                >(e1) == Err::<Scalar, KeyGenError>(KeyGenError::InvalidShare(i as usize)) && forall|
                    m: int,
                | 0 <= m < i ==> share_ok(cs[m], j, #[trigger] shares[m]);
            let i2 = choose|i: int|
                0 <= i < cs.len() && !share_ok(cs[i], j, #[trigger] shares[i]) && Err::<
                    Scalar,
                    KeyGenError,
                >(e2) == Err::<Scalar, KeyGenError>(KeyGenError::InvalidShare(i as usize)) && forall|
                    m: int,
                | 0 <= m < i ==> share_ok(cs[m], j, #[trigger] shares[m]);
            assert(i1 == i2) by {
                if i1 < i2 {
                    assert(share_ok(cs[i1], j, shares[i1]));
                } else if i2 < i1 {
                    assert(share_ok(cs[i2], j, shares[i2]));
                }
            }
        }
    }
}

/// Every polynomial has only non-zero coefficients.
pub open spec fn polys_nonzero(polys: Seq<Vec<Scalar>>) -> bool {
    forall|i: int| 0 <= i < polys.len() ==> coeffs_nonzero(#[trigger] polys[i]@)
}

/// Copies a list of points.
pub(crate) fn copy_points(v: &Vec<Point>) -> (r: Vec<Point>)
    ensures
        r@ == v@,
{
    let mut r: Vec<Point> = Vec::new();
    let mut i: usize = 0;
    while i < v.len()
        invariant
            0 <= i <= v@.len(),
            r@ == v@.subrange(0, i as int),
        decreases v@.len() - i,
    {
        r.push(v[i]);
        i = i + 1;
    }
    assert(r@ =~= v@);
    r
}

/// Runs key generation for all parties at once from their secret
/// polynomials: commits, aggregates the joint key, deals every party's shares
/// and proofs, and finishes key generation at every party. Returns the joint
/// key, the verification shares and every party's secret share.
pub fn dealer_keygen_with_polys(polys: &Vec<Vec<Scalar>>) -> (r: Result<
    (JointKey, Vec<Point>, Vec<Scalar>),
    KeyGenError,
>)
    requires
        polys_nonzero(polys@),
    ensures
        dealer_outcome(polys@, r),
{
    let ghost cs = commitments_of(polys@);
    let n = polys.len();
    let mut commitments: Vec<Vec<Point>> = Vec::new();
    let mut i: usize = 0;
    while i < n
        invariant
            0 <= i <= n,
            n == polys@.len(),
            polys_nonzero(polys@),
            commitments@.len() == i,
            commitments_valid(commitments@),
            forall|m: int| 0 <= m < i ==> encodings((#[trigger] commitments@[m])@) == cs[m],
            cs == commitments_of(polys@),
        decreases n - i,
    {
        assert(coeffs_nonzero(polys@[i as int]@));
        let c = commit(&polys[i]);
        commitments.push(c);
        i = i + 1;
    }
    assert(commitment_views(commitments@) =~= cs);
    let key = match new_keygen(&commitments) {
        Ok(k) => k,
        Err(e) => return Err(e),
    };
    assert(uniform(cs));
    let mut dealt: Vec<Vec<Scalar>> = Vec::new();
    let mut pops: Vec<[u8; 64]> = Vec::new();
    let mut i: usize = 0;
    while i < n
        invariant
            0 <= i <= n < 0xFFFF_FFFF,
            n == polys@.len(),
            n == commitments@.len(),
            polys_nonzero(polys@),
            cs == commitments_of(polys@),
            cs == commitment_views(commitments@),
            uniform(cs),
            keygen_outcome(cs, Ok::<JointKey, KeyGenError>(key)),
            dealt@.len() == i,
            pops@.len() == i,
            forall|m: int| 0 <= m < i ==> (#[trigger] pops@[m])@ == dealt_pops(polys@)[m],
            forall|m: int| 0 <= m < i ==> all_wf(#[trigger] dealt@[m]@),
            forall|m: int| 0 <= m < i ==> (#[trigger] dealt@[m])@.len() == n,
            forall|m: int, j: int|
                0 <= m < i && 0 <= j < n ==> (#[trigger] dealt@[m]@[j]).value() == poly_eval(
                    values(polys@[m]@),
                    (j + 1) as nat,
                ),
        decreases n - i,
    {
        let p = &polys[i];
        assert(coeffs_nonzero(p@));
        assert(all_wf(p@)) by {
            assert forall|k: int| 0 <= k < p@.len() implies (#[trigger] p@[k]).wf() by {
                assert(p@[k].is_nonzero());
            }
        }
        assert(cs[i as int].len() == cs[0].len());
        assert(cs[i as int] == commitment_of(p@));
        assert(encodings(commitments@[i as int]@) == cs[i as int]);
        assert(p@[0].is_nonzero());
        let shares = create_shares(p, n);
        let pop = prove_possession(p, &commitments[i]);
        assert(commitments@[i as int]@[0].bytes@ == cs[i as int][0]);
        dealt.push(shares);
        pops.push(pop);
        i = i + 1;
    }
    assert(pops@.map_values(|p: [u8; 64]| p@) =~= dealt_pops(polys@));
    let mut secrets: Vec<Scalar> = Vec::new();
    let mut j: usize = 0;
    while j < n
        invariant
            0 <= j <= n < 0xFFFF_FFFF,
            n == polys@.len(),
            n == commitments@.len(),
            n == dealt@.len(),
            cs == commitment_views(commitments@),
            commitments_valid(commitments@),
            uniform(cs),
            keygen_outcome(cs, Ok::<JointKey, KeyGenError>(key)),
            cs == commitments_of(polys@),
            forall|m: int| 0 <= m < n ==> all_wf(#[trigger] dealt@[m]@),
            forall|m: int| 0 <= m < n ==> (#[trigger] dealt@[m])@.len() == n,
            forall|m: int, k: int|
                0 <= m < n && 0 <= k < n ==> (#[trigger] dealt@[m]@[k]).value() == poly_eval(
                    values(polys@[m]@),
                    (k + 1) as nat,
                ),
            pops@.map_values(|p: [u8; 64]| p@) == dealt_pops(polys@),
            forall|m: int|
                0 <= m < j ==> finish_passes(cs, m, #[trigger] party_received(polys@, m), dealt_pops(polys@)),
            secrets@.len() == j,
            forall|m: int|
                0 <= m < j ==> (#[trigger] secrets@[m]).is_nonzero() && secrets@[m].value()
                    == dealt_secret(polys@, m),
        decreases n - j,
    {
        let mut received: Vec<Scalar> = Vec::new();
        let mut i: usize = 0;
        while i < n
            invariant
                0 <= i <= n,
                0 <= j < n,
                n == dealt@.len(),
                forall|m: int| 0 <= m < n ==> all_wf(#[trigger] dealt@[m]@),
                forall|m: int| 0 <= m < n ==> (#[trigger] dealt@[m])@.len() == n,
                received@.len() == i,
                all_wf(received@),
                forall|m: int| 0 <= m < i ==> (#[trigger] received@[m]) == dealt@[m]@[j as int],
            decreases n - i,
        {
            assert(all_wf(dealt@[i as int]@));
            received.push(dealt[i][j]);
            i = i + 1;
        }
        assert(values(received@) =~= party_received(polys@, j as int));
        let secret = match finish_keygen(&commitments, j, &received, &pops) {
            Ok(s) => s,
            Err(e) => {
                assert(finish_outcome(
                    cs,
                    j as int,
                    party_received(polys@, j as int),
                    dealt_pops(polys@),
                    Err(e),
                ));
                proof {
                    assert(values(received@).len() == n);
                    assert forall|e2: KeyGenError| !keygen_outcome(cs, Err(e2)) by {}
                    if honest_checks_pass(polys@) {
                        let rec = party_received(polys@, j as int);
                        let pp = dealt_pops(polys@);
                        assert forall|i: int| 0 <= i < n implies pop_ok(cs[i], #[trigger] pp[i]) by {}
                        assert forall|i: int| 0 <= i < n implies share_ok(
                            cs[i],
                            j as int,
                            #[trigger] rec[i],
                        ) by {}
                        assert(dealt_secret(polys@, j as int) != 0);
                        assert(false);
                    }
                }
                return Err(e);
            },
        };
        assert(finish_passes(cs, j as int, party_received(polys@, j as int), dealt_pops(polys@)));
        secrets.push(secret);
        j = j + 1;
    }
    let shares = copy_points(&key.verification_shares);
    Ok((key, shares, secrets))
}

/// Every party that aggregates the same commitments obtains the same joint
/// key, or the same error.
pub proof fn lemma_keygen_consistent(
    cs: Seq<Seq<Seq<u8>>>,
    r1: Result<JointKey, KeyGenError>,
    r2: Result<JointKey, KeyGenError>,
)
    requires
        keygen_outcome(cs, r1),
        keygen_outcome(cs, r2),
    ensures
        r1 is Ok <==> r2 is Ok,
        r1 is Err ==> r1 == r2,
        r1 is Ok ==> r1->Ok_0.view() == r2->Ok_0.view(),
{
    if r1 is Ok {
        let v1 = r1->Ok_0.verification_shares@;
        let v2 = r2->Ok_0.verification_shares@;
        assert(encodings(v1) =~= encodings(v2)) by {
            assert forall|j: int| 0 <= j < v1.len() implies encodings(v1)[j] == encodings(v2)[j] by {
                assert(v1[j].bytes@ == verification_point(cs, j));
                assert(v2[j].bytes@ == verification_point(cs, j));
            }
        }
    }
}

/// Draws `n_parties` secret polynomials of `threshold` random non-zero
/// coefficients each.
pub fn random_polys(threshold: usize, n_parties: usize) -> (r: Vec<Vec<Scalar>>)
    ensures
        r@.len() == n_parties,
        polys_nonzero(r@),
        forall|i: int| 0 <= i < n_parties ==> (#[trigger] r@[i])@.len() == threshold,
{
    let mut r: Vec<Vec<Scalar>> = Vec::new();
    let mut i: usize = 0;
    while i < n_parties
        invariant
            0 <= i <= n_parties,
            r@.len() == i,
            polys_nonzero(r@),
            forall|m: int| 0 <= m < i ==> (#[trigger] r@[m])@.len() == threshold,
        decreases n_parties - i,
    {
        let mut poly: Vec<Scalar> = Vec::new();
        let mut k: usize = 0;
        while k < threshold
            invariant
                0 <= k <= threshold,
                poly@.len() == k,
                coeffs_nonzero(poly@),
            decreases threshold - k,
        {
            poly.push(random_nonzero_scalar());
            k = k + 1;
        }
        r.push(poly);
        i = i + 1;
    }
    r
}

/// `polys` could have been drawn for `n_parties` parties and `threshold`:
/// one polynomial of `threshold` non-zero coefficients per party.
pub open spec fn drawn_shape(polys: Seq<Vec<Scalar>>, threshold: nat, n_parties: nat) -> bool {
    &&& polys.len() == n_parties
    &&& polys_nonzero(polys)
    &&& forall|i: int| 0 <= i < n_parties ==> (#[trigger] polys[i])@.len() == threshold
}

/// The error for a threshold and a party count that admit no key, if any.
pub open spec fn size_error(threshold: nat, n_parties: nat) -> Option<KeyGenError> {
    if n_parties == 0 {
        Some(KeyGenError::NotEnoughParties)
    } else if n_parties >= 0xFFFF_FFFF {
        Some(KeyGenError::TooManyParties)
    } else if threshold == 0 {
        Some(KeyGenError::InvalidCommitment)
    } else if n_parties < threshold {
        Some(KeyGenError::NotEnoughParties)
    } else {
        None
    }
}

/// Checks a threshold and a party count before any randomness is drawn.
fn check_sizes(threshold: usize, n_parties: usize) -> (r: Option<KeyGenError>)
    ensures
        r == size_error(threshold as nat, n_parties as nat),
{
    if n_parties == 0 {
        Some(KeyGenError::NotEnoughParties)
    } else if n_parties >= 0xFFFF_FFFF {
        Some(KeyGenError::TooManyParties)
    } else if threshold == 0 {
        Some(KeyGenError::InvalidCommitment)
    } else if n_parties < threshold {
        Some(KeyGenError::NotEnoughParties)
    } else {
        None
    }
}

/// Generates a joint key for `n_parties` parties of which any `threshold`
/// can sign, simulating every party with fresh random polynomials. Returns
/// the joint key, the verification shares and every party's secret share:
/// what [`dealer_keygen_with_polys`] gives on the polynomials drawn.
pub fn dealer_keygen(threshold: usize, n_parties: usize) -> (r: Result<
    (JointKey, Vec<Point>, Vec<Scalar>),
    KeyGenError,
>)
    ensures
        size_error(threshold as nat, n_parties as nat) is Some ==> r == Err::<
            (JointKey, Vec<Point>, Vec<Scalar>),
            KeyGenError,
        >(size_error(threshold as nat, n_parties as nat)->0),
        size_error(threshold as nat, n_parties as nat) is None ==> exists|polys: Seq<Vec<Scalar>>|
            drawn_shape(polys, threshold as nat, n_parties as nat) && #[trigger] dealer_outcome(
                polys,
                r,
            ),
        r is Ok ==> {
            let (key, shares, secrets) = r->Ok_0;
            &&& key.wf()
            &&& key.threshold == threshold
            &&& key.verification_shares@.len() == n_parties
            &&& shares@ == key.verification_shares@
            &&& secrets@.len() == n_parties
            &&& forall|j: int| 0 <= j < n_parties ==> (#[trigger] secrets@[j]).is_nonzero()
        },
{
    if let Some(e) = check_sizes(threshold, n_parties) {
        return Err(e);
    }
    let polys = random_polys(threshold, n_parties);
    let r = dealer_keygen_with_polys(&polys);
    proof {
        assert(drawn_shape(polys@, threshold as nat, n_parties as nat));
        if r is Ok {
            let cs = commitments_of(polys@);
            assert(cs[0].len() == polys@[0]@.len());
        }
    }
    r
}

/// Generates every party's secret share and the joint key, as
/// [`dealer_keygen`] does.
pub fn trusted_frost_gen(threshold: u32, n_parties: u32) -> (r: Result<
    (Vec<Scalar>, JointKey),
    KeyGenError,
>)
    ensures
        size_error(threshold as nat, n_parties as nat) is Some ==> r == Err::<
            (Vec<Scalar>, JointKey),
            KeyGenError,
        >(size_error(threshold as nat, n_parties as nat)->0),
        size_error(threshold as nat, n_parties as nat) is None ==> exists|polys: Seq<Vec<Scalar>>|
            #![trigger drawn_shape(polys, threshold as nat, n_parties as nat)]
            drawn_shape(polys, threshold as nat, n_parties as nat) && (r is Ok ==> dealt_from(
                polys,
                r->Ok_0.1,
                r->Ok_0.0@,
            )) && (r is Err ==> dealer_outcome(
                polys,
                Err::<(JointKey, Vec<Point>, Vec<Scalar>), KeyGenError>(r->Err_0),
            )),
        r is Ok ==> {
            let (secrets, key) = r->Ok_0;
            &&& key.wf()
            &&& key.threshold == threshold
            &&& key.verification_shares@.len() == n_parties
            &&& secrets@.len() == n_parties
            &&& forall|j: int| 0 <= j < n_parties ==> (#[trigger] secrets@[j]).is_nonzero()
        },
{
    let d = dealer_keygen(threshold as usize, n_parties as usize);
    let ghost dg = d;
    let r = match d {
        Ok((key, _shares, secrets)) => Ok((secrets, key)),
        Err(e) => Err(e),
    };
    proof {
        if size_error(threshold as nat, n_parties as nat) is None {
            let polys = choose|polys: Seq<Vec<Scalar>>|
                drawn_shape(polys, threshold as nat, n_parties as nat) && #[trigger] dealer_outcome(
                    polys,
                    dg,
                );
            assert(drawn_shape(polys, threshold as nat, n_parties as nat));
        }
    }
    r
}

} // verus!
