use tbs::encoding::{decode_binonce, decode_point, decode_scalar, encode_point, DecodeError};
use tbs::field::Scalar;
use tbs::group::{public_point, Point};
use tbs::{
    BlindedSignature, BlindedSignatureShare, BlindingKey, FrostNonce, FrostSigShare, Signature,
};

const ORDER: [u8; 32] = [
    0xFF, 0xFF, 0xFF, 0xFF, 0xFF, 0xFF, 0xFF, 0xFF, 0xFF, 0xFF, 0xFF, 0xFF, 0xFF, 0xFF, 0xFF, 0xFE,
    0xBA, 0xAE, 0xDC, 0xE6, 0xAF, 0x48, 0xA0, 0x3B, 0xBF, 0xD2, 0x5E, 0x8C, 0xD0, 0x36, 0x41, 0x41,
];

const G_BYTES: [u8; 33] = [
    0x02, 0x79, 0xBE, 0x66, 0x7E, 0xF9, 0xDC, 0xBB, 0xAC, 0x55, 0xA0, 0x62, 0x95, 0xCE, 0x87, 0x0B,
    0x07, 0x02, 0x9B, 0xFC, 0xDB, 0x2D, 0xCE, 0x28, 0xD9, 0x59, 0xF2, 0x81, 0x5B, 0x16, 0xF8, 0x17,
    0x98,
];

fn sc(v: u64) -> Scalar {
    let mut bytes = [0u8; 32];
    bytes[24..].copy_from_slice(&v.to_be_bytes());
    Scalar { bytes }
}

#[test]
fn generator_has_its_standard_encoding() {
    assert_eq!(public_point(&sc(1)).bytes, G_BYTES);
}

#[test]
fn scalar_round_trips_for_every_type() {
    let s = sc(0x1234_5678_9abc_def0);
    let k = BlindingKey(s);
    assert_eq!(BlindingKey::consensus_decode(&k.consensus_encode()), Ok(k));
    let b = BlindedSignature(s);
    assert_eq!(BlindedSignature::consensus_decode(&b.consensus_encode()), Ok(b));
    let sh = BlindedSignatureShare(s);
    assert_eq!(BlindedSignatureShare::consensus_decode(&sh.consensus_encode()), Ok(sh));
    let sig = Signature(s);
    assert_eq!(Signature::consensus_decode(&sig.consensus_encode()), Ok(sig));
    let fs = FrostSigShare(s);
    assert_eq!(FrostSigShare::consensus_decode(&fs.consensus_encode()), Ok(fs));
}

#[test]
fn largest_scalar_round_trips() {
    let mut top = ORDER;
    top[31] -= 1;
    let s = Scalar { bytes: top };
    assert_eq!(decode_scalar(&top, true), Ok(s));
    assert_eq!(Signature::consensus_decode(&top), Ok(Signature(s)));
}

#[test]
fn distinct_scalars_encode_distinctly() {
    assert_ne!(BlindingKey(sc(1)).consensus_encode(), BlindingKey(sc(2)).consensus_encode());
}

#[test]
fn scalar_of_wrong_width_is_truncated_input() {
    assert_eq!(decode_scalar(&[1u8; 31], true), Err(DecodeError::TruncatedInput));
    assert_eq!(decode_scalar(&[1u8; 33], false), Err(DecodeError::TruncatedInput));
    assert_eq!(BlindingKey::consensus_decode(&[]), Err(DecodeError::TruncatedInput));
}

#[test]
fn scalar_not_below_order_is_invalid() {
    assert_eq!(decode_scalar(&ORDER, false), Err(DecodeError::InvalidEncoding));
    assert_eq!(decode_scalar(&[0xFF; 32], true), Err(DecodeError::InvalidEncoding));
}

#[test]
fn zero_scalar_is_refused_where_nonzero_is_required() {
    assert_eq!(BlindingKey::consensus_decode(&[0u8; 32]), Err(DecodeError::UnexpectedZero));
    assert_eq!(decode_scalar(&[0u8; 32], false), Ok(sc(0)));
    assert_eq!(FrostSigShare::consensus_decode(&[0u8; 32]), Ok(FrostSigShare(sc(0))));
}

#[test]
fn point_round_trips() {
    let p = public_point(&sc(7));
    let bytes = encode_point(&p);
    assert_eq!(bytes.len(), 33);
    assert_eq!(decode_point(&bytes), Ok(p));
    assert_eq!(decode_point(&G_BYTES), Ok(Point { bytes: G_BYTES }));
}

#[test]
fn point_errors() {
    assert_eq!(decode_point(&G_BYTES[..32]), Err(DecodeError::TruncatedInput));
    assert_eq!(decode_point(&[0u8; 33]), Err(DecodeError::UnexpectedZero));
    let mut wrong_prefix = G_BYTES;
    wrong_prefix[0] = 4;
    assert_eq!(decode_point(&wrong_prefix), Err(DecodeError::InvalidEncoding));
    let mut off_curve = [0u8; 33];
    off_curve[0] = 2;
    assert_eq!(decode_point(&off_curve), Err(DecodeError::InvalidEncoding));
}

#[test]
fn binonce_round_trips() {
    let mut bytes = [0u8; 66];
    bytes[..33].copy_from_slice(&public_point(&sc(3)).bytes);
    bytes[33..].copy_from_slice(&public_point(&sc(4)).bytes);
    let nonce = FrostNonce::consensus_decode(&bytes).unwrap();
    assert_eq!(nonce, FrostNonce(bytes));
    assert_eq!(nonce.consensus_encode(), bytes.to_vec());
}

#[test]
fn binonce_errors() {
    let mut bytes = [0u8; 66];
    bytes[..33].copy_from_slice(&G_BYTES);
    assert_eq!(decode_binonce(&bytes), Err(DecodeError::InvalidEncoding));
    assert_eq!(FrostNonce::consensus_decode(&bytes[..65]), Err(DecodeError::TruncatedInput));
}
