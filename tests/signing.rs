use sha2::{Digest, Sha256};
use tbs::blind::{
    blind_message_with_key, verify_signature, verify_signature_share, verify_signature_shares,
    CombineError,
};
use tbs::field::Scalar;
use tbs::group::public_point;
use tbs::{
    blind_message, combine_valid_shares, dealer_keygen, sign_blinded_msg, unblind_signature,
    BlindedMessage, BlindedSignature, BlindedSignatureShare, BlindingKey, MessageScalar, Signature,
};

const ORDER_MINUS_ONE: [u8; 32] = [
    0xFF, 0xFF, 0xFF, 0xFF, 0xFF, 0xFF, 0xFF, 0xFF, 0xFF, 0xFF, 0xFF, 0xFF, 0xFF, 0xFF, 0xFF, 0xFE,
    0xBA, 0xAE, 0xDC, 0xE6, 0xAF, 0x48, 0xA0, 0x3B, 0xBF, 0xD2, 0x5E, 0x8C, 0xD0, 0x36, 0x41, 0x40,
];

fn sc(v: u64) -> Scalar {
    let mut bytes = [0u8; 32];
    bytes[24..].copy_from_slice(&v.to_be_bytes());
    Scalar { bytes }
}

fn message(text: &[u8]) -> MessageScalar {
    let digest = Sha256::digest(text);
    let mut bytes = [0u8; 32];
    bytes.copy_from_slice(&digest);
    MessageScalar(Scalar { bytes })
}

fn shares(pairs: &[(usize, u64)]) -> Vec<(usize, BlindedSignatureShare)> {
    pairs.iter().map(|(i, v)| (*i, BlindedSignatureShare(sc(*v)))).collect()
}

#[test]
fn blinding_multiplies_by_the_key() {
    let b = blind_message_with_key(&MessageScalar(sc(3)), &BlindingKey(sc(2)));
    assert_eq!(b, BlindedMessage(sc(6)));
}

#[test]
fn blinding_reduces_modulo_the_order() {
    let minus_one = Scalar { bytes: ORDER_MINUS_ONE };
    let b = blind_message_with_key(&MessageScalar(minus_one), &BlindingKey(minus_one));
    assert_eq!(b, BlindedMessage(sc(1)));
}

#[test]
fn share_is_secret_times_message() {
    assert_eq!(sign_blinded_msg(BlindedMessage(sc(6)), sc(5)), BlindedSignatureShare(sc(30)));
}

#[test]
fn unblinding_divides_by_the_key() {
    let sig = unblind_signature(BlindingKey(sc(2)), BlindedSignature(sc(30)));
    assert_eq!(sig, Signature(sc(15)));
    let minus_one = Scalar { bytes: ORDER_MINUS_ONE };
    let sig = unblind_signature(BlindingKey(minus_one), BlindedSignature(sc(1)));
    assert_eq!(sig, Signature(minus_one));
}

#[test]
fn distinct_blinding_keys_give_distinct_blinded_messages() {
    let msg = message(b"same message");
    let (k1, b1) = blind_message(msg);
    let (k2, b2) = blind_message(msg);
    assert_ne!(k1, k2);
    assert_ne!(b1, b2);
}

#[test]
fn combination_interpolates_at_zero() {
    // f(x) = 7 + 3x: signers 0, 1, 2 stand at x = 1, 2, 3.
    let s = shares(&[(0, 10), (1, 13)]);
    assert_eq!(combine_valid_shares(&s, 2), Ok(BlindedSignature(sc(7))));
    let s = shares(&[(2, 16), (0, 10)]);
    assert_eq!(combine_valid_shares(&s, 2), Ok(BlindedSignature(sc(7))));
}

#[test]
fn combination_uses_the_first_threshold_shares() {
    let exact = shares(&[(0, 10), (1, 13)]);
    let more = shares(&[(0, 10), (1, 13), (2, 99)]);
    assert_eq!(combine_valid_shares(&exact, 2), combine_valid_shares(&more, 2));
}

#[test]
fn combination_refuses_too_few_shares() {
    let s = shares(&[(0, 10)]);
    assert_eq!(combine_valid_shares(&s, 2), Err(CombineError::InsufficientShares));
    assert_eq!(combine_valid_shares(&Vec::new(), 1), Err(CombineError::InsufficientShares));
}

#[test]
fn combination_refuses_duplicate_signers() {
    let s = shares(&[(1, 10), (1, 13)]);
    assert_eq!(combine_valid_shares(&s, 2), Err(CombineError::DuplicateShare));
    let s = shares(&[(0, 10), (1, 13), (0, 10)]);
    assert_eq!(combine_valid_shares(&s, 2), Err(CombineError::DuplicateShare));
}

#[test]
fn combination_refuses_out_of_range_signers() {
    let s = shares(&[(0, 10), (0xFFFF_FFFF, 13)]);
    assert_eq!(combine_valid_shares(&s, 2), Err(CombineError::IndexOutOfRange));
}

#[test]
fn combination_refuses_a_zero_signature() {
    // f(x) = 5x passes through (1, 5) and (2, 10) and vanishes at zero.
    let s = shares(&[(0, 5), (1, 10)]);
    assert_eq!(combine_valid_shares(&s, 2), Err(CombineError::ZeroSignature));
}

#[test]
fn threshold_boundary_with_real_keys() {
    let (_key, _pks, secrets) = dealer_keygen(3, 5).unwrap();
    let bm = BlindedMessage(sc(11));
    let all: Vec<(usize, BlindedSignatureShare)> =
        (0..5).map(|i| (i, sign_blinded_msg(bm, secrets[i]))).collect();
    assert_eq!(combine_valid_shares(&all[..2].to_vec(), 3), Err(CombineError::InsufficientShares));
    let exact = combine_valid_shares(&all[..3].to_vec(), 3).unwrap();
    let more = combine_valid_shares(&all, 3).unwrap();
    assert_eq!(exact, more);
    let other: Vec<_> = vec![all[4], all[1], all[3]];
    assert_eq!(combine_valid_shares(&other, 3).unwrap(), exact);
}

#[test]
fn share_verifies_only_against_its_own_verification_share() {
    let (_key, pks, secrets) = dealer_keygen(2, 4).unwrap();
    let bm = BlindedMessage(sc(12345));
    let share = sign_blinded_msg(bm, secrets[1]);
    assert!(verify_signature_share(&share, &bm, &pks[1]));
    assert!(!verify_signature_share(&share, &bm, &pks[0]));
    assert!(!verify_signature_share(&share, &bm, &pks[2]));
    let mut flipped = share;
    flipped.0.bytes[31] ^= 1;
    assert!(!verify_signature_share(&flipped, &bm, &pks[1]));
}

#[test]
fn end_to_end_five_of_fifteen() {
    let (key, pks, secrets) = dealer_keygen(5, 15).unwrap();
    let msg = message(b"M");
    let (bk, bm) = blind_message(msg);
    let sig_shares: Vec<(usize, BlindedSignatureShare)> =
        (0..5).map(|i| (i, sign_blinded_msg(bm, secrets[i]))).collect();
    let (good, bad) = verify_signature_shares(&sig_shares, &bm, &pks);
    assert_eq!(good, sig_shares);
    assert!(bad.is_empty());
    let blinded = combine_valid_shares(&good, 5).unwrap();
    let sig = unblind_signature(bk, blinded);
    assert!(verify_signature(&sig, &msg, &key.public_key));
    assert!(!verify_signature(&sig, &message(b"other"), &key.public_key));

    let mut corrupted = sig_shares.clone();
    corrupted[2].1 .0.bytes[31] ^= 0x10;
    let (good, bad) = verify_signature_shares(&corrupted, &bm, &pks);
    assert_eq!(bad, vec![2]);
    assert_eq!(good.len(), 4);
    assert_eq!(combine_valid_shares(&good, 5), Err(CombineError::InsufficientShares));

    let (good, _) = verify_signature_shares(&sig_shares[..4].to_vec(), &bm, &pks);
    assert_eq!(combine_valid_shares(&good, 5), Err(CombineError::InsufficientShares));
}

#[test]
fn share_of_unknown_signer_is_rejected() {
    let (_key, pks, secrets) = dealer_keygen(1, 2).unwrap();
    let bm = BlindedMessage(sc(9));
    let s = vec![(7, sign_blinded_msg(bm, secrets[0]))];
    let (good, bad) = verify_signature_shares(&s, &bm, &pks);
    assert!(good.is_empty());
    assert_eq!(bad, vec![7]);
}

#[test]
fn unblinded_signature_is_the_signature_of_the_message() {
    let secret = sc(77);
    let msg = MessageScalar(sc(1000));
    let (bk, bm) = blind_message(msg);
    let share = sign_blinded_msg(bm, secret);
    let sig = unblind_signature(bk, BlindedSignature(share.0));
    let direct = sign_blinded_msg(BlindedMessage(msg.0), secret);
    assert_eq!(sig.0, direct.0);
    assert!(verify_signature(&sig, &msg, &public_point(&secret)));
}
