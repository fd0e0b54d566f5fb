use sha2::{Digest, Sha256};
use tbs::blind::verify_signature;
use tbs::blind::verify_signature_share;
use tbs::field::Scalar;
use tbs::{
    blind_message, combine_valid_shares, dealer_keygen, sign_blinded_msg, unblind_signature,
    BlindedMessage, BlindedSignatureShare, BlindingKey, MessageScalar,
};

fn message(text: &[u8]) -> MessageScalar {
    let digest = Sha256::digest(text);
    let mut bytes = [0u8; 32];
    bytes.copy_from_slice(&digest);
    MessageScalar(Scalar { bytes })
}

#[test]
fn test_keygen() {
    let (_pk, pks, _sks) = dealer_keygen(5, 15).unwrap();
    assert_eq!(pks.len(), 15);
}

#[test]
fn blind_threshold_roundtrip() {
    let threshold = 5;
    let n_parties = 15;
    let msg = message(b"test");

    let (key, pks, secret_shares) = dealer_keygen(threshold, n_parties).unwrap();
    let (blinding_key, blinded_msg) = blind_message(msg);

    let sigs: Vec<(usize, BlindedSignatureShare)> = (0..threshold)
        .map(|i| (i, sign_blinded_msg(blinded_msg, secret_shares[i])))
        .collect();

    for (i, sig) in sigs.iter() {
        assert!(verify_signature_share(sig, &blinded_msg, &pks[*i]));
    }

    let combined = combine_valid_shares(&sigs, threshold).unwrap();
    let sig = unblind_signature(blinding_key, combined);
    assert!(verify_signature(&sig, &msg, &key.public_key));
}

#[test]
fn test_message_macro() {
    let bmsg = BlindedMessage(message(b"blinded").0);
    let bytes = bmsg.consensus_encode();
    assert_eq!(bytes.len(), 32);
    assert_eq!(BlindedMessage::consensus_decode(&bytes), Ok(bmsg));
}

#[test]
fn test_bkey() {
    let bkey = BlindingKey::random();
    let bytes = bkey.consensus_encode();
    assert_eq!(bytes.len(), 32);
    assert_eq!(BlindingKey::consensus_decode(&bytes), Ok(bkey));
}
