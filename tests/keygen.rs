use tbs::blind::BlindedSignatureShare;
use tbs::config::{Network, PeerId, FINALITY_DELAY};
use tbs::dkg::{
    commit, create_shares, dealer_keygen_with_polys, finish_keygen, new_keygen, prove_possession,
    KeyGenError,
};
use tbs::field::Scalar;
use tbs::group::{public_point, Point};
use tbs::{
    combine_valid_shares, dealer_keygen, trusted_frost_gen, BincodeCodec, FeeConsensus,
    WalletConfig,
};

const ORDER_MINUS_ONE: [u8; 32] = [
    0xFF, 0xFF, 0xFF, 0xFF, 0xFF, 0xFF, 0xFF, 0xFF, 0xFF, 0xFF, 0xFF, 0xFF, 0xFF, 0xFF, 0xFF, 0xFE,
    0xBA, 0xAE, 0xDC, 0xE6, 0xAF, 0x48, 0xA0, 0x3B, 0xBF, 0xD2, 0x5E, 0x8C, 0xD0, 0x36, 0x41, 0x40,
];

fn sc(v: u64) -> Scalar {
    let mut bytes = [0u8; 32];
    bytes[24..].copy_from_slice(&v.to_be_bytes());
    Scalar { bytes }
}

fn g(v: u64) -> Point {
    public_point(&sc(v))
}

#[test]
fn shares_are_the_polynomial_at_successive_indices() {
    assert_eq!(create_shares(&vec![sc(7), sc(3)], 3), vec![sc(10), sc(13), sc(16)]);
}

#[test]
fn joint_key_is_the_sum_of_constant_terms() {
    let key = new_keygen(&vec![vec![g(1), g(5)], vec![g(2), g(6)]]).unwrap();
    assert_eq!(key.public_key, g(3));
    assert_eq!(key.threshold, 2);
    // joint polynomial 3 + 11x at x = 1, 2
    assert_eq!(key.verification_shares, vec![g(14), g(25)]);
}

#[test]
fn keygen_refuses_bad_commitments() {
    assert_eq!(new_keygen(&Vec::new()), Err(KeyGenError::NotEnoughParties));
    assert_eq!(new_keygen(&vec![vec![g(1)], vec![g(1), g(2)]]), Err(KeyGenError::InvalidCommitment));
    assert_eq!(new_keygen(&vec![vec![], vec![]]), Err(KeyGenError::InvalidCommitment));
    assert_eq!(new_keygen(&vec![vec![g(1), g(2)]]), Err(KeyGenError::NotEnoughParties));
}

#[test]
fn keygen_refuses_a_zero_joint_key() {
    let minus_one = public_point(&Scalar { bytes: ORDER_MINUS_ONE });
    assert_eq!(new_keygen(&vec![vec![g(1)], vec![minus_one]]), Err(KeyGenError::DegenerateKey));
}

#[test]
fn every_party_computes_the_same_joint_key() {
    let commitments = vec![vec![g(4), g(9)], vec![g(8), g(1)], vec![g(2), g(2)]];
    assert_eq!(new_keygen(&commitments), new_keygen(&commitments.clone()));
}

#[test]
fn secret_shares_sum_what_each_party_dealt() {
    let polys = vec![vec![sc(1), sc(2)], vec![sc(3), sc(4)], vec![sc(5), sc(6)]];
    let (key, pks, secrets) = dealer_keygen_with_polys(&polys).unwrap();
    // sum polynomial 9 + 12x
    assert_eq!(secrets, vec![sc(21), sc(33), sc(45)]);
    assert_eq!(key.public_key, g(9));
    assert_eq!(pks, vec![g(21), g(33), g(45)]);
}

#[test]
fn any_threshold_of_parties_reconstructs_the_joint_key() {
    let (key, _pks, secrets) = dealer_keygen(5, 15).unwrap();
    for start in [0usize, 3, 10] {
        let chosen: Vec<(usize, BlindedSignatureShare)> = (start..start + 5)
            .map(|i| (i, BlindedSignatureShare(secrets[i])))
            .collect();
        let secret = combine_valid_shares(&chosen, 5).unwrap();
        assert_eq!(public_point(&secret.0), key.public_key);
    }
    let four: Vec<(usize, BlindedSignatureShare)> =
        (0..4).map(|i| (i, BlindedSignatureShare(secrets[i]))).collect();
    let wrong = combine_valid_shares(&four, 4).unwrap();
    assert_ne!(public_point(&wrong.0), key.public_key);
}

#[test]
fn finish_keygen_checks_proofs_and_shares() {
    let polys = vec![vec![sc(1), sc(2)], vec![sc(3), sc(4)]];
    let commitments: Vec<Vec<Point>> = polys.iter().map(commit).collect();
    let pops: Vec<[u8; 64]> =
        polys.iter().zip(commitments.iter()).map(|(p, c)| prove_possession(p, c)).collect();
    let received = vec![sc(3), sc(7)];
    assert_eq!(finish_keygen(&commitments, 0, &received, &pops), Ok(sc(10)));

    let mut bad_pops = pops.clone();
    bad_pops[1][5] ^= 1;
    assert_eq!(
        finish_keygen(&commitments, 0, &received, &bad_pops),
        Err(KeyGenError::InvalidProofOfPossession(1))
    );
    let swapped = vec![pops[1], pops[0]];
    assert_eq!(
        finish_keygen(&commitments, 0, &received, &swapped),
        Err(KeyGenError::InvalidProofOfPossession(0))
    );
    assert_eq!(
        finish_keygen(&commitments, 0, &vec![sc(3), sc(8)], &pops),
        Err(KeyGenError::InvalidShare(1))
    );
    assert_eq!(
        finish_keygen(&commitments, 0, &vec![sc(3)], &pops),
        Err(KeyGenError::WrongShareCount)
    );
}

#[test]
fn keygen_refuses_bad_sizes() {
    assert_eq!(dealer_keygen(0, 3).map(|_| ()), Err(KeyGenError::InvalidCommitment));
    assert_eq!(dealer_keygen(4, 3).map(|_| ()), Err(KeyGenError::NotEnoughParties));
    assert_eq!(dealer_keygen(1, 0).map(|_| ()), Err(KeyGenError::NotEnoughParties));
    assert_eq!(trusted_frost_gen(0, 2).map(|_| ()), Err(KeyGenError::InvalidCommitment));
    assert_eq!(trusted_frost_gen(3, 2).map(|_| ()), Err(KeyGenError::NotEnoughParties));
    assert_eq!(
        trusted_frost_gen(1, 0xFFFF_FFFF).map(|_| ()),
        Err(KeyGenError::TooManyParties)
    );
}

#[test]
fn finish_keygen_refuses_uneven_commitments() {
    let commitments = vec![vec![g(1), g(2)], vec![g(3)]];
    assert_eq!(
        finish_keygen(&commitments, 0, &vec![sc(1), sc(2)], &vec![[0u8; 64], [0u8; 64]]),
        Err(KeyGenError::InvalidCommitment)
    );
    assert_eq!(
        finish_keygen(&vec![vec![], vec![]], 1, &vec![sc(1), sc(2)], &vec![[0u8; 64], [0u8; 64]]),
        Err(KeyGenError::InvalidCommitment)
    );
}

#[test]
fn trusted_frost_gen_deals_every_party() {
    let (secrets, key) = trusted_frost_gen(2, 3).unwrap();
    assert_eq!(secrets.len(), 3);
    assert_eq!(key.threshold, 2);
    for (i, s) in secrets.iter().enumerate() {
        assert_eq!(public_point(s), key.verification_shares[i]);
    }
}

#[test]
fn wallet_configs_share_one_key() {
    let peers: Vec<PeerId> = (0..4).map(PeerId).collect();
    let (cfgs, client) = WalletConfig::trusted_dealer_gen(&peers, 1).unwrap();
    assert_eq!(cfgs.len(), 4);
    for (i, (id, cfg)) in cfgs.iter().enumerate() {
        assert_eq!(*id, peers[i]);
        assert_eq!(cfg.frost_key, cfgs[0].1.frost_key);
        assert_eq!(cfg.frost_key.threshold, 3);
        assert_eq!(cfg.network, Network::Regtest);
        assert_eq!(cfg.finality_delay, FINALITY_DELAY);
        assert_eq!(cfg.btc_rpc_address, "127.0.0.1:18443");
        assert_eq!(cfg.peg_in_descriptor.internal_key[..], cfg.frost_key.public_key.bytes[1..]);
        assert_eq!(public_point(&cfg.peg_in_key), cfg.frost_key.verification_shares[i]);
        assert_eq!(cfg.peer_verification_shares[i], (peers[i], cfg.frost_key.verification_shares[i]));
        assert_eq!(cfg.peer_verification_shares.len(), peers.len());
        let view = cfg.to_client_config();
        assert_eq!(view.peg_in_descriptor, client.peg_in_descriptor);
        assert_eq!(view.network, client.network);
        assert_eq!(view.finality_delay, client.finality_delay);
        assert_eq!(view.fee_consensus, client.fee_consensus);
    }
}

#[test]
fn default_fees_are_zero() {
    let fees = FeeConsensus::default();
    assert_eq!(fees.peg_in_abs.milli_sat, 0);
    assert_eq!(fees.peg_out_abs.milli_sat, 0);
}

#[test]
fn codec_can_be_built() {
    let codec: BincodeCodec<u32> = BincodeCodec::new();
    assert!(format!("{:?}", codec).starts_with("BincodeCodec"));
    assert_eq!(codec.marker, std::marker::PhantomData::<u32>);
}
