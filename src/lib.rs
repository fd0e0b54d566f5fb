//! Threshold blind signatures for a federated mint: scalar and point values,
//! their canonical byte encoding, blinding, share signing, share combination
//! and key generation among the federation members.

pub mod field;
pub mod group;
pub mod encoding;
pub mod blind;
pub mod dkg;
pub mod frost;
pub mod net;
pub mod config;

pub use blind::{
    blind_message, combine_valid_shares, sign_blinded_msg, unblind_signature, BlindedMessage,
    BlindedSignature, BlindedSignatureShare, BlindingKey, MessageScalar, Signature,
};
pub use config::{FeeConsensus, WalletClientConfig, WalletConfig};
pub use dkg::{dealer_keygen, trusted_frost_gen, JointKey};
pub use frost::{FrostNonce, FrostSigShare};
pub use net::BincodeCodec;
