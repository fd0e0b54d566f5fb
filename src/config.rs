//! The wallet module's configuration: what each federation member keeps
//! after key generation, and the public view given to clients.

use crate::dkg::{
    commitments_of, copy_points, dealt_from, dealt_secret, drawn_shape, keygen_outcome,
    trusted_frost_gen, JointKey, KeyGenError,
};
use crate::field::Scalar;
use crate::group::Point;
use vstd::prelude::*;

verus! {

/// Confirmations required before a peg-in is accepted.
pub const FINALITY_DELAY: u32 = 10;

/// The identity of a federation member.
#[derive(Clone, Copy, Debug, PartialEq, Eq, PartialOrd, Ord, Hash, Structural)]
pub struct PeerId(pub u16);

/// An amount of money in milli-satoshi.
#[derive(Clone, Copy, Debug, PartialEq, Eq, Structural)]
pub struct Amount {
    pub milli_sat: u64,
}

/// A fee rate in satoshi per thousand virtual bytes.
#[derive(Clone, Copy, Debug, PartialEq, Eq, Structural)]
pub struct Feerate {
    pub sats_per_kvb: u64,
}

/// The Bitcoin network the federation operates on.
#[derive(Clone, Copy, Debug, PartialEq, Eq, Structural)]
pub enum Network {
    Bitcoin,
    Testnet,
    Signet,
    Regtest,
}

/// The peg-in descriptor `tr(KEY)`: a taproot output with the x-only form of
/// the joint public key as its internal key and no script tree.
#[derive(Clone, Copy, Debug, PartialEq, Eq)]
pub struct PegInDescriptor {
    pub internal_key: [u8; 32],
}

/// The fees the federation charges.
#[derive(Clone, Copy, Debug, PartialEq, Eq, Structural)]
pub struct FeeConsensus {
    pub peg_in_abs: Amount,
    pub peg_out_abs: Amount,
}

impl Default for FeeConsensus {
    /// No fees.
    fn default() -> (r: FeeConsensus)
        ensures
            r.peg_in_abs.milli_sat == 0,
            r.peg_out_abs.milli_sat == 0,
    {
        FeeConsensus { peg_in_abs: Amount { milli_sat: 0 }, peg_out_abs: Amount { milli_sat: 0 } }
    }
}

/// A federation member's wallet configuration.
#[derive(Clone, Debug)]
pub struct WalletConfig {
    pub network: Network,
    pub peg_in_descriptor: PegInDescriptor,
    pub peer_verification_shares: Vec<(PeerId, Point)>,
    pub peg_in_key: Scalar,
    pub frost_key: JointKey,
    pub finality_delay: u32,
    pub default_fee: Feerate,
    pub btc_rpc_address: String,
    pub btc_rpc_user: String,
    pub btc_rpc_pass: String,
    pub fee_consensus: FeeConsensus,
}

/// The part of the wallet configuration that clients see: no secrets.
#[derive(Clone, Debug)]
pub struct WalletClientConfig {
    /// The federation's public peg-in descriptor.
    pub peg_in_descriptor: PegInDescriptor,
    /// The bitcoin network the client will use.
    pub network: Network,
    /// Confirmations required for a peg-in to be accepted by the federation.
    pub finality_delay: u32,
    pub fee_consensus: FeeConsensus,
}

/// The x-only form of a compressed point: its 32 bytes after the prefix.
pub open spec fn xonly_of(p: Seq<u8>) -> Seq<u8> {
    p.subrange(1, 33)
}

/// The descriptor whose internal key is the x-only form of the joint key.
pub fn peg_in_descriptor_of(key: &Point) -> (r: PegInDescriptor)
    ensures
        r.internal_key@ == xonly_of(key.bytes@),
{
    let mut internal_key = [0u8; 32];
    let mut i: usize = 0;
    while i < 32
        invariant
            0 <= i <= 32,
            forall|j: int| 0 <= j < i ==> internal_key@[j] == key.bytes@[j + 1],
        decreases 32 - i,
    {
        internal_key[i] = key.bytes[i + 1];
        i = i + 1;
    }
    assert(internal_key@ =~= xonly_of(key.bytes@));
    PegInDescriptor { internal_key }
}

/// Copies a joint key.
fn copy_key(k: &JointKey) -> (r: JointKey)
    ensures
        r.public_key == k.public_key,
        r.verification_shares@ == k.verification_shares@,
        r.threshold == k.threshold,
{
    JointKey {
        public_key: k.public_key,
        verification_shares: copy_points(&k.verification_shares),
        threshold: k.threshold,
    }
}

/// Pairs each peer with the verification share at the same position.
fn pair_shares(peers: &Vec<PeerId>, shares: &Vec<Point>) -> (r: Vec<(PeerId, Point)>)
    requires
        peers@.len() == shares@.len(),
    ensures
        r@.len() == peers@.len(),
        forall|i: int| 0 <= i < peers@.len() ==> (#[trigger] r@[i]) == (peers@[i], shares@[i]),
{
    let mut r: Vec<(PeerId, Point)> = Vec::new();
    let mut i: usize = 0;
    while i < peers.len()
        invariant
            0 <= i <= peers@.len(),
            peers@.len() == shares@.len(),
            r@.len() == i,
            forall|m: int| 0 <= m < i ==> (#[trigger] r@[m]) == (peers@[m], shares@[m]),
        decreases peers@.len() - i,
    {
        r.push((peers[i], shares[i]));
        i = i + 1;
    }
    r
}

impl WalletConfig {
    /// The configuration is what key generation gave every member: the same
    /// joint key, a descriptor from it, and the verification shares by peer.
    pub open spec fn consistent(&self) -> bool {
        &&& self.frost_key.wf()
        &&& self.peg_in_descriptor.internal_key@ == xonly_of(self.frost_key.public_key.bytes@)
        &&& self.peer_verification_shares@.len() == self.frost_key.verification_shares@.len()
        &&& forall|i: int|
            0 <= i < self.peer_verification_shares@.len() ==> (#[trigger] self.peer_verification_shares@[i]).1
                == self.frost_key.verification_shares@[i]
        &&& self.peg_in_key.is_nonzero()
    }

    /// Generates every member's configuration and the client configuration
    /// for a federation of `peers` that tolerates `max_evil` faulty members:
    /// the signing threshold is `peers.len() - max_evil`.
    pub fn trusted_dealer_gen(peers: &Vec<PeerId>, max_evil: usize) -> (r: Result<
        (Vec<(PeerId, WalletConfig)>, WalletClientConfig),
        KeyGenError,
    >)
        requires
            max_evil < peers@.len() < 0xFFFF_FFFF,
        ensures
            r is Ok ==> {
                let (cfgs, client) = r->Ok_0;
                &&& cfgs@.len() == peers@.len()
                &&& forall|i: int|
                    #![trigger cfgs@[i]]
                    0 <= i < peers@.len() ==> {
                        let (id, cfg) = cfgs@[i];
                        &&& id == peers@[i]
                        &&& cfg.consistent()
                        &&& cfg.peer_verification_shares@.len() == peers@.len()
                        &&& cfg.frost_key.view() == cfgs@[0].1.frost_key.view()
                        &&& cfg.frost_key.threshold == peers@.len() - max_evil
                        &&& cfg.network == Network::Regtest
                        &&& cfg.finality_delay == FINALITY_DELAY
                        &&& cfg.default_fee.sats_per_kvb == 1000
                        &&& cfg.fee_consensus.peg_in_abs.milli_sat == 0
                        &&& cfg.fee_consensus.peg_out_abs.milli_sat == 0
                        &&& forall|j: int|
                            0 <= j < peers@.len() ==> (#[trigger] cfg.peer_verification_shares@[j]).0
                                == peers@[j]
                        &&& cfg.peg_in_descriptor == client.peg_in_descriptor
                    }
                &&& exists|polys: Seq<Vec<Scalar>>|
                    #![trigger drawn_shape(polys, (peers@.len() - max_evil) as nat, peers@.len() as nat)]
                    drawn_shape(polys, (peers@.len() - max_evil) as nat, peers@.len() as nat)
                        && forall|i: int|
                        0 <= i < peers@.len() ==> keygen_outcome(
                            commitments_of(polys),
                            Ok((#[trigger] cfgs@[i]).1.frost_key),
                        ) && cfgs@[i].1.peg_in_key.value() == dealt_secret(polys, i)
                &&& client.network == Network::Regtest
                &&& client.finality_delay == FINALITY_DELAY
                &&& client.fee_consensus.peg_in_abs.milli_sat == 0
                &&& client.fee_consensus.peg_out_abs.milli_sat == 0
            },
    {
        let n = peers.len();
        let threshold = n - max_evil;
        let generated = trusted_frost_gen(threshold as u32, n as u32);
        let ghost polys = choose|polys: Seq<Vec<Scalar>>|
            drawn_shape(polys, threshold as nat, n as nat) && (generated is Ok ==> dealt_from(
                polys,
                generated->Ok_0.1,
                generated->Ok_0.0@,
            ));
        let (secrets, key) = match generated {
            Ok(v) => v,
            Err(e) => return Err(e),
        };
        assert(drawn_shape(polys, threshold as nat, n as nat));
        assert(dealt_from(polys, key, secrets@));
        let descriptor = peg_in_descriptor_of(&key.public_key);
        let mut cfgs: Vec<(PeerId, WalletConfig)> = Vec::new();
        let mut i: usize = 0;
        while i < n
            invariant
                0 <= i <= n,
                n == peers@.len(),
                n == secrets@.len(),
                key.wf(),
                key.threshold == n - max_evil,
                key.verification_shares@.len() == n,
                forall|j: int| 0 <= j < n ==> (#[trigger] secrets@[j]).is_nonzero(),
                descriptor.internal_key@ == xonly_of(key.public_key.bytes@),
                cfgs@.len() == i,
                drawn_shape(polys, (n - max_evil) as nat, n as nat),
                dealt_from(polys, key, secrets@),
                forall|m: int|
                    #![trigger cfgs@[m]]
                    0 <= m < i ==> {
                        let (id, cfg) = cfgs@[m];
                        &&& id == peers@[m]
                        &&& cfg.consistent()
                        &&& cfg.peer_verification_shares@.len() == n
                        &&& cfg.peg_in_key == secrets@[m]
                        &&& cfg.frost_key.public_key == key.public_key
                        &&& cfg.frost_key.verification_shares@ == key.verification_shares@
                        &&& cfg.frost_key.threshold == key.threshold
                        &&& cfg.network == Network::Regtest
                        &&& cfg.finality_delay == FINALITY_DELAY
                        &&& cfg.default_fee.sats_per_kvb == 1000
                        &&& cfg.fee_consensus.peg_in_abs.milli_sat == 0
                        &&& cfg.fee_consensus.peg_out_abs.milli_sat == 0
                        &&& forall|j: int|
                            0 <= j < n ==> (#[trigger] cfg.peer_verification_shares@[j]).0
                                == peers@[j]
                        &&& cfg.peg_in_descriptor == descriptor
                    },
            decreases n - i,
        {
            let frost_key = copy_key(&key);
            let shares = pair_shares(peers, &key.verification_shares);
            let cfg = WalletConfig {
                network: Network::Regtest,
                peg_in_descriptor: descriptor,
                peer_verification_shares: shares,
                peg_in_key: secrets[i],
                frost_key,
                finality_delay: FINALITY_DELAY,
                default_fee: Feerate { sats_per_kvb: 1000 },
                btc_rpc_address: "127.0.0.1:18443".to_string(),
                btc_rpc_user: "bitcoin".to_string(),
                btc_rpc_pass: "bitcoin".to_string(),
                fee_consensus: FeeConsensus::default(),
            };
            cfgs.push((peers[i], cfg));
            i = i + 1;
        }
        let client = WalletClientConfig {
            peg_in_descriptor: descriptor,
            network: Network::Regtest,
            finality_delay: FINALITY_DELAY,
            fee_consensus: FeeConsensus::default(),
        };
        proof {
            assert forall|i: int| 0 <= i < n implies keygen_outcome(
                commitments_of(polys),
                Ok((#[trigger] cfgs@[i]).1.frost_key),
            ) && cfgs@[i].1.peg_in_key.value() == dealt_secret(polys, i) by {
                assert(cfgs@[i].1.frost_key.verification_shares@ == key.verification_shares@);
            }
            assert forall|i: int| 0 <= i < n implies (#[trigger] cfgs@[i]).1.frost_key.view()
                == cfgs@[0].1.frost_key.view() by {
                assert(cfgs@[i].1.frost_key.verification_shares@ == cfgs@[0].1.frost_key.verification_shares@);
            }
        }
        Ok((cfgs, client))
    }

    /// The client's view of this configuration.
    pub fn to_client_config(&self) -> (r: WalletClientConfig)
        ensures
            r.peg_in_descriptor == self.peg_in_descriptor,
            r.network == self.network,
            r.fee_consensus == self.fee_consensus,
            r.finality_delay == self.finality_delay,
    {
        WalletClientConfig {
            peg_in_descriptor: self.peg_in_descriptor,
            network: self.network,
            fee_consensus: self.fee_consensus,
            finality_delay: self.finality_delay,
        }
    }
}

} // verus!
