//! Values of a FROST signing session carried between federation members:
//! binonces and signature shares, with their canonical encodings.

use crate::encoding::{
    binonce_decoding, binonce_valid, bytes_to_vec, decode_binonce, decode_scalar, encode_scalar,
    scalar_decoding, DecodeError,
};
use crate::field::Scalar;
use crate::group::Point;
use vstd::prelude::*;

verus! {

/// The public image of a party's secret share.
pub type VerificationShare = Point;

/// A signer's public binonce: two compressed non-zero points.
#[derive(Clone, Copy, Debug, PartialEq, Eq)]
pub struct FrostNonce(pub [u8; 66]);

/// A signer's signature share, which may be zero.
#[derive(Clone, Copy, Debug, PartialEq, Eq)]
pub struct FrostSigShare(pub Scalar);

impl FrostNonce {
    pub open spec fn wf(&self) -> bool {
        binonce_valid(self.0@)
    }

    /// The canonical 66-byte encoding of the binonce.
    pub fn consensus_encode(&self) -> (r: Vec<u8>)
        ensures
            r@ == self.0@,
    {
        bytes_to_vec(&self.0)
    }

    /// Decodes a binonce: 66 bytes holding two non-zero points.
    pub fn consensus_decode(b: &[u8]) -> (r: Result<FrostNonce, DecodeError>)
        ensures
            r is Ok ==> binonce_decoding(b@, Ok(r->Ok_0.0)),
            r is Err ==> binonce_decoding(b@, Err(r->Err_0)),
            r is Ok ==> r->Ok_0.wf(),
    {
        match decode_binonce(b) {
            Ok(n) => Ok(FrostNonce(n)),
            Err(e) => Err(e),
        }
    }
}

impl FrostSigShare {
    /// The canonical 32-byte encoding of the share.
    pub fn consensus_encode(&self) -> (r: Vec<u8>)
        ensures
            r@ == self.0.bytes@,
    {
        encode_scalar(&self.0)
    }

    /// Decodes a signature share: 32 bytes of a scalar below the group order.
    pub fn consensus_decode(b: &[u8]) -> (r: Result<FrostSigShare, DecodeError>)
        ensures
            r is Ok ==> scalar_decoding(b@, false, Ok(r->Ok_0.0)),
            r is Err ==> scalar_decoding(b@, false, Err(r->Err_0)),
            r is Ok ==> r->Ok_0.0.wf(),
    {
        match decode_scalar(b, false) {
            Ok(s) => Ok(FrostSigShare(s)),
            Err(e) => Err(e),
        }
    }
}

} // verus!
