//! The codec that frames values for the peer-to-peer transport.

use core::marker::PhantomData;
use vstd::prelude::*;

verus! {

/// Frames values of type `T` for transport; the encoding itself is done by
/// the transport layer.
#[derive(Debug)]
pub struct BincodeCodec<T> {
    /// The type of the values framed.
    pub marker: PhantomData<T>,
}

impl<T> BincodeCodec<T> {
    /// A codec for values of type `T`.
    pub fn new() -> (r: BincodeCodec<T>)
        ensures
            r == (BincodeCodec::<T> { marker: PhantomData }),
    {
        BincodeCodec { marker: PhantomData }
    }
}

} // verus!
