//! Buffers of a TUN device.
use vstd::prelude::*;

verus! {

/// What identifies a buffer to the device that lent it.
pub type TunBufferSignature = [usize; 2];

/// A transmit buffer on loan from a TUN device.
#[derive(Debug)]
pub struct TunBufferToken {
    /// Opaque data of the lender.
    pub signature: TunBufferSignature,
    pub data: Vec<u8>,
}

impl Clone for TunBufferToken {
    fn clone(&self) -> (r: Self)
        ensures
            r.signature == self.signature,
            r.data@ == self.data@,
    {
        let data = self.data.clone();
        assert(data@ =~= self.data@);
        TunBufferToken { signature: self.signature, data }
    }
}

impl TunBufferToken {
    pub fn new(signature: TunBufferSignature, data: Vec<u8>) -> (t: TunBufferToken)
        ensures
            t.signature == signature,
            t.data == data,
    {
        TunBufferToken { signature, data }
    }

    pub fn into_parts(self) -> (r: (TunBufferSignature, Vec<u8>))
        ensures
            r == (self.signature, self.data),
    {
        (self.signature, self.data)
    }
}

/// A TUN device as the IP stack sees it.
pub trait Tun {
    fn blocking_recv(&self) -> Option<Vec<u8>>;

    fn return_recv_buffer(&self, buf: Vec<u8>);

    fn get_tx_buffer(&self) -> Option<TunBufferToken>;

    fn send(&self, buf: TunBufferToken, len: usize);

    fn return_tx_buffer(&self, buf: TunBufferToken);
}

} // verus!
