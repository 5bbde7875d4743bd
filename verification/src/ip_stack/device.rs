//! The device that the IP stack polls: at most one packet in, at most one buffer out.
use vstd::prelude::*;

use crate::flow::tun::TunBufferToken;
use crate::net::Ipv4Addr;
use crate::net::Ipv6Addr;

verus! {

/// The packet that waits for the stack, and the buffer that waits to be filled by it.
pub struct Device {
    pub tx: Option<TunBufferToken>,
    pub rx: Option<Vec<u8>>,
}

/// What the stack gets when it asks.
#[derive(Clone, Copy, PartialEq, Eq, Structural, Debug)]
pub enum DeviceReply {
    /// Nothing.
    Nothing,
    /// Something, once a transmit buffer is lent.
    NeedBuffer,
    /// Something.
    Ready,
}

/// What the stack may rely on.
#[derive(Clone, Copy, PartialEq, Eq, Structural, Debug)]
pub struct Capabilities {
    pub max_transmission_unit: usize,
    /// Checksums are written, and not checked on the way in.
    pub checksum_on_transmit_only: bool,
}

/// The addresses and routes of the interface of the stack.
#[derive(Clone, Copy, PartialEq, Eq, Structural, Debug)]
pub struct InterfaceSetup {
    /// Whether packets to any address are taken.
    pub any_ip: bool,
    pub address: Ipv4Addr,
    pub prefix_len: u8,
    pub default_route_v4: Ipv4Addr,
    pub default_route_v6: Ipv6Addr,
}

/// How the interface of the stack is set up: as 192.168.3.1, with everything in its own network,
/// and with default routes through itself and through fd00::2.
pub fn interface_setup() -> (r: InterfaceSetup)
    ensures
        r == (InterfaceSetup {
            any_ip: true,
            address: Ipv4Addr { bits: 0xc0a8_0301 },
            prefix_len: 0,
            default_route_v4: Ipv4Addr { bits: 0xc0a8_0301 },
            default_route_v6: Ipv6Addr { bits: 0xfd00_0000_0000_0000_0000_0000_0000_0002 },
        }),
{
    InterfaceSetup {
        any_ip: true,
        address: Ipv4Addr { bits: 0xc0a8_0301 },
        prefix_len: 0,
        default_route_v4: Ipv4Addr { bits: 0xc0a8_0301 },
        default_route_v6: Ipv6Addr { bits: 0xfd00_0000_0000_0000_0000_0000_0000_0002 },
    }
}

impl Device {
    pub fn new() -> (r: Self)
        ensures
            r.tx is None,
            r.rx is None,
    {
        Device { tx: None, rx: None }
    }

    /// Whether the stack can take a packet, with a buffer for the answer.
    pub fn receive(&self) -> (r: DeviceReply)
        ensures
            r == (if self.rx is None {
                DeviceReply::Nothing
            } else if self.tx is None {
                DeviceReply::NeedBuffer
            } else {
                DeviceReply::Ready
            }),
    {
        match (&self.rx, &self.tx) {
            (None, _) => DeviceReply::Nothing,
            (Some(_), None) => DeviceReply::NeedBuffer,
            (Some(_), Some(_)) => DeviceReply::Ready,
        }
    }

    /// Whether the stack can send a packet.
    pub fn transmit(&self) -> (r: DeviceReply)
        ensures
            r == (if self.tx is None {
                DeviceReply::NeedBuffer
            } else {
                DeviceReply::Ready
            }),
    {
        match &self.tx {
            None => DeviceReply::NeedBuffer,
            Some(_) => DeviceReply::Ready,
        }
    }

    /// A transmit buffer was lent.
    pub fn lend(&mut self, token: TunBufferToken)
        requires
            old(self).tx is None,
        ensures
            *final(self) == (Device { tx: Some(token), ..*old(self) }),
    {
        self.tx = Some(token);
    }

    pub fn capabilities(&self) -> (r: Capabilities)
        ensures
            r == (Capabilities { max_transmission_unit: 1500, checksum_on_transmit_only: true }),
    {
        Capabilities { max_transmission_unit: 1500, checksum_on_transmit_only: true }
    }

    /// Takes the packet. Its buffer goes back to the device once the stack is done with it.
    pub fn consume_rx(&mut self) -> (r: Vec<u8>)
        requires
            old(self).rx is Some,
        ensures
            old(self).rx == Some(r),
            *final(self) == (Device { rx: None, ..*old(self) }),
    {
        let mut taken: Option<Vec<u8>> = None;
        std::mem::swap(&mut taken, &mut self.rx);
        taken.unwrap()
    }

    /// Takes the buffer that the stack has filled with a packet of `len` bytes. It has to be large
    /// enough.
    pub fn consume_tx(&mut self, len: usize) -> (r: TunBufferToken)
        requires
            old(self).tx matches Some(t) && len <= t.data@.len(),
        ensures
            old(self).tx == Some(r),
            len <= r.data@.len(),
            *final(self) == (Device { tx: None, ..*old(self) }),
    {
        let mut taken: Option<TunBufferToken> = None;
        std::mem::swap(&mut taken, &mut self.tx);
        taken.unwrap()
    }

    /// What goes back to the device when this one goes away.
    pub fn release(self) -> (r: (Option<Vec<u8>>, Option<TunBufferToken>))
        ensures
            r == (self.rx, self.tx),
    {
        (self.rx, self.tx)
    }
}

/// The stack takes a packet exactly where one waits and a buffer is lent for the answer, and sends
/// exactly where a buffer is lent. Each is taken once, as it was given.
pub proof fn buffers_are_taken_once(
    d: &mut Device,
    token: TunBufferToken,
    before: DeviceReply,
    received: DeviceReply,
    sends: DeviceReply,
    e: &mut Device,
    len: usize,
    taken: TunBufferToken,
    after: DeviceReply,
)
    requires
        d.tx is None,
        len <= token.data@.len(),
        call_ensures(Device::transmit, (&*old(d),), before),
        call_ensures(Device::lend, (d, token), ()),
        call_ensures(Device::receive, (&*final(d),), received),
        call_ensures(Device::transmit, (&*final(d),), sends),
        *e == *final(d),
        call_ensures(Device::consume_tx, (e, len), taken),
        call_ensures(Device::transmit, (&*final(e),), after),
    ensures
        before is NeedBuffer,
        sends is Ready,
        received is Ready <==> old(d).rx is Some,
        received is Nothing <==> old(d).rx is None,
        taken == token,
        after is NeedBuffer,
        final(e).rx == old(d).rx,
{
}

/// A packet that waits for a buffer is not lost, and is taken once.
pub proof fn packets_are_taken_once(
    d: &mut Device,
    waiting: DeviceReply,
    packet: Vec<u8>,
    after: DeviceReply,
)
    requires
        d.rx is Some,
        call_ensures(Device::receive, (&*old(d),), waiting),
        call_ensures(Device::consume_rx, (d,), packet),
        call_ensures(Device::receive, (&*final(d),), after),
    ensures
        waiting is NeedBuffer <==> old(d).tx is None,
        old(d).rx == Some(packet),
        after is Nothing,
        final(d).tx == old(d).tx,
{
}

/// The interface takes packets to any address; it is 192.168.3.1, its network is everything, and its
/// default routes lead to itself and to fd00::2. Packets have up to 1500 bytes.
pub proof fn interface_takes_everything(d: &Device, r: InterfaceSetup, c: Capabilities)
    requires
        call_ensures(interface_setup, (), r),
        call_ensures(Device::capabilities, (d,), c),
    ensures
        r.any_ip,
        r.prefix_len == 0,
        r.address.bits == 192 * 0x100_0000 + 168 * 0x1_0000 + 3 * 0x100 + 1,
        r.default_route_v4 == r.address,
        r.default_route_v6.bits == 0xfd00 * 0x1_0000_0000_0000_0000_0000_0000_0000int + 2,
        c.max_transmission_unit == 1500,
        c.checksum_on_transmit_only,
{
}

/// What is left when the device of the stack goes away goes back: the packet and the buffer, as they are.
pub proof fn nothing_is_kept(
    d: Device,
    r: (Option<Vec<u8>>, Option<TunBufferToken>),
    fresh: Device,
    first: DeviceReply,
)
    requires
        call_ensures(Device::release, (d,), r),
        call_ensures(Device::new, (), fresh),
        call_ensures(Device::receive, (&fresh,), first),
    ensures
        r.0 == d.rx,
        r.1 == d.tx,
        first is Nothing,
{
}

} // verus!
