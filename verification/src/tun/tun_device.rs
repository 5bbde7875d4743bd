//! The TUN device of macOS, with a reading and a writing task of its own.
use vstd::prelude::*;
use vstd::slice::slice_subrange;
use vstd::slice::slice_to_vec;

use crate::flow::tun::Tun;
use crate::flow::tun::TunBufferToken;
use crate::net::Ipv4Addr;
use crate::net::Ipv6Addr;

verus! {

/// How many buffers are made when the device is.
pub const PREFILLED_BUFFERS: usize = 64;

/// A TUN device that can be shut down.
pub trait ShutdownableTun: Tun {
    fn shutdown(&self);
}

/// How a read from the device ended.
#[derive(Clone, Copy, PartialEq, Eq, Structural, Debug)]
pub enum ReadResult {
    Read(usize),
    /// There is nothing to read.
    Again,
    Failed,
}

/// What a task does next.
#[derive(Clone, Copy, PartialEq, Eq, Structural, Debug)]
pub enum TaskStep {
    Continue,
    /// Hand so many bytes on.
    Deliver(usize),
    Stop,
}

/// What the reading task does after a read. Nothing read is no end.
pub fn after_read(read: ReadResult) -> (r: TaskStep)
    ensures
        r == (match read {
            ReadResult::Read(n) => if n > 0 {
                TaskStep::Deliver(n)
            } else {
                TaskStep::Continue
            },
            ReadResult::Again => TaskStep::Continue,
            ReadResult::Failed => TaskStep::Stop,
        }),
{
    match read {
        ReadResult::Read(n) => if n > 0 {
            TaskStep::Deliver(n)
        } else {
            TaskStep::Continue
        },
        ReadResult::Again => TaskStep::Continue,
        ReadResult::Failed => TaskStep::Stop,
    }
}

/// What the reading task does after it handed bytes on without waiting: it stops where they are not
/// taken.
pub fn after_handover(taken: bool) -> (r: TaskStep)
    ensures
        r == (if taken {
            TaskStep::Continue
        } else {
            TaskStep::Stop
        }),
{
    if taken {
        TaskStep::Continue
    } else {
        TaskStep::Stop
    }
}

/// Why a packet could not be sent.
#[derive(Clone, Copy, PartialEq, Eq, Structural, Debug)]
pub enum SendError {
    /// The buffer is not one of the device.
    InvalidBuffer,
    /// The writing task is gone.
    Closed,
}

/// A device.
pub struct MacTun {
    pub name: String,
    pub address: Ipv4Addr,
    pub address_v6: Option<Ipv6Addr>,
    pub netmask: Ipv4Addr,
    pub mtu: usize,
}

impl MacTun {
    /// A device. `actual_name` is the name that the system gave it, where it says so.
    pub fn new(
        name: &str,
        actual_name: Option<String>,
        address: Ipv4Addr,
        netmask: Ipv4Addr,
        mtu: Option<usize>,
    ) -> (r: Self)
        ensures
            r.name@ == (match actual_name {
                Some(n) => n@,
                None => name@,
            }),
            r.address == address,
            r.address_v6 is None,
            r.netmask == netmask,
            r.mtu == (match mtu {
                Some(n) => n,
                None => 1500,
            }),
    {
        MacTun {
            name: match actual_name {
                Some(n) => n,
                None => name.to_string(),
            },
            address,
            address_v6: None,
            netmask,
            mtu: match mtu {
                Some(n) => n,
                None => 1500,
            },
        }
    }

    /// A buffer: one from the pool, or as many zeros as the device takes bytes.
    pub fn get_buffer(&self, pooled: Option<Vec<u8>>) -> (r: Vec<u8>)
        ensures
            match pooled {
                Some(b) => r == b,
                None => r@ == Seq::new(self.mtu as nat, |i: int| 0u8),
            },
    {
        match pooled {
            Some(b) => b,
            None => {
                let mut data: Vec<u8> = Vec::new();
                data.resize(self.mtu, 0);
                assert(data@ =~= Seq::new(self.mtu as nat, |i: int| 0u8));
                data
            },
        }
    }

    pub fn get_name(&self) -> (r: &str)
        ensures
            r@ == self.name@,
    {
        self.name.as_str()
    }

    pub fn get_address(&self) -> (r: Ipv4Addr)
        ensures
            r == self.address,
    {
        self.address
    }

    /// A buffer to send from. `id` is what the device knows it by.
    pub fn get_tx_buffer(&self, id: usize) -> (r: Option<TunBufferToken>)
        ensures
            r matches Some(t) && t.signature@ == seq![id, 0] && t.data@ == Seq::new(
                self.mtu as nat,
                |i: int| 0u8,
            ),
    {
        let t = TunBufferToken::new([id, 0], self.get_buffer(None));
        assert(t.signature@ =~= seq![id, 0]);
        Some(t)
    }

    /// What goes to the writing task: the first `len` bytes of a buffer. A buffer that the device
    /// does not know is refused.
    pub fn send(&self, buf: TunBufferToken, len: usize) -> (r: Result<Vec<u8>, SendError>)
        requires
            buf.signature@[0] != 0 ==> len <= buf.data@.len(),
        ensures
            match r {
                Ok(d) => buf.signature@[0] != 0 && d@ == buf.data@.subrange(0, len as int),
                Err(e) => buf.signature@[0] == 0 && e == SendError::InvalidBuffer,
            },
    {
        let (signature, data) = buf.into_parts();
        if signature[0] == 0 {
            return Err(SendError::InvalidBuffer);
        }
        Ok(slice_to_vec(slice_subrange(data.as_slice(), 0, len)))
    }

    /// What comes of handing a packet to the writing task.
    pub fn sent(&self, taken: bool) -> (r: Result<(), SendError>)
        ensures
            r == (if taken {
                Ok(())
            } else {
                Err(SendError::Closed)
            }),
    {
        if taken {
            Ok(())
        } else {
            Err(SendError::Closed)
        }
    }
}

// ---- Laws ----
/// What is read is handed on whole; nothing read, or nothing to read, is no end; a failure is. A reader
/// whose bytes nobody takes stops.
pub proof fn readers_go_on(read: ReadResult, r: TaskStep, taken: bool, then: TaskStep)
    requires
        call_ensures(after_read, (read,), r),
        call_ensures(after_handover, (taken,), then),
    ensures
        r is Stop <==> read is Failed,
        r matches TaskStep::Deliver(n) ==> n > 0 && read == ReadResult::Read(n),
        r is Continue <==> read is Again || read == ReadResult::Read(0),
        then is Continue <==> taken,
        then is Stop <==> !taken,
{
}

/// A buffer of the device is sent as far as it was filled; one with number zero is not one of the
/// device.
pub proof fn filled_buffers_are_sent(
    d: &MacTun,
    id: usize,
    given: Option<TunBufferToken>,
    buf: TunBufferToken,
    len: usize,
    r: Result<Vec<u8>, SendError>,
    taken: bool,
    end: Result<(), SendError>,
)
    requires
        call_ensures(MacTun::get_tx_buffer, (d, id), given),
        buf.signature@[0] != 0 ==> len <= buf.data@.len(),
        call_ensures(MacTun::send, (d, buf, len), r),
        call_ensures(MacTun::sent, (d, taken), end),
    ensures
        given matches Some(t) && t.signature@[0] == id && t.data@.len() == d.mtu,
        r is Ok <==> buf.signature@[0] != 0,
        r matches Ok(sent) ==> sent@.len() == len && sent@ == buf.data@.take(len as int),
        r matches Err(e) ==> e is InvalidBuffer,
        end is Ok <==> taken,
        end matches Err(e) ==> e is Closed,
{
}

/// A device is known by the name that the system gave it, else by the one it was made with, and takes
/// 1500 bytes unless told otherwise. A buffer from the pool is used before a new one is made.
pub proof fn devices_are_made_as_told(
    name: &str,
    actual: Option<String>,
    address: Ipv4Addr,
    netmask: Ipv4Addr,
    mtu: Option<usize>,
    r: MacTun,
    called: &str,
    at: Ipv4Addr,
    pooled: Option<Vec<u8>>,
    b: Vec<u8>,
)
    requires
        call_ensures(MacTun::new, (name, actual, address, netmask, mtu), r),
        call_ensures(MacTun::get_name, (&r,), called),
        call_ensures(MacTun::get_address, (&r,), at),
        call_ensures(MacTun::get_buffer, (&r, pooled), b),
    ensures
        actual matches Some(n) ==> called@ == n@,
        actual is None ==> called@ == name@,
        at == address,
        mtu is None ==> r.mtu == 1500,
        mtu matches Some(n) ==> r.mtu == n,
        pooled is None ==> b@.len() == r.mtu && forall|i: int| 0 <= i < b@.len() ==> b@[i] == 0,
        pooled matches Some(p) ==> b == p,
{
}

} // verus!
