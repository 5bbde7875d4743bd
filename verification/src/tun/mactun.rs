//! The TUN device of macOS: what its tasks do with what happens.
use std::collections::VecDeque;
use vstd::prelude::*;
use vstd::slice::slice_subrange;
use vstd::slice::slice_to_vec;

use crate::flow::tun::TunBufferToken;
use crate::net::IpAddr;
use crate::net::Ipv4Addr;

verus! {

/// How many receive buffers are kept for reuse.
pub const POOL_LIMIT: usize = 64;

/// The MTU where none is given.
pub const DEFAULT_MTU: usize = 1500;

/// Why an operation of the device failed.
#[derive(Clone, Copy, PartialEq, Eq, Structural, Debug)]
pub enum DeviceError {
    WouldBlock,
    TimedOut,
    BrokenPipe,
    Other,
}

/// What the task that owns the device does next.
#[derive(Clone, Copy, PartialEq, Eq, Structural, Debug)]
pub enum DeviceStep {
    /// Go on at once.
    Again,
    /// Go on after so many milliseconds.
    After(u64),
    /// Hand so many received bytes on.
    Deliver(usize),
    /// Stop.
    Stop,
}

/// What happened to something that was handed to the device.
#[derive(Clone, Copy, PartialEq, Eq, Structural, Debug)]
pub enum SendOutcome {
    Queued,
    /// The queue is closed.
    Closed,
    /// There was no room in time.
    TimedOut,
}

/// What a look at the queue of received packets gave.
pub enum RecvOutcome {
    Packet(Vec<u8>),
    Closed,
    TimedOut,
    /// The queue could not be locked in time.
    Busy,
}

/// What the task that owns the device does after it tried to receive.
pub fn after_recv(received: Result<usize, DeviceError>) -> (r: DeviceStep)
    ensures
        r == (match received {
            Ok(len) => DeviceStep::Deliver(len),
            Err(DeviceError::WouldBlock) | Err(DeviceError::TimedOut) => DeviceStep::After(10),
            Err(DeviceError::BrokenPipe) => DeviceStep::Stop,
            Err(DeviceError::Other) => DeviceStep::Again,
        }),
{
    match received {
        Ok(len) => DeviceStep::Deliver(len),
        Err(DeviceError::WouldBlock) => DeviceStep::After(10),
        Err(DeviceError::TimedOut) => DeviceStep::After(10),
        Err(DeviceError::BrokenPipe) => DeviceStep::Stop,
        Err(DeviceError::Other) => DeviceStep::Again,
    }
}

/// What the task that owns the device does after it handed received bytes on: it stops once nobody
/// takes them.
pub fn after_deliver(taken: bool) -> (r: DeviceStep)
    ensures
        r == (if taken {
            DeviceStep::Again
        } else {
            DeviceStep::Stop
        }),
{
    if taken {
        DeviceStep::Again
    } else {
        DeviceStep::Stop
    }
}

/// What comes of sending a packet. One for which there is no room is dropped silently.
pub fn send_result(closed: bool, outcome: SendOutcome) -> (r: Result<(), DeviceError>)
    ensures
        r == (if closed || outcome == SendOutcome::Closed {
            Err(DeviceError::BrokenPipe)
        } else {
            Ok(())
        }),
{
    if closed {
        return Err(DeviceError::BrokenPipe);
    }
    match outcome {
        SendOutcome::Closed => Err(DeviceError::BrokenPipe),
        _ => Ok(()),
    }
}

/// What comes of receiving a packet.
pub fn recv_result(closed: bool, outcome: RecvOutcome) -> (r: Result<Vec<u8>, DeviceError>)
    ensures
        r == (if closed {
            Err(DeviceError::BrokenPipe)
        } else {
            match outcome {
                RecvOutcome::Packet(p) => Ok(p),
                RecvOutcome::Closed => Err(DeviceError::BrokenPipe),
                RecvOutcome::TimedOut => Err(DeviceError::WouldBlock),
                RecvOutcome::Busy => Err(DeviceError::TimedOut),
            }
        }),
{
    if closed {
        return Err(DeviceError::BrokenPipe);
    }
    match outcome {
        RecvOutcome::Packet(p) => Ok(p),
        RecvOutcome::Closed => Err(DeviceError::BrokenPipe),
        RecvOutcome::TimedOut => Err(DeviceError::WouldBlock),
        RecvOutcome::Busy => Err(DeviceError::TimedOut),
    }
}

/// What a blocking reader does.
pub enum RecvStep {
    /// Try again after so many milliseconds.
    Retry(u64),
    /// Here is a packet.
    Packet(Vec<u8>),
}

/// What a blocking reader does after a try; `None` stands for one that is not over. It never gives
/// up, and an empty packet is none.
pub fn after_try(tried: Option<Result<Vec<u8>, DeviceError>>) -> (r: RecvStep)
    ensures
        r == (match tried {
            Some(Ok(p)) => if p@.len() > 0 {
                RecvStep::Packet(p)
            } else {
                RecvStep::Retry(0)
            },
            Some(Err(DeviceError::WouldBlock)) | None => RecvStep::Retry(10),
            Some(Err(_)) => RecvStep::Retry(1000),
        }),
{
    match tried {
        Some(Ok(p)) => if p.len() > 0 {
            RecvStep::Packet(p)
        } else {
            RecvStep::Retry(0)
        },
        Some(Err(DeviceError::WouldBlock)) => RecvStep::Retry(10),
        Some(Err(_)) => RecvStep::Retry(1000),
        None => RecvStep::Retry(10),
    }
}

/// A device.
pub struct MacTun {
    pub buffer_pool: VecDeque<Vec<u8>>,
    pub mtu: usize,
    pub name: String,
    pub address: IpAddr,
    pub closed: bool,
}

/// A pool after a buffer has come back.
pub open spec fn pooled(pool: Seq<Vec<u8>>, buf: Vec<u8>) -> Seq<Vec<u8>> {
    if pool.len() < POOL_LIMIT {
        pool.push(buf)
    } else {
        pool
    }
}

impl MacTun {
    /// A device with an address. Without a name it is `utun`, and without an MTU it takes 1500
    /// bytes.
    pub fn new(name: Option<&str>, address: IpAddr, mtu: Option<usize>) -> (r: Self)
        ensures
            r.buffer_pool@.len() == 0,
            r.mtu == (match mtu {
                Some(n) => n,
                None => DEFAULT_MTU,
            }),
            r.name@ == (match name {
                Some(n) => n@,
                None => "utun"@,
            }),
            r.address == address,
            !r.closed,
    {
        MacTun {
            buffer_pool: VecDeque::new(),
            mtu: match mtu {
                Some(n) => n,
                None => DEFAULT_MTU,
            },
            name: match name {
                Some(n) => n.to_string(),
                None => "utun".to_string(),
            },
            address,
            closed: false,
        }
    }

    /// A device with an IPv4 address.
    pub fn new_ipv4(name: &str, address: Ipv4Addr, mtu: Option<usize>) -> (r: Self)
        ensures
            r.buffer_pool@.len() == 0,
            r.mtu == (match mtu {
                Some(n) => n,
                None => DEFAULT_MTU,
            }),
            r.name@ == name@,
            r.address == IpAddr::V4(address),
            !r.closed,
    {
        MacTun::new(Some(name), IpAddr::V4(address), mtu)
    }

    /// A device that is there already, with the MTU that it says, where it says one.
    pub fn from_device(mtu: Option<u16>) -> (r: Self)
        ensures
            r.buffer_pool@.len() == 0,
            r.mtu == (match mtu {
                Some(n) => n as usize,
                None => DEFAULT_MTU,
            }),
            r.name@ == "unknown"@,
            r.address == IpAddr::V4(Ipv4Addr { bits: 0 }),
            !r.closed,
    {
        MacTun {
            buffer_pool: VecDeque::new(),
            mtu: match mtu {
                Some(n) => n as usize,
                None => DEFAULT_MTU,
            },
            name: "unknown".to_string(),
            address: IpAddr::V4(Ipv4Addr { bits: 0 }),
            closed: false,
        }
    }

    pub fn mtu(&self) -> (r: usize)
        ensures
            r == self.mtu,
    {
        self.mtu
    }

    pub fn get_name(&self) -> (r: &str)
        ensures
            r@ == self.name@,
    {
        self.name.as_str()
    }

    pub fn get_address(&self) -> (r: IpAddr)
        ensures
            r == self.address,
    {
        self.address
    }

    /// Shuts the device down: its buffers are let go. Returns the arguments of the `ifconfig` that
    /// takes it down.
    pub fn shutdown(&mut self) -> (r: Vec<String>)
        ensures
            final(self).closed,
            final(self).buffer_pool@.len() == 0,
            final(self).mtu == old(self).mtu,
            final(self).name == old(self).name,
            final(self).address == old(self).address,
            crate::text::texts(r@) == seq![old(self).name@, "down"@],
    {
        self.closed = true;
        self.buffer_pool.clear();
        let r = vec![self.name.clone(), "down".to_string()];
        assert(crate::text::texts(r@) =~= seq![old(self).name@, "down"@]);
        r
    }

    /// An empty buffer with room for a packet: one that was returned, or a new one.
    pub fn take_recv_buffer(&mut self) -> (r: Vec<u8>)
        ensures
            final(self).mtu == old(self).mtu,
            final(self).name == old(self).name,
            final(self).address == old(self).address,
            final(self).closed == old(self).closed,
            r@.len() == 0,
            final(self).buffer_pool@ == (if old(self).buffer_pool@.len() > 0 {
                old(self).buffer_pool@.subrange(1, old(self).buffer_pool@.len() as int)
            } else {
                old(self).buffer_pool@
            }),
    {
        match self.buffer_pool.pop_front() {
            Some(b) => {
                let mut b = b;
                b.clear();
                b.reserve(self.mtu);
                b
            },
            None => Vec::with_capacity(self.mtu),
        }
    }

    /// Takes a buffer back, unless 64 are there already.
    pub fn return_recv_buffer(&mut self, buf: Vec<u8>)
        ensures
            final(self).mtu == old(self).mtu,
            final(self).name == old(self).name,
            final(self).address == old(self).address,
            final(self).closed == old(self).closed,
            final(self).buffer_pool@ == pooled(old(self).buffer_pool@, buf),
    {
        if self.buffer_pool.len() < POOL_LIMIT {
            self.buffer_pool.push_back(buf);
        }
    }

    /// A buffer to send from: as many zeros as the device takes bytes.
    pub fn get_tx_buffer(&self, id: usize) -> (r: Option<TunBufferToken>)
        ensures
            r matches Some(t) && t.signature@ == seq![id, self.mtu] && t.data@ == Seq::new(
                self.mtu as nat,
                |i: int| 0u8,
            ),
    {
        let mut data: Vec<u8> = Vec::new();
        data.resize(self.mtu, 0);
        assert(data@ =~= Seq::new(self.mtu as nat, |i: int| 0u8));
        let t = TunBufferToken::new([id, self.mtu], data);
        assert(t.signature@ =~= seq![id, self.mtu]);
        Some(t)
    }

    /// What goes to the device: the first `len` bytes of a buffer.
    pub fn send(&self, buf: TunBufferToken, len: usize) -> (r: Vec<u8>)
        requires
            len <= buf.data@.len(),
        ensures
            r@ == buf.data@.subrange(0, len as int),
    {
        let (_, data) = buf.into_parts();
        slice_to_vec(slice_subrange(data.as_slice(), 0, len))
    }
}

/// The pool never holds more than its limit, once it does not, and it loses no buffer that it has.
pub proof fn pool_stays_bounded(pool: Seq<Vec<u8>>, buf: Vec<u8>)
    requires
        pool.len() <= POOL_LIMIT,
    ensures
        pooled(pool, buf).len() <= POOL_LIMIT,
        pool.is_prefix_of(pooled(pool, buf)),
{
}

// ---- Laws ----
/// The task of a device goes on until the device is broken or nobody takes what it receives; it waits
/// where there is nothing to receive.
pub proof fn device_tasks_go_on(
    received: Result<usize, DeviceError>,
    r: DeviceStep,
    taken: bool,
    then: DeviceStep,
)
    requires
        call_ensures(after_recv, (received,), r),
        call_ensures(after_deliver, (taken,), then),
    ensures
        r is Stop <==> (received matches Err(e) && e is BrokenPipe),
        r is Again <==> (received matches Err(e) && e is Other),
        r is After <==> (received matches Err(e) && (e is WouldBlock || e is TimedOut)),
        r matches DeviceStep::After(ms) ==> ms == 10,
        received matches Ok(n) ==> r == DeviceStep::Deliver(n),
        then is Stop <==> !taken,
        then is Again <==> taken,
{
}

/// Sending fails exactly where the device or its queue is closed; what finds no room in time is dropped.
/// Receiving gives the packet that came, unless the device is closed.
pub proof fn closed_devices_are_broken(
    closed: bool,
    out: SendOutcome,
    sent: Result<(), DeviceError>,
    got: RecvOutcome,
    received: Result<Vec<u8>, DeviceError>,
)
    requires
        call_ensures(send_result, (closed, out), sent),
        call_ensures(recv_result, (closed, got), received),
    ensures
        sent is Err <==> closed || out is Closed,
        sent matches Err(e) ==> e is BrokenPipe,
        closed ==> (received matches Err(e) && e is BrokenPipe),
        received matches Ok(p) ==> got == RecvOutcome::Packet(p),
        !closed && got is Packet ==> received is Ok,
        !closed && got is Closed ==> (received matches Err(e) && e is BrokenPipe),
        !closed && got is TimedOut ==> (received matches Err(e) && e is WouldBlock),
        !closed && got is Busy ==> (received matches Err(e) && e is TimedOut),
{
}

/// A reader that waits never gives up and never gets an empty packet: it tries again at once after an
/// empty one, soon where there is nothing, and after a second where reading failed.
pub proof fn readers_never_give_up(tried: Option<Result<Vec<u8>, DeviceError>>, r: RecvStep)
    requires
        call_ensures(after_try, (tried,), r),
    ensures
        r matches RecvStep::Packet(p) ==> p@.len() > 0 && tried == Some(
            Ok::<Vec<u8>, DeviceError>(p),
        ),
        tried matches Some(Ok(p)) ==> (p@.len() > 0 ==> r is Packet) && (p@.len() == 0 ==> r
            == RecvStep::Retry(0)),
        tried is None ==> r == RecvStep::Retry(10),
        tried matches Some(Err(e)) ==> r == RecvStep::Retry(
            if e is WouldBlock {
                10
            } else {
                1000
            },
        ),
{
}

/// The buffer that came back first is taken first, empty; a buffer is always given. No more than 64 are
/// kept.
pub proof fn buffers_are_reused(
    d: &mut MacTun,
    buf: Vec<u8>,
    e: &mut MacTun,
    r: Vec<u8>,
)
    requires
        call_ensures(MacTun::return_recv_buffer, (d, buf), ()),
        *e == *final(d),
        call_ensures(MacTun::take_recv_buffer, (e,), r),
    ensures
        r@.len() == 0,
        old(d).buffer_pool@.len() < 64 ==> final(d).buffer_pool@.len() == old(d).buffer_pool@.len()
            + 1 && final(d).buffer_pool@.last() == buf,
        old(d).buffer_pool@.len() >= 64 ==> final(d).buffer_pool@ == old(d).buffer_pool@,
        final(d).buffer_pool@.len() > 0 ==> final(e).buffer_pool@ == final(d).buffer_pool@.drop_first(),
{
}

/// What goes to the device is as much of the buffer as was filled.
pub proof fn filled_buffers_are_sent(
    d: &MacTun,
    id: usize,
    given: Option<TunBufferToken>,
    buf: TunBufferToken,
    len: usize,
    r: Vec<u8>,
)
    requires
        len <= buf.data@.len(),
        call_ensures(MacTun::get_tx_buffer, (d, id), given),
        call_ensures(MacTun::send, (d, buf, len), r),
    ensures
        given matches Some(t) && t.signature@[0] == id && t.signature@[1] == d.mtu && t.data@.len()
            == d.mtu,
        r@ == buf.data@.take(len as int),
{
}

/// A device is made with the name and the size that it is given, or `utun` and 1500 bytes. Shutting it
/// down takes its interface down, lets its buffers go, and changes nothing else.
pub proof fn devices_are_made_as_told(
    name: Option<&str>,
    address: IpAddr,
    mtu: Option<usize>,
    fresh: MacTun,
    d: &mut MacTun,
    args: Vec<String>,
    said: Option<u16>,
    found: MacTun,
)
    requires
        call_ensures(MacTun::new, (name, address, mtu), fresh),
        *d == fresh,
        call_ensures(MacTun::shutdown, (d,), args),
        call_ensures(MacTun::from_device, (said,), found),
    ensures
        name matches Some(n) ==> fresh.name@ == n@,
        name is None ==> fresh.name@ == "utun"@,
        mtu is None ==> fresh.mtu == 1500,
        mtu matches Some(n) ==> fresh.mtu == n,
        fresh.address == address && !fresh.closed,
        final(d).closed && final(d).buffer_pool@.len() == 0,
        final(d).mtu == fresh.mtu && final(d).name == fresh.name && final(d).address
            == fresh.address,
        args@.len() == 2 && args@[0]@ == fresh.name@ && args@[1]@ == "down"@,
        said is None ==> found.mtu == 1500,
        said matches Some(n) ==> found.mtu == n,
{
    let t = crate::text::texts(args@);
    assert(t.len() == 2);
    assert(t[0] == args@[0]@ && t[1] == args@[1]@);
}

} // verus!
