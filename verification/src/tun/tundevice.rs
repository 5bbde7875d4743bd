//! A TUN device with pools of buffers.
use std::collections::VecDeque;
use vstd::prelude::*;
use vstd::slice::slice_subrange;
use vstd::slice::slice_to_vec;

use crate::flow::tun::TunBufferToken;
use crate::net::Ipv4Addr;
use crate::net_text::dotted;
use crate::net_text::ipv4_text;
use crate::text::texts;

verus! {

/// As many zeros as a device takes bytes.
pub open spec fn zeros(n: nat) -> Seq<u8> {
    Seq::new(n, |i: int| 0u8)
}

/// The first `n` bytes of `b`, with zeros behind where there are fewer.
pub open spec fn resized(b: Seq<u8>, n: nat) -> Seq<u8> {
    Seq::new(
        n,
        |i: int|
            if i < b.len() {
                b[i]
            } else {
                0u8
            },
    )
}

fn zero_buffer(n: usize) -> (r: Vec<u8>)
    ensures
        r@ == zeros(n as nat),
{
    let mut data: Vec<u8> = Vec::new();
    data.resize(n, 0);
    assert(data@ =~= zeros(n as nat));
    data
}

/// A device.
pub struct TunDevice {
    pub mtu: usize,
    pub ip_addr: Option<Ipv4Addr>,
    pub netmask: Option<Ipv4Addr>,
    pub name: String,
    pub rx_buffers: VecDeque<Vec<u8>>,
    pub tx_buffers: VecDeque<TunBufferToken>,
    pub running: bool,
}

/// The arguments of a command.
pub struct DeviceCommand {
    pub program: String,
    pub args: Vec<String>,
}

impl TunDevice {
    /// A device with `buffer_count` buffers of each kind.
    pub fn new(name: &str, mtu: usize, buffer_count: usize) -> (r: Self)
        ensures
            r.mtu == mtu,
            r.ip_addr is None,
            r.netmask is None,
            r.name@ == name@,
            !r.running,
            r.rx_buffers@.len() == buffer_count,
            forall|i: int| 0 <= i < buffer_count ==> (#[trigger] r.rx_buffers@[i])@ == zeros(mtu as nat),
            r.tx_buffers@.len() == buffer_count,
            forall|i: int|
                0 <= i < buffer_count ==> (#[trigger] r.tx_buffers@[i]).data@ == zeros(mtu as nat)
                    && r.tx_buffers@[i].signature@ == seq![i as usize, i as usize],
    {
        let mut rx_buffers: VecDeque<Vec<u8>> = VecDeque::new();
        let mut tx_buffers: VecDeque<TunBufferToken> = VecDeque::new();
        let mut i: usize = 0;
        while i < buffer_count
            invariant
                i <= buffer_count,
                rx_buffers@.len() == i,
                forall|j: int| 0 <= j < i ==> (#[trigger] rx_buffers@[j])@ == zeros(mtu as nat),
                tx_buffers@.len() == i,
                forall|j: int|
                    0 <= j < i ==> (#[trigger] tx_buffers@[j]).data@ == zeros(mtu as nat)
                        && tx_buffers@[j].signature@ == seq![j as usize, j as usize],
            decreases buffer_count - i,
        {
            rx_buffers.push_back(zero_buffer(mtu));
            let t = TunBufferToken::new([i, i], zero_buffer(mtu));
            assert(t.signature@ =~= seq![i, i]);
            tx_buffers.push_back(t);
            i += 1;
        }
        TunDevice {
            mtu,
            ip_addr: None,
            netmask: None,
            name: name.to_string(),
            rx_buffers,
            tx_buffers,
            running: false,
        }
    }

    /// Whether only the buffers differ from those of `before`.
    pub open spec fn same_but_buffers(&self, before: TunDevice) -> bool {
        &&& self.mtu == before.mtu
        &&& self.ip_addr == before.ip_addr
        &&& self.netmask == before.netmask
        &&& self.name == before.name
        &&& self.running == before.running
    }

    /// Gives the device an address. Returns the command that sets it: the address is also that of
    /// the other end.
    pub fn configure_ip(&mut self, ip_addr: Ipv4Addr, netmask: Ipv4Addr) -> (r: DeviceCommand)
        ensures
            final(self).ip_addr == Some(ip_addr),
            final(self).netmask == Some(netmask),
            final(self).mtu == old(self).mtu,
            final(self).name == old(self).name,
            final(self).rx_buffers == old(self).rx_buffers,
            final(self).tx_buffers == old(self).tx_buffers,
            final(self).running == old(self).running,
            r.program@ == "ifconfig"@,
            texts(r.args@) == seq![
                old(self).name@,
                "inet"@,
                dotted(ip_addr.bits),
                dotted(ip_addr.bits),
                "netmask"@,
                dotted(netmask.bits),
                "up"@,
            ],
    {
        self.ip_addr = Some(ip_addr);
        self.netmask = Some(netmask);
        let args = vec![
            self.name.clone(),
            "inet".to_string(),
            ipv4_text(ip_addr),
            ipv4_text(ip_addr),
            "netmask".to_string(),
            ipv4_text(netmask),
            "up".to_string(),
        ];
        assert(texts(args@) =~= seq![
            old(self).name@,
            "inet"@,
            dotted(ip_addr.bits),
            dotted(ip_addr.bits),
            "netmask"@,
            dotted(netmask.bits),
            "up"@,
        ]);
        DeviceCommand { program: "ifconfig".to_string(), args }
    }

    /// The command that follows once the address is set.
    pub fn point_to_point(&self) -> (r: DeviceCommand)
        ensures
            r.program@ == "ifconfig"@,
            texts(r.args@) == seq![self.name@, "link0"@],
    {
        let args = vec![self.name.clone(), "link0".to_string()];
        assert(texts(args@) =~= seq![self.name@, "link0"@]);
        DeviceCommand { program: "ifconfig".to_string(), args }
    }

    pub fn start(&mut self)
        ensures
            *final(self) == (TunDevice { running: true, ..*old(self) }),
    {
        self.running = true;
    }

    pub fn stop(&mut self)
        ensures
            *final(self) == (TunDevice { running: false, ..*old(self) }),
    {
        self.running = false;
    }

    /// The command that sends traffic for a target through the device; nothing while the device
    /// has no address.
    pub fn add_route(&self, target: &str) -> (r: Option<DeviceCommand>)
        ensures
            match r {
                Some(c) => self.ip_addr is Some && c.program@ == "route"@ && texts(c.args@) == seq![
                    "-n"@,
                    "add"@,
                    "-net"@,
                    target@,
                    "-interface"@,
                    self.name@,
                ],
                None => self.ip_addr is None,
            },
    {
        match self.ip_addr {
            Some(_) => {
                let args = vec![
                    "-n".to_string(),
                    "add".to_string(),
                    "-net".to_string(),
                    target.to_string(),
                    "-interface".to_string(),
                    self.name.clone(),
                ];
                assert(texts(args@) =~= seq![
                    "-n"@,
                    "add"@,
                    "-net"@,
                    target@,
                    "-interface"@,
                    self.name@,
                ]);
                Some(DeviceCommand { program: "route".to_string(), args })
            },
            None => None,
        }
    }

    /// The commands that send all traffic through the device, one for each half of the addresses;
    /// none while the device has no address.
    pub fn add_default_routes(&self) -> (r: Vec<DeviceCommand>)
        ensures
            r@.len() == (if self.ip_addr is Some {
                2nat
            } else {
                0nat
            }),
            forall|i: int|
                0 <= i < r@.len() ==> (#[trigger] r@[i]).program@ == "route"@ && texts(r@[i].args@)
                    == seq![
                    "-n"@,
                    "add"@,
                    "-net"@,
                    if i == 0 {
                        "0.0.0.0/1"@
                    } else {
                        "128.0.0.0/1"@
                    },
                    "-interface"@,
                    self.name@,
                ],
    {
        let mut r: Vec<DeviceCommand> = Vec::new();
        if let Some(c) = self.add_route("0.0.0.0/1") {
            r.push(c);
        }
        if let Some(c) = self.add_route("128.0.0.0/1") {
            r.push(c);
        }
        r
    }

    pub fn get_name(&self) -> (r: &str)
        ensures
            r@ == self.name@,
    {
        self.name.as_str()
    }

    pub fn get_address(&self) -> (r: Option<Ipv4Addr>)
        ensures
            r == self.ip_addr,
    {
        self.ip_addr
    }

    pub fn get_netmask(&self) -> (r: Option<Ipv4Addr>)
        ensures
            r == self.netmask,
    {
        self.netmask
    }

    /// A buffer to read into: one from the pool, or a new one. It is as long as the MTU.
    pub fn take_recv_buffer(&mut self) -> (r: Vec<u8>)
        ensures
            final(self).same_but_buffers(*old(self)),
            final(self).tx_buffers == old(self).tx_buffers,
            if old(self).rx_buffers@.len() > 0 {
                r@ == resized(old(self).rx_buffers@[0]@, old(self).mtu as nat)
                    && final(self).rx_buffers@ == old(self).rx_buffers@.subrange(
                    1,
                    old(self).rx_buffers@.len() as int,
                )
            } else {
                r@ == zeros(old(self).mtu as nat) && final(self).rx_buffers@ == old(
                    self,
                ).rx_buffers@
            },
    {
        match self.rx_buffers.pop_front() {
            Some(b) => {
                let mut b = b;
                b.resize(self.mtu, 0);
                assert(b@ =~= resized(old(self).rx_buffers@[0]@, self.mtu as nat));
                b
            },
            None => zero_buffer(self.mtu),
        }
    }

    /// What a reader gets after `read` bytes were read into `buffer`; `None` stands for a read that
    /// failed. Where nothing was read, the buffer goes back to the pool.
    pub fn blocking_recv(&mut self, buffer: Vec<u8>, read: Option<usize>) -> (r: Option<Vec<u8>>)
        requires
            read matches Some(n) ==> n <= buffer@.len(),
        ensures
            final(self).same_but_buffers(*old(self)),
            final(self).tx_buffers == old(self).tx_buffers,
            match read {
                Some(n) if n > 0 => r matches Some(b) && b@ == buffer@.subrange(0, n as int)
                    && final(self).rx_buffers == old(self).rx_buffers,
                _ => r is None && final(self).rx_buffers@ == old(self).rx_buffers@.push(buffer),
            },
    {
        if let Some(n) = read {
            if n > 0 {
                let mut b = buffer;
                b.truncate(n);
                assert(b@ =~= buffer@.subrange(0, n as int));
                return Some(b);
            }
        }
        self.rx_buffers.push_back(buffer);
        None
    }

    pub fn return_recv_buffer(&mut self, buf: Vec<u8>)
        ensures
            final(self).same_but_buffers(*old(self)),
            final(self).tx_buffers == old(self).tx_buffers,
            final(self).rx_buffers@ == old(self).rx_buffers@.push(buf),
    {
        self.rx_buffers.push_back(buf);
    }

    /// A buffer to send from, while there are any.
    pub fn get_tx_buffer(&mut self) -> (r: Option<TunBufferToken>)
        ensures
            final(self).same_but_buffers(*old(self)),
            final(self).rx_buffers == old(self).rx_buffers,
            match r {
                Some(t) => old(self).tx_buffers@.len() > 0 && t == old(self).tx_buffers@[0]
                    && final(self).tx_buffers@ == old(self).tx_buffers@.subrange(
                    1,
                    old(self).tx_buffers@.len() as int,
                ),
                None => old(self).tx_buffers@.len() == 0 && final(self).tx_buffers@ == old(
                    self,
                ).tx_buffers@,
            },
    {
        self.tx_buffers.pop_front()
    }

    /// What goes to the device: the first `len` bytes of a buffer, which goes back to the pool.
    pub fn send(&mut self, buf: TunBufferToken, len: usize) -> (r: Vec<u8>)
        requires
            len <= buf.data@.len(),
        ensures
            final(self).same_but_buffers(*old(self)),
            final(self).rx_buffers == old(self).rx_buffers,
            final(self).tx_buffers@ == old(self).tx_buffers@.push(buf),
            r@ == buf.data@.subrange(0, len as int),
    {
        let r = slice_to_vec(slice_subrange(buf.data.as_slice(), 0, len));
        self.return_tx_buffer(buf);
        r
    }

    /// What becomes of a buffer that was written whole: it goes back to the pool, unless writing
    /// failed.
    pub fn send_buffer(&mut self, buf: TunBufferToken, written: bool) -> (r: bool)
        ensures
            final(self).same_but_buffers(*old(self)),
            final(self).rx_buffers == old(self).rx_buffers,
            final(self).tx_buffers@ == (if written {
                old(self).tx_buffers@.push(buf)
            } else {
                old(self).tx_buffers@
            }),
            r == written,
    {
        if written {
            self.return_tx_buffer(buf);
        }
        written
    }

    pub fn return_tx_buffer(&mut self, buf: TunBufferToken)
        ensures
            final(self).same_but_buffers(*old(self)),
            final(self).rx_buffers == old(self).rx_buffers,
            final(self).tx_buffers@ == old(self).tx_buffers@.push(buf),
    {
        self.tx_buffers.push_back(buf);
    }
}

/// What the task that reads and writes does after it looked for a packet: how many milliseconds it
/// waits. `taken` says whether someone took the packet.
pub fn io_loop(got_packet: bool, taken: bool) -> (r: u64)
    ensures
        r == (if !got_packet {
            10u64
        } else if !taken {
            100
        } else {
            0
        }),
{
    if !got_packet {
        10
    } else if !taken {
        100
    } else {
        0
    }
}

/// No buffer is lost: where one is taken from `before`, and goes back to what is left, all are
/// there again, and the one that was used is the last to be taken.
pub proof fn buffers_go_round(before: TunDevice, left: TunDevice, after: TunDevice)
    requires
        before.tx_buffers@.len() > 0,
        left.tx_buffers@ == before.tx_buffers@.subrange(1, before.tx_buffers@.len() as int),
        after.tx_buffers@ == left.tx_buffers@.push(before.tx_buffers@[0]),
    ensures
        after.tx_buffers@.to_multiset() == before.tx_buffers@.to_multiset(),
        after.tx_buffers@.last() == before.tx_buffers@[0],
{
    let b = before.tx_buffers@;
    b.to_multiset_ensures();
    left.tx_buffers@.to_multiset_ensures();
    assert(left.tx_buffers@ =~= b.remove(0));
    assert(b.to_multiset().count(b[0]) > 0);
    assert(after.tx_buffers@.to_multiset() =~= b.to_multiset());
}

// ---- Laws ----
/// What was read is what the reader gets, no more and no less; where nothing was read, the buffer is the
/// last of the pool.
pub proof fn reads_are_cut_to_size(
    d: &mut TunDevice,
    buffer: Vec<u8>,
    read: Option<usize>,
    r: Option<Vec<u8>>,
)
    requires
        read matches Some(n) ==> n <= buffer@.len(),
        call_ensures(TunDevice::blocking_recv, (d, buffer, read), r),
    ensures
        r is Some <==> (read matches Some(n) && n != 0),
        r matches Some(b) ==> b@.len() == read->Some_0 && b@ == buffer@.take(read->Some_0 as int)
            && final(d).rx_buffers@ == old(d).rx_buffers@,
        r is None ==> final(d).rx_buffers@.len() == old(d).rx_buffers@.len() + 1 && final(d).rx_buffers@.last() == buffer,
{
}

/// A buffer to read into is always as long as the device takes bytes, whatever was in the pool, and the
/// oldest of the pool is used before a new one is made.
pub proof fn read_buffers_have_full_size(d: &mut TunDevice, r: Vec<u8>)
    requires
        call_ensures(TunDevice::take_recv_buffer, (d,), r),
    ensures
        r@.len() == old(d).mtu,
        old(d).rx_buffers@.len() > 0 ==> final(d).rx_buffers@ == old(d).rx_buffers@.drop_first()
            && forall|i: int|
            0 <= i < r@.len() && i < old(d).rx_buffers@[0]@.len() ==> r@[i] == old(d).rx_buffers@[0]@[i],
        old(d).rx_buffers@.len() == 0 ==> final(d).rx_buffers@.len() == 0 && forall|i: int|
            0 <= i < r@.len() ==> r@[i] == 0,
{
}

/// A buffer to send from leaves the pool and comes back to it when it is sent, so that the pool never
/// grows or shrinks; one that could not be written is lost.
pub proof fn send_buffers_come_back(
    d: &mut TunDevice,
    given: Option<TunBufferToken>,
    e: &mut TunDevice,
    len: usize,
    sent: Vec<u8>,
    f: &mut TunDevice,
    written: bool,
    ok: bool,
)
    requires
        call_ensures(TunDevice::get_tx_buffer, (d,), given),
        given is Some ==> len <= given->Some_0.data@.len(),
        given is Some,
        *e == *final(d),
        call_ensures(TunDevice::send, (e, given->Some_0, len), sent),
        *f == *final(d),
        call_ensures(TunDevice::send_buffer, (f, given->Some_0, written), ok),
    ensures
        sent@ == given->Some_0.data@.take(len as int),
        final(e).tx_buffers@.len() == old(d).tx_buffers@.len(),
        final(e).tx_buffers@.to_multiset() == old(d).tx_buffers@.to_multiset(),
        ok == written,
        final(f).tx_buffers@.len() + (if written {
            0int
        } else {
            1int
        }) == old(d).tx_buffers@.len(),
{
    buffers_go_round(*old(d), *final(d), *final(e));
}

/// A pool that is empty gives no buffer to send from, and one that is not gives its oldest.
pub proof fn oldest_send_buffer_is_given(d: &mut TunDevice, given: Option<TunBufferToken>)
    requires
        call_ensures(TunDevice::get_tx_buffer, (d,), given),
    ensures
        given is None <==> old(d).tx_buffers@.len() == 0,
        given matches Some(t) ==> t == old(d).tx_buffers@.first() && final(d).tx_buffers@ == old(d).tx_buffers@.drop_first(),
{
}

/// Routes lead through the device once it has an address, and the two default routes cover all
/// addresses, one half each.
pub proof fn routes_need_an_address(
    d: &mut TunDevice,
    ip: Ipv4Addr,
    mask: Ipv4Addr,
    set: DeviceCommand,
    target: &str,
    before: Option<DeviceCommand>,
    after: Option<DeviceCommand>,
    defaults: Vec<DeviceCommand>,
    name: &str,
    address: Option<Ipv4Addr>,
    netmask: Option<Ipv4Addr>,
)
    requires
        d.ip_addr is None,
        call_ensures(TunDevice::add_route, (&*old(d), target), before),
        call_ensures(TunDevice::configure_ip, (d, ip, mask), set),
        call_ensures(TunDevice::add_route, (&*final(d), target), after),
        call_ensures(TunDevice::add_default_routes, (&*final(d),), defaults),
        call_ensures(TunDevice::get_name, (&*final(d),), name),
        call_ensures(TunDevice::get_address, (&*final(d),), address),
        call_ensures(TunDevice::get_netmask, (&*final(d),), netmask),
    ensures
        before is None,
        after matches Some(c) && c.program@ == "route"@ && c.args@.len() == 6 && c.args@[1]@
            == "add"@ && c.args@[3]@ == target@ && c.args@[4]@ == "-interface"@ && c.args@[5]@
            == name@,
        defaults@.len() == 2 && defaults@[0].args@[3]@ == "0.0.0.0/1"@ && defaults@[1].args@[3]@
            == "128.0.0.0/1"@ && defaults@[0].args@[5]@ == name@ && defaults@[1].args@[5]@ == name@,
        address == Some(ip) && netmask == Some(mask) && name@ == old(d).name@,
        set.args@.len() == 7 && set.args@[0]@ == name@ && set.args@[2]@ == dotted(ip.bits)
            && set.args@[3]@ == dotted(ip.bits) && set.args@[5]@ == dotted(mask.bits)
            && set.args@[6]@ == "up"@,
{
    let t = texts(after->Some_0.args@);
    assert(t.len() == 6);
    assert(t[1] == after->Some_0.args@[1]@ && t[3] == after->Some_0.args@[3]@ && t[4]
        == after->Some_0.args@[4]@ && t[5] == after->Some_0.args@[5]@);
    assert(defaults@[0].program@ == "route"@ && defaults@[1].program@ == "route"@);
    let u = texts(defaults@[0].args@);
    assert(u.len() == 6);
    assert(u[3] == defaults@[0].args@[3]@ && u[5] == defaults@[0].args@[5]@);
    let v = texts(defaults@[1].args@);
    assert(v.len() == 6);
    assert(v[3] == defaults@[1].args@[3]@ && v[5] == defaults@[1].args@[5]@);
    let w = texts(set.args@);
    assert(w.len() == 7);
    assert(w[0] == set.args@[0]@ && w[2] == set.args@[2]@ && w[3] == set.args@[3]@ && w[5]
        == set.args@[5]@ && w[6] == set.args@[6]@);
}

/// A device runs from when it is started to when it is stopped, with nothing else changed.
pub proof fn devices_run_until_stopped(d: &mut TunDevice, e: &mut TunDevice)
    requires
        call_ensures(TunDevice::start, (d,), ()),
        *e == *final(d),
        call_ensures(TunDevice::stop, (e,), ()),
    ensures
        final(d).running,
        !final(e).running,
        final(d).same_but_buffers(TunDevice { running: true, ..*old(d) }),
        final(e).rx_buffers == old(d).rx_buffers && final(e).tx_buffers == old(d).tx_buffers,
{
}

/// The task of a device waits longest where nobody takes what it got, and not at all where somebody does.
pub proof fn device_tasks_wait(got: bool, taken: bool, r: u64)
    requires
        call_ensures(io_loop, (got, taken), r),
    ensures
        r == 0 <==> got && taken,
        r == 10 <==> !got,
        r == 100 <==> got && !taken,
{
}

} // verus!
