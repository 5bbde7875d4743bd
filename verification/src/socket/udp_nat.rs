//! Which client is behind a datagram that the proxy sent in its place.
use vstd::prelude::*;

use crate::flow::DestView;
use crate::flow::DestinationAddr;
use crate::flow::HostName;
use crate::flow::HostView;
use crate::net::IpAddr;
use crate::net::Ipv4Addr;
use crate::net::SocketAddr;
use crate::tables::distinct_keys;
use crate::tables::has_key;
use crate::tables::kept;
use crate::tables::key_pos;
use crate::tables::map_of;

verus! {

/// The address that the proxy sent from, and the address it sent to.
#[derive(Clone, Copy, PartialEq, Eq, Structural, Debug, Hash)]
pub struct UdpNatKey {
    pub local_addr: SocketAddr,
    pub remote_addr: SocketAddr,
}

/// The client, and when it was seen, in milliseconds on a clock that does not go back.
#[derive(Clone, Copy, PartialEq, Eq, Structural, Debug)]
pub struct UdpNatValue {
    pub client_addr: SocketAddr,
    pub created_at: u64,
}

/// The clients that are known, and for how many milliseconds they are.
pub struct UdpNatManager {
    pub mappings: Vec<(UdpNatKey, UdpNatValue)>,
    pub timeout: u64,
}

/// Seconds for which a client is known.
pub const UDP_NAT_TIMEOUT_SECS: u64 = 300;

/// The port of the server for fake addresses.
pub const FAKE_DNS_PORT: u16 = 6353;

/// 127.0.0.1
pub const LOCALHOST: u32 = 0x7f00_0001;

impl View for UdpNatManager {
    type V = Map<UdpNatKey, UdpNatValue>;

    open spec fn view(&self) -> Map<UdpNatKey, UdpNatValue> {
        map_of(self.mappings@)
    }
}

impl UdpNatManager {
    pub open spec fn wf(&self) -> bool {
        distinct_keys(self.mappings@)
    }

    pub fn new(timeout_secs: u64) -> (m: Self)
        requires
            timeout_secs * 1000 <= u64::MAX,
        ensures
            m.wf(),
            m@ == Map::<UdpNatKey, UdpNatValue>::empty(),
            m.timeout == timeout_secs * 1000,
    {
        let m = UdpNatManager { mappings: Vec::new(), timeout: timeout_secs * 1000 };
        assert(m@ =~= Map::<UdpNatKey, UdpNatValue>::empty());
        m
    }

    fn position(&self, key: UdpNatKey) -> (p: usize)
        ensures
            p == key_pos(self.mappings@, key),
            p <= self.mappings@.len(),
            p < self.mappings@.len() ==> self.mappings@[p as int].0 == key,
            (p < self.mappings@.len()) == self@.contains_key(key),
    {
        let mut i: usize = 0;
        while i < self.mappings.len() && self.mappings[i].0 != key
            invariant
                i <= self.mappings@.len(),
                forall|j: int| 0 <= j < i ==> (#[trigger] self.mappings@[j]).0 != key,
            decreases self.mappings@.len() - i,
        {
            i += 1;
        }
        proof {
            crate::tables::lemma_key_pos_is(self.mappings@, key, i as int);
        }
        i
    }

    /// The client `client_addr` sends to `remote_addr` by way of `local_addr`.
    pub fn add_mapping(
        &mut self,
        client_addr: SocketAddr,
        local_addr: SocketAddr,
        remote_addr: SocketAddr,
        now: u64,
    )
        requires
            old(self).wf(),
        ensures
            final(self).wf(),
            final(self).timeout == old(self).timeout,
            final(self)@ == old(self)@.insert(
                UdpNatKey { local_addr, remote_addr },
                UdpNatValue { client_addr, created_at: now },
            ),
    {
        let key = UdpNatKey { local_addr, remote_addr };
        let value = UdpNatValue { client_addr, created_at: now };
        let p: usize = self.position(key);
        if p < self.mappings.len() {
            proof {
                crate::tables::lemma_update(self.mappings@, p as int, value);
            }
            self.mappings[p] = (key, value);
        } else {
            proof {
                crate::tables::lemma_push(self.mappings@, key, value);
            }
            self.mappings.push((key, value));
        }
    }

    /// The client behind a datagram between `local_addr` and `remote_addr`.
    pub fn lookup_client(&self, local_addr: SocketAddr, remote_addr: SocketAddr) -> (r: Option<
        SocketAddr,
    >)
        ensures
            r == (if self@.contains_key(UdpNatKey { local_addr, remote_addr }) {
                Some(self@[UdpNatKey { local_addr, remote_addr }].client_addr)
            } else {
                None
            }),
    {
        let p: usize = self.position(UdpNatKey { local_addr, remote_addr });
        if p < self.mappings.len() {
            Some(self.mappings[p].1.client_addr)
        } else {
            None
        }
    }

    /// Whether a client that was seen at `created_at` is still known at `now`. A clock that seems
    /// to have gone back counts as if no time had passed.
    pub open spec fn alive(timeout: u64, now: u64, created_at: u64) -> bool {
        (if now >= created_at {
            now - created_at
        } else {
            0
        }) < timeout
    }

    /// Forgets the clients that were seen too long ago.
    pub fn cleanup(&mut self, now: u64)
        requires
            old(self).wf(),
        ensures
            final(self).wf(),
            final(self).timeout == old(self).timeout,
            forall|k: UdpNatKey|
                #![trigger final(self)@.contains_key(k)]
                #![trigger final(self)@[k]]
                (final(self)@.contains_key(k) <==> old(self)@.contains_key(k) && Self::alive(
                    old(self).timeout,
                    now,
                    old(self)@[k].created_at,
                )) && (final(self)@.contains_key(k) ==> final(self)@[k] == old(self)@[k]),
    {
        let ghost before = self.mappings@;
        let timeout: u64 = self.timeout;
        let ghost keep = |v: UdpNatValue| Self::alive(timeout, now, v.created_at);
        let mut left: Vec<(UdpNatKey, UdpNatValue)> = Vec::new();
        let mut i: usize = 0;
        assert(before.subrange(0, 0) =~= Seq::empty());
        while i < self.mappings.len()
            invariant
                i <= self.mappings@.len(),
                before == self.mappings@,
                keep == (|v: UdpNatValue| Self::alive(timeout, now, v.created_at)),
                left@ == kept(before.subrange(0, i as int), keep),
            decreases self.mappings@.len() - i,
        {
            let (key, value) = self.mappings[i];
            let age: u64 = if now >= value.created_at {
                now - value.created_at
            } else {
                0
            };
            assert(before.subrange(0, i + 1).drop_last() =~= before.subrange(0, i as int));
            assert(before.subrange(0, i + 1).last() == (key, value));
            if age < timeout {
                left.push((key, value));
            }
            i += 1;
        }
        assert(before.subrange(0, i as int) =~= before);
        proof {
            crate::tables::lemma_kept(before, keep);
        }
        self.mappings = left;
        assert forall|k: UdpNatKey| (#[trigger] self@.contains_key(k) <==> old(self)@.contains_key(
            k,
        ) && Self::alive(timeout, now, old(self)@[k].created_at)) && (self@.contains_key(k)
            ==> self@[k] == old(self)@[k]) by {
            assert(has_key(kept(before, keep), k) == self@.contains_key(k));
            assert(has_key(before, k) == old(self)@.contains_key(k));
            assert(keep(map_of(before)[k]) == Self::alive(
                timeout,
                now,
                old(self)@[k].created_at,
            ));
        }
    }
}

/// Where a datagram of a client goes: a DNS query to an address goes to the server for fake
/// addresses.
pub open spec fn redirected(dest: DestView) -> DestView {
    if dest.port == 53 && dest.host is Ip {
        DestView {
            host: HostView::Ip(IpAddr::V4(Ipv4Addr { bits: LOCALHOST })),
            port: FAKE_DNS_PORT,
        }
    } else {
        dest
    }
}

/// Redirects a DNS query of a client, and remembers the client.
pub fn redirect_dns_request(
    manager: &mut UdpNatManager,
    client_addr: SocketAddr,
    original_dest: DestinationAddr,
    now: u64,
) -> (r: DestinationAddr)
    requires
        old(manager).wf(),
    ensures
        final(manager).wf(),
        final(manager).timeout == old(manager).timeout,
        r@ == redirected(original_dest@),
        final(manager)@ == (match original_dest@ {
            DestView { host: HostView::Ip(ip), port: 53 } => old(manager)@.insert(
                UdpNatKey {
                    local_addr: SocketAddr {
                        ip: IpAddr::V4(Ipv4Addr { bits: LOCALHOST }),
                        port: 0,
                    },
                    remote_addr: SocketAddr { ip, port: 53 },
                },
                UdpNatValue { client_addr, created_at: now },
            ),
            _ => old(manager)@,
        }),
{
    if original_dest.port == 53 {
        if let HostName::Ip(ip) = &original_dest.host {
            let local = IpAddr::V4(Ipv4Addr { bits: LOCALHOST });
            manager.add_mapping(
                client_addr,
                SocketAddr { ip: local, port: 0 },
                SocketAddr { ip: *ip, port: 53 },
                now,
            );
            return DestinationAddr { host: HostName::Ip(local), port: FAKE_DNS_PORT };
        }
    }
    original_dest
}

/// The client for which the server at `server_addr` was asked.
pub fn lookup_original_client(
    manager: &UdpNatManager,
    server_addr: SocketAddr,
    local_addr: SocketAddr,
) -> (r: Option<SocketAddr>)
    ensures
        r == (if manager@.contains_key(UdpNatKey { local_addr, remote_addr: server_addr }) {
            Some(manager@[UdpNatKey { local_addr, remote_addr: server_addr }].client_addr)
        } else {
            None
        }),
{
    manager.lookup_client(local_addr, server_addr)
}

/// After a query to the server at `ip` was redirected, the client is found under the address of
/// that server.
pub proof fn redirected_client_is_found(
    table: Map<UdpNatKey, UdpNatValue>,
    client_addr: SocketAddr,
    ip: IpAddr,
    now: u64,
)
    ensures
        ({
            let key = UdpNatKey {
                local_addr: SocketAddr { ip: IpAddr::V4(Ipv4Addr { bits: LOCALHOST }), port: 0 },
                remote_addr: SocketAddr { ip, port: 53 },
            };
            let t = table.insert(key, UdpNatValue { client_addr, created_at: now });
            t.contains_key(key) && t[key].client_addr == client_addr
        }),
{
}

// ---- Laws ----
/// A client that was added is found under both addresses, and only so; another pair of addresses finds
/// what it found before. A sweep forgets it exactly where its time has run out, and touches no other
/// pair whose time has not.
pub proof fn clients_are_known_for_their_time(
    m: &mut UdpNatManager,
    client: SocketAddr,
    local: SocketAddr,
    remote: SocketAddr,
    now: u64,
    found: Option<SocketAddr>,
    other_local: SocketAddr,
    other_remote: SocketAddr,
    other_before: Option<SocketAddr>,
    other_after: Option<SocketAddr>,
    swept: &mut UdpNatManager,
    later: u64,
    left: Option<SocketAddr>,
)
    requires
        m.wf(),
        now <= later,
        local != other_local || remote != other_remote,
        call_ensures(UdpNatManager::lookup_client, (&*old(m), other_local, other_remote), other_before),
        call_ensures(UdpNatManager::add_mapping, (m, client, local, remote, now), ()),
        call_ensures(UdpNatManager::lookup_client, (&*final(m), local, remote), found),
        call_ensures(UdpNatManager::lookup_client, (&*final(m), other_local, other_remote), other_after),
        *swept == *final(m),
        call_ensures(UdpNatManager::cleanup, (swept, later), ()),
        call_ensures(UdpNatManager::lookup_client, (&*final(swept), local, remote), left),
    ensures
        found == Some(client),
        other_after == other_before,
        later - now < old(m).timeout ==> left == Some(client),
        later - now >= old(m).timeout ==> left is None,
{
}

/// A fresh table knows nobody, and keeps clients for the seconds that it was made with.
pub proof fn fresh_tables_know_nobody(
    secs: u64,
    m: UdpNatManager,
    local: SocketAddr,
    remote: SocketAddr,
    found: Option<SocketAddr>,
)
    requires
        secs * 1000 <= u64::MAX,
        call_ensures(UdpNatManager::new, (secs,), m),
        call_ensures(UdpNatManager::lookup_client, (&m, local, remote), found),
    ensures
        found is None,
        m.timeout == secs * 1000,
        m.wf(),
{
}

/// A DNS query to an address goes to port 6353 of 127.0.0.1, and its client is found again by the server
/// that it asked. Whatever else a client sends goes where it was sent, and changes nothing.
pub proof fn queries_find_their_client(
    m: &mut UdpNatManager,
    client: SocketAddr,
    dest: DestinationAddr,
    now: u64,
    r: DestinationAddr,
    found: Option<SocketAddr>,
)
    requires
        m.wf(),
        call_ensures(redirect_dns_request, (m, client, dest, now), r),
        call_ensures(
            lookup_original_client,
            (
                &*final(m),
                SocketAddr {
                    ip: if dest@.host is Ip {
                        dest@.host->Ip_0
                    } else {
                        client.ip
                    },
                    port: 53,
                },
                SocketAddr {
                    ip: IpAddr::V4(Ipv4Addr { bits: (127 * 0x100_0000 + 1) as u32 }),
                    port: 0,
                },
            ),
            found,
        ),
    ensures
        dest@.host is Ip && dest@.port == 53 ==> found == Some(client) && r@.port == 6353
            && r@.host == HostView::Ip(IpAddr::V4(Ipv4Addr { bits: (127 * 0x100_0000 + 1) as u32 })),
        !(dest@.host is Ip && dest@.port == 53) ==> r@ == dest@ && final(m)@ == old(m)@,
{
}

/// By default a client is known for five minutes.
pub proof fn clients_are_known_for_five_minutes(m: UdpNatManager)
    requires
        call_ensures(UdpNatManager::new, (UDP_NAT_TIMEOUT_SECS,), m),
    ensures
        m.timeout == 5 * 60 * 1000,
{
}

} // verus!
