//! UDP sessions by the address of their client, and when they expire.
use vstd::prelude::*;

use crate::net::SocketAddr;
use crate::tables::has_key;
use crate::tables::lemma_key_pos;
use crate::tables::lemma_key_pos_is;
use crate::tables::lemma_remove;
use crate::tables::lemma_update;
use crate::tables::map_of;
use crate::tables::AddrMap;

verus! {

/// How long ago `then` was at `now`; nothing where it lies ahead.
pub open spec fn age(now: u64, then: u64) -> nat {
    if now >= then {
        (now - then) as nat
    } else {
        0
    }
}

/// What is known of the times of a session. All times are on one clock.
pub trait UdpSessionInfo: Sized {
    spec fn created(&self) -> u64;

    spec fn active(&self) -> u64;

    /// The session once it was active at `now`.
    spec fn active_at(self, now: u64) -> Self;

    proof fn active_at_is(self, now: u64)
        ensures
            self.active_at(now).active() == now,
            self.active_at(now).created() == self.created(),
    ;

    fn get_created_time(&self) -> (r: u64)
        ensures
            r == self.created(),
    ;

    fn get_last_active(&self) -> (r: u64)
        ensures
            r == self.active(),
    ;

    fn update_last_active(&mut self, now: u64)
        ensures
            *final(self) == old(self).active_at(now),
    ;

    /// Whether the session has been idle for longer than `timeout`.
    fn is_expired(&self, now: u64, timeout: u64) -> (r: bool)
        ensures
            r == (age(now, self.active()) > timeout),
    {
        let last: u64 = self.get_last_active();
        now >= last && now - last > timeout
    }
}

/// A session, and who handles it.
#[derive(Clone, Copy)]
pub struct BaseUdpSessionInfo<H> {
    pub created_at: u64,
    pub last_active: u64,
    pub handler: H,
}

impl<H> UdpSessionInfo for BaseUdpSessionInfo<H> {
    open spec fn created(&self) -> u64 {
        self.created_at
    }

    open spec fn active(&self) -> u64 {
        self.last_active
    }

    open spec fn active_at(self, now: u64) -> Self {
        BaseUdpSessionInfo { last_active: now, ..self }
    }

    proof fn active_at_is(self, now: u64) {
    }

    fn get_created_time(&self) -> (r: u64) {
        self.created_at
    }

    fn get_last_active(&self) -> (r: u64) {
        self.last_active
    }

    fn update_last_active(&mut self, now: u64) {
        self.last_active = now;
    }
}

/// A session of a SOCKS5 client.
#[derive(Clone, Copy)]
pub struct Socks5UdpSessionInfo<H> {
    pub base: BaseUdpSessionInfo<H>,
    pub relay_addr: SocketAddr,
    pub assoc_id: Option<usize>,
}

impl<H> UdpSessionInfo for Socks5UdpSessionInfo<H> {
    open spec fn created(&self) -> u64 {
        self.base.created()
    }

    open spec fn active(&self) -> u64 {
        self.base.active()
    }

    open spec fn active_at(self, now: u64) -> Self {
        Socks5UdpSessionInfo { base: self.base.active_at(now), ..self }
    }

    proof fn active_at_is(self, now: u64) {
    }

    fn get_created_time(&self) -> (r: u64) {
        self.base.get_created_time()
    }

    fn get_last_active(&self) -> (r: u64) {
        self.base.get_last_active()
    }

    fn update_last_active(&mut self, now: u64) {
        self.base.update_last_active(now);
    }
}

/// Sessions by the address of their client.
pub struct UdpSessionManager<T> {
    pub sessions: AddrMap<T>,
    pub timeout: u64,
}

impl<T: UdpSessionInfo> UdpSessionManager<T> {
    pub open spec fn wf(&self) -> bool {
        self.sessions.wf()
    }

    pub open spec fn map(&self) -> Map<SocketAddr, T> {
        self.sessions@
    }

    pub fn new(timeout: u64) -> (r: Self)
        ensures
            r.wf(),
            r.map() == Map::<SocketAddr, T>::empty(),
            r.timeout == timeout,
    {
        UdpSessionManager { sessions: AddrMap::new(), timeout }
    }

    pub fn insert(&mut self, addr: SocketAddr, session: T)
        requires
            old(self).wf(),
        ensures
            final(self).wf(),
            final(self).map() == old(self).map().insert(addr, session),
            final(self).timeout == old(self).timeout,
    {
        self.sessions.insert(addr, session);
    }

    /// Notes that a session is active, if it is there. Says where it stands.
    fn touch(&mut self, addr: SocketAddr, now: u64) -> (p: Option<usize>)
        requires
            old(self).wf(),
        ensures
            final(self).wf(),
            final(self).timeout == old(self).timeout,
            match p {
                Some(i) => old(self).map().contains_key(addr) && final(self).map() == old(self).map().insert(addr, old(self).map()[addr].active_at(now)) && i < final(self).sessions.entries@.len() && final(self).sessions.entries@[i as int].0 == addr
                    && final(self).sessions.entries@[i as int].1 == final(self).map()[addr],
                None => !old(self).map().contains_key(addr) && final(self).map() == old(self).map(),
            },
    {
        let p: usize = self.sessions.position(addr);
        if p < self.sessions.entries.len() {
            let ghost s = self.sessions.entries@;
            let ghost v = s[p as int].1.active_at(now);
            proof {
                lemma_update(s, p as int, v);
                lemma_key_pos_is(s, addr, p as int);
            }
            self.sessions.entries[p].1.update_last_active(now);
            assert(self.sessions.entries@ =~= s.update(p as int, (addr, v)));
            Some(p)
        } else {
            None
        }
    }

    /// The session of a client, which is active now.
    pub fn get(&mut self, addr: SocketAddr, now: u64) -> (r: Option<&T>)
        requires
            old(self).wf(),
        ensures
            final(self).wf(),
            final(self).timeout == old(self).timeout,
            match r {
                Some(s) => old(self).map().contains_key(addr) && *s == old(self).map()[addr].active_at(now) && final(self).map() == old(self).map().insert(
                    addr,
                    *s,
                ),
                None => !old(self).map().contains_key(addr) && final(self).map() == old(self).map(),
            },
    {
        match self.touch(addr, now) {
            Some(p) => Some(&self.sessions.entries[p].1),
            None => None,
        }
    }

    /// The session of a client, which is active now, to be changed.
    pub fn get_mut(&mut self, addr: SocketAddr, now: u64) -> (r: Option<&mut T>)
        requires
            old(self).wf(),
        ensures
            final(self).wf(),
            final(self).timeout == old(self).timeout,
            match r {
                Some(s) => old(self).map().contains_key(addr) && *s == old(self).map()[addr].active_at(now) && final(self).map() == old(self).map().insert(
                    addr,
                    *final(s),
                ),
                None => !old(self).map().contains_key(addr) && final(self).map() == old(self).map(),
            },
    {
        match self.touch(addr, now) {
            Some(p) => {
                let ghost s = self.sessions.entries@;
                proof {
                    assert forall|v: T| #[trigger]
                        map_of(s.update(p as int, (addr, v))) == old(self).map().insert(addr, v)
                            && crate::tables::distinct_keys(s.update(p as int, (addr, v))) by {
                        lemma_update(s, p as int, v);
                        assert(map_of(s).insert(addr, v) =~= old(self).map().insert(addr, v));
                    }
                }
                Some(&mut self.sessions.entries[p].1)
            },
            None => None,
        }
    }

    pub fn remove(&mut self, addr: SocketAddr) -> (r: Option<T>)
        requires
            old(self).wf(),
        ensures
            final(self).wf(),
            final(self).map() == old(self).map().remove(addr),
            final(self).timeout == old(self).timeout,
            match r {
                Some(v) => old(self).map().contains_key(addr) && v == old(self).map()[addr],
                None => !old(self).map().contains_key(addr),
            },
    {
        self.sessions.remove(addr)
    }

    /// Whether a session may stay at `now`.
    pub open spec fn stays(timeout: u64, now: u64, s: T) -> bool {
        age(now, s.active()) <= timeout
    }

    /// Forgets the sessions that have been idle for longer than the timeout.
    pub fn cleanup_expired(&mut self, now: u64)
        requires
            old(self).wf(),
        ensures
            final(self).wf(),
            final(self).timeout == old(self).timeout,
            forall|k: SocketAddr|
                #![trigger final(self).map().contains_key(k)]
                #![trigger final(self).map()[k]]
                (final(self).map().contains_key(k) <==> old(self).map().contains_key(k)
                    && Self::stays(old(self).timeout, now, old(self).map()[k])) && (final(self).map().contains_key(k) ==> final(self).map()[k] == old(self).map()[k]),
    {
        let timeout: u64 = self.timeout;
        let ghost before = self.map();
        let mut i: usize = 0;
        while i < self.sessions.entries.len()
            invariant
                i <= self.sessions.entries@.len(),
                self.wf(),
                self.timeout == timeout,
                forall|k: SocketAddr| #[trigger]
                    self.map().contains_key(k) ==> before.contains_key(k) && self.map()[k]
                        == before[k],
                forall|k: SocketAddr| #[trigger]
                    before.contains_key(k) && Self::stays(timeout, now, before[k])
                        ==> self.map().contains_key(k),
                forall|j: int|
                    0 <= j < i ==> Self::stays(timeout, now, (#[trigger] self.sessions.entries@[j]).1),
            decreases self.sessions.entries@.len() - i,
        {
            let ghost s = self.sessions.entries@;
            proof {
                lemma_key_pos_is(s, s[i as int].0, i as int);
                assert(self.map().contains_key(s[i as int].0));
                assert(self.map()[s[i as int].0] == s[i as int].1);
            }
            if self.sessions.entries[i].1.is_expired(now, timeout) {
                proof {
                    lemma_remove(s, i as int);
                }
                let ghost m = self.map();
                self.sessions.entries.remove(i);
                assert(self.map() == m.remove(s[i as int].0));
                assert forall|j: int| 0 <= j < i implies Self::stays(
                    timeout,
                    now,
                    (#[trigger] self.sessions.entries@[j]).1,
                ) by {
                    assert(self.sessions.entries@[j] == s[j]);
                }
            } else {
                i += 1;
            }
        }
        assert forall|k: SocketAddr| #[trigger] self.map().contains_key(k) implies Self::stays(
            timeout,
            now,
            before[k],
        ) by {
            let s = self.sessions.entries@;
            lemma_key_pos(s, k);
            assert(has_key(s, k));
            assert(Self::stays(timeout, now, s[crate::tables::key_pos(s, k)].1));
        }
    }
}

/// A session that was active within the timeout is never forgotten by a sweep.
pub proof fn active_sessions_stay<T: UdpSessionInfo>(s: T, active: u64, now: u64, timeout: u64)
    requires
        active <= now,
        now - active <= timeout,
    ensures
        UdpSessionManager::<T>::stays(timeout, now, s.active_at(active)),
{
    s.active_at_is(active);
}

/// A session that was inserted is given, active now, to whoever asks for its client, and to nobody else;
/// a sweep forgets it exactly where it has been idle for longer than the timeout since.
pub proof fn sessions_are_kept_while_active(
    m: &mut UdpSessionManager<BaseUdpSessionInfo<u8>>,
    addr: SocketAddr,
    session: BaseUdpSessionInfo<u8>,
    t: &mut UdpSessionManager<BaseUdpSessionInfo<u8>>,
    now: u64,
    found: Option<&BaseUdpSessionInfo<u8>>,
    swept: &mut UdpSessionManager<BaseUdpSessionInfo<u8>>,
    later: u64,
    u: &mut UdpSessionManager<BaseUdpSessionInfo<u8>>,
    last: u64,
    left: Option<&BaseUdpSessionInfo<u8>>,
)
    requires
        m.wf(),
        now <= later,
        call_ensures(
            UdpSessionManager::<BaseUdpSessionInfo<u8>>::insert,
            (m, addr, session),
            (),
        ),
        *t == *final(m),
        call_ensures(UdpSessionManager::<BaseUdpSessionInfo<u8>>::get, (t, addr, now), found),
        *swept == *final(t),
        call_ensures(
            UdpSessionManager::<BaseUdpSessionInfo<u8>>::cleanup_expired,
            (swept, later),
            (),
        ),
        *u == *final(swept),
        call_ensures(UdpSessionManager::<BaseUdpSessionInfo<u8>>::get, (u, addr, last), left),
    ensures
        found matches Some(s) && s.handler == session.handler && s.created_at == session.created_at
            && s.last_active == now,
        left is Some <==> later - now <= old(m).timeout,
        left matches Some(s) ==> s.handler == session.handler && s.created_at == session.created_at
            && s.last_active == last,
        forall|other: SocketAddr|
            other != addr ==> (#[trigger] final(t).map().contains_key(other)
                <==> old(m).map().contains_key(other)),
{
    assert(final(swept).map().contains_key(addr) <==> later - now <= old(m).timeout);
}

/// A session that was removed is handed out, once.
pub proof fn removed_sessions_are_gone(
    m: &mut UdpSessionManager<BaseUdpSessionInfo<u8>>,
    addr: SocketAddr,
    session: BaseUdpSessionInfo<u8>,
    t: &mut UdpSessionManager<BaseUdpSessionInfo<u8>>,
    first: Option<BaseUdpSessionInfo<u8>>,
    u: &mut UdpSessionManager<BaseUdpSessionInfo<u8>>,
    second: Option<BaseUdpSessionInfo<u8>>,
    now: u64,
    v: &mut UdpSessionManager<BaseUdpSessionInfo<u8>>,
    left: Option<&BaseUdpSessionInfo<u8>>,
)
    requires
        m.wf(),
        call_ensures(
            UdpSessionManager::<BaseUdpSessionInfo<u8>>::insert,
            (m, addr, session),
            (),
        ),
        *t == *final(m),
        call_ensures(UdpSessionManager::<BaseUdpSessionInfo<u8>>::remove, (t, addr), first),
        *u == *final(t),
        call_ensures(UdpSessionManager::<BaseUdpSessionInfo<u8>>::remove, (u, addr), second),
        *v == *final(u),
        call_ensures(UdpSessionManager::<BaseUdpSessionInfo<u8>>::get, (v, addr, now), left),
    ensures
        first == Some(session),
        second is None,
        left is None,
{
}

/// A session is expired once it has been idle for longer than the timeout, not at the timeout, and never
/// by a clock that went back.
pub proof fn sessions_expire_after_the_timeout(
    s: BaseUdpSessionInfo<u8>,
    now: u64,
    timeout: u64,
    r: bool,
)
    requires
        call_ensures(
            <BaseUdpSessionInfo<u8> as UdpSessionInfo>::is_expired,
            (&s, now, timeout),
            r,
        ),
    ensures
        r <==> now > s.last_active + timeout,
{
}

} // verus!
