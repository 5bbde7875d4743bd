//! TCP connections that are kept for reuse, and the ports that they come from.
use vstd::prelude::*;

use crate::net::SocketAddr;
use crate::tables::AddrMap;
use crate::udp_session_manager::age;

verus! {

pub const SOURCE_PORT_START: u16 = 30000;

pub const SOURCE_PORT_END: u16 = 30009;

/// How many connections to one target are kept.
pub const POOL_SIZE: usize = 10;

/// A connection that is kept.
pub struct PooledConnection<C> {
    pub stream: C,
    pub last_used: u64,
    pub source_port: u16,
}

/// Connections by their targets. All times are in seconds on one clock.
pub struct TcpManager<C> {
    pub connections: AddrMap<Vec<PooledConnection<C>>>,
    pub max_idle_time: u64,
}

/// The first connection, from `from` on, that has not been idle for too long.
pub open spec fn first_live<C>(
    pool: Seq<PooledConnection<C>>,
    now: u64,
    max_idle: u64,
    from: int,
) -> Option<int>
    decreases pool.len() - from,
{
    if from < 0 || from >= pool.len() {
        None
    } else if age(now, pool[from].last_used) < max_idle {
        Some(from)
    } else {
        first_live(pool, now, max_idle, from + 1)
    }
}

/// The ports that connections come from.
pub open spec fn ports<C>(pool: Seq<PooledConnection<C>>) -> Seq<u16> {
    Seq::new(pool.len(), |i: int| pool[i].source_port)
}

/// The first port, from `from` on, that is not used.
pub open spec fn free_port(used: Seq<u16>, from: int) -> Option<u16>
    decreases SOURCE_PORT_END + 1 - from,
{
    if from > SOURCE_PORT_END {
        None
    } else if !used.contains(from as u16) {
        Some(from as u16)
    } else {
        free_port(used, from + 1)
    }
}

impl<C> TcpManager<C> {
    pub open spec fn wf(&self) -> bool {
        self.connections.wf()
    }

    /// The connections to a target.
    pub open spec fn pool(&self, target: SocketAddr) -> Seq<PooledConnection<C>> {
        if self.connections@.contains_key(target) {
            self.connections@[target]@
        } else {
            Seq::empty()
        }
    }

    /// Whether only the connections to `target` differ from those of `before`.
    pub open spec fn same_but(&self, before: TcpManager<C>, target: SocketAddr) -> bool {
        &&& self.max_idle_time == before.max_idle_time
        &&& forall|t: SocketAddr| t != target ==> #[trigger] self.pool(t) == before.pool(t)
    }

    pub fn new() -> (r: Self)
        ensures
            r.wf(),
            r.max_idle_time == 300,
            forall|t: SocketAddr| #[trigger] r.pool(t) == Seq::<PooledConnection<C>>::empty(),
    {
        TcpManager { connections: AddrMap::new(), max_idle_time: 300 }
    }

    /// Takes out the first connection to a target that has not been idle for too long.
    pub fn get_connection(&mut self, target: SocketAddr, now: u64) -> (r: Option<
        PooledConnection<C>,
    >)
        requires
            old(self).wf(),
        ensures
            final(self).wf(),
            final(self).same_but(*old(self), target),
            match first_live(old(self).pool(target), now, old(self).max_idle_time, 0) {
                Some(p) => {
                    &&& 0 <= p < old(self).pool(target).len()
                    &&& r == Some(old(self).pool(target)[p])
                    &&& final(self).pool(target) == old(self).pool(target).remove(p)
                },
                None => r is None && final(self).pool(target) == old(self).pool(target),
            },
    {
        match self.connections.remove(target) {
            Some(pool) => {
                let mut pool = pool;
                let max_idle: u64 = self.max_idle_time;
                let ghost all = pool@;
                let mut i: usize = 0;
                while i < pool.len() && !(now < pool[i].last_used && max_idle > 0 || now
                    >= pool[i].last_used && now - pool[i].last_used < max_idle)
                    invariant
                        i <= pool@.len(),
                        pool@ == all,
                        first_live(all, now, max_idle, 0) == first_live(
                            all,
                            now,
                            max_idle,
                            i as int,
                        ),
                    decreases pool@.len() - i,
                {
                    i += 1;
                }
                let r = if i < pool.len() {
                    Some(pool.remove(i))
                } else {
                    None
                };
                self.connections.insert(target, pool);
                r
            },
            None => None,
        }
    }

    /// Keeps a connection, unless there are ten to its target already.
    pub fn store_connection(
        &mut self,
        target: SocketAddr,
        stream: C,
        source_port: u16,
        now: u64,
    )
        requires
            old(self).wf(),
        ensures
            final(self).wf(),
            final(self).same_but(*old(self), target),
            final(self).pool(target) == (if old(self).pool(target).len() < POOL_SIZE {
                old(self).pool(target).push(
                    PooledConnection { stream, last_used: now, source_port },
                )
            } else {
                old(self).pool(target)
            }),
    {
        let mut pool: Vec<PooledConnection<C>> = match self.connections.remove(target) {
            Some(p) => p,
            None => Vec::new(),
        };
        assert(pool@ =~= old(self).pool(target));
        if pool.len() < POOL_SIZE {
            pool.push(PooledConnection { stream, last_used: now, source_port });
        }
        self.connections.insert(target, pool);
    }

    /// The first port that no kept connection to a target comes from.
    pub fn get_next_source_port(&self, target: SocketAddr) -> (r: Option<u16>)
        ensures
            r == free_port(ports(self.pool(target)), SOURCE_PORT_START as int),
    {
        let mut port: u16 = SOURCE_PORT_START;
        while port <= SOURCE_PORT_END
            invariant
                SOURCE_PORT_START <= port <= SOURCE_PORT_END + 1,
                free_port(ports(self.pool(target)), SOURCE_PORT_START as int) == free_port(
                    ports(self.pool(target)),
                    port as int,
                ),
            decreases SOURCE_PORT_END + 1 - port,
        {
            if !self.uses(target, port) {
                return Some(port);
            }
            port += 1;
        }
        None
    }

    /// Whether a kept connection to a target comes from a port.
    fn uses(&self, target: SocketAddr, port: u16) -> (r: bool)
        ensures
            r == ports(self.pool(target)).contains(port),
    {
        match self.connections.get(target) {
            Some(pool) => {
                let ghost used = ports(self.pool(target));
                let mut i: usize = 0;
                while i < pool.len()
                    invariant
                        i <= pool@.len(),
                        used == ports(pool@),
                        used == ports(self.pool(target)),
                        forall|j: int| 0 <= j < i ==> #[trigger] used[j] != port,
                    decreases pool@.len() - i,
                {
                    if pool[i].source_port == port {
                        assert(used[i as int] == port);
                        return true;
                    }
                    i += 1;
                }
                false
            },
            None => false,
        }
    }
}

/// A port that is handed out lies in the range and is not used; none is handed out only where all
/// ten are used.
pub proof fn free_ports_are_free(used: Seq<u16>, from: int)
    requires
        SOURCE_PORT_START <= from,
    ensures
        match free_port(used, from) {
            Some(p) => from <= p <= SOURCE_PORT_END && !used.contains(p),
            None => forall|p: u16| from <= p <= SOURCE_PORT_END ==> used.contains(p),
        },
    decreases SOURCE_PORT_END + 1 - from,
{
    if from <= SOURCE_PORT_END {
        free_ports_are_free(used, from + 1);
    }
}

/// A connection that is kept is taken out again before it has been idle for too long, once those
/// kept before it are gone; until then the ones kept before it come first.
pub proof fn kept_is_taken<C>(
    pool: Seq<PooledConnection<C>>,
    kept: PooledConnection<C>,
    now: u64,
    max_idle: u64,
    from: int,
)
    requires
        0 <= from <= pool.len(),
        age(now, kept.last_used) < max_idle,
    ensures
        first_live(pool.push(kept), now, max_idle, from) == match first_live(
            pool,
            now,
            max_idle,
            from,
        ) {
            Some(p) => Some(p),
            None => Some(pool.len() as int),
        },
    decreases pool.len() - from,
{
    if from < pool.len() {
        assert(pool.push(kept)[from] == pool[from]);
        kept_is_taken(pool, kept, now, max_idle, from + 1);
    } else {
        assert(pool.push(kept)[from] == kept);
    }
}

// ---- Laws ----
/// A connection that is taken out has not been idle for too long, and all that were kept before it have;
/// it leaves the pool, and the others stay in their order. Nothing is taken out only where all have been
/// idle for too long.
pub proof fn first_fresh_connection_is_taken(
    m: &mut TcpManager<u8>,
    target: SocketAddr,
    now: u64,
    r: Option<PooledConnection<u8>>,
)
    requires
        m.wf(),
        call_ensures(TcpManager::<u8>::get_connection, (m, target, now), r),
    ensures
        r is None ==> final(m).pool(target) == old(m).pool(target) && forall|i: int|
            0 <= i < old(m).pool(target).len() ==> age(
                now,
                (#[trigger] old(m).pool(target)[i]).last_used,
            ) >= old(m).max_idle_time,
        r matches Some(c) ==> age(now, c.last_used) < old(m).max_idle_time && exists|p: int|
            0 <= p < old(m).pool(target).len() && c == #[trigger] old(m).pool(target)[p] && final(m).pool(target) == old(m).pool(target).take(p) + old(m).pool(target).skip(p + 1)
                && forall|i: int|
                0 <= i < p ==> age(now, (#[trigger] old(m).pool(target)[i]).last_used) >= old(m).max_idle_time,
{
    let pool = old(m).pool(target);
    let idle = old(m).max_idle_time;
    lemma_first_live(pool, now, idle, 0);
    if let Some(p) = first_live(pool, now, idle, 0) {
        assert(pool.remove(p) =~= pool.take(p) + pool.skip(p + 1));
        assert(r == Some(pool[p]));
    }
}

proof fn lemma_first_live<C>(pool: Seq<PooledConnection<C>>, now: u64, max_idle: u64, from: int)
    requires
        0 <= from <= pool.len(),
    ensures
        match first_live(pool, now, max_idle, from) {
            Some(p) => from <= p < pool.len() && age(now, pool[p].last_used) < max_idle && forall|
                i: int,
            |
                from <= i < p ==> age(now, (#[trigger] pool[i]).last_used) >= max_idle,
            None => forall|i: int|
                from <= i < pool.len() ==> age(now, (#[trigger] pool[i]).last_used) >= max_idle,
        },
    decreases pool.len() - from,
{
    if from < pool.len() && age(now, pool[from].last_used) >= max_idle {
        lemma_first_live(pool, now, max_idle, from + 1);
    }
}

/// A connection that is kept in an empty pool is taken out again within five minutes, with its port, and
/// no later; a pool of ten keeps no more. A connection to another target is never taken.
pub proof fn kept_connections_are_reused(
    fresh: TcpManager<u8>,
    m: &mut TcpManager<u8>,
    target: SocketAddr,
    stream: u8,
    port: u16,
    now: u64,
    t: &mut TcpManager<u8>,
    later: u64,
    r: Option<PooledConnection<u8>>,
    other: SocketAddr,
    u: &mut TcpManager<u8>,
    wrong: Option<PooledConnection<u8>>,
)
    requires
        now <= later,
        other != target,
        call_ensures(TcpManager::<u8>::new, (), fresh),
        *m == fresh,
        call_ensures(TcpManager::<u8>::store_connection, (m, target, stream, port, now), ()),
        *t == *final(m),
        call_ensures(TcpManager::<u8>::get_connection, (t, target, later), r),
        *u == *final(m),
        call_ensures(TcpManager::<u8>::get_connection, (u, other, later), wrong),
    ensures
        r is Some <==> later - now < 300,
        r matches Some(c) ==> c.stream == stream && c.source_port == port && c.last_used == now,
        wrong is None,
{
    let pool = final(m).pool(target);
    assert(fresh.pool(target).len() == 0);
    assert(fresh.pool(other).len() == 0);
    assert(pool.len() == 1 && pool[0].last_used == now);
    lemma_first_live(pool, later, 300, 0);
    lemma_first_live(final(m).pool(other), later, 300, 0);
}

/// No pool ever has more than ten connections, and one that has ten stays as it is.
pub proof fn pools_are_bounded(
    m: &mut TcpManager<u8>,
    target: SocketAddr,
    stream: u8,
    port: u16,
    now: u64,
)
    requires
        m.wf(),
        call_ensures(TcpManager::<u8>::store_connection, (m, target, stream, port, now), ()),
    ensures
        old(m).pool(target).len() <= 10 ==> final(m).pool(target).len() <= 10,
        old(m).pool(target).len() == 10 ==> final(m).pool(target) == old(m).pool(target),
        old(m).pool(target).len() < 10 ==> final(m).pool(target).len() == old(m).pool(target).len()
            + 1 && final(m).pool(target).take(old(m).pool(target).len() as int) == old(m).pool(
            target,
        ) && final(m).pool(target).last().stream == stream,
        forall|other: SocketAddr|
            other != target ==> #[trigger] final(m).pool(other) == old(m).pool(other),
{
    let before = old(m).pool(target);
    if before.len() < 10 {
        assert(final(m).pool(target).take(before.len() as int) =~= before);
    }
}

/// The port that is handed out is the lowest from 30000 to 30009 that no connection to the target comes
/// from; none is handed out only where all ten are used.
pub proof fn lowest_free_port_is_given(m: &TcpManager<u8>, target: SocketAddr, r: Option<u16>)
    requires
        call_ensures(TcpManager::<u8>::get_next_source_port, (m, target), r),
    ensures
        match r {
            Some(p) => 30000 <= p <= 30009 && !ports(m.pool(target)).contains(p) && forall|q: u16|
                30000 <= q < p ==> #[trigger] ports(m.pool(target)).contains(q),
            None => forall|q: u16|
                30000 <= q <= 30009 ==> #[trigger] ports(m.pool(target)).contains(q),
        },
{
    lemma_lowest(ports(m.pool(target)), 30000);
}

proof fn lemma_lowest(used: Seq<u16>, from: int)
    requires
        SOURCE_PORT_START <= from,
    ensures
        match free_port(used, from) {
            Some(p) => from <= p <= SOURCE_PORT_END && !used.contains(p) && forall|q: u16|
                from <= q < p ==> #[trigger] used.contains(q),
            None => forall|q: u16|
                from <= q <= SOURCE_PORT_END ==> #[trigger] used.contains(q),
        },
    decreases SOURCE_PORT_END + 1 - from,
{
    if from <= SOURCE_PORT_END {
        lemma_lowest(used, from + 1);
    }
}

} // verus!
