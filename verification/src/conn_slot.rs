//! The one connection that a handler keeps to its server.
use vstd::prelude::*;

verus! {

/// Holds the connection, if there is one.
pub struct ConnSlot<C> {
    pub conn: Option<C>,
}

impl<C> ConnSlot<C> {
    pub fn new() -> (s: Self)
        ensures
            s.conn is None,
    {
        ConnSlot { conn: None }
    }

    /// Whether a new connection has to be made: there is none, or the one that is there is closed.
    pub fn need_reconnect(&self, closed: bool) -> (r: bool)
        ensures
            r == (self.conn is None || closed),
    {
        match &self.conn {
            Some(_) => closed,
            None => true,
        }
    }

    /// An attempt to connect ended. A connection is kept; after a failure there is none.
    pub fn on_connected(&mut self, conn: Option<C>)
        ensures
            final(self).conn == conn,
    {
        self.conn = conn;
    }

    /// A stream could not be opened. A connection that turned out to be closed is forgotten.
    pub fn on_stream_error(&mut self, closed: bool)
        ensures
            final(self).conn == (if closed {
                None
            } else {
                old(self).conn
            }),
    {
        if closed {
            self.conn = None;
        }
    }
}

// ---- Laws ----
/// A connection that was made is kept and used until it turns out to be closed; then, and where none
/// was made, a new one is needed.
pub proof fn connections_are_kept<C>(
    s: &mut ConnSlot<C>,
    conn: Option<C>,
    closed: bool,
    needed: bool,
    t: &mut ConnSlot<C>,
    gone: bool,
    later: bool,
    fresh: ConnSlot<C>,
    first: bool,
)
    requires
        call_ensures(ConnSlot::<C>::on_connected, (s, conn), ()),
        call_ensures(ConnSlot::<C>::need_reconnect, (&*final(s), closed), needed),
        *t == *final(s),
        call_ensures(ConnSlot::<C>::on_stream_error, (t, gone), ()),
        call_ensures(ConnSlot::<C>::need_reconnect, (&*final(t), false), later),
        call_ensures(ConnSlot::<C>::new, (), fresh),
        call_ensures(ConnSlot::<C>::need_reconnect, (&fresh, false), first),
    ensures
        final(s).conn == conn,
        needed <==> conn is None || closed,
        later <==> conn is None || gone,
        !gone ==> final(t).conn == conn,
        first,
{
}

} // verus!
