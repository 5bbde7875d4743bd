//! A DNS server that remembers what it answered.
pub mod datagram;

use vstd::prelude::*;

verus! {

/// Decides when the caches of a server are written: an hour after the last time, or three seconds
/// after the last change.
#[derive(Clone, Copy, PartialEq, Eq, Structural, Debug)]
pub struct CacheWriter {
    /// How many seconds to wait, from now on.
    pub delay_secs: u64,
}

impl CacheWriter {
    pub fn new() -> (r: Self)
        ensures
            r.delay_secs == 3600,
    {
        CacheWriter { delay_secs: 3600 }
    }

    /// Something changed: the wait begins anew.
    pub fn on_notified(&mut self)
        ensures
            final(self).delay_secs == 3,
    {
        self.delay_secs = 3;
    }

    /// The wait is over. The caches are written if the server is still there; else the writer
    /// stops.
    pub fn on_elapsed(&mut self, alive: bool) -> (save: bool)
        ensures
            save == alive,
            final(self).delay_secs == 3600,
    {
        self.delay_secs = 3600;
        alive
    }
}

/// The caches are written at the latest an hour after the last time, and three seconds after a change;
/// the writer lives as long as the server.
pub proof fn caches_are_written_in_time(
    fresh: CacheWriter,
    w: &mut CacheWriter,
    x: &mut CacheWriter,
    alive: bool,
    save: bool,
)
    requires
        call_ensures(CacheWriter::new, (), fresh),
        call_ensures(CacheWriter::on_notified, (w,), ()),
        *x == *final(w),
        call_ensures(CacheWriter::on_elapsed, (x, alive), save),
    ensures
        fresh.delay_secs == 60 * 60,
        final(w).delay_secs == 3,
        save <==> alive,
        final(x).delay_secs == fresh.delay_secs,
{
}

} // verus!
