//! Streams that are let go without a fuss.
use vstd::prelude::*;

verus! {

/// A stream that is dropped, not handed on, when it ends early.
pub struct FallbackStream<S> {
    /// Whether the writing side is closed.
    pub tx_closed: bool,
    pub lower: S,
}

/// Wraps each stream before the next handler gets it. `next` is `None` once that handler is gone.
pub struct DropHandler<N> {
    pub next: Option<N>,
}

impl<N> DropHandler<N> {
    pub fn new(next: Option<N>) -> (r: Self)
        ensures
            r.next == next,
    {
        DropHandler { next }
    }

    /// The next handler and the stream that it is given; nothing where it is gone.
    pub fn on_stream<S>(&self, lower: S) -> (r: Option<(&N, FallbackStream<S>)>)
        ensures
            match r {
                Some((n, s)) => self.next == Some(*n) && s == (FallbackStream {
                    tx_closed: false,
                    lower,
                }),
                None => self.next is None,
            },
    {
        match &self.next {
            Some(n) => Some((n, FallbackStream { tx_closed: false, lower })),
            None => None,
        }
    }
}

/// A stream goes to the next handler as it is, open to be written, as long as there is one.
pub proof fn streams_go_on_open(h: &DropHandler<u8>, lower: u8, r: Option<(&u8, FallbackStream<u8>)>)
    requires
        call_ensures(DropHandler::<u8>::on_stream::<u8>, (h, lower), r),
    ensures
        r is Some <==> h.next is Some,
        r matches Some((n, s)) ==> Some(*n) == h.next && s.lower == lower && !s.tx_closed,
{
}

} // verus!
