//! TCP through a TUN device.
use vstd::prelude::*;
use vstd::slice::slice_subrange;
use vstd::slice::slice_to_vec;

use crate::flow::error::FlowError;
use crate::flow::SizeHint;
use crate::tun::tun_stream::convert_error;
use crate::tun::tun_stream::left_of;
use crate::tun::tun_stream::FlushStep;
use crate::tun::tun_stream::ReadEvent;
use crate::tun::tun_stream::RxOutcome;

verus! {

/// A stream from the device, with a reader for it.
pub struct TunStreamAdapter<R, S> {
    pub stream_handle: Option<S>,
    pub reader: Option<R>,
}

impl<R, S> TunStreamAdapter<R, S> {
    pub fn new(reader: R, flow: S) -> (r: Self)
        ensures
            r.reader == Some(reader),
            r.stream_handle == Some(flow),
    {
        TunStreamAdapter { reader: Some(reader), stream_handle: Some(flow) }
    }

    /// Takes the stream out. It can be taken once.
    pub fn take_stream(&mut self) -> (r: Option<S>)
        ensures
            r == old(self).stream_handle,
            final(self).stream_handle is None,
            final(self).reader == old(self).reader,
    {
        let mut taken: Option<S> = None;
        std::mem::swap(&mut taken, &mut self.stream_handle);
        taken
    }
}

/// Hands the streams from a device to a handler.
#[derive(Clone, Copy)]
pub struct TunStreamFactory<H> {
    pub stream_handler: H,
}

impl<H> TunStreamFactory<H> {
    pub fn new(stream_handler: H) -> (r: Self)
        ensures
            r.stream_handler == stream_handler,
    {
        TunStreamFactory { stream_handler }
    }

    /// The stream that the handler gets; nothing where it was taken already.
    pub fn handle_connection<R, S>(&self, adapter: TunStreamAdapter<R, S>) -> (r: Option<(&H, S)>)
        ensures
            match (adapter.stream_handle, r) {
                (Some(s), Some((h, t))) => t == s && *h == self.stream_handler,
                (None, None) => true,
                _ => false,
            },
    {
        let mut adapter = adapter;
        match adapter.take_stream() {
            Some(s) => Some((&self.stream_handler, s)),
            None => None,
        }
    }
}

/// A stream over a connection of the IP stack.
pub struct NetstackStreamAdapter<S> {
    pub inner: S,
    pub rx_buf: Option<Vec<u8>>,
    /// The buffer that is being written, and how much of it was.
    pub tx_buf: Option<(Vec<u8>, usize)>,
}

impl<S> NetstackStreamAdapter<S> {
    pub fn new(stream: S) -> (r: Self)
        ensures
            r.inner == stream,
            r.rx_bytes().len() == 0,
            r.rx_buf is Some,
            r.tx_buf matches Some((b, n)) && b@.len() == 0 && n == 0,
    {
        NetstackStreamAdapter {
            inner: stream,
            rx_buf: Some(Vec::with_capacity(32768)),
            tx_buf: Some((Vec::with_capacity(32768), 0)),
        }
    }

    pub fn poll_request_size(&self) -> (r: SizeHint)
        ensures
            r == (SizeHint::Unknown { overhead: 0 }),
    {
        SizeHint::Unknown { overhead: 0 }
    }

    pub fn commit_rx_buffer(&mut self, buffer: Vec<u8>)
        ensures
            *final(self) == (NetstackStreamAdapter { rx_buf: Some(buffer), ..*old(self) }),
    {
        self.rx_buf = Some(buffer);
    }

    /// What the buffer of the reader holds.
    pub open spec fn rx_bytes(&self) -> Seq<u8> {
        match self.rx_buf {
            Some(b) => b@,
            None => Seq::empty(),
        }
    }

    /// What the reader gets after a look at the connection. No bytes are the end of the stream, and
    /// then the buffer comes back empty.
    pub fn poll_rx_buffer(&mut self, event: ReadEvent<'_>) -> (r: RxOutcome)
        ensures
            final(self).inner == old(self).inner,
            final(self).tx_buf == old(self).tx_buf,
            match (event, r) {
                (ReadEvent::Data(d), RxOutcome::Ready(Ok(b))) => d@.len() > 0 && b@ == old(
                    self,
                ).rx_bytes() + d@ && final(self).rx_buf is None,
                (ReadEvent::Data(d), RxOutcome::Ready(Err((b, e)))) => d@.len() == 0 && b@.len()
                    == 0 && e == FlowError::Eof && final(self).rx_buf is None,
                (ReadEvent::Failed(x), RxOutcome::Ready(Err((b, e)))) => b@ == old(
                    self,
                ).rx_bytes() && e == FlowError::Io(x) && final(self).rx_buf is None,
                (ReadEvent::Pending, RxOutcome::Pending) => final(self).rx_buf is Some && final(
                    self).rx_bytes() == old(self).rx_bytes(),
                _ => false,
            },
    {
        let mut taken: Option<Vec<u8>> = None;
        std::mem::swap(&mut taken, &mut self.rx_buf);
        let mut buf: Vec<u8> = match taken {
            Some(b) => b,
            None => Vec::with_capacity(32768),
        };
        assert(buf@ =~= old(self).rx_bytes());
        match event {
            ReadEvent::Data(d) => {
                if d.len() == 0 {
                    buf.clear();
                    RxOutcome::Ready(Err((buf, FlowError::Eof)))
                } else {
                    let mut more: Vec<u8> = slice_to_vec(d);
                    buf.append(&mut more);
                    RxOutcome::Ready(Ok(buf))
                }
            },
            ReadEvent::Failed(e) => RxOutcome::Ready(Err((buf, convert_error(e)))),
            ReadEvent::Pending => {
                self.rx_buf = Some(buf);
                RxOutcome::Pending
            },
        }
    }

    /// A buffer for the writer, once the last one is written: empty.
    pub fn poll_tx_buffer(&mut self, size: usize) -> (r: Vec<u8>)
        ensures
            *final(self) == (NetstackStreamAdapter { tx_buf: None, ..*old(self) }),
            r@.len() == 0,
    {
        let mut taken: Option<(Vec<u8>, usize)> = None;
        std::mem::swap(&mut taken, &mut self.tx_buf);
        let mut buf: Vec<u8> = match taken {
            Some((b, _)) => b,
            None => Vec::with_capacity(32768),
        };
        buf.clear();
        let room: usize = if size > 8192 {
            size
        } else {
            8192
        };
        buf.reserve(room);
        buf
    }

    pub fn commit_tx_buffer(&mut self, buffer: Vec<u8>)
        ensures
            *final(self) == (NetstackStreamAdapter { tx_buf: Some((buffer, 0)), ..*old(self) }),
    {
        self.tx_buf = Some((buffer, 0));
    }

    /// What is left to be written.
    pub open spec fn left(&self) -> Seq<u8> {
        match self.tx_buf {
            Some((b, n)) => left_of(b@, n as int),
            None => Seq::empty(),
        }
    }

    /// What is done first to write the buffer. Where nothing is left, nothing is done.
    pub fn poll_flush_tx(&self) -> (r: FlushStep)
        ensures
            r == (if self.left().len() > 0 {
                FlushStep::Write
            } else {
                FlushStep::Ready
            }),
    {
        match &self.tx_buf {
            Some((b, n)) => if *n < b.len() {
                FlushStep::Write
            } else {
                FlushStep::Ready
            },
            None => FlushStep::Ready,
        }
    }

    /// What is left to be written.
    pub fn to_write(&self) -> (r: &[u8])
        requires
            self.left().len() > 0,
        ensures
            r@ == self.left(),
    {
        match &self.tx_buf {
            Some((b, n)) => slice_subrange(b.as_slice(), *n, b.len()),
            None => &[],
        }
    }

    /// The connection took `written` bytes. It is flushed once it has them all; else the writer has
    /// to wait.
    pub fn on_written(&mut self, written: usize) -> (r: FlushStep)
        requires
            written <= old(self).left().len(),
            old(self).left().len() > 0,
        ensures
            final(self).inner == old(self).inner,
            final(self).rx_buf == old(self).rx_buf,
            final(self).left() == old(self).left().subrange(
                written as int,
                old(self).left().len() as int,
            ),
            r == (if final(self).left().len() > 0 {
                FlushStep::Pending
            } else {
                FlushStep::Flush
            }),
    {
        let mut taken: Option<(Vec<u8>, usize)> = None;
        std::mem::swap(&mut taken, &mut self.tx_buf);
        if let Some((b, n)) = taken {
            let len: usize = b.len();
            self.tx_buf = Some((b, n + written));
            assert(self.left() =~= old(self).left().subrange(
                written as int,
                old(self).left().len() as int,
            ));
            if n + written < len {
                return FlushStep::Pending;
            }
        }
        FlushStep::Flush
    }
}

/// What is written in pieces is written whole: the first piece and what is left after it are what
/// was left before.
pub proof fn pieces_are_whole(left: Seq<u8>, written: int)
    requires
        0 <= written <= left.len(),
    ensures
        left.subrange(0, written) + left.subrange(written, left.len() as int) == left,
{
    assert(left.subrange(0, written) + left.subrange(written, left.len() as int) =~= left);
}

/// What is read is put behind what the buffer of the reader held, and the buffer goes to the reader. At
/// the end it gets an empty one; where reading failed, the one that it gave; while there is nothing,
/// the buffer stays.
pub proof fn reads_fill_the_buffer(
    s: &mut NetstackStreamAdapter<u8>,
    buffer: Vec<u8>,
    t: &mut NetstackStreamAdapter<u8>,
    event: ReadEvent<'_>,
    r: RxOutcome,
)
    requires
        call_ensures(NetstackStreamAdapter::<u8>::commit_rx_buffer, (s, buffer), ()),
        *t == *final(s),
        call_ensures(NetstackStreamAdapter::<u8>::poll_rx_buffer, (t, event), r),
    ensures
        event matches ReadEvent::Data(d) ==> (if d@.len() > 0 {
            r matches RxOutcome::Ready(Ok(b)) && b@ == buffer@ + d@
        } else {
            r matches RxOutcome::Ready(Err((b, e))) && b@.len() == 0 && e == FlowError::Eof
        }),
        event matches ReadEvent::Failed(x) ==> (r matches RxOutcome::Ready(Err((b, e))) && b@
            == buffer@ && e == FlowError::Io(x)),
        event is Pending ==> r is Pending && (final(t).rx_buf matches Some(b) && b@ == buffer@),
        final(t).tx_buf == old(s).tx_buf,
{
}

/// What is committed is written from its beginning to its end, each byte once: after a piece was taken
/// the rest is left, and only once nothing is left is the connection flushed.
pub proof fn writes_go_on_where_they_stopped(
    s: &mut NetstackStreamAdapter<u8>,
    buffer: Vec<u8>,
    step: FlushStep,
    first: &[u8],
    t: &mut NetstackStreamAdapter<u8>,
    written: usize,
    after: FlushStep,
    again: FlushStep,
    rest: &[u8],
)
    requires
        buffer@.len() > 0,
        written <= buffer@.len(),
        call_ensures(NetstackStreamAdapter::<u8>::commit_tx_buffer, (s, buffer), ()),
        call_ensures(NetstackStreamAdapter::<u8>::poll_flush_tx, (&*final(s),), step),
        call_ensures(NetstackStreamAdapter::<u8>::to_write, (&*final(s),), first),
        *t == *final(s),
        call_ensures(NetstackStreamAdapter::<u8>::on_written, (t, written), after),
        call_ensures(NetstackStreamAdapter::<u8>::poll_flush_tx, (&*final(t),), again),
        call_ensures(NetstackStreamAdapter::<u8>::to_write, (&*final(t),), rest),
    ensures
        step is Write,
        first@ == buffer@,
        written < buffer@.len() ==> after is Pending && again is Write && first@.take(
            written as int,
        ) + rest@ == buffer@,
        written == buffer@.len() ==> after is Flush && again is Ready,
{
    assert(final(s).left() =~= buffer@);
    if written < buffer@.len() {
        assert(first@.take(written as int) + rest@ =~= buffer@);
    }
}

/// A stream is handed to the handler once.
pub proof fn streams_are_taken_once(
    reader: u8,
    flow: u8,
    fresh: TunStreamAdapter<u8, u8>,
    s: &mut TunStreamAdapter<u8, u8>,
    first: Option<u8>,
    t: &mut TunStreamAdapter<u8, u8>,
    second: Option<u8>,
    f: &TunStreamFactory<u8>,
    handed: Option<(&u8, u8)>,
    not_handed: Option<(&u8, u8)>,
)
    requires
        call_ensures(TunStreamAdapter::<u8, u8>::new, (reader, flow), fresh),
        *s == fresh,
        call_ensures(TunStreamAdapter::<u8, u8>::take_stream, (s,), first),
        *t == *final(s),
        call_ensures(TunStreamAdapter::<u8, u8>::take_stream, (t,), second),
        call_ensures(TunStreamFactory::<u8>::handle_connection::<u8, u8>, (f, fresh), handed),
        call_ensures(
            TunStreamFactory::<u8>::handle_connection::<u8, u8>,
            (f, *final(s)),
            not_handed,
        ),
    ensures
        first == Some(flow),
        second is None,
        handed matches Some((h, x)) && *h == f.stream_handler && x == flow,
        not_handed is None,
{
}

} // verus!
