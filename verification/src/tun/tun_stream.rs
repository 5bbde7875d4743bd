//! Streams over anything that reads and writes bytes.
use vstd::prelude::*;
use vstd::slice::slice_subrange;
use vstd::slice::slice_to_vec;

use crate::flow::error::FlowError;
use crate::flow::SizeHint;

verus! {

/// Hands streams on. `next` is `None` once the next handler is gone.
pub struct TunStreamHandler<N> {
    pub next: Option<N>,
}

impl<N> TunStreamHandler<N> {
    pub fn new(next: Option<N>) -> (r: Self)
        ensures
            r.next == next,
    {
        TunStreamHandler { next }
    }

    /// The handler that a stream goes to; nothing where it is gone.
    pub fn on_stream(&self) -> (r: Option<&N>)
        ensures
            match r {
                Some(n) => self.next == Some(*n),
                None => self.next is None,
            },
    {
        match &self.next {
            Some(n) => Some(n),
            None => None,
        }
    }
}

/// An error of the system as an error of a flow.
pub fn convert_error(err: std::io::Error) -> (r: FlowError)
    ensures
        r == FlowError::Io(err),
{
    FlowError::Io(err)
}

/// What a look at the lower side gave.
pub enum ReadEvent<'a> {
    /// These bytes; none at the end.
    Data(&'a [u8]),
    Failed(std::io::Error),
    Pending,
}

/// What the reader gets.
pub enum RxOutcome {
    Pending,
    Ready(Result<Vec<u8>, (Vec<u8>, FlowError)>),
}

/// What is left of a buffer that is being written.
pub open spec fn left_of(buf: Seq<u8>, offset: int) -> Seq<u8> {
    if 0 <= offset <= buf.len() {
        buf.subrange(offset, buf.len() as int)
    } else {
        Seq::empty()
    }
}

/// What is done to write a buffer.
#[derive(Clone, Copy, PartialEq, Eq, Structural, Debug)]
pub enum FlushStep {
    /// Write what is left of it.
    Write,
    /// Flush the lower side.
    Flush,
    /// It is done.
    Ready,
    /// Wait.
    Pending,
}

/// A stream over `inner`.
pub struct TunCompatFlow<S> {
    pub inner: S,
    pub rx_buf: Option<Vec<u8>>,
    /// The buffer that is being written, and how much of it was.
    pub tx_buf: Option<(Vec<u8>, usize)>,
}

impl<S> TunCompatFlow<S> {
    /// A stream with an empty buffer for `tx_buf_size` bytes.
    pub fn new(inner: S, tx_buf_size: usize) -> (r: Self)
        ensures
            r.inner == inner,
            r.rx_buf is None,
            r.tx_buf matches Some((b, n)) && b@.len() == 0 && n == 0,
    {
        TunCompatFlow { inner, rx_buf: None, tx_buf: Some((Vec::with_capacity(tx_buf_size), 0)) }
    }

    pub fn poll_request_size(&self) -> (r: SizeHint)
        ensures
            r == (SizeHint::Unknown { overhead: 0 }),
    {
        SizeHint::Unknown { overhead: 0 }
    }

    pub fn commit_rx_buffer(&mut self, buffer: Vec<u8>)
        ensures
            *final(self) == (TunCompatFlow { rx_buf: Some(buffer), ..*old(self) }),
    {
        self.rx_buf = Some(buffer);
    }

    /// What the buffer of the reader holds.
    pub open spec fn rx_bytes(&self) -> Seq<u8> {
        match self.rx_buf {
            Some(b) => b@,
            None => Seq::empty(),
        }
    }

    /// What the reader gets after a look at the lower side. No bytes are the end of the stream.
    pub fn poll_rx_buffer(&mut self, event: ReadEvent<'_>) -> (r: RxOutcome)
        ensures
            final(self).inner == old(self).inner,
            final(self).tx_buf == old(self).tx_buf,
            match (event, r) {
                (ReadEvent::Data(d), RxOutcome::Ready(Ok(b))) => d@.len() > 0 && b@ == old(
                    self,
                ).rx_bytes() + d@ && final(self).rx_buf is None,
                (ReadEvent::Data(d), RxOutcome::Ready(Err((b, e)))) => d@.len() == 0 && b@ == old(
                    self,
                ).rx_bytes() && e == FlowError::Eof && final(self).rx_buf is None,
                (ReadEvent::Failed(x), RxOutcome::Ready(Err((b, e)))) => b@ == old(
                    self,
                ).rx_bytes() && e == FlowError::Io(x) && final(self).rx_buf is None,
                (ReadEvent::Pending, RxOutcome::Pending) => final(self).rx_buf is Some && final(
                    self).rx_bytes() == old(self).rx_bytes(),
                _ => false,
            },
    {
        let mut taken: Option<Vec<u8>> = None;
        std::mem::swap(&mut taken, &mut self.rx_buf);
        let mut buf: Vec<u8> = match taken {
            Some(b) => b,
            None => Vec::with_capacity(8192),
        };
        assert(buf@ =~= old(self).rx_bytes());
        match event {
            ReadEvent::Data(d) => {
                if d.len() == 0 {
                    RxOutcome::Ready(Err((buf, FlowError::Eof)))
                } else {
                    let mut more: Vec<u8> = slice_to_vec(d);
                    buf.append(&mut more);
                    RxOutcome::Ready(Ok(buf))
                }
            },
            ReadEvent::Failed(e) => RxOutcome::Ready(Err((buf, convert_error(e)))),
            ReadEvent::Pending => {
                self.rx_buf = Some(buf);
                RxOutcome::Pending
            },
        }
    }

    /// A buffer for the writer, once the last one is written: empty.
    pub fn poll_tx_buffer(&mut self, size: usize) -> (r: Vec<u8>)
        requires
            old(self).tx_buf is Some,
        ensures
            *final(self) == (TunCompatFlow { tx_buf: None, ..*old(self) }),
            r@.len() == 0,
    {
        let mut taken: Option<(Vec<u8>, usize)> = None;
        std::mem::swap(&mut taken, &mut self.tx_buf);
        let mut buf: Vec<u8> = taken.unwrap().0;
        buf.clear();
        buf.reserve(size);
        buf
    }

    pub fn commit_tx_buffer(&mut self, buffer: Vec<u8>)
        ensures
            *final(self) == (TunCompatFlow { tx_buf: Some((buffer, 0)), ..*old(self) }),
    {
        self.tx_buf = Some((buffer, 0));
    }

    /// What is left to be written.
    pub open spec fn left(&self) -> Seq<u8> {
        match self.tx_buf {
            Some((b, n)) => left_of(b@, n as int),
            None => Seq::empty(),
        }
    }

    /// What is done next to write the buffer. A buffer has to be there.
    pub fn poll_flush_tx(&self) -> (r: FlushStep)
        requires
            self.tx_buf is Some,
        ensures
            r == (if self.left().len() > 0 {
                FlushStep::Write
            } else {
                FlushStep::Flush
            }),
    {
        match &self.tx_buf {
            Some((b, n)) => if *n < b.len() {
                FlushStep::Write
            } else {
                FlushStep::Flush
            },
            None => FlushStep::Flush,
        }
    }

    /// What is left to be written.
    pub fn to_write(&self) -> (r: &[u8])
        requires
            self.left().len() > 0,
        ensures
            r@ == self.left(),
    {
        match &self.tx_buf {
            Some((b, n)) => slice_subrange(b.as_slice(), *n, b.len()),
            None => &[],
        }
    }

    /// The lower side took `written` bytes.
    pub fn on_written(&mut self, written: usize)
        requires
            written <= old(self).left().len(),
            old(self).left().len() > 0,
        ensures
            final(self).inner == old(self).inner,
            final(self).rx_buf == old(self).rx_buf,
            final(self).left() == old(self).left().subrange(
                written as int,
                old(self).left().len() as int,
            ),
            final(self).tx_buf is Some,
    {
        let mut taken: Option<(Vec<u8>, usize)> = None;
        std::mem::swap(&mut taken, &mut self.tx_buf);
        if let Some((b, n)) = taken {
            let len: usize = b.len();
            self.tx_buf = Some((b, n + written));
            assert(self.left() =~= old(self).left().subrange(
                written as int,
                old(self).left().len() as int,
            ));
        }
    }
}

/// What is read is put behind what the buffer of the reader held, and the buffer goes to the reader. At
/// the end and where reading failed it gets the buffer as it was; while there is nothing, the buffer
/// stays.
pub proof fn reads_fill_the_buffer(
    s: &mut TunCompatFlow<u8>,
    buffer: Vec<u8>,
    t: &mut TunCompatFlow<u8>,
    event: ReadEvent<'_>,
    r: RxOutcome,
)
    requires
        call_ensures(TunCompatFlow::<u8>::commit_rx_buffer, (s, buffer), ()),
        *t == *final(s),
        call_ensures(TunCompatFlow::<u8>::poll_rx_buffer, (t, event), r),
    ensures
        event matches ReadEvent::Data(d) ==> (if d@.len() > 0 {
            r matches RxOutcome::Ready(Ok(b)) && b@ == buffer@ + d@
        } else {
            r matches RxOutcome::Ready(Err((b, e))) && b@ == buffer@ && e == FlowError::Eof
        }),
        event matches ReadEvent::Failed(x) ==> (r matches RxOutcome::Ready(Err((b, e))) && b@
            == buffer@ && e == FlowError::Io(x)),
        event is Pending ==> r is Pending && (final(t).rx_buf matches Some(b) && b@ == buffer@),
        final(t).tx_buf == old(s).tx_buf,
{
}

/// What is committed is written from its beginning to its end, each byte once, and only then is the
/// lower side flushed.
pub proof fn writes_go_on_where_they_stopped(
    s: &mut TunCompatFlow<u8>,
    buffer: Vec<u8>,
    step: FlushStep,
    first: &[u8],
    t: &mut TunCompatFlow<u8>,
    written: usize,
    again: FlushStep,
    rest: &[u8],
)
    requires
        buffer@.len() > 0,
        written <= buffer@.len(),
        call_ensures(TunCompatFlow::<u8>::commit_tx_buffer, (s, buffer), ()),
        call_ensures(TunCompatFlow::<u8>::poll_flush_tx, (&*final(s),), step),
        call_ensures(TunCompatFlow::<u8>::to_write, (&*final(s),), first),
        *t == *final(s),
        call_ensures(TunCompatFlow::<u8>::on_written, (t, written), ()),
        call_ensures(TunCompatFlow::<u8>::poll_flush_tx, (&*final(t),), again),
        call_ensures(TunCompatFlow::<u8>::to_write, (&*final(t),), rest),
    ensures
        step is Write,
        first@ == buffer@,
        written < buffer@.len() ==> again is Write && first@.take(written as int) + rest@
            == buffer@,
        written == buffer@.len() ==> again is Flush,
{
    assert(final(s).left() =~= buffer@);
    if written < buffer@.len() {
        assert(first@.take(written as int) + rest@ =~= buffer@);
    }
}

} // verus!
