//! Shadowsocks streams: how the bytes of a flow are framed for a cipher.
//!
//! The cipher itself works outside. It is told what to read and what to work on, and what it made
//! of it is handed back.
use vstd::prelude::*;
use vstd::slice::slice_subrange;
use vstd::slice::slice_to_vec;

use crate::flow::error::FlowError;
use crate::flow::SizeHint;

verus! {

/// How many bytes a cipher takes.
#[derive(Clone, Copy, PartialEq, Eq, Structural, Debug)]
pub struct CipherSizes {
    pub key_len: usize,
    pub iv_len: usize,
    /// In front of a chunk: its size, sealed. Nothing for a stream cipher.
    pub pre_chunk_overhead: usize,
    /// Behind a chunk: its tag. Nothing for a stream cipher.
    pub post_chunk_overhead: usize,
}

/// How far the reading side is.
pub enum RxCryptoState<C> {
    ReadingIv { key: Vec<u8> },
    Ready(C),
}

/// A stream under a cipher.
pub struct ShadowsocksStream<C> {
    pub sizes: CipherSizes,
    pub rx_buf: Option<Vec<u8>>,
    pub rx_chunk_size: usize,
    pub rx_crypto: RxCryptoState<C>,
    pub tx_crypto: C,
    pub tx_offset: usize,
}

/// What the reading side needs before it knows the size of the next chunk.
#[derive(Clone, Copy, PartialEq, Eq, Structural, Debug)]
pub enum SizeStep {
    /// So many bytes, which are the initialization vector.
    ReadIv(usize),
    /// So many bytes, which are a sealed size.
    ReadSize(usize),
    /// Nothing more.
    Known(SizeHint),
}

/// What the reading side needs before it has the next chunk.
#[derive(Clone, Copy, PartialEq, Eq, Structural, Debug)]
pub enum ChunkStep {
    /// At least one byte.
    Peek,
    /// So many bytes: a chunk and its tag.
    Exact(usize),
}

impl<C> ShadowsocksStream<C> {
    /// What has to be read to learn the size of the next chunk.
    pub fn poll_request_size(&self) -> (r: SizeStep)
        ensures
            r == (match self.rx_crypto {
                RxCryptoState::ReadingIv { .. } => SizeStep::ReadIv(self.sizes.iv_len),
                RxCryptoState::Ready(_) => if self.sizes.pre_chunk_overhead == 0 {
                    SizeStep::Known(SizeHint::Unknown { overhead: 0 })
                } else {
                    SizeStep::ReadSize(self.sizes.pre_chunk_overhead)
                },
            }),
    {
        match &self.rx_crypto {
            RxCryptoState::ReadingIv { .. } => SizeStep::ReadIv(self.sizes.iv_len),
            RxCryptoState::Ready(_) => if self.sizes.pre_chunk_overhead == 0 {
                SizeStep::Known(SizeHint::Unknown { overhead: 0 })
            } else {
                SizeStep::ReadSize(self.sizes.pre_chunk_overhead)
            },
        }
    }

    /// The cipher was made from the key and the initialization vector that was read.
    pub fn on_iv(&mut self, crypto: C)
        requires
            old(self).rx_crypto is ReadingIv,
        ensures
            *final(self) == (ShadowsocksStream {
                rx_crypto: RxCryptoState::Ready(crypto),
                ..*old(self)
            }),
    {
        self.rx_crypto = RxCryptoState::Ready(crypto);
    }

    /// The cipher opened the size of the next chunk, or could not.
    pub fn on_size(&mut self, size: Option<usize>) -> (r: Result<SizeHint, FlowError>)
        requires
            old(self).rx_crypto is Ready,
            size matches Some(n) ==> n + old(self).sizes.post_chunk_overhead <= usize::MAX,
        ensures
            match size {
                Some(n) => *final(self) == (ShadowsocksStream { rx_chunk_size: n, ..*old(self) })
                    && r == Ok::<SizeHint, FlowError>(
                    SizeHint::AtLeast((n + old(self).sizes.post_chunk_overhead) as usize),
                ),
                None => *final(self) == *old(self) && r == Err::<SizeHint, FlowError>(
                    FlowError::UnexpectedData,
                ),
            },
    {
        match size {
            Some(n) => {
                self.rx_chunk_size = n;
                Ok(SizeHint::AtLeast(n + self.sizes.post_chunk_overhead))
            },
            None => Err(FlowError::UnexpectedData),
        }
    }

    /// Takes the buffer that the next chunk is appended to.
    pub fn commit_rx_buffer(&mut self, buffer: Vec<u8>)
        ensures
            *final(self) == (ShadowsocksStream { rx_buf: Some(buffer), ..*old(self) }),
    {
        self.rx_buf = Some(buffer);
    }

    /// What has to be read to have the next chunk.
    pub fn poll_rx_buffer(&self) -> (r: ChunkStep)
        requires
            self.rx_crypto is Ready,
            self.rx_buf is Some,
            self.rx_chunk_size + self.sizes.post_chunk_overhead <= usize::MAX,
        ensures
            r == (if self.sizes.post_chunk_overhead == 0 {
                ChunkStep::Peek
            } else {
                ChunkStep::Exact((self.rx_chunk_size + self.sizes.post_chunk_overhead) as usize)
            }),
    {
        if self.sizes.post_chunk_overhead == 0 {
            ChunkStep::Peek
        } else {
            ChunkStep::Exact(self.rx_chunk_size + self.sizes.post_chunk_overhead)
        }
    }

    /// How many of the bytes that were seen are taken: no more than the buffer has room for.
    pub fn to_write(&self, seen: usize, room: usize) -> (r: usize)
        ensures
            r == (if seen < room {
                seen
            } else {
                room
            }),
    {
        if seen < room {
            seen
        } else {
            room
        }
    }

    /// A chunk and its tag, in what was read.
    pub fn chunk_and_tag<'a>(&self, read: &'a [u8]) -> (r: (&'a [u8], &'a [u8]))
        requires
            read@.len() == self.rx_chunk_size + self.sizes.post_chunk_overhead,
        ensures
            r.0@ == read@.subrange(0, self.rx_chunk_size as int),
            r.1@ == read@.subrange(self.rx_chunk_size as int, read@.len() as int),
    {
        (
            slice_subrange(read, 0, self.rx_chunk_size),
            slice_subrange(read, self.rx_chunk_size, read.len()),
        )
    }

    /// The stream below was read, and the cipher opened what was read, or could not. The buffer
    /// goes back to the reader, with the plain bytes appended or with an error.
    pub fn on_plain(&mut self, plain: Result<Option<&[u8]>, FlowError>) -> (r: Result<
        Vec<u8>,
        (Vec<u8>, FlowError),
    >)
        requires
            old(self).rx_buf is Some,
        ensures
            *final(self) == (ShadowsocksStream { rx_buf: None, ..*old(self) }),
            match (plain, r) {
                (Ok(Some(p)), Ok(b)) => b@ == old(self).rx_buf->Some_0@ + p@,
                (Ok(None), Err((b, e))) => b == old(self).rx_buf->Some_0 && e
                    == FlowError::UnexpectedData,
                (Err(failed), Err((b, e))) => b == old(self).rx_buf->Some_0 && e == failed,
                _ => false,
            },
    {
        let mut taken: Option<Vec<u8>> = None;
        std::mem::swap(&mut taken, &mut self.rx_buf);
        let mut buf: Vec<u8> = taken.unwrap();
        match plain {
            Ok(Some(p)) => {
                let mut more: Vec<u8> = slice_to_vec(p);
                buf.append(&mut more);
                Ok(buf)
            },
            Ok(None) => Err((buf, FlowError::UnexpectedData)),
            Err(e) => Err((buf, e)),
        }
    }

    /// How much room the stream below is asked for where `size` bytes are to be written.
    pub fn poll_tx_buffer(&self, size: usize) -> (r: usize)
        requires
            size + self.sizes.pre_chunk_overhead + self.sizes.post_chunk_overhead <= usize::MAX,
        ensures
            r == size + self.sizes.pre_chunk_overhead + self.sizes.post_chunk_overhead,
    {
        size + self.sizes.pre_chunk_overhead + self.sizes.post_chunk_overhead
    }

    /// Sets room aside in the buffer of the stream below for the sealed size. The chunk is written
    /// behind it.
    pub fn on_tx_buffer(&mut self, buf: Vec<u8>) -> (r: Vec<u8>)
        ensures
            *final(self) == (ShadowsocksStream { tx_offset: buf.len(), ..*old(self) }),
            r@ == buf@ + Seq::new(old(self).sizes.pre_chunk_overhead as nat, |i: int| 0u8),
    {
        let mut r = buf;
        self.tx_offset = r.len();
        let n: usize = self.sizes.pre_chunk_overhead;
        let mut i: usize = 0;
        assert(r@ =~= buf@ + Seq::new(0nat, |j: int| 0u8));
        while i < n
            invariant
                i <= n,
                r@ == buf@ + Seq::new(i as nat, |j: int| 0u8),
            decreases n - i,
        {
            r.push(0);
            assert(r@ =~= buf@ + Seq::new((i + 1) as nat, |j: int| 0u8));
            i += 1;
        }
        r
    }

    /// Whether a buffer holds what was set aside for the sealed size.
    pub open spec fn holds_chunk(&self, buffer: Seq<u8>) -> bool {
        self.tx_offset + self.sizes.pre_chunk_overhead <= buffer.len()
    }

    /// What is to be sealed: the room for the size, and the chunk.
    pub fn to_seal<'a>(&self, buffer: &'a [u8]) -> (r: (&'a [u8], &'a [u8]))
        requires
            self.holds_chunk(buffer@),
        ensures
            r.0@ == buffer@.subrange(
                self.tx_offset as int,
                self.tx_offset + self.sizes.pre_chunk_overhead,
            ),
            r.1@ == buffer@.subrange(
                self.tx_offset + self.sizes.pre_chunk_overhead,
                buffer@.len() as int,
            ),
    {
        let len: usize = buffer.len();
        let mid: usize = self.tx_offset + self.sizes.pre_chunk_overhead;
        (slice_subrange(buffer, self.tx_offset, mid), slice_subrange(buffer, mid, len))
    }

    /// What goes to the stream below: what was in the buffer before, and what the cipher made of
    /// the size and the chunk, with the tag behind it.
    pub fn commit_tx_buffer(&self, buffer: &[u8], pre: &[u8], chunk: &[u8], tag: &[u8]) -> (r: Vec<
        u8,
    >)
        requires
            self.holds_chunk(buffer@),
            pre@.len() == self.sizes.pre_chunk_overhead,
            chunk@.len() == buffer@.len() - self.tx_offset - self.sizes.pre_chunk_overhead,
            tag@.len() == self.sizes.post_chunk_overhead,
        ensures
            r@ == sealed(buffer@.subrange(0, self.tx_offset as int), pre@, chunk@, tag@),
    {
        let len: usize = buffer.len();
        let mut r: Vec<u8> = slice_to_vec(slice_subrange(buffer, 0, self.tx_offset));
        let mut a: Vec<u8> = slice_to_vec(pre);
        let mut b: Vec<u8> = slice_to_vec(chunk);
        let mut c: Vec<u8> = slice_to_vec(tag);
        r.append(&mut a);
        r.append(&mut b);
        r.append(&mut c);
        r
    }
}

/// A frame behind what was written before.
pub open spec fn sealed(before: Seq<u8>, pre: Seq<u8>, chunk: Seq<u8>, tag: Seq<u8>) -> Seq<u8> {
    before + pre + chunk + tag
}

/// A frame is as long as its chunk and what the cipher adds, and it comes apart where the reading
/// side cuts it: the sealed size, then the chunk, then its tag.
pub proof fn frame_comes_apart(before: Seq<u8>, pre: Seq<u8>, chunk: Seq<u8>, tag: Seq<u8>)
    ensures
        ({
            let all = sealed(before, pre, chunk, tag);
            let frame = all.subrange(before.len() as int, all.len() as int);
            let rest = frame.subrange(pre.len() as int, frame.len() as int);
            &&& all.len() == before.len() + pre.len() + chunk.len() + tag.len()
            &&& frame.subrange(0, pre.len() as int) == pre
            &&& rest.subrange(0, chunk.len() as int) == chunk
            &&& rest.subrange(chunk.len() as int, rest.len() as int) == tag
        }),
{
    let all = sealed(before, pre, chunk, tag);
    let frame = all.subrange(before.len() as int, all.len() as int);
    let rest = frame.subrange(pre.len() as int, frame.len() as int);
    assert(frame.subrange(0, pre.len() as int) =~= pre);
    assert(rest.subrange(0, chunk.len() as int) =~= chunk);
    assert(rest.subrange(chunk.len() as int, rest.len() as int) =~= tag);
}

// ---- Laws: a stream ----
/// The initialization vector is read first, once; then, for a cipher that seals sizes, the size of each
/// chunk, and for one that does not, nothing.
pub proof fn sizes_are_read_in_order<C>(
    s: &mut ShadowsocksStream<C>,
    first: SizeStep,
    crypto: C,
    second: SizeStep,
)
    requires
        s.rx_crypto is ReadingIv,
        call_ensures(ShadowsocksStream::<C>::poll_request_size, (&*old(s),), first),
        call_ensures(ShadowsocksStream::<C>::on_iv, (s, crypto), ()),
        call_ensures(ShadowsocksStream::<C>::poll_request_size, (&*final(s),), second),
    ensures
        first == SizeStep::ReadIv(old(s).sizes.iv_len),
        old(s).sizes.pre_chunk_overhead > 0 ==> second == SizeStep::ReadSize(
            old(s).sizes.pre_chunk_overhead,
        ),
        old(s).sizes.pre_chunk_overhead == 0 ==> second == SizeStep::Known(
            SizeHint::Unknown { overhead: 0 },
        ),
        final(s).rx_crypto == RxCryptoState::Ready(crypto),
        final(s).tx_crypto == old(s).tx_crypto,
{
}

/// After a size was opened, just the chunk and its tag are read, the reader is told to make room for
/// both, and the chunk is cut off in front of the tag. A size that cannot be opened is an error.
pub proof fn chunks_are_read_whole<C>(
    s: &mut ShadowsocksStream<C>,
    n: usize,
    r: Result<SizeHint, FlowError>,
    step: ChunkStep,
    chunk: &[u8],
    tag: &[u8],
    read: &[u8],
    cut: (&[u8], &[u8]),
    t: &mut ShadowsocksStream<C>,
    bad: Result<SizeHint, FlowError>,
)
    requires
        s.rx_crypto is Ready,
        s.rx_buf is Some,
        s.sizes.post_chunk_overhead > 0,
        n + s.sizes.post_chunk_overhead <= usize::MAX,
        call_ensures(ShadowsocksStream::<C>::on_size, (s, Some(n)), r),
        call_ensures(ShadowsocksStream::<C>::poll_rx_buffer, (&*final(s),), step),
        chunk@.len() == n,
        tag@.len() == s.sizes.post_chunk_overhead,
        read@ == chunk@ + tag@,
        call_ensures(ShadowsocksStream::<C>::chunk_and_tag, (&*final(s), read), cut),
        t.rx_crypto is Ready,
        call_ensures(ShadowsocksStream::<C>::on_size, (t, None), bad),
    ensures
        r == Ok::<SizeHint, FlowError>(SizeHint::AtLeast(read@.len() as usize)),
        step == ChunkStep::Exact(read@.len() as usize),
        cut.0@ == chunk@,
        cut.1@ == tag@,
        bad == Err::<SizeHint, FlowError>(FlowError::UnexpectedData),
        *final(t) == *old(t),
{
    assert(read@.subrange(0, n as int) =~= chunk@);
    assert(read@.subrange(n as int, read@.len() as int) =~= tag@);
}

/// The plain bytes of a chunk are appended to the buffer of the reader, which goes back to it. So does
/// the buffer where reading failed or the chunk cannot be opened, as it was.
pub proof fn plain_bytes_go_to_the_reader<C>(
    s: &mut ShadowsocksStream<C>,
    buffer: Vec<u8>,
    t: &mut ShadowsocksStream<C>,
    plain: Result<Option<&[u8]>, FlowError>,
    r: Result<Vec<u8>, (Vec<u8>, FlowError)>,
)
    requires
        call_ensures(ShadowsocksStream::<C>::commit_rx_buffer, (s, buffer), ()),
        *t == *final(s),
        call_ensures(ShadowsocksStream::<C>::on_plain, (t, plain), r),
    ensures
        plain matches Ok(Some(p)) ==> (r matches Ok(b) && b@ == buffer@ + p@),
        plain matches Ok(None) ==> (r matches Err((b, e)) && b@ == buffer@ && e
            == FlowError::UnexpectedData),
        plain matches Err(failed) ==> (r matches Err((b, e)) && b@ == buffer@ && e == failed),
        final(t).rx_buf is None,
        final(t).rx_chunk_size == old(s).rx_chunk_size,
{
}

/// What is written is framed so that the reading side cuts it where it was put together: behind what
/// was in the buffer, the sealed size, the chunk, the tag.
pub proof fn written_chunks_are_framed<C>(
    s: &mut ShadowsocksStream<C>,
    before: Vec<u8>,
    room: Vec<u8>,
    buffer: &[u8],
    data: Seq<u8>,
    parts: (&[u8], &[u8]),
    pre: &[u8],
    chunk: &[u8],
    tag: &[u8],
    frame: Vec<u8>,
    size: usize,
    asked: usize,
)
    requires
        call_ensures(ShadowsocksStream::<C>::on_tx_buffer, (s, before), room),
        buffer@ == room@ + data,
        call_ensures(ShadowsocksStream::<C>::to_seal, (&*final(s), buffer), parts),
        pre@.len() == s.sizes.pre_chunk_overhead,
        chunk@.len() == data.len(),
        tag@.len() == s.sizes.post_chunk_overhead,
        call_ensures(
            ShadowsocksStream::<C>::commit_tx_buffer,
            (&*final(s), buffer, pre, chunk, tag),
            frame,
        ),
        size + s.sizes.pre_chunk_overhead + s.sizes.post_chunk_overhead <= usize::MAX,
        call_ensures(ShadowsocksStream::<C>::poll_tx_buffer, (&*final(s), size), asked),
    ensures
        parts.1@ == data,
        parts.0@.len() == old(s).sizes.pre_chunk_overhead,
        frame@ == before@ + pre@ + chunk@ + tag@,
        size == data.len() ==> frame@.len() == before@.len() + asked,
{
    let n = old(s).sizes.pre_chunk_overhead as int;
    assert(parts.1@ =~= data);
    assert(buffer@.subrange(0, before@.len() as int) =~= before@);
}

/// No more is taken of what was seen than there is, and no more than there is room for.
pub proof fn only_what_fits_is_taken<C>(
    s: &ShadowsocksStream<C>,
    seen: usize,
    room: usize,
    r: usize,
)
    requires
        call_ensures(ShadowsocksStream::<C>::to_write, (s, seen, room), r),
    ensures
        r <= seen && r <= room,
        r == seen || r == room,
{
}

} // verus!
