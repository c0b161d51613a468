//! Where the bytes come from: the one capability that the decoder asks of
//! its input, the adapter that gives it the shape of open, read and close,
//! and the decoding of a stream that is read through the adapter.

use vstd::prelude::*;
use crate::bytes::{copy_range, zero_bytes, zeros};
use crate::error::{TNEFError, TNEFResult};
use crate::tnef::{is_decode_of, TNEFFile};

verus! {

/// A source of bytes. Of a source in general nothing is promised: it may
/// fail, and the adapter checks what it hands back. A source may declare
/// itself exact; of such a source it is known which bytes it will give.
pub trait ByteSource {
    /// Whether the source is exact: it never fails, and gives its pending
    /// bytes in their order and nothing else. A source is not exact unless
    /// it says so.
    open spec fn is_exact(&self) -> bool {
        false
    }

    /// The bytes that an exact source has yet to give.
    open spec fn pending(&self) -> Seq<u8> {
        Seq::empty()
    }

    /// Reads the next bytes, at most `limit` of them. An empty result marks
    /// the end of the data; `None` reports a failure.
    fn read(&mut self, limit: usize) -> (got: Option<Vec<u8>>)
        ensures
            old(self).is_exact() ==> final(self).is_exact() && is_exact_read(
                chunk_view(got),
                limit as int,
                old(self).pending(),
                final(self).pending(),
            ),
    ;
}

/// Whether `got` is what an exact source gives of its pending bytes on a
/// read of at most `limit` bytes, which leaves it `rest`: a run of bytes
/// from the front of the pending ones, which is empty only at the end of
/// the data or where nothing was asked for.
pub open spec fn is_exact_read(
    got: Option<Seq<u8>>,
    limit: int,
    pending: Seq<u8>,
    rest: Seq<u8>,
) -> bool {
    &&& got matches Some(chunk)
    &&& chunk.len() <= limit
    &&& chunk.len() <= pending.len()
    &&& chunk == pending.take(chunk.len() as int)
    &&& rest == pending.skip(chunk.len() as int)
    &&& chunk.len() == 0 ==> limit == 0 || pending.len() == 0
}

/// A source that reads from bytes in memory.
pub struct BufferSource {
    data: Vec<u8>,
    pos: usize,
}

impl BufferSource {
    #[verifier::type_invariant]
    spec fn well_formed(self) -> bool {
        self.pos <= self.data@.len()
    }

    /// A source that gives `data` from its first byte on.
    pub fn new(data: Vec<u8>) -> (out: Self)
        ensures
            out.is_exact(),
            out.pending() == data@,
    {
        assert(data@.skip(0) =~= data@);
        BufferSource { data, pos: 0 }
    }

    /// Takes the next bytes, as many as are left and at most `limit`.
    pub fn take(&mut self, limit: usize) -> (chunk: Vec<u8>)
        ensures
            chunk@.len() == if limit <= old(self).pending().len() {
                limit as int
            } else {
                old(self).pending().len() as int
            },
            chunk@ == old(self).pending().take(chunk@.len() as int),
            final(self).pending() == old(self).pending().skip(chunk@.len() as int),
    {
        proof {
            use_type_invariant(&*self);
        }
        let left: usize = self.data.len() - self.pos;
        let n: usize = if limit <= left {
            limit
        } else {
            left
        };
        let chunk = copy_range(self.data.as_slice(), self.pos, self.pos + n);
        assert(chunk@ =~= self.pending().take(n as int));
        assert(self.data@.skip(self.pos + n) =~= self.pending().skip(n as int));
        self.pos = self.pos + n;
        chunk
    }
}

impl ByteSource for BufferSource {
    open spec fn is_exact(&self) -> bool {
        true
    }

    closed spec fn pending(&self) -> Seq<u8> {
        self.data@.skip(self.pos as int)
    }

    /// Gives the next bytes, as many as are left and at most `limit`; it
    /// never fails.
    fn read(&mut self, limit: usize) -> (got: Option<Vec<u8>>) {
        Some(self.take(limit))
    }
}

/// The number of bytes that a read of `element_count` elements of
/// `byte_size` bytes asks for: their product. Nothing where one of the two
/// is negative or the product does not fit in 32 bits with a sign.
pub open spec fn request_len(byte_size: i32, element_count: i32) -> Option<int> {
    if byte_size < 0 || element_count < 0 || byte_size * element_count > i32::MAX {
        None
    } else {
        Some(byte_size * element_count)
    }
}

/// What a source gave, as plain values.
pub open spec fn chunk_view(got: Option<Vec<u8>>) -> Option<Seq<u8>> {
    match got {
        Some(chunk) => Some(chunk@),
        None => None,
    }
}

/// What a read of `total` bytes hands to the decoder for what the source
/// gave: the number of bytes read and a destination of exactly `total`
/// bytes, which starts with the bytes read and is zero behind them. The
/// number is -1 where the source failed or gave more than was asked for.
pub open spec fn read_result(total: int, got: Option<Seq<u8>>) -> (int, Seq<u8>) {
    match got {
        Some(chunk) => if chunk.len() <= total {
            (chunk.len() as int, chunk + zeros(total - chunk.len()))
        } else {
            (-1, zeros(total))
        },
        None => (-1, zeros(total)),
    }
}

/// Whether a number and a destination are what a read of `total` bytes
/// hands to the decoder, for something that the source may have given.
pub open spec fn is_read_of(bytes_read: int, dest: Seq<u8>, total: int) -> bool {
    exists|got: Option<Seq<u8>>| (bytes_read, dest) == #[trigger] read_result(total, got)
}

/// Makes of what the source gave the number and the destination that a
/// read of `total` bytes hands to the decoder.
pub fn fill_destination(total: usize, got: Option<Vec<u8>>) -> (r: (i32, Vec<u8>))
    requires
        total <= i32::MAX,
    ensures
        (r.0 as int, r.1@) == read_result(total as int, chunk_view(got)),
{
    match got {
        Some(chunk) => {
            let n: usize = chunk.len();
            if n <= total {
                let mut dest = chunk;
                let mut tail = zero_bytes(total - n);
                dest.append(&mut tail);
                (n as i32, dest)
            } else {
                (-1, zero_bytes(total))
            }
        },
        None => (-1, zero_bytes(total)),
    }
}

/// The adapter between a source of bytes and the decoder: it gives the
/// source the shape of open, read and close.
pub struct ReaderWrapper<S: ByteSource> {
    inner: S,
}

impl<S: ByteSource> ReaderWrapper<S> {
    /// The source that the adapter reads from.
    pub closed spec fn source(self) -> S {
        self.inner
    }

    /// The adapter around `inner`.
    pub fn new(inner: S) -> (out: Self)
        ensures
            out.source() == inner,
    {
        ReaderWrapper { inner }
    }

    /// Does nothing and succeeds: the status is zero.
    pub fn open(&mut self) -> (status: i32)
        ensures
            status == 0,
            *final(self) == *old(self),
    {
        0
    }

    /// Reads `element_count` elements of `byte_size` bytes into a fresh
    /// destination of exactly that many bytes, and hands back the
    /// destination with the number of bytes read, or with -1 where the
    /// source failed. A request that has no length is answered with -1 and
    /// an empty destination, and the source is not asked.
    pub fn read(&mut self, byte_size: i32, element_count: i32) -> (r: (i32, Vec<u8>))
        ensures
            match request_len(byte_size, element_count) {
                None => r.0 == -1 && r.1@.len() == 0 && final(self).source() == old(self).source(),
                Some(total) => {
                    &&& is_read_of(r.0 as int, r.1@, total)
                    &&& old(self).source().is_exact() ==> final(self).source().is_exact()
                        && 0 <= r.0 <= total && r.1@.len() == total && is_exact_read(
                        Some(r.1@.take(r.0 as int)),
                        total,
                        old(self).source().pending(),
                        final(self).source().pending(),
                    )
                },
            },
    {
        if byte_size < 0 || element_count < 0 {
            return (-1, Vec::new());
        }
        assert(byte_size * element_count >= 0) by (nonlinear_arith)
            requires
                byte_size >= 0,
                element_count >= 0,
        ;
        match byte_size.checked_mul(element_count) {
            None => (-1, Vec::new()),
            Some(total) => {
                let got = self.inner.read(total as usize);
                let ghost given = chunk_view(got);
                let r = fill_destination(total as usize, got);
                assert((r.0 as int, r.1@) == read_result(total as int, given));
                proof {
                    match given {
                        Some(chunk) => {
                            if chunk.len() <= total {
                                assert(r.1@.take(r.0 as int) =~= chunk);
                            }
                        },
                        None => {},
                    }
                }
                r
            },
        }
    }

    /// Does nothing and succeeds: the status is zero.
    pub fn close(&mut self) -> (status: i32)
        ensures
            status == 0,
            *final(self) == *old(self),
    {
        0
    }
}

/// What the decoder does after a read.
#[derive(Clone, Copy, Debug, PartialEq, Eq, Structural)]
pub enum StreamStep {
    /// Bytes were read: read on.
    More,
    /// The source is at its end: decode what was read.
    End,
    /// The source failed: give up.
    Failed,
}

/// One read, as the decoder sees it: the number that came back and the
/// destination.
pub struct ReadOutcome {
    pub bytes_read: int,
    pub dest: Seq<u8>,
}

/// What one read does to the bytes gathered so far. A negative number, or
/// one beyond the destination, is a failure; zero is the end of the data;
/// any other number appends that many bytes of the destination.
pub open spec fn absorb_spec(have: Seq<u8>, bytes_read: int, dest: Seq<u8>) -> (
    Seq<u8>,
    StreamStep,
) {
    if bytes_read < 0 || bytes_read > dest.len() {
        (have, StreamStep::Failed)
    } else if bytes_read == 0 {
        (have, StreamStep::End)
    } else {
        (have + dest.take(bytes_read), StreamStep::More)
    }
}

/// What a run of reads gathers, and where it leaves the decoder. Reads
/// behind the end of the data or behind a failure count for nothing.
pub open spec fn absorb_all(reads: Seq<ReadOutcome>) -> (Seq<u8>, StreamStep)
    decreases reads.len(),
{
    if reads.len() == 0 {
        (Seq::empty(), StreamStep::More)
    } else {
        let (have, step) = absorb_all(reads.drop_last());
        if step == StreamStep::More {
            absorb_spec(have, reads.last().bytes_read, reads.last().dest)
        } else {
            (have, step)
        }
    }
}

/// Whether each of these reads is what a read of `total` bytes hands to the
/// decoder.
pub open spec fn are_reads_of(reads: Seq<ReadOutcome>, total: int) -> bool {
    forall|i: int|
        0 <= i < reads.len() ==> is_read_of(
            (#[trigger] reads[i]).bytes_read,
            reads[i].dest,
            total,
        )
}

/// Whether `r` is what decoding a stream gives after these reads: where
/// they lead to the end of the data, what decoding the gathered bytes gives;
/// where the source failed, the error of the I/O handler. Reads that lead to
/// neither have no result.
pub open spec fn is_stream_result(r: TNEFResult<TNEFFile>, reads: Seq<ReadOutcome>) -> bool {
    let (have, step) = absorb_all(reads);
    match step {
        StreamStep::End => is_decode_of(r, have),
        StreamStep::Failed => r matches Err(e) && e == TNEFError::ErrorInHandler,
        StreamStep::More => false,
    }
}

/// The bytes of a stream, gathered read by read.
pub struct StreamBuffer {
    bytes: Vec<u8>,
}

impl View for StreamBuffer {
    type V = Seq<u8>;

    closed spec fn view(&self) -> Seq<u8> {
        self.bytes@
    }
}

impl StreamBuffer {
    /// The buffer of a stream of which nothing was read yet.
    pub fn new() -> (out: Self)
        ensures
            out@ == Seq::<u8>::empty(),
    {
        StreamBuffer { bytes: Vec::new() }
    }

    /// The number of bytes gathered.
    pub fn len(&self) -> (n: usize)
        ensures
            n == self@.len(),
    {
        self.bytes.len()
    }

    /// Takes in one read.
    pub fn absorb(&mut self, bytes_read: i32, dest: &[u8]) -> (step: StreamStep)
        ensures
            (final(self)@, step) == absorb_spec(old(self)@, bytes_read as int, dest@),
            final(self)@.len() <= usize::MAX,
    {
        assert(self.bytes.len() == self.bytes@.len());
        if bytes_read < 0 || bytes_read as usize > dest.len() {
            StreamStep::Failed
        } else if bytes_read == 0 {
            StreamStep::End
        } else {
            let mut piece = copy_range(dest, 0, bytes_read as usize);
            assert(piece@ =~= dest@.take(bytes_read as int));
            self.bytes.append(&mut piece);
            assert(self.bytes.len() == self.bytes@.len());
            StreamStep::More
        }
    }

    /// Decodes the bytes gathered.
    pub fn decode(&self) -> (r: TNEFResult<TNEFFile>)
        ensures
            is_decode_of(r, self@),
    {
        TNEFFile::decode(self.bytes.as_slice())
    }
}

/// The number of bytes that the decoder asks of a stream in one read.
pub const CHUNK_SIZE: i32 = 4096;

impl TNEFFile {
    /// Decodes a document from a source of bytes: reads the source through
    /// the adapter, `CHUNK_SIZE` bytes at a time, until it is at its end,
    /// then decodes what was read. A source that fails gives the error of
    /// the I/O handler.
    pub fn new<S: ByteSource>(reader: S) -> (r: TNEFResult<TNEFFile>)
        ensures
            exists|reads: Seq<ReadOutcome>|
                are_reads_of(reads, CHUNK_SIZE as int) && #[trigger] is_stream_result(r, reads),
            reader.is_exact() ==> is_decode_of(r, reader.pending()),
    {
        let mut wrapper = ReaderWrapper::new(reader);
        let _ = wrapper.open();
        let mut gathered = StreamBuffer::new();
        let ghost mut reads: Seq<ReadOutcome> = Seq::empty();
        loop
            invariant_except_break
                absorb_all(reads) == (gathered@, StreamStep::More),
            invariant
                are_reads_of(reads, CHUNK_SIZE as int),
                gathered@.len() <= usize::MAX,
                reader.is_exact() ==> wrapper.source().is_exact() && gathered@
                    + wrapper.source().pending() == reader.pending(),
            ensures
                absorb_all(reads) == (gathered@, StreamStep::End),
                reader.is_exact() ==> gathered@ == reader.pending(),
            decreases usize::MAX - gathered@.len(),
        {
            let ghost pending = wrapper.source().pending();
            let ghost before = gathered@;
            let (bytes_read, dest) = wrapper.read(1, CHUNK_SIZE);
            let step = gathered.absorb(bytes_read, dest.as_slice());
            proof {
                let earlier = reads;
                reads = reads.push(ReadOutcome { bytes_read: bytes_read as int, dest: dest@ });
                assert(reads.drop_last() =~= earlier);
                if reader.is_exact() {
                    let n = bytes_read as int;
                    assert(before + pending.take(n) + pending.skip(n) =~= before + pending);
                    if n == 0 {
                        assert(before + pending =~= before);
                    }
                }
            }
            match step {
                StreamStep::More => {},
                StreamStep::End => {
                    break ;
                },
                StreamStep::Failed => {
                    let _ = wrapper.close();
                    assert(is_stream_result(Err(TNEFError::ErrorInHandler), reads));
                    return Err(TNEFError::ErrorInHandler);
                },
            }
        }
        let _ = wrapper.close();
        let r = gathered.decode();
        assert(is_stream_result(r, reads));
        r
    }
}

} // verus!
