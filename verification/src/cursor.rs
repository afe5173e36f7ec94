//! The cursor that transforms payload bytes and keeps a logical offset.

use crate::error::{ErrorKind, IoError};
use crate::stream::{available, failure_of, least, overwrite, window, SeekFrom, Stream};
use crate::{flip, flipped, xor_bytes};
use vstd::prelude::*;

verus! {

/// The largest number of bytes that one write transforms and hands on.
pub const BUFFER_LEN: usize = 16384;

/// A stream wrapped so that every byte read from it or written to it is
/// transformed, and so that offsets count from the place at which the stream
/// stood when it was wrapped.
///
/// `offset` follows every read and write. The absolute position of offset 0,
/// the `base`, is asked of the stream only when a seek first needs it. A
/// cursor is `adrift` once a seek has failed to take the wrapped stream back
/// to where it stood; a seek from the start puts it right again.
#[derive(Debug)]
pub struct Cursor<S> {
    inner: S,
    base: Option<u64>,
    offset: u64,
    adrift: bool,
}

/// The transformed bytes that one write offered to the wrapped stream, and
/// how many of them the stream accepted.
#[derive(Debug)]
pub struct Chunk {
    bytes: Vec<u8>,
    len: usize,
}

impl View for Chunk {
    type V = Seq<u8>;

    /// The bytes that the stream accepted.
    closed spec fn view(&self) -> Seq<u8> {
        self.bytes@.take(self.len as int)
    }
}

impl Chunk {
    /// No more bytes were accepted than were offered.
    #[verifier::type_invariant]
    spec fn accepted_within_offered(&self) -> bool {
        self.len <= self.bytes@.len()
    }

    /// A chunk of which the first `len` bytes were accepted.
    pub(crate) fn new(bytes: Vec<u8>, len: usize) -> (chunk: Chunk)
        requires
            len <= bytes@.len(),
        ensures
            chunk@ == bytes@.take(len as int),
    {
        Chunk { bytes, len }
    }

    /// How many bytes were accepted.
    pub fn len(&self) -> (n: usize)
        ensures
            n == self@.len(),
    {
        proof {
            use_type_invariant(self);
        }
        self.len
    }

    /// The bytes that were accepted.
    pub fn as_ref(&self) -> (accepted: &[u8])
        ensures
            accepted@ == self@,
    {
        proof {
            use_type_invariant(self);
        }
        vstd::slice::slice_subrange(self.bytes.as_slice(), 0, self.len)
    }
}

/// The transformed front part of `buf` that one write hands on: all of it, or
/// its first `BUFFER_LEN` bytes where it is longer.
pub fn transform_chunk(buf: &[u8]) -> (chunk: Vec<u8>)
    ensures
        chunk@ == flipped(buf@.take(least(buf@.len(), BUFFER_LEN as nat) as int)),
{
    let n = if buf.len() <= BUFFER_LEN {
        buf.len()
    } else {
        BUFFER_LEN
    };
    let mut chunk = vstd::slice::slice_to_vec(vstd::slice::slice_subrange(buf, 0, n));
    xor_bytes(chunk.as_mut_slice());
    chunk
}

impl<S: Stream> Cursor<S> {
    /// The wrapped stream.
    pub closed spec fn stream(&self) -> S {
        self.inner
    }

    /// The absolute position of offset 0, once a seek has asked for it.
    pub closed spec fn base(&self) -> Option<u64> {
        self.base
    }

    /// The logical offset.
    pub closed spec fn spec_offset(&self) -> u64 {
        self.offset
    }

    /// Whether a seek has left the wrapped stream elsewhere than the offset
    /// says.
    pub closed spec fn adrift(&self) -> bool {
        self.adrift
    }

    /// The absolute position of offset 0.
    pub open spec fn origin(&self) -> int {
        match self.base() {
            Some(b) => b as int,
            None => self.stream().position() - self.offset(),
        }
    }

    /// The wrapped stream stands where the offset says.
    pub open spec fn wf(&self) -> bool {
        &&& !self.adrift()
        &&& 0 <= self.origin()
        &&& self.origin() + self.offset() == self.stream().position()
    }

    /// How many stored bytes lie at and after the offset.
    pub open spec fn remaining(&self) -> nat {
        available(self.stream().bytes(), self.stream().position())
    }

    /// The next `n` payload bytes, as a reader is to see them.
    pub open spec fn plain(&self, n: nat) -> Seq<u8> {
        flipped(window(self.stream().bytes(), self.stream().position() as int, n))
    }

    /// The logical offset that a seek request names. It may be negative.
    pub open spec fn logical_target(&self, pos: SeekFrom) -> int {
        match pos {
            SeekFrom::Start(n) => n as int,
            SeekFrom::End(d) => self.stream().bytes().len() - self.origin() + d,
            SeekFrom::Current(d) => self.offset() + d,
        }
    }

    /// Whether a seek request names an offset that is not negative and an
    /// absolute position that a `u64` can hold.
    pub open spec fn in_range(&self, pos: SeekFrom) -> bool {
        &&& 0 <= self.logical_target(pos)
        &&& self.origin() + self.logical_target(pos) <= u64::MAX
    }

    /// Nothing but the offset and the wrapped stream's position differs
    /// between `self` and `after`.
    pub open spec fn same_payload(self, after: Self) -> bool {
        &&& after.base() == self.base()
        &&& after.origin() == self.origin()
        &&& after.stream().bytes() == self.stream().bytes()
        &&& after.stream().reliable() == self.stream().reliable()
    }

    /// The wrapped stream failed with `e` and left the cursor where it was;
    /// and where the error was an interruption, the stream has one less to
    /// report.
    pub open spec fn failed(self, after: Self, e: IoError) -> bool {
        &&& after.offset() == self.offset()
        &&& after.stream().bytes() == self.stream().bytes()
        &&& after.stream().last_failure() == Some(e)
        &&& e.kind == ErrorKind::Interrupted ==> after.stream().interrupt_budget()
            < self.stream().interrupt_budget()
    }

    /// What `read` does: `self` is the cursor before the call and `after`
    /// the cursor after it, `before` and `buf` are the buffer before and
    /// after it.
    pub open spec fn read_outcome(
        self,
        after: Self,
        before: Seq<u8>,
        buf: Seq<u8>,
        r: Result<usize, IoError>,
    ) -> bool {
        &&& after.wf()
        &&& self.same_payload(after)
        &&& buf.len() == before.len()
        &&& match r {
            Ok(n) => {
                &&& n <= before.len()
                &&& n <= self.remaining()
                &&& n == 0 ==> before.len() == 0 || self.remaining() == 0
                &&& after.offset() == self.offset() + n
                &&& buf == self.plain(n as nat) + before.subrange(n as int, before.len() as int)
            },
            Err(e) => self.failed(after, e),
        }
        &&& self.stream().reliable() ==> r == Ok::<usize, IoError>(
            least(before.len(), self.remaining()) as usize,
        )
    }

    /// What `read_exact` does, with the parameters of `read_outcome`.
    pub open spec fn read_exact_outcome(
        self,
        after: Self,
        before: Seq<u8>,
        buf: Seq<u8>,
        r: Result<(), IoError>,
    ) -> bool {
        &&& after.wf()
        &&& self.same_payload(after)
        &&& buf.len() == before.len()
        &&& self.offset() <= after.offset()
        &&& after.offset() - self.offset() <= least(before.len(), self.remaining())
        &&& match r {
            Ok(()) => {
                &&& after.offset() == self.offset() + before.len()
                &&& buf == self.plain(before.len())
            },
            Err(e) => {
                let ended_early = {
                    &&& e.kind == ErrorKind::UnexpectedEof
                    &&& self.remaining() < before.len()
                    &&& after.offset() == self.offset() + self.remaining()
                };
                &&& e.kind != ErrorKind::Interrupted
                &&& after.stream().last_failure() == Some(e) || ended_early
                &&& self.stream().reliable() ==> ended_early
            },
        }
    }

    /// What a write does that hands `stored`, or a front part of it, to the
    /// wrapped stream and accepts no more than `most` bytes at once.
    pub open spec fn write_outcome(
        self,
        after: Self,
        stored: Seq<u8>,
        most: nat,
        r: Result<usize, IoError>,
    ) -> bool {
        &&& after.wf()
        &&& after.base() == self.base()
        &&& after.origin() == self.origin()
        &&& after.stream().reliable() == self.stream().reliable()
        &&& match r {
            Ok(n) => {
                &&& n <= least(stored.len(), most)
                &&& after.offset() == self.offset() + n
                &&& after.stream().bytes() == overwrite(
                    self.stream().bytes(),
                    self.stream().position() as int,
                    stored.take(n as int),
                )
            },
            Err(e) => self.failed(after, e),
        }
        &&& self.stream().reliable() && self.stream().position() + least(stored.len(), most)
            <= usize::MAX ==> r == Ok::<usize, IoError>(least(stored.len(), most) as usize)
    }

    /// What writing all of a buffer does, whether or not it succeeds:
    /// `stored` is what the stream is to hold for the buffer.
    pub open spec fn write_all_outcome(
        self,
        after: Self,
        stored: Seq<u8>,
        r: Result<(), IoError>,
    ) -> bool {
        &&& after.wf()
        &&& after.base() == self.base()
        &&& after.origin() == self.origin()
        &&& after.stream().reliable() == self.stream().reliable()
        &&& self.offset() <= after.offset() <= self.offset() + stored.len()
        &&& after.stream().bytes() == overwrite(
            self.stream().bytes(),
            self.stream().position() as int,
            stored.take(after.offset() - self.offset()),
        )
        &&& r is Ok ==> after.offset() == self.offset() + stored.len()
        &&& r matches Err(e) ==> e.kind != ErrorKind::Interrupted && (after.stream().last_failure()
            == Some(e) || e.kind == ErrorKind::WriteZero)
    }

    /// What `seek` does.
    pub open spec fn seek_outcome(self, after: Self, pos: SeekFrom, r: Result<u64, IoError>) -> bool {
        &&& after.stream().bytes() == self.stream().bytes()
        &&& after.stream().reliable() == self.stream().reliable()
        &&& after.origin() == self.origin()
        &&& match r {
            Ok(offset) => {
                &&& self.in_range(pos)
                &&& offset == self.logical_target(pos)
                &&& after.offset() == offset
                &&& after.base() is Some
                &&& after.wf()
            },
            Err(e) => {
                &&& after.offset() == self.offset()
                &&& after.base() is Some || after.base() == self.base()
                &&& after.adrift() <==> self.adrift() || after.stream().position()
                    != self.stream().position()
                &&& after.stream().position() != self.stream().position() ==> {
                    &&& pos is End
                    &&& !self.stream().reliable()
                    &&& self.logical_target(pos) < 0
                    &&& after.base() is Some
                    &&& after.stream().position() == self.stream().bytes().len() + pos->End_0
                }
                &&& after.stream().last_failure() == Some(e) || (e.kind == ErrorKind::InvalidInput
                    && !self.in_range(pos))
                &&& self.stream().reliable() ==> e.kind == ErrorKind::InvalidInput
                    && !self.in_range(pos)
            },
        }
    }

    /// What `flush` does.
    pub open spec fn flush_outcome(self, after: Self, r: Result<(), IoError>) -> bool {
        &&& after.stream().bytes() == self.stream().bytes()
        &&& after.stream().position() == self.stream().position()
        &&& after.stream().reliable() == self.stream().reliable()
        &&& after.base() == self.base()
        &&& after.offset() == self.offset()
        &&& after.adrift() == self.adrift()
        &&& after.stream().last_failure() == failure_of(r)
        &&& self.stream().reliable() ==> r is Ok
    }

    /// The payload byte at the logical offset `at`, as a reader is to see
    /// it.
    pub open spec fn payload_at(&self, at: int) -> u8 {
        flip(self.stream().bytes()[self.origin() + at])
    }

    /// A read returns, for each logical offset that it covers, the payload
    /// byte at that offset, and leaves every payload byte as it was.
    pub proof fn lemma_read_by_offset(
        self,
        after: Self,
        before: Seq<u8>,
        buf: Seq<u8>,
        n: usize,
        at: int,
    )
        requires
            self.wf(),
            self.read_outcome(after, before, buf, Ok(n)),
            self.offset() <= at < self.offset() + n,
        ensures
            buf[at - self.offset()] == self.payload_at(at),
            forall|k: int| after.payload_at(k) == self.payload_at(k),
    {
    }

    /// Two cursors over the same payload, wherever reads and seeks have
    /// taken them, return the same byte for a logical offset that a read of
    /// each of them covers: what is read at an offset does not depend on the
    /// way that led there.
    pub proof fn lemma_seek_consistency(
        self,
        after: Self,
        before: Seq<u8>,
        buf: Seq<u8>,
        n: usize,
        other: Self,
        other_after: Self,
        other_before: Seq<u8>,
        other_buf: Seq<u8>,
        other_n: usize,
        at: int,
    )
        requires
            self.wf(),
            other.wf(),
            other.stream().bytes() == self.stream().bytes(),
            other.origin() == self.origin(),
            self.read_outcome(after, before, buf, Ok(n)),
            other.read_outcome(other_after, other_before, other_buf, Ok(other_n)),
            self.offset() <= at < self.offset() + n,
            other.offset() <= at < other.offset() + other_n,
        ensures
            buf[at - self.offset()] == other_buf[at - other.offset()],
    {
        self.lemma_read_by_offset(after, before, buf, n, at);
        other.lemma_read_by_offset(other_after, other_before, other_buf, other_n, at);
    }

    /// A seek keeps the payload and, where it succeeds, makes the offset
    /// what the request names, whatever the offset was before.
    pub proof fn lemma_seek_keeps_payload(self, after: Self, pos: SeekFrom, r: Result<u64, IoError>)
        requires
            self.wf(),
            self.seek_outcome(after, pos, r),
        ensures
            forall|k: int| after.payload_at(k) == self.payload_at(k),
            r is Ok ==> after.wf() && after.offset() == self.logical_target(pos),
    {
    }

    /// A seek to a negative offset, or to an absolute position beyond what a
    /// `u64` holds, fails. On a reliable stream it fails with
    /// `InvalidInput`, and the cursor and the stream stay where they were;
    /// and no other seek fails there.
    pub proof fn lemma_seek_bounds(self, after: Self, pos: SeekFrom, r: Result<u64, IoError>)
        requires
            self.wf(),
            self.seek_outcome(after, pos, r),
        ensures
            !self.in_range(pos) ==> r is Err,
            self.stream().reliable() ==> (r is Err <==> !self.in_range(pos)),
            self.stream().reliable() && r is Err ==> {
                &&& r->Err_0.kind == ErrorKind::InvalidInput
                &&& after.wf()
                &&& after.offset() == self.offset()
                &&& after.stream().position() == self.stream().position()
            },
            r is Err && !after.adrift() ==> {
                &&& after.wf()
                &&& after.offset() == self.offset()
                &&& after.stream().position() == self.stream().position()
            },
    {
    }

    /// Wraps `inner`. Offset 0 is where `inner` stands.
    pub fn new(inner: S) -> (cursor: Cursor<S>)
        ensures
            cursor.stream() == inner,
            cursor.base() is None,
            cursor.offset() == 0,
            cursor.wf(),
    {
        Cursor { inner, base: None, offset: 0, adrift: false }
    }

    /// The logical offset.
    #[verifier::when_used_as_spec(spec_offset)]
    pub fn offset(&self) -> (offset: u64)
        ensures
            offset == self.spec_offset(),
    {
        self.offset
    }

    /// Whether a seek has left the wrapped stream elsewhere than the offset
    /// says. Until a seek from the start has succeeded, nothing else may be
    /// asked of such a cursor.
    pub fn is_adrift(&self) -> (adrift: bool)
        ensures
            adrift == self.adrift(),
    {
        self.adrift
    }

    /// The wrapped stream, to work on directly. What is done to it is not
    /// transformed and does not move the offset.
    pub(crate) fn inner_mut(&mut self) -> (inner: &mut S)
        ensures
            *inner == old(self).stream(),
            final(self).stream() == *final(inner),
            final(self).base() == old(self).base(),
            final(self).offset() == old(self).offset(),
            final(self).adrift() == old(self).adrift(),
    {
        &mut self.inner
    }

    /// Gives up the cursor for the wrapped stream.
    pub fn into_inner(self) -> (inner: S)
        ensures
            inner == self.stream(),
    {
        self.inner
    }

    /// Reads stored bytes into the front of `buf`, transforms them and moves
    /// the offset past them. `Ok(0)` means that `buf` is empty or that no
    /// stored byte is left.
    pub fn read(&mut self, buf: &mut [u8]) -> (r: Result<usize, IoError>)
        requires
            old(self).wf(),
        ensures
            old(self).read_outcome(*final(self), old(buf)@, final(buf)@, r),
    {
        match self.inner.read(buf) {
            Ok(n) => {
                let (front, _) = buf.split_at_mut(n);
                xor_bytes(front);
                assert(buf@ =~= old(self).plain(n as nat) + old(buf)@.subrange(
                    n as int,
                    old(buf)@.len() as int,
                ));
                self.offset = self.offset + n as u64;
                Ok(n)
            },
            Err(e) => Err(e),
        }
    }

    /// Writes a front part of `buf` as it is, without transforming it, and
    /// moves the offset past what was accepted.
    pub fn write_direct(&mut self, buf: &[u8]) -> (r: Result<usize, IoError>)
        requires
            old(self).wf(),
        ensures
            old(self).write_outcome(*final(self), buf@, buf@.len(), r),
    {
        match self.inner.write(buf) {
            Ok(n) => {
                self.offset = self.offset + n as u64;
                Ok(n)
            },
            Err(e) => Err(e),
        }
    }

    /// Transforms the front part of `buf` that fits one chunk, writes it and
    /// moves the offset past what was accepted. Returns the transformed
    /// bytes that were accepted. Nothing is asked of the stream for an empty
    /// `buf`.
    pub fn write_chunk(&mut self, buf: &[u8]) -> (r: Result<Chunk, IoError>)
        requires
            old(self).wf(),
        ensures
            old(self).write_outcome(
                *final(self),
                flipped(buf@),
                BUFFER_LEN as nat,
                match r {
                    Ok(chunk) => Ok(chunk@.len() as usize),
                    Err(e) => Err(e),
                },
            ),
            r matches Ok(chunk) ==> chunk@ == flipped(buf@).take(chunk@.len() as int),
            buf@.len() == 0 ==> r is Ok && *final(self) == *old(self),
    {
        let scratch = transform_chunk(buf);
        if scratch.len() == 0 {
            return Ok(Chunk::new(scratch, 0));
        }
        match self.write_direct(scratch.as_slice()) {
            Ok(n) => {
                assert(scratch@.take(n as int) =~= flipped(buf@).take(n as int));
                Ok(Chunk::new(scratch, n))
            },
            Err(e) => Err(e),
        }
    }

    /// Transforms the front part of `buf` that fits one chunk, writes it and
    /// moves the offset past what was accepted. Returns how many bytes were
    /// accepted; a caller with more to write calls again.
    pub fn write(&mut self, buf: &[u8]) -> (r: Result<usize, IoError>)
        requires
            old(self).wf(),
        ensures
            old(self).write_outcome(*final(self), flipped(buf@), BUFFER_LEN as nat, r),
            buf@.len() == 0 ==> r is Ok && *final(self) == *old(self),
    {
        match self.write_chunk(buf) {
            Ok(chunk) => Ok(chunk.len()),
            Err(e) => Err(e),
        }
    }

    /// Asks the wrapped stream to hand on what it still buffers.
    pub fn flush(&mut self) -> (r: Result<(), IoError>)
        ensures
            old(self).flush_outcome(*final(self), r),
    {
        self.inner.flush()
    }

    /// Moves the offset and returns the new one.
    ///
    /// The first call asks the wrapped stream where it stands and so learns
    /// the base. A request that names a negative offset, or an absolute
    /// position beyond what a `u64` holds, is refused with `InvalidInput`.
    /// A request from the end first moves the wrapped stream; where it then
    /// stands before offset 0, it is moved back to where it stood. Only if
    /// that fails is the stream left elsewhere: the cursor is then adrift,
    /// and nothing but a seek from the start may follow.
    pub fn seek(&mut self, pos: SeekFrom) -> (r: Result<u64, IoError>)
        requires
            old(self).wf() || (old(self).base() is Some && pos is Start),
        ensures
            old(self).seek_outcome(*final(self), pos, r),
    {
        let base: u64 = match self.base {
            Some(b) => b,
            None => {
                match self.inner.seek(SeekFrom::Current(0)) {
                    Ok(v) => {
                        let b = v - self.offset;
                        self.base = Some(b);
                        b
                    },
                    Err(e) => {
                        return Err(e);
                    },
                }
            },
        };
        let moved: Result<u64, IoError> = match pos {
            SeekFrom::Start(n) => match n.checked_add(base) {
                Some(v) => self.inner.seek(SeekFrom::Start(v)),
                None => Err(IoError::new(ErrorKind::InvalidInput)),
            },
            SeekFrom::Current(d) => {
                let rel: i128 = self.offset as i128 + d as i128;
                if rel >= 0 {
                    self.inner.seek(SeekFrom::Current(d))
                } else {
                    Err(IoError::new(ErrorKind::InvalidInput))
                }
            },
            SeekFrom::End(d) => match self.inner.seek(SeekFrom::End(d)) {
                Ok(v) => {
                    if v >= base {
                        Ok(v)
                    } else {
                        match self.inner.seek(SeekFrom::Start(base + self.offset)) {
                            Ok(_) => Err(IoError::new(ErrorKind::InvalidInput)),
                            Err(e) => {
                                self.adrift = true;
                                Err(e)
                            },
                        }
                    }
                },
                Err(e) => Err(e),
            },
        };
        match moved {
            Ok(v) => {
                self.offset = v - base;
                self.adrift = false;
                Ok(self.offset)
            },
            Err(e) => Err(e),
        }
    }

    /// Reads until `buf` is full, as `read` does piece by piece. A read that
    /// is interrupted is tried again; a stream that ends too early gives
    /// `UnexpectedEof`.
    pub fn read_exact(&mut self, buf: &mut [u8]) -> (r: Result<(), IoError>)
        requires
            old(self).wf(),
        ensures
            old(self).read_exact_outcome(*final(self), old(buf)@, final(buf)@, r),
    {
        let len = buf.len();
        let mut done: usize = 0;
        while done < len
            invariant
                done <= len,
                len == buf@.len(),
                len == old(buf)@.len(),
                self.wf(),
                old(self).same_payload(*self),
                self.offset() == old(self).offset() + done,
                self.stream().position() == old(self).stream().position() + done,
                done <= old(self).remaining(),
                buf@.take(done as int) == old(self).plain(done as nat),
            decreases len - done, self.stream().interrupt_budget(),
        {
            let (_, rest) = buf.split_at_mut(done);
            match self.read(rest) {
                Ok(n) => {
                    if n == 0 {
                        return Err(IoError::new(ErrorKind::UnexpectedEof));
                    }
                    done = done + n;
                },
                Err(e) => {
                    if e.kind != ErrorKind::Interrupted {
                        return Err(e);
                    }
                },
            }
        }
        assert(buf@.take(len as int) =~= buf@);
        Ok(())
    }

    /// Writes all of `buf`, as `write` does chunk by chunk. A write that is
    /// interrupted is tried again; a stream that accepts nothing more gives
    /// `WriteZero`.
    pub fn write_all(&mut self, buf: &[u8]) -> (r: Result<(), IoError>)
        requires
            old(self).wf(),
        ensures
            old(self).write_all_outcome(*final(self), flipped(buf@), r),
            old(self).stream().reliable() && old(self).stream().position() + buf@.len()
                <= usize::MAX ==> r is Ok,
    {
        let len = buf.len();
        let mut done: usize = 0;
        while done < len
            invariant
                done <= len,
                len == buf@.len(),
                self.wf(),
                self.base() == old(self).base(),
                self.origin() == old(self).origin(),
                self.stream().reliable() == old(self).stream().reliable(),
                self.offset() == old(self).offset() + done,
                self.stream().position() == old(self).stream().position() + done,
                self.stream().bytes() == overwrite(
                    old(self).stream().bytes(),
                    old(self).stream().position() as int,
                    flipped(buf@).take(done as int),
                ),
            decreases len - done, self.stream().interrupt_budget(),
        {
            let rest = vstd::slice::slice_subrange(buf, done, len);
            match self.write(rest) {
                Ok(n) => {
                    if n == 0 {
                        return Err(IoError::new(ErrorKind::WriteZero));
                    }
                    done = done + n;
                },
                Err(e) => {
                    if e.kind != ErrorKind::Interrupted {
                        return Err(e);
                    }
                },
            }
        }
        Ok(())
    }
}

} // verus!
