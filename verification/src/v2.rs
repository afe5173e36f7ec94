//! Redshirt 2: a marker, the digest of the stored payload, then the
//! transformed payload.

use crate::checksum::{digest_of, ChecksumBuilder, DIGEST_LEN, MAX_INPUT_LEN};
use crate::cursor::{transform_chunk, Cursor, BUFFER_LEN};
use crate::error::{Error, ErrorKind, IoError};
use crate::mem::MemStream;
use crate::stream::{
    available, gave_up_with, least, overwrite, read_exact, window, write_all, SeekFrom, Stream,
};
use crate::{bytes_equal, flipped, lemma_flipped_involutive, zeroed};
use vstd::prelude::*;

verus! {

/// The length of the marker in bytes.
pub const MARKER_LEN: usize = 9;

/// The length of the header in bytes: the marker and the digest.
pub const HEADER_LEN: usize = 29;

/// The marker that every Redshirt 2 stream starts with: `REDSHRT2` and a
/// zero byte.
pub const MARKER: [u8; 9] = [0x52, 0x45, 0x44, 0x53, 0x48, 0x52, 0x54, 0x32, 0x00];

/// The stored payload that follows a header at `pos`.
pub open spec fn stored_payload(bytes: Seq<u8>, pos: u64) -> Seq<u8> {
    bytes.subrange(pos + HEADER_LEN, bytes.len() as int)
}

/// What a reader finds when it is opened on `bytes` at `pos`: a stream too
/// short to hold a header, a wrong marker, a digest that is not that of the
/// stored payload, or a sound stream.
pub open spec fn opening(bytes: Seq<u8>, pos: u64) -> Result<(), Error> {
    if available(bytes, pos) < HEADER_LEN {
        Err(Error::Io(IoError { kind: ErrorKind::UnexpectedEof }))
    } else if window(bytes, pos as int, MARKER_LEN as nat) != MARKER@ {
        Err(Error::BadHeader)
    } else if window(bytes, pos + MARKER_LEN, DIGEST_LEN as nat) != digest_of(
        stored_payload(bytes, pos),
    ) {
        Err(Error::BadChecksum)
    } else {
        Ok(())
    }
}

/// The header that a writer starts with: the marker and a digest of zero
/// bytes, to be replaced when the writer is done.
pub open spec fn blank_header() -> Seq<u8> {
    MARKER@ + Seq::new(DIGEST_LEN as nat, |i: int| 0u8)
}

/// What `data` is stored as: the marker, the digest of the transformed
/// data, then every byte of `data` transformed.
pub open spec fn encoded(data: Seq<u8>) -> Seq<u8> {
    MARKER@ + digest_of(flipped(data)) + flipped(data)
}

/// What `stored` holds: the payload behind a right marker and a right
/// digest, or the error that opening a reader on it gives.
pub open spec fn decoded(stored: Seq<u8>) -> Result<Seq<u8>, Error> {
    match opening(stored, 0) {
        Ok(()) => Ok(flipped(stored.skip(HEADER_LEN as int))),
        Err(e) => Err(e),
    }
}

/// The parts of an encoded stream are where a reader looks for them.
pub proof fn lemma_encoded_layout(data: Seq<u8>)
    ensures
        encoded(data).len() == HEADER_LEN + data.len(),
        window(encoded(data), 0, MARKER_LEN as nat) == MARKER@,
        window(encoded(data), MARKER_LEN as int, DIGEST_LEN as nat) == digest_of(flipped(data)),
        stored_payload(encoded(data), 0) == flipped(data),
        encoded(data).skip(HEADER_LEN as int) == flipped(data),
{
    let stored = encoded(data);
}

/// Decoding what was encoded gives the data back.
pub proof fn lemma_round_trip(data: Seq<u8>)
    ensures
        decoded(encoded(data)) == Ok::<Seq<u8>, Error>(data),
{
    lemma_encoded_layout(data);
    lemma_flipped_involutive(data);
}

/// A stream that is long enough for a header and differs from the marker in
/// one of its first nine bytes is refused for its header, whatever its
/// digest.
pub proof fn lemma_wrong_marker_is_bad_header(stored: Seq<u8>, i: int)
    requires
        HEADER_LEN <= stored.len(),
        0 <= i < MARKER_LEN,
        stored[i] != MARKER@[i],
    ensures
        opening(stored, 0) == Err::<(), Error>(Error::BadHeader),
        decoded(stored) == Err::<Seq<u8>, Error>(Error::BadHeader),
{
}

/// Changing any byte of the marker of an encoded stream makes it a stream
/// that is refused for its header.
pub proof fn lemma_corrupt_marker_rejected(data: Seq<u8>, i: int, byte: u8)
    requires
        0 <= i < MARKER_LEN,
        byte != MARKER@[i],
    ensures
        decoded(encoded(data).update(i, byte)) == Err::<Seq<u8>, Error>(Error::BadHeader),
{
    lemma_wrong_marker_is_bad_header(encoded(data).update(i, byte), i);
}

/// Changing any byte of the digest of an encoded stream, and nothing else,
/// makes it a stream that is refused for its checksum.
pub proof fn lemma_corrupt_digest_rejected(data: Seq<u8>, i: int, byte: u8)
    requires
        MARKER_LEN <= i < HEADER_LEN,
        byte != encoded(data)[i],
    ensures
        decoded(encoded(data).update(i, byte)) == Err::<Seq<u8>, Error>(Error::BadChecksum),
{
    lemma_encoded_layout(data);
    let stored = encoded(data).update(i, byte);
    assert(window(stored, 0, MARKER_LEN as nat) =~= MARKER@);
    assert(stored_payload(stored, 0) =~= flipped(data));
}

/// Changing any byte of the payload of an encoded stream, and nothing else,
/// makes it a stream that is refused for its checksum, unless the changed
/// payload has the digest of the unchanged one.
pub proof fn lemma_corrupt_payload_rejected(data: Seq<u8>, i: int, byte: u8)
    requires
        HEADER_LEN <= i < encoded(data).len(),
        byte != encoded(data)[i],
    ensures
        digest_of(flipped(data).update(i - HEADER_LEN, byte)) != digest_of(flipped(data))
            ==> decoded(encoded(data).update(i, byte)) == Err::<Seq<u8>, Error>(
            Error::BadChecksum,
        ),
{
    lemma_encoded_layout(data);
    let stored = encoded(data).update(i, byte);
    assert(window(stored, 0, MARKER_LEN as nat) =~= MARKER@);
    assert(window(stored, MARKER_LEN as int, DIGEST_LEN as nat) =~= digest_of(flipped(data)));
    assert(stored_payload(stored, 0) =~= flipped(data).update(i - HEADER_LEN, byte));
}

/// Encodes `data` in memory. Fails only where the result would be longer
/// than a vector can be, or `data` longer than SHA-1 can take.
pub fn encode(data: &[u8]) -> (r: Result<Vec<u8>, Error>)
    ensures
        match r {
            Ok(stored) => stored@ == encoded(data@),
            Err(_) => data@.len() + HEADER_LEN > usize::MAX || data@.len() > MAX_INPUT_LEN,
        },
{
    let mut writer = match Writer::new(MemStream::new(Vec::new())) {
        Ok(writer) => writer,
        Err(e) => {
            return Err(e);
        },
    };
    match writer.write_all(data) {
        Ok(()) => {
            assert(writer.stored() =~= flipped(data@));
            match writer.into_inner() {
                Ok(stream) => Ok(stream.into_inner()),
                Err(e) => Err(e),
            }
        },
        Err(e) => Err(Error::Io(e)),
    }
}

/// Decodes a stream held in memory: the payload of `stored`, or the error
/// that opening a reader on it gives.
pub fn decode(stored: &[u8]) -> (r: Result<Vec<u8>, Error>)
    requires
        stored@.len() <= HEADER_LEN + MAX_INPUT_LEN,
    ensures
        match r {
            Ok(data) => decoded(stored@) == Ok::<Seq<u8>, Error>(data@),
            Err(e) => decoded(stored@) == Err::<Seq<u8>, Error>(e),
        },
{
    let mut reader = match Reader::new(MemStream::new(vstd::slice::slice_to_vec(stored))) {
        Ok(reader) => reader,
        Err(e) => {
            return Err(e);
        },
    };
    let mut data = zeroed(stored.len() - HEADER_LEN);
    match reader.read_exact(data.as_mut_slice()) {
        Ok(()) => {
            assert(data@ =~= flipped(stored@.skip(HEADER_LEN as int)));
            Ok(data)
        },
        Err(e) => Err(Error::Io(e)),
    }
}

/// Reads Redshirt 2 data from a stream.
#[derive(Debug)]
pub struct Reader<S> {
    cursor: Cursor<S>,
}

impl<S: Stream> Reader<S> {
    /// The cursor over the payload.
    pub closed spec fn cursor(&self) -> Cursor<S> {
        self.cursor
    }

    /// The cursor stands where its offset says.
    pub open spec fn wf(&self) -> bool {
        self.cursor().wf()
    }

    /// Reads the header at the position of `src`, then all that follows it,
    /// and compares the digest of what follows with the one in the header.
    /// Where they agree, moves `src` to the absolute position `HEADER_LEN`
    /// and gives a reader whose offset 0 is that position.
    ///
    /// A read that is interrupted is tried again, so that an interruption is
    /// reported only by the seek that follows a digest found right. The
    /// stored payload must not be longer than SHA-1 can take.
    pub fn new(src: S) -> (r: Result<Reader<S>, Error>)
        requires
            available(src.bytes(), src.position()) <= HEADER_LEN + MAX_INPUT_LEN,
        ensures
            match r {
                Ok(reader) => {
                    &&& opening(src.bytes(), src.position()) is Ok
                    &&& reader.wf()
                    &&& reader.cursor().stream().bytes() == src.bytes()
                    &&& reader.cursor().stream().position() == HEADER_LEN
                    &&& reader.cursor().stream().reliable() == src.reliable()
                    &&& reader.cursor().offset() == 0
                    &&& reader.cursor().base() is None
                },
                Err(Error::BadHeader) => opening(src.bytes(), src.position()) == Err::<(), Error>(
                    Error::BadHeader,
                ),
                Err(Error::BadChecksum) => opening(src.bytes(), src.position()) == Err::<
                    (),
                    Error,
                >(Error::BadChecksum),
                Err(Error::Io(e)) => {
                    &&& e.kind == ErrorKind::Interrupted ==> opening(src.bytes(), src.position())
                        is Ok
                    &&& gave_up_with(src, e) || opening(src.bytes(), src.position()) == Err::<
                        (),
                        Error,
                    >(Error::Io(e))
                    &&& src.reliable() ==> opening(src.bytes(), src.position()) == Err::<
                        (),
                        Error,
                    >(Error::Io(e))
                },
            },
    {
        let ghost bytes = src.bytes();
        let ghost start = src.position() + HEADER_LEN;
        let mut stream = src;
        let mut header_buf = [0u8; 29];
        match read_exact(&mut stream, &mut header_buf) {
            Ok(()) => {},
            Err(e) => {
                return Err(Error::Io(e));
            },
        }
        assert(header_buf@.subrange(0, MARKER_LEN as int) =~= window(
            bytes,
            start - HEADER_LEN,
            MARKER_LEN as nat,
        ));
        assert(header_buf@.subrange(MARKER_LEN as int, HEADER_LEN as int) =~= window(
            bytes,
            start - DIGEST_LEN,
            DIGEST_LEN as nat,
        ));
        if !bytes_equal(
            vstd::slice::slice_subrange(header_buf.as_slice(), 0, MARKER_LEN),
            MARKER.as_slice(),
        ) {
            return Err(Error::BadHeader);
        }
        let mut buffer = [0u8; 16384];
        let mut checksum = ChecksumBuilder::new();
        let mut at_end = false;
        while !at_end
            invariant
                bytes == src.bytes(),
                start == src.position() + HEADER_LEN,
                stream.bytes() == bytes,
                stream.reliable() == src.reliable(),
                start <= stream.position() <= bytes.len(),
                bytes.len() - start <= MAX_INPUT_LEN,
                checksum.wf(),
                checksum@ == bytes.subrange(start, stream.position() as int),
                at_end ==> stream.position() == bytes.len(),
                buffer@.len() == 16384,
            decreases
                    bytes.len() - stream.position() + (if at_end {
                        0int
                    } else {
                        1int
                    }),
                    stream.interrupt_budget(),
        {
            match stream.read(&mut buffer) {
                Ok(len) => {
                    if len == 0 {
                        at_end = true;
                    } else {
                        checksum.update(vstd::slice::slice_subrange(buffer.as_slice(), 0, len));
                    }
                },
                Err(e) => {
                    if e.kind != ErrorKind::Interrupted {
                        return Err(Error::Io(e));
                    }
                },
            }
        }
        let digest = checksum.finish();
        if bytes_equal(
            vstd::slice::slice_subrange(header_buf.as_slice(), MARKER_LEN, HEADER_LEN),
            digest.as_slice(),
        ) {
            match stream.seek(SeekFrom::Start(HEADER_LEN as u64)) {
                Ok(_) => Ok(Reader { cursor: Cursor::new(stream) }),
                Err(e) => Err(Error::Io(e)),
            }
        } else {
            Err(Error::BadChecksum)
        }
    }

    /// Gives up the reader for the wrapped stream.
    pub fn into_inner(self) -> (inner: S)
        ensures
            inner == self.cursor().stream(),
    {
        self.cursor.into_inner()
    }

    /// Whether a seek has left the wrapped stream elsewhere than the offset
    /// says. Until a seek from the start has succeeded, nothing else may be
    /// asked of such a reader.
    pub fn is_adrift(&self) -> (adrift: bool)
        ensures
            adrift == self.cursor().adrift(),
    {
        self.cursor.is_adrift()
    }

    /// Reads payload bytes into the front of `buf` and moves the offset past
    /// them.
    pub fn read(&mut self, buf: &mut [u8]) -> (r: Result<usize, IoError>)
        requires
            old(self).wf(),
        ensures
            old(self).cursor().read_outcome(final(self).cursor(), old(buf)@, final(buf)@, r),
    {
        self.cursor.read(buf)
    }

    /// Reads payload bytes until `buf` is full.
    pub fn read_exact(&mut self, buf: &mut [u8]) -> (r: Result<(), IoError>)
        requires
            old(self).wf(),
        ensures
            old(self).cursor().read_exact_outcome(final(self).cursor(), old(buf)@, final(buf)@, r),
    {
        self.cursor.read_exact(buf)
    }

    /// Moves the offset, counted from the first payload byte, and returns
    /// the new one.
    pub fn seek(&mut self, pos: SeekFrom) -> (r: Result<u64, IoError>)
        requires
            old(self).wf() || (old(self).cursor().base() is Some && pos is Start),
        ensures
            old(self).cursor().seek_outcome(final(self).cursor(), pos, r),
    {
        self.cursor.seek(pos)
    }
}

/// Writes Redshirt 2 data to a stream.
///
/// The header is written with a digest of zero bytes. The digest of what was
/// written is put in its place by `into_inner`, which has to be called when
/// all is written.
pub struct Writer<S> {
    dst: Option<Cursor<S>>,
    checksum: ChecksumBuilder,
}

impl<S: Stream> Writer<S> {
    /// The cursor over the payload, until the digest has been written.
    pub closed spec fn dst(&self) -> Option<Cursor<S>> {
        self.dst
    }

    /// The stored bytes that the wrapped stream has accepted so far.
    pub closed spec fn stored(&self) -> Seq<u8> {
        self.checksum@
    }

    /// The running digest knows how much it has been given.
    pub closed spec fn checksum_wf(&self) -> bool {
        self.checksum.wf()
    }

    /// The digest has not been written yet.
    pub open spec fn spec_is_open(&self) -> bool {
        self.dst() is Some
    }

    /// The cursor over the payload of an open writer.
    pub open spec fn cursor(&self) -> Cursor<S> {
        self.dst()->Some_0
    }

    /// While the writer is open, the running digest has been given what the
    /// wrapped stream holds from offset 0 to the offset of the cursor.
    pub open spec fn wf(&self) -> bool {
        &&& self.checksum_wf()
        &&& self.stored().len() <= MAX_INPUT_LEN
        &&& self.is_open() ==> {
            &&& self.cursor().wf()
            &&& self.cursor().base() is None
            &&& self.cursor().offset() == self.stored().len()
            &&& self.cursor().stream().position() <= self.cursor().stream().bytes().len()
            &&& self.stored() == self.cursor().stream().bytes().subrange(
                self.cursor().origin(),
                self.cursor().stream().position() as int,
            )
        }
    }

    /// The most bytes that the next write accepts: a chunk, or less where
    /// SHA-1 can take no more.
    pub open spec fn room(&self) -> nat {
        least(BUFFER_LEN as nat, (MAX_INPUT_LEN - self.stored().len()) as nat)
    }

    /// Writes the marker and a digest of zero bytes at the position of `dst`
    /// and gives a writer whose offset 0 is the byte after them.
    pub fn new(dst: S) -> (r: Result<Writer<S>, Error>)
        ensures
            match r {
                Ok(writer) => {
                    &&& writer.wf()
                    &&& writer.is_open()
                    &&& writer.stored() == Seq::<u8>::empty()
                    &&& writer.cursor().stream().bytes() == overwrite(
                        dst.bytes(),
                        dst.position() as int,
                        blank_header(),
                    )
                    &&& writer.cursor().stream().position() == dst.position() + HEADER_LEN
                    &&& writer.cursor().stream().reliable() == dst.reliable()
                },
                Err(Error::Io(e)) => {
                    &&& e.kind != ErrorKind::Interrupted
                    &&& gave_up_with(dst, e) || e.kind == ErrorKind::WriteZero
                    &&& dst.reliable() ==> dst.position() + HEADER_LEN > usize::MAX
                },
                Err(_) => false,
            },
    {
        let mut stream = dst;
        let mut dummy_header = [0u8; 29];
        let mut i: usize = 0;
        while i < MARKER_LEN
            invariant
                i <= MARKER_LEN,
                forall|j: int| 0 <= j < i ==> dummy_header@[j] == MARKER@[j],
                forall|j: int| i <= j < HEADER_LEN ==> dummy_header@[j] == 0,
            decreases MARKER_LEN - i,
        {
            dummy_header[i] = MARKER[i];
            i += 1;
        }
        match write_all(&mut stream, dummy_header.as_slice()) {
            Ok(()) => {
                let cursor = Cursor::new(stream);
                assert(cursor.stream().bytes().subrange(
                    cursor.origin(),
                    cursor.stream().position() as int,
                ) =~= Seq::<u8>::empty());
                Ok(Writer { dst: Some(cursor), checksum: ChecksumBuilder::new() })
            },
            Err(e) => Err(Error::Io(e)),
        }
    }

    /// Transforms the front part of `buf` that fits one chunk and that SHA-1
    /// can still take, writes it as it then is, moves the offset past what
    /// was accepted and gives just that to the running digest.
    pub fn write(&mut self, buf: &[u8]) -> (r: Result<usize, IoError>)
        requires
            old(self).wf(),
            old(self).is_open(),
        ensures
            final(self).wf(),
            final(self).is_open(),
            old(self).cursor().write_outcome(
                final(self).cursor(),
                flipped(buf@),
                old(self).room(),
                r,
            ),
            final(self).stored() == old(self).stored() + flipped(buf@).take(
                final(self).cursor().offset() - old(self).cursor().offset(),
            ),
    {
        let room = MAX_INPUT_LEN - self.checksum.len();
        let most = if room < BUFFER_LEN as u64 {
            room as usize
        } else {
            BUFFER_LEN
        };
        let take = if buf.len() <= most {
            buf.len()
        } else {
            most
        };
        let used = transform_chunk(vstd::slice::slice_subrange(buf, 0, take));
        let mut dst = self.dst.take().unwrap();
        let r = dst.write_direct(used.as_slice());
        if let Ok(len) = r {
            self.checksum.update(vstd::slice::slice_subrange(used.as_slice(), 0, len));
            assert(used@.take(len as int) =~= flipped(buf@).take(len as int));
            assert(dst.stream().bytes().subrange(
                dst.origin(),
                dst.stream().position() as int,
            ) =~= old(self).stored() + flipped(buf@).take(len as int));
        }
        self.dst = Some(dst);
        r
    }

    /// Whether the digest is still to be written, so that more can be
    /// written before it.
    #[verifier::when_used_as_spec(spec_is_open)]
    pub fn is_open(&self) -> (open: bool)
        ensures
            open == self.spec_is_open(),
    {
        self.dst.is_some()
    }

    /// The digest of what has been written so far, as the header is to hold
    /// it.
    pub fn digest(&self) -> (digest: [u8; 20])
        requires
            self.wf(),
        ensures
            digest@ == digest_of(self.stored()),
    {
        self.checksum.clone().finish()
    }

    /// Transforms and writes all of `buf`, as `write` does chunk by chunk.
    pub fn write_all(&mut self, buf: &[u8]) -> (r: Result<(), IoError>)
        requires
            old(self).wf(),
            old(self).is_open(),
        ensures
            final(self).wf(),
            final(self).is_open(),
            old(self).cursor().write_all_outcome(final(self).cursor(), flipped(buf@), r),
            final(self).stored() == old(self).stored() + flipped(buf@).take(
                final(self).cursor().offset() - old(self).cursor().offset(),
            ),
            old(self).cursor().stream().reliable() && old(self).cursor().stream().position()
                + buf@.len() <= usize::MAX && old(self).stored().len() + buf@.len()
                <= MAX_INPUT_LEN ==> r is Ok,
    {
        let len = buf.len();
        let mut done: usize = 0;
        while done < len
            invariant
                done <= len,
                len == buf@.len(),
                self.wf(),
                self.is_open(),
                self.cursor().base() == old(self).cursor().base(),
                self.cursor().origin() == old(self).cursor().origin(),
                self.cursor().stream().reliable() == old(self).cursor().stream().reliable(),
                self.cursor().offset() == old(self).cursor().offset() + done,
                self.cursor().stream().position() == old(self).cursor().stream().position() + done,
                self.cursor().stream().bytes() == overwrite(
                    old(self).cursor().stream().bytes(),
                    old(self).cursor().stream().position() as int,
                    flipped(buf@).take(done as int),
                ),
                self.stored() == old(self).stored() + flipped(buf@).take(done as int),
            decreases len - done, self.cursor().stream().interrupt_budget(),
        {
            let rest = vstd::slice::slice_subrange(buf, done, len);
            match self.write(rest) {
                Ok(n) => {
                    if n == 0 {
                        return Err(IoError::new(ErrorKind::WriteZero));
                    }
                    done = done + n;
                },
                Err(e) => {
                    if e.kind != ErrorKind::Interrupted {
                        return Err(e);
                    }
                },
            }
        }
        Ok(())
    }

    /// Asks the wrapped stream to hand on what it still buffers.
    pub fn flush(&mut self) -> (r: Result<(), IoError>)
        requires
            old(self).wf(),
            old(self).is_open(),
        ensures
            final(self).wf(),
            final(self).is_open(),
            final(self).stored() == old(self).stored(),
            old(self).cursor().flush_outcome(final(self).cursor(), r),
    {
        let mut dst = self.dst.take().unwrap();
        let r = dst.flush();
        self.dst = Some(dst);
        r
    }

    /// Puts the digest of what was written in its place in the header and
    /// gives up the wrapped stream; on a writer that has done so before,
    /// does nothing and gives `None`.
    ///
    /// The digest goes to the absolute position `MARKER_LEN`, and the stream
    /// is then moved back to where it stood. Any failure of the stream on the
    /// way is returned, and the stream is lost with it.
    pub fn write_digest(&mut self) -> (r: Result<Option<S>, Error>)
        requires
            old(self).wf(),
        ensures
            final(self).wf(),
            !final(self).is_open(),
            final(self).stored() == old(self).stored(),
            match r {
                Ok(Some(inner)) => {
                    &&& old(self).is_open()
                    &&& inner.bytes() == overwrite(
                        old(self).cursor().stream().bytes(),
                        MARKER_LEN as int,
                        digest_of(old(self).stored()),
                    )
                    &&& inner.position() == old(self).cursor().stream().position()
                    &&& inner.reliable() == old(self).cursor().stream().reliable()
                },
                Ok(None) => !old(self).is_open(),
                Err(Error::Io(e)) => {
                    &&& old(self).is_open()
                    &&& !old(self).cursor().stream().reliable()
                    &&& gave_up_with(old(self).cursor().stream(), e) || e.kind
                        == ErrorKind::WriteZero
                },
                Err(_) => false,
            },
    {
        match self.dst.take() {
            None => Ok(None),
            Some(cursor) => {
                let mut dst = cursor;
                let offset = match dst.seek(SeekFrom::Current(0)) {
                    Ok(offset) => offset,
                    Err(e) => {
                        return Err(Error::Io(e));
                    },
                };
                match dst.inner_mut().seek(SeekFrom::Start(MARKER_LEN as u64)) {
                    Ok(_) => {},
                    Err(e) => {
                        return Err(Error::Io(e));
                    },
                }
                let digest = self.checksum.clone().finish();
                let written = write_all(dst.inner_mut(), digest.as_slice());
                let restored = dst.seek(SeekFrom::Start(offset));
                match written {
                    Ok(()) => match restored {
                        Ok(_) => {
                            Ok(Some(dst.into_inner()))
                        },
                        Err(e) => Err(Error::Io(e)),
                    },
                    Err(e) => Err(Error::Io(e)),
                }
            },
        }
    }

    /// Puts the digest of what was written in its place in the header and
    /// gives up the writer for the wrapped stream.
    pub fn into_inner(self) -> (r: Result<S, Error>)
        requires
            self.wf(),
            self.is_open(),
        ensures
            match r {
                Ok(inner) => {
                    &&& inner.bytes() == overwrite(
                        self.cursor().stream().bytes(),
                        MARKER_LEN as int,
                        digest_of(self.stored()),
                    )
                    &&& inner.position() == self.cursor().stream().position()
                    &&& inner.reliable() == self.cursor().stream().reliable()
                },
                Err(Error::Io(e)) => {
                    &&& !self.cursor().stream().reliable()
                    &&& gave_up_with(self.cursor().stream(), e) || e.kind == ErrorKind::WriteZero
                },
                Err(_) => false,
            },
    {
        let mut writer = self;
        match writer.write_digest() {
            Ok(Some(inner)) => Ok(inner),
            Ok(None) => vstd::pervasive::unreached(),
            Err(e) => Err(e),
        }
    }
}

} // verus!
