//! Redshirt 1: a marker, then the transformed payload.

use crate::cursor::{Cursor, BUFFER_LEN};
use crate::error::{Error, ErrorKind, IoError};
use crate::mem::MemStream;
use crate::stream::{
    available, gave_up_with, overwrite, read_exact, window, write_all, SeekFrom, Stream,
};
use crate::{bytes_equal, flipped, lemma_flipped_involutive, zeroed};
use vstd::prelude::*;

verus! {

/// The length of the marker in bytes.
pub const MARKER_LEN: usize = 9;

/// The marker that every Redshirt 1 stream starts with: `REDSHIRT` and a
/// zero byte.
pub const MARKER: [u8; 9] = [0x52, 0x45, 0x44, 0x53, 0x48, 0x49, 0x52, 0x54, 0x00];

/// What a reader finds when it is opened on `bytes` at `pos`: a stream too
/// short to hold a marker, a wrong marker, or the marker.
pub open spec fn opening(bytes: Seq<u8>, pos: u64) -> Result<(), Error> {
    if available(bytes, pos) < MARKER_LEN {
        Err(Error::Io(IoError { kind: ErrorKind::UnexpectedEof }))
    } else if window(bytes, pos as int, MARKER_LEN as nat) != MARKER@ {
        Err(Error::BadHeader)
    } else {
        Ok(())
    }
}

/// What `data` is stored as: the marker, then every byte of `data`
/// transformed.
pub open spec fn encoded(data: Seq<u8>) -> Seq<u8> {
    MARKER@ + flipped(data)
}

/// What `stored` holds: the payload behind a right marker, or the error that
/// opening a reader on it gives.
pub open spec fn decoded(stored: Seq<u8>) -> Result<Seq<u8>, Error> {
    match opening(stored, 0) {
        Ok(()) => Ok(flipped(stored.skip(MARKER_LEN as int))),
        Err(e) => Err(e),
    }
}

/// Decoding what was encoded gives the data back.
pub proof fn lemma_round_trip(data: Seq<u8>)
    ensures
        decoded(encoded(data)) == Ok::<Seq<u8>, Error>(data),
{
    let stored = encoded(data);
    assert(window(stored, 0, MARKER_LEN as nat) =~= MARKER@);
    assert(stored.skip(MARKER_LEN as int) =~= flipped(data));
    lemma_flipped_involutive(data);
}

/// A stream that is long enough for a marker and differs from the marker in
/// one of its first nine bytes is refused for its header, not for anything
/// else.
pub proof fn lemma_wrong_marker_is_bad_header(stored: Seq<u8>, i: int)
    requires
        MARKER_LEN <= stored.len(),
        0 <= i < MARKER_LEN,
        stored[i] != MARKER@[i],
    ensures
        opening(stored, 0) == Err::<(), Error>(Error::BadHeader),
        decoded(stored) == Err::<Seq<u8>, Error>(Error::BadHeader),
{
}

/// Changing any byte of the marker of an encoded stream makes it a stream
/// that is refused for its header.
pub proof fn lemma_corrupt_marker_rejected(data: Seq<u8>, i: int, byte: u8)
    requires
        0 <= i < MARKER_LEN,
        byte != MARKER@[i],
    ensures
        decoded(encoded(data).update(i, byte)) == Err::<Seq<u8>, Error>(Error::BadHeader),
{
    lemma_wrong_marker_is_bad_header(encoded(data).update(i, byte), i);
}

/// Encodes `data` in memory. Fails only where the result would be longer
/// than a vector can be.
pub fn encode(data: &[u8]) -> (r: Result<Vec<u8>, Error>)
    ensures
        match r {
            Ok(stored) => stored@ == encoded(data@),
            Err(_) => data@.len() + MARKER_LEN > usize::MAX,
        },
{
    let mut writer = match Writer::new(MemStream::new(Vec::new())) {
        Ok(writer) => writer,
        Err(e) => {
            return Err(e);
        },
    };
    match writer.write_all(data) {
        Ok(()) => Ok(writer.into_inner().into_inner()),
        Err(e) => Err(Error::Io(e)),
    }
}

/// Decodes a stream held in memory: the payload of `stored`, or the error
/// that opening a reader on it gives.
pub fn decode(stored: &[u8]) -> (r: Result<Vec<u8>, Error>)
    ensures
        match r {
            Ok(data) => decoded(stored@) == Ok::<Seq<u8>, Error>(data@),
            Err(e) => decoded(stored@) == Err::<Seq<u8>, Error>(e),
        },
{
    let mut reader = match Reader::new(MemStream::new(vstd::slice::slice_to_vec(stored))) {
        Ok(reader) => reader,
        Err(e) => {
            return Err(e);
        },
    };
    let mut data = zeroed(stored.len() - MARKER_LEN);
    match reader.read_exact(data.as_mut_slice()) {
        Ok(()) => {
            assert(data@ =~= flipped(stored@.skip(MARKER_LEN as int)));
            Ok(data)
        },
        Err(e) => Err(Error::Io(e)),
    }
}

/// Reads Redshirt 1 data from a stream.
#[derive(Debug)]
pub struct Reader<S> {
    cursor: Cursor<S>,
}

impl<S: Stream> Reader<S> {
    /// The cursor over the payload.
    pub closed spec fn cursor(&self) -> Cursor<S> {
        self.cursor
    }

    /// The cursor stands where its offset says.
    pub open spec fn wf(&self) -> bool {
        self.cursor().wf()
    }

    /// Reads the marker at the position of `src` and, where it is the right
    /// one, gives a reader whose offset 0 is the byte after it.
    pub fn new(src: S) -> (r: Result<Reader<S>, Error>)
        ensures
            match r {
                Ok(reader) => {
                    &&& opening(src.bytes(), src.position()) is Ok
                    &&& reader.wf()
                    &&& reader.cursor().stream().bytes() == src.bytes()
                    &&& reader.cursor().stream().position() == src.position() + MARKER_LEN
                    &&& reader.cursor().stream().reliable() == src.reliable()
                    &&& reader.cursor().offset() == 0
                    &&& reader.cursor().base() is None
                },
                Err(Error::BadHeader) => opening(src.bytes(), src.position()) == Err::<(), Error>(
                    Error::BadHeader,
                ),
                Err(Error::BadChecksum) => false,
                Err(Error::Io(e)) => {
                    &&& e.kind != ErrorKind::Interrupted
                    &&& gave_up_with(src, e) || opening(src.bytes(), src.position()) == Err::<
                        (),
                        Error,
                    >(Error::Io(e))
                    &&& src.reliable() ==> opening(src.bytes(), src.position()) == Err::<
                        (),
                        Error,
                    >(Error::Io(e))
                },
            },
    {
        let mut src = src;
        let mut marker_buf = [0u8; 9];
        match read_exact(&mut src, &mut marker_buf) {
            Ok(()) => {
                if bytes_equal(marker_buf.as_slice(), MARKER.as_slice()) {
                    Ok(Reader { cursor: Cursor::new(src) })
                } else {
                    Err(Error::BadHeader)
                }
            },
            Err(e) => Err(Error::Io(e)),
        }
    }

    /// Gives up the reader for the wrapped stream.
    pub fn into_inner(self) -> (inner: S)
        ensures
            inner == self.cursor().stream(),
    {
        self.cursor.into_inner()
    }

    /// Whether a seek has left the wrapped stream elsewhere than the offset
    /// says. Until a seek from the start has succeeded, nothing else may be
    /// asked of such a reader.
    pub fn is_adrift(&self) -> (adrift: bool)
        ensures
            adrift == self.cursor().adrift(),
    {
        self.cursor.is_adrift()
    }

    /// Reads payload bytes into the front of `buf` and moves the offset past
    /// them.
    pub fn read(&mut self, buf: &mut [u8]) -> (r: Result<usize, IoError>)
        requires
            old(self).wf(),
        ensures
            old(self).cursor().read_outcome(final(self).cursor(), old(buf)@, final(buf)@, r),
    {
        self.cursor.read(buf)
    }

    /// Reads payload bytes until `buf` is full.
    pub fn read_exact(&mut self, buf: &mut [u8]) -> (r: Result<(), IoError>)
        requires
            old(self).wf(),
        ensures
            old(self).cursor().read_exact_outcome(final(self).cursor(), old(buf)@, final(buf)@, r),
    {
        self.cursor.read_exact(buf)
    }

    /// Moves the offset, counted from the first payload byte, and returns
    /// the new one.
    pub fn seek(&mut self, pos: SeekFrom) -> (r: Result<u64, IoError>)
        requires
            old(self).wf() || (old(self).cursor().base() is Some && pos is Start),
        ensures
            old(self).cursor().seek_outcome(final(self).cursor(), pos, r),
    {
        self.cursor.seek(pos)
    }
}

/// Writes Redshirt 1 data to a stream.
#[derive(Debug)]
pub struct Writer<S> {
    cursor: Cursor<S>,
}

impl<S: Stream> Writer<S> {
    /// The cursor over the payload.
    pub closed spec fn cursor(&self) -> Cursor<S> {
        self.cursor
    }

    /// The cursor stands where its offset says.
    pub open spec fn wf(&self) -> bool {
        self.cursor().wf()
    }

    /// Writes the marker at the position of `dst` and gives a writer whose
    /// offset 0 is the byte after it.
    pub fn new(dst: S) -> (r: Result<Writer<S>, Error>)
        ensures
            match r {
                Ok(writer) => {
                    &&& writer.wf()
                    &&& writer.cursor().stream().bytes() == overwrite(
                        dst.bytes(),
                        dst.position() as int,
                        MARKER@,
                    )
                    &&& writer.cursor().stream().position() == dst.position() + MARKER_LEN
                    &&& writer.cursor().stream().reliable() == dst.reliable()
                    &&& writer.cursor().offset() == 0
                    &&& writer.cursor().base() is None
                },
                Err(Error::Io(e)) => {
                    &&& e.kind != ErrorKind::Interrupted
                    &&& gave_up_with(dst, e) || e.kind == ErrorKind::WriteZero
                    &&& dst.reliable() ==> dst.position() + MARKER_LEN > usize::MAX
                },
                Err(_) => false,
            },
    {
        let mut dst = dst;
        match write_all(&mut dst, MARKER.as_slice()) {
            Ok(()) => {
                Ok(Writer { cursor: Cursor::new(dst) })
            },
            Err(e) => Err(Error::Io(e)),
        }
    }

    /// Gives up the writer for the wrapped stream.
    pub fn into_inner(self) -> (inner: S)
        ensures
            inner == self.cursor().stream(),
    {
        self.cursor.into_inner()
    }

    /// Whether a seek has left the wrapped stream elsewhere than the offset
    /// says. Until a seek from the start has succeeded, nothing else may be
    /// asked of such a writer.
    pub fn is_adrift(&self) -> (adrift: bool)
        ensures
            adrift == self.cursor().adrift(),
    {
        self.cursor.is_adrift()
    }

    /// Transforms the front part of `buf` that fits one chunk, writes it and
    /// moves the offset past what was accepted.
    pub fn write(&mut self, buf: &[u8]) -> (r: Result<usize, IoError>)
        requires
            old(self).wf(),
        ensures
            old(self).cursor().write_outcome(
                final(self).cursor(),
                flipped(buf@),
                BUFFER_LEN as nat,
                r,
            ),
            buf@.len() == 0 ==> r is Ok && final(self).cursor() == old(self).cursor(),
    {
        self.cursor.write(buf)
    }

    /// Transforms and writes all of `buf`.
    pub fn write_all(&mut self, buf: &[u8]) -> (r: Result<(), IoError>)
        requires
            old(self).wf(),
        ensures
            old(self).cursor().write_all_outcome(final(self).cursor(), flipped(buf@), r),
            old(self).cursor().stream().reliable() && old(self).cursor().stream().position()
                + buf@.len() <= usize::MAX ==> r is Ok,
    {
        self.cursor.write_all(buf)
    }

    /// Asks the wrapped stream to hand on what it still buffers.
    pub fn flush(&mut self) -> (r: Result<(), IoError>)
        ensures
            old(self).cursor().flush_outcome(final(self).cursor(), r),
    {
        self.cursor.flush()
    }

    /// Moves the offset, counted from the first payload byte, and returns
    /// the new one.
    pub fn seek(&mut self, pos: SeekFrom) -> (r: Result<u64, IoError>)
        requires
            old(self).wf() || (old(self).cursor().base() is Some && pos is Start),
        ensures
            old(self).cursor().seek_outcome(final(self).cursor(), pos, r),
    {
        self.cursor.seek(pos)
    }
}

} // verus!
