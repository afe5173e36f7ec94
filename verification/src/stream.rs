//! Byte streams that can be read, written and repositioned.

use crate::error::{ErrorKind, IoError};
use vstd::prelude::*;

verus! {

/// A position to seek to.
#[derive(Clone, Copy, Debug, PartialEq, Eq, Structural)]
pub enum SeekFrom {
    /// So many bytes after the start.
    Start(u64),
    /// So many bytes after the end; a negative number goes back from it.
    End(i64),
    /// So many bytes after the current position; a negative number goes back
    /// from it.
    Current(i64),
}

/// How many bytes of `bytes` lie at and after `pos`.
pub open spec fn available(bytes: Seq<u8>, pos: u64) -> nat {
    if pos < bytes.len() {
        (bytes.len() - pos) as nat
    } else {
        0
    }
}

/// The `n` bytes of `bytes` that start at `pos`.
pub open spec fn window(bytes: Seq<u8>, pos: int, n: nat) -> Seq<u8> {
    if n == 0 {
        Seq::empty()
    } else {
        bytes.subrange(pos, pos + n)
    }
}

/// What a buffer that held `before` holds once `n` bytes of `bytes`, starting
/// at `pos`, have been read into its front.
pub open spec fn filled(bytes: Seq<u8>, pos: u64, before: Seq<u8>, n: nat) -> Seq<u8> {
    window(bytes, pos as int, n) + before.subrange(n as int, before.len() as int)
}

/// What a stream that held `bytes` holds once `data` has been written at
/// `at`. Writing nothing changes nothing; writing beyond the end fills the
/// gap with zero bytes.
pub open spec fn overwrite(bytes: Seq<u8>, at: int, data: Seq<u8>) -> Seq<u8> {
    if data.len() == 0 {
        bytes
    } else {
        Seq::new(
            if bytes.len() >= at + data.len() {
                bytes.len()
            } else {
                (at + data.len()) as nat
            },
            |i: int|
                if at <= i < at + data.len() {
                    data[i - at]
                } else if i < bytes.len() {
                    bytes[i]
                } else {
                    0u8
                },
        )
    }
}

/// The absolute position that a seek request names on a stream of `len`
/// bytes that stands at `position`. It may be negative or too large to
/// address.
pub open spec fn seek_target(len: nat, position: u64, pos: SeekFrom) -> int {
    match pos {
        SeekFrom::Start(n) => n as int,
        SeekFrom::End(d) => len + d,
        SeekFrom::Current(d) => position + d,
    }
}

/// The error of a result, if it is one.
pub open spec fn failure_of<T>(r: Result<T, IoError>) -> Option<IoError> {
    match r {
        Ok(_) => None,
        Err(e) => Some(e),
    }
}

/// The smaller of two lengths.
pub open spec fn least(a: nat, b: nat) -> nat {
    if a <= b {
        a
    } else {
        b
    }
}

/// A resource that holds bytes and a position in them, at which it reads and
/// writes.
///
/// `bytes` and `position` describe what the stream holds. Every operation
/// says what it did to them when it succeeds, and leaves them alone when it
/// fails. A stream may fail at any time and may transfer fewer bytes than it
/// was asked to, unless it is `reliable`: such a stream fails only where the
/// request cannot be met and always transfers as much as it can.
///
/// An implementation says what it holds by giving the five spec functions a
/// body. One that gives them none is a stream of which nothing is known but
/// what the operations tell, and is not taken to be reliable.
pub trait Stream: Sized {
    /// Everything the stream holds, from its first byte.
    open spec fn bytes(&self) -> Seq<u8> {
        arbitrary()
    }

    /// Where the next read or write takes place.
    open spec fn position(&self) -> u64 {
        arbitrary()
    }

    /// Whether the stream never fails of its own accord and never transfers
    /// less than it can.
    open spec fn reliable(&self) -> bool {
        false
    }

    /// A bound on how many more times in a row the stream reports an
    /// interruption.
    open spec fn interrupt_budget(&self) -> nat {
        arbitrary()
    }

    /// The error with which the latest operation failed, if it failed.
    open spec fn last_failure(&self) -> Option<IoError> {
        arbitrary()
    }

    /// Reads bytes at the position into the front of `buf` and moves the
    /// position past them. `Ok(0)` means that the buffer is empty or that the
    /// position is at or beyond the end.
    fn read(&mut self, buf: &mut [u8]) -> (r: Result<usize, IoError>)
        ensures
            final(self).bytes() == old(self).bytes(),
            final(self).reliable() == old(self).reliable(),
            final(self).last_failure() == failure_of(r),
            final(buf)@.len() == old(buf)@.len(),
            match r {
                Ok(n) => {
                    &&& n <= old(buf)@.len()
                    &&& n <= available(old(self).bytes(), old(self).position())
                    &&& n == 0 ==> old(buf)@.len() == 0 || available(
                        old(self).bytes(),
                        old(self).position(),
                    ) == 0
                    &&& final(self).position() == old(self).position() + n
                    &&& final(buf)@ == filled(
                        old(self).bytes(),
                        old(self).position(),
                        old(buf)@,
                        n as nat,
                    )
                },
                Err(e) => {
                    &&& final(self).position() == old(self).position()
                    &&& e.kind == ErrorKind::Interrupted ==> final(self).interrupt_budget() < old(
                        self,
                    ).interrupt_budget()
                },
            },
            old(self).reliable() ==> r == Ok::<usize, IoError>(
                least(old(buf)@.len(), available(old(self).bytes(), old(self).position())) as usize,
            ),
    ;

    /// Writes a front part of `buf` at the position and moves the position
    /// past it.
    fn write(&mut self, buf: &[u8]) -> (r: Result<usize, IoError>)
        ensures
            final(self).reliable() == old(self).reliable(),
            final(self).last_failure() == failure_of(r),
            match r {
                Ok(n) => {
                    &&& n <= buf@.len()
                    &&& final(self).position() == old(self).position() + n
                    &&& final(self).bytes() == overwrite(
                        old(self).bytes(),
                        old(self).position() as int,
                        buf@.take(n as int),
                    )
                },
                Err(e) => {
                    &&& final(self).position() == old(self).position()
                    &&& final(self).bytes() == old(self).bytes()
                    &&& e.kind == ErrorKind::Interrupted ==> final(self).interrupt_budget() < old(
                        self,
                    ).interrupt_budget()
                },
            },
            old(self).reliable() && old(self).position() + buf@.len() <= usize::MAX ==> r == Ok::<
                usize,
                IoError,
            >(buf@.len() as usize),
    ;

    /// Moves the position and returns the new one.
    fn seek(&mut self, pos: SeekFrom) -> (r: Result<u64, IoError>)
        ensures
            final(self).bytes() == old(self).bytes(),
            final(self).reliable() == old(self).reliable(),
            final(self).last_failure() == failure_of(r),
            match r {
                Ok(p) => {
                    &&& p == seek_target(old(self).bytes().len(), old(self).position(), pos)
                    &&& final(self).position() == p
                },
                Err(e) => {
                    &&& final(self).position() == old(self).position()
                    &&& old(self).reliable() ==> e.kind == ErrorKind::InvalidInput && !(0
                        <= seek_target(old(self).bytes().len(), old(self).position(), pos)
                        <= u64::MAX)
                },
            },
    ;

    /// Hands on to its destination whatever the stream still buffers.
    fn flush(&mut self) -> (r: Result<(), IoError>)
        ensures
            final(self).bytes() == old(self).bytes(),
            final(self).position() == old(self).position(),
            final(self).reliable() == old(self).reliable(),
            final(self).last_failure() == failure_of(r),
            old(self).reliable() ==> r is Ok,
    ;
}

/// Whether `e` is an error that `src` reported in the course of a call that
/// gave it up, so that nothing more can be told of it.
pub open spec fn gave_up_with<S: Stream>(src: S, e: IoError) -> bool {
    exists|gone: S| #[trigger] gone.last_failure() == Some(e) && gone.reliable() == src.reliable()
}

/// Reads until `buf` is full. A read that is interrupted is tried again; a
/// stream that ends too early gives `UnexpectedEof`.
pub fn read_exact<S: Stream>(src: &mut S, buf: &mut [u8]) -> (r: Result<(), IoError>)
    ensures
        final(src).bytes() == old(src).bytes(),
        final(src).reliable() == old(src).reliable(),
        final(buf)@.len() == old(buf)@.len(),
        match r {
            Ok(()) => {
                &&& old(buf)@.len() <= available(old(src).bytes(), old(src).position())
                &&& final(src).position() == old(src).position() + old(buf)@.len()
                &&& final(buf)@ == window(
                    old(src).bytes(),
                    old(src).position() as int,
                    old(buf)@.len(),
                )
            },
            Err(e) => {
                let ended_early = {
                    &&& e.kind == ErrorKind::UnexpectedEof
                    &&& available(old(src).bytes(), old(src).position()) < old(buf)@.len()
                    &&& final(src).position() == old(src).position() + available(
                        old(src).bytes(),
                        old(src).position(),
                    )
                };
                &&& old(src).position() <= final(src).position()
                &&& final(src).position() - old(src).position() <= least(
                    old(buf)@.len(),
                    available(old(src).bytes(), old(src).position()),
                )
                &&& e.kind != ErrorKind::Interrupted
                &&& final(src).last_failure() == Some(e) || ended_early
                &&& old(src).reliable() ==> ended_early
            },
        },
{
    let len = buf.len();
    let mut done: usize = 0;
    while done < len
        invariant
            done <= len,
            len == buf@.len(),
            len == old(buf)@.len(),
            src.bytes() == old(src).bytes(),
            src.reliable() == old(src).reliable(),
            src.position() == old(src).position() + done,
            done <= available(old(src).bytes(), old(src).position()),
            buf@.take(done as int) == window(
                old(src).bytes(),
                old(src).position() as int,
                done as nat,
            ),
        decreases len - done, src.interrupt_budget(),
    {
        let (_, rest) = buf.split_at_mut(done);
        match src.read(rest) {
            Ok(n) => {
                if n == 0 {
                    return Err(IoError::new(ErrorKind::UnexpectedEof));
                }
                done = done + n;
            },
            Err(e) => {
                if e.kind != ErrorKind::Interrupted {
                    return Err(e);
                }
            },
        }
    }
    Ok(())
}

/// Writes all of `buf`. A write that is interrupted is tried again; a stream
/// that accepts nothing more gives `WriteZero`.
pub fn write_all<S: Stream>(dst: &mut S, buf: &[u8]) -> (r: Result<(), IoError>)
    ensures
        final(dst).reliable() == old(dst).reliable(),
        old(dst).position() <= final(dst).position() <= old(dst).position() + buf@.len(),
        final(dst).bytes() == overwrite(
            old(dst).bytes(),
            old(dst).position() as int,
            buf@.take(final(dst).position() - old(dst).position()),
        ),
        r is Ok ==> final(dst).position() == old(dst).position() + buf@.len(),
        r matches Err(e) ==> e.kind != ErrorKind::Interrupted && (final(dst).last_failure() == Some(
            e,
        ) || e.kind == ErrorKind::WriteZero),
        old(dst).reliable() && old(dst).position() + buf@.len() <= usize::MAX ==> r is Ok,
{
    let len = buf.len();
    let mut done: usize = 0;
    while done < len
        invariant
            done <= len,
            len == buf@.len(),
            dst.reliable() == old(dst).reliable(),
            dst.position() == old(dst).position() + done,
            dst.bytes() == overwrite(
                old(dst).bytes(),
                old(dst).position() as int,
                buf@.take(done as int),
            ),
        decreases len - done, dst.interrupt_budget(),
    {
        let rest = vstd::slice::slice_subrange(buf, done, len);
        match dst.write(rest) {
            Ok(n) => {
                if n == 0 {
                    return Err(IoError::new(ErrorKind::WriteZero));
                }
                done = done + n;
            },
            Err(e) => {
                if e.kind != ErrorKind::Interrupted {
                    return Err(e);
                }
            },
        }
    }
    Ok(())
}

} // verus!
