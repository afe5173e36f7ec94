//! A stream over a vector of bytes.

use crate::error::{ErrorKind, IoError};
use crate::stream::{filled, overwrite, SeekFrom, Stream};
use vstd::prelude::*;

verus! {

/// A growable stream in memory.
///
/// Reading takes what lies between the position and the end. Writing
/// replaces what lies at the position and extends the vector where it goes
/// beyond the end; when the position lies beyond the end, the gap is filled
/// with zero bytes first. The position may be anywhere a `u64` can name; a
/// write that would end beyond what a `usize` can name is refused with
/// `InvalidInput`. The stream never fails otherwise and never transfers less
/// than it can.
#[derive(Debug)]
pub struct MemStream {
    data: Vec<u8>,
    pos: u64,
    failure: Option<IoError>,
}

impl MemStream {
    /// A stream over `data`, positioned at its first byte.
    pub fn new(data: Vec<u8>) -> (s: MemStream)
        ensures
            s.bytes() == data@,
            s.position() == 0,
    {
        MemStream { data, pos: 0, failure: None }
    }

    /// The bytes that the stream holds.
    pub fn get_ref(&self) -> (data: &Vec<u8>)
        ensures
            data@ == self.bytes(),
    {
        &self.data
    }

    /// Gives up the stream for the bytes that it holds.
    pub fn into_inner(self) -> (data: Vec<u8>)
        ensures
            data@ == self.bytes(),
    {
        self.data
    }

    /// Notes a failure of the given kind and gives the error for it.
    fn fail(&mut self, kind: ErrorKind) -> (e: IoError)
        ensures
            e.kind == kind,
            final(self).last_failure() == Some(e),
            final(self).bytes() == old(self).bytes(),
            final(self).position() == old(self).position(),
    {
        let e = IoError::new(kind);
        self.failure = Some(e);
        e
    }
}

impl Stream for MemStream {
    closed spec fn bytes(&self) -> Seq<u8> {
        self.data@
    }

    closed spec fn position(&self) -> u64 {
        self.pos
    }

    open spec fn reliable(&self) -> bool {
        true
    }

    open spec fn interrupt_budget(&self) -> nat {
        0
    }

    closed spec fn last_failure(&self) -> Option<IoError> {
        self.failure
    }

    fn read(&mut self, buf: &mut [u8]) -> (r: Result<usize, IoError>) {
        let len = self.data.len();
        let start: usize = if self.pos < len as u64 {
            self.pos as usize
        } else {
            len
        };
        let rest = len - start;
        let n = if buf.len() <= rest {
            buf.len()
        } else {
            rest
        };
        let mut i: usize = 0;
        while i < n
            invariant
                i <= n,
                n <= buf@.len(),
                start + n <= self.data@.len() == len,
                buf@.len() == old(buf)@.len(),
                self.data@ == old(self).data@,
                self.pos == old(self).pos,
                forall|j: int| 0 <= j < i ==> buf@[j] == self.data@[start + j],
                forall|j: int| i <= j < buf@.len() ==> buf@[j] == old(buf)@[j],
            decreases n - i,
        {
            buf[i] = self.data[start + i];
            i += 1;
        }
        self.pos = self.pos + n as u64;
        self.failure = None;
        Ok(n)
    }

    fn write(&mut self, buf: &[u8]) -> (r: Result<usize, IoError>)
        ensures
            old(self).position() + buf@.len() > usize::MAX && buf@.len() > 0 ==> r == Err::<
                usize,
                IoError,
            >(IoError { kind: ErrorKind::InvalidInput }),
    {
        let n = buf.len();
        if n == 0 {
            self.failure = None;
            return Ok(0);
        }
        if self.pos > usize::MAX as u64 {
            return Err(self.fail(ErrorKind::InvalidInput));
        }
        let at = self.pos as usize;
        if n > usize::MAX - at {
            return Err(self.fail(ErrorKind::InvalidInput));
        }
        while self.data.len() < at
            invariant
                self.pos == old(self).pos,
                old(self).data@.len() <= self.data@.len(),
                self.data@.len() <= at || self.data@ == old(self).data@,
                forall|j: int| 0 <= j < old(self).data@.len() ==> self.data@[j] == old(self).data@[j],
                forall|j: int| old(self).data@.len() <= j < self.data@.len() ==> self.data@[j] == 0,
            decreases at - self.data@.len(),
        {
            self.data.push(0);
        }
        let mut i: usize = 0;
        while i < n
            invariant
                i <= n,
                n == buf@.len(),
                at + n <= usize::MAX,
                at == old(self).pos,
                self.pos == old(self).pos,
                at + i <= self.data@.len(),
                old(self).data@.len() <= self.data@.len(),
                self.data@.len() == old(self).data@.len() || self.data@.len() == at + i,
                forall|j: int|
                    0 <= j < at && j < old(self).data@.len() ==> self.data@[j] == old(self).data@[j],
                forall|j: int| old(self).data@.len() <= j < at ==> self.data@[j] == 0,
                forall|j: int| at <= j < at + i ==> self.data@[j] == buf@[j - at],
                forall|j: int|
                    at + i <= j < self.data@.len() ==> j < old(self).data@.len() && self.data@[j]
                        == old(self).data@[j],
            decreases n - i,
        {
            if at + i < self.data.len() {
                self.data[at + i] = buf[i];
            } else {
                self.data.push(buf[i]);
            }
            i += 1;
        }
        self.pos = self.pos + n as u64;
        self.failure = None;
        Ok(n)
    }

    fn seek(&mut self, pos: SeekFrom) -> (r: Result<u64, IoError>) {
        let target = match pos {
            SeekFrom::Start(n) => Some(n),
            SeekFrom::End(d) => (self.data.len() as u64).checked_add_signed(d),
            SeekFrom::Current(d) => self.pos.checked_add_signed(d),
        };
        match target {
            Some(p) => {
                self.pos = p;
                self.failure = None;
                Ok(p)
            },
            None => Err(self.fail(ErrorKind::InvalidInput)),
        }
    }

    fn flush(&mut self) -> (r: Result<(), IoError>) {
        self.failure = None;
        Ok(())
    }
}

} // verus!
