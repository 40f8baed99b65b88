//! A cursor over a borrowed byte slice, for whole buffers and for streams
//! whose earlier bytes have been released.

use vstd::prelude::*;
use vstd::slice::slice_subrange;

use crate::types::Error;
use crate::types::Result;

verus! {

broadcast use {vstd::seq::group_seq_axioms, vstd::slice::group_slice_axioms};

/// A position marker in a stream that can be used to seek back.
#[derive(Debug, Clone, Copy, PartialEq, Eq, PartialOrd, Ord, Structural)]
pub struct Location {
    pub absolute_pos: u64,
}

/// The abstract state of a cursor: the bytes it reads, its position in
/// them, the stream offset of their first byte, and the first position that
/// may still be read.
pub struct CursorView {
    pub data: Seq<u8>,
    pub pos: int,
    pub base: int,
    pub min_valid: int,
}

impl CursorView {
    /// The cursor at position `pos` of fresh bytes.
    pub open spec fn fresh(data: Seq<u8>) -> CursorView {
        CursorView { data, pos: 0, base: 0, min_valid: 0 }
    }

    /// The same cursor, moved `n` bytes further.
    pub open spec fn advance(self, n: int) -> CursorView {
        CursorView { pos: self.pos + n, ..self }
    }

    /// Bytes left after the position.
    pub open spec fn remaining(self) -> int {
        if self.pos <= self.data.len() {
            self.data.len() - self.pos
        } else {
            0
        }
    }

    /// Position in the whole stream.
    pub open spec fn absolute(self) -> int {
        self.base + self.pos
    }

    /// The error, if any, of asking for `n` more bytes: a released position
    /// comes first, then the number of bytes that are missing.
    pub open spec fn need(self, n: int) -> Option<Error> {
        if self.pos < self.min_valid {
            Some(Error::PositionFreed)
        } else if self.pos + n > self.data.len() {
            Some(Error::Pending(self.shortfall(n)))
        } else {
            None
        }
    }

    /// How many bytes are missing for `n` more, at most `usize::MAX`.
    pub open spec fn shortfall(self, n: int) -> usize {
        if self.pos + n - self.data.len() <= usize::MAX {
            (self.pos + n - self.data.len()) as usize
        } else {
            usize::MAX
        }
    }

    /// Reading `n` bytes: on success the bytes and the cursor after them; on
    /// failure the error and the unmoved cursor.
    pub open spec fn read(self, n: int) -> (Result<Seq<u8>>, CursorView) {
        match self.need(n) {
            Some(e) => (Err(e), self),
            None => (Ok(self.data.subrange(self.pos, self.pos + n)), self.advance(n)),
        }
    }

    /// Seeking to an absolute stream position: a released position comes
    /// first, then one before the buffer, then one after it.
    pub open spec fn seek_to(self, a: int) -> (Result<()>, CursorView) {
        if a < self.base + self.min_valid {
            (Err(Error::PositionFreed), self)
        } else if a < self.base {
            (Err(Error::SeekBeforeBuffer), self)
        } else if a - self.base > self.data.len() {
            (Err(Error::SeekAfterBuffer), self)
        } else {
            (Ok(()), CursorView { pos: a - self.base, ..self })
        }
    }

    /// The invariant that every cursor keeps: its position, which may lie
    /// past its bytes, and their stream offsets fit the machine's integers.
    pub open spec fn valid(self) -> bool {
        &&& 0 <= self.pos <= usize::MAX
        &&& 0 <= self.min_valid <= usize::MAX
        &&& 0 <= self.base
        &&& self.base + self.data.len() <= u64::MAX
        &&& self.base + self.pos <= u64::MAX
        &&& self.data.len() <= usize::MAX
    }

    /// A valid cursor whose position lies within its bytes, as every
    /// cursor made over whole bytes and moved by reads stays.
    pub open spec fn wf(self) -> bool {
        &&& self.valid()
        &&& self.pos <= self.data.len()
    }
}

/// A cursor tracks position within a borrowed buffer slice.
/// Supports both mmap (fixed slice) and streaming (changing slices) use cases.
#[derive(Debug, Clone, Copy)]
pub struct Cursor<'a> {
    slice: &'a [u8],
    pos: usize,
    base_offset: u64,
    min_valid_pos: usize,
}

impl<'a> View for Cursor<'a> {
    type V = CursorView;

    closed spec fn view(&self) -> CursorView {
        CursorView {
            data: self.slice@,
            pos: self.pos as int,
            base: self.base_offset as int,
            min_valid: self.min_valid_pos as int,
        }
    }
}

impl<'a> Cursor<'a> {
    #[verifier::type_invariant]
    spec fn inv(self) -> bool {
        &&& self.base_offset + self.slice@.len() <= u64::MAX
        &&& self.base_offset + self.pos <= u64::MAX
        &&& self.slice@.len() <= usize::MAX
    }

    /// Create cursor at start of slice (mmap use case).
    pub fn new(slice: &'a [u8]) -> (c: Self)
        ensures
            c@ == CursorView::fresh(slice@),
            c@.wf(),
    {
        assert(vstd::slice::spec_slice_len(slice) == slice@.len());
        Self { slice, pos: 0, base_offset: 0, min_valid_pos: 0 }
    }

    /// Create cursor with context (streaming use case): the position in the
    /// slice, the stream offset of the slice's first byte, and the first
    /// position that may be read. The position may lie past the slice: such
    /// a cursor has nothing remaining and reports the bytes still missing.
    /// The stream offsets of the slice's end and of the position must fit
    /// a `u64`.
    pub fn with_context(slice: &'a [u8], start_pos: usize, base_offset: u64, min_valid: usize) -> (c:
        Self)
        requires
            base_offset + slice@.len() <= u64::MAX,
            base_offset + start_pos <= u64::MAX,
        ensures
            c@ == (CursorView {
                data: slice@,
                pos: start_pos as int,
                base: base_offset as int,
                min_valid: min_valid as int,
            }),
            c@.valid(),
    {
        assert(vstd::slice::spec_slice_len(slice) == slice@.len());
        Self { slice, pos: start_pos, base_offset, min_valid_pos: min_valid }
    }

    pub fn pos(&self) -> (p: usize)
        ensures
            p == self@.pos,
            self@.valid(),
    {
        proof {
            use_type_invariant(self);
        }
        self.pos
    }

    pub fn absolute_pos(&self) -> (p: u64)
        ensures
            p == self@.absolute(),
    {
        proof {
            use_type_invariant(self);
        }
        self.base_offset + self.pos as u64
    }

    pub fn remaining(&self) -> (n: usize)
        ensures
            n == self@.remaining(),
            self@.valid(),
    {
        proof {
            use_type_invariant(self);
        }
        if self.pos <= self.slice.len() {
            self.slice.len() - self.pos
        } else {
            0
        }
    }

    pub fn mark(&self) -> (loc: Location)
        ensures
            loc.absolute_pos == self@.absolute(),
    {
        Location { absolute_pos: self.absolute_pos() }
    }

    pub fn set_pos(&mut self, pos: usize) -> (r: Result<()>)
        ensures
            pos < old(self)@.min_valid ==> r == Err::<(), Error>(Error::PositionFreed) && final(self)@
                == old(self)@,
            old(self)@.min_valid <= pos && pos > old(self)@.data.len() ==> r == Err::<(), Error>(
                Error::OutOfBounds,
            ) && final(self)@ == old(self)@,
            old(self)@.min_valid <= pos <= old(self)@.data.len() ==> r is Ok && final(self)@ == (
            CursorView { pos: pos as int, ..old(self)@ }),
    {
        proof {
            use_type_invariant(&*self);
        }
        if pos < self.min_valid_pos {
            return Err(Error::PositionFreed);
        }
        if pos > self.slice.len() {
            return Err(Error::OutOfBounds);
        }
        self.pos = pos;
        Ok(())
    }

    /// Moves the cursor to a location of the stream.
    pub fn seek(&mut self, loc: Location) -> (r: Result<()>)
        ensures
            (r, final(self)@) == old(self)@.seek_to(loc.absolute_pos as int),
            final(self)@.valid(),
            old(self)@.wf() ==> final(self)@.wf(),
    {
        proof {
            use_type_invariant(&*self);
        }
        if loc.absolute_pos < self.base_offset || loc.absolute_pos - self.base_offset
            < self.min_valid_pos as u64 {
            return Err(Error::PositionFreed);
        }
        if loc.absolute_pos < self.base_offset {
            return Err(Error::SeekBeforeBuffer);
        }
        let relative = loc.absolute_pos - self.base_offset;
        if relative > self.slice.len() as u64 {
            return Err(Error::SeekAfterBuffer);
        }
        self.pos = relative as usize;
        Ok(())
    }

    /// Succeeds when `n` more bytes can be read.
    pub(crate) fn need(&self, n: usize) -> (r: Result<()>)
        ensures
            match self@.need(n as int) {
                Some(e) => r == Err::<(), Error>(e),
                None => r is Ok,
            },
    {
        proof {
            use_type_invariant(self);
        }
        if self.pos < self.min_valid_pos {
            return Err(Error::PositionFreed);
        }
        if self.pos > self.slice.len() {
            let over = self.pos - self.slice.len();
            if n <= usize::MAX - over {
                return Err(Error::Pending(over + n));
            } else {
                return Err(Error::Pending(usize::MAX));
            }
        }
        let available = self.slice.len() - self.pos;
        if n > available {
            Err(Error::Pending(n - available))
        } else {
            Ok(())
        }
    }

    pub(crate) fn read_byte(&mut self) -> (r: Result<u8>)
        ensures
            final(self)@ == old(self)@.read(1).1,
            final(self)@.valid(),
            old(self)@.wf() ==> final(self)@.wf(),
            match old(self)@.read(1).0 {
                Ok(b) => r == Ok::<u8, Error>(b[0]),
                Err(e) => r == Err::<u8, Error>(e),
            },
    {
        proof {
            use_type_invariant(&*self);
        }
        self.need(1)?;
        let byte = self.slice[self.pos];
        self.pos = self.pos + 1;
        Ok(byte)
    }

    pub(crate) fn peek_byte(&self) -> (r: Result<u8>)
        ensures
            match self@.read(1).0 {
                Ok(b) => r == Ok::<u8, Error>(b[0]),
                Err(e) => r == Err::<u8, Error>(e),
            },
    {
        self.need(1)?;
        Ok(self.slice[self.pos])
    }

    /// Reads `len` bytes and moves past them.
    pub fn read_bytes(&mut self, len: usize) -> (r: Result<&'a [u8]>)
        ensures
            final(self)@ == old(self)@.read(len as int).1,
            final(self)@.valid(),
            old(self)@.wf() ==> final(self)@.wf(),
            match r {
                Ok(s) => old(self)@.read(len as int).0 == Ok::<Seq<u8>, Error>(s@) && s@.len()
                    == len,
                Err(e) => old(self)@.read(len as int).0 == Err::<Seq<u8>, Error>(e),
            },
    {
        proof {
            use_type_invariant(&*self);
        }
        self.need(len)?;
        let slice = slice_subrange(self.slice, self.pos, self.pos + len);
        self.pos = self.pos + len;
        Ok(slice)
    }

    pub(crate) fn skip(&mut self, len: usize) -> (r: Result<()>)
        ensures
            final(self)@ == old(self)@.read(len as int).1,
            final(self)@.valid(),
            old(self)@.wf() ==> final(self)@.wf(),
            match old(self)@.read(len as int).0 {
                Ok(_) => r == Ok::<(), Error>(()),
                Err(e) => r == Err::<(), Error>(e),
            },
    {
        proof {
            use_type_invariant(&*self);
        }
        self.need(len)?;
        self.pos = self.pos + len;
        Ok(())
    }

    /// The bytes from the position to the end; the position must lie within
    /// the bytes.
    pub fn as_slice(&self) -> (s: &'a [u8])
        requires
            self@.pos <= self@.data.len(),
        ensures
            s@ == self@.data.subrange(self@.pos, self@.data.len() as int),
    {
        proof {
            use_type_invariant(self);
        }
        slice_subrange(self.slice, self.pos, self.slice.len())
    }

    pub(crate) fn full_slice(&self) -> (s: &'a [u8])
        ensures
            s@ == self@.data,
    {
        self.slice
    }
}

/// The cursor a stream buffer gives over its bytes not yet consumed.
pub open spec fn stream_view(data: Seq<u8>, base_offset: int, valid_start: int) -> CursorView {
    CursorView {
        data: data.subrange(valid_start, data.len() as int),
        pos: 0,
        base: base_offset + valid_start,
        min_valid: 0,
    }
}

/// Helper for the streaming use case: a growable buffer with compaction.
///
/// `data[valid_start..]` holds the bytes not yet consumed; `base_offset` is
/// the stream offset of `data[0]`.
pub struct StreamBuffer {
    pub data: Vec<u8>,
    pub base_offset: u64,
    pub valid_start: usize,
}

impl StreamBuffer {
    pub fn new() -> (b: Self)
        ensures
            b.data@ == Seq::<u8>::empty(),
            b.base_offset == 0,
            b.valid_start == 0,
    {
        Self { data: Vec::new(), base_offset: 0, valid_start: 0 }
    }

    pub fn with_capacity(cap: usize) -> (b: Self)
        ensures
            b.data@ == Seq::<u8>::empty(),
            b.base_offset == 0,
            b.valid_start == 0,
    {
        Self { data: Vec::with_capacity(cap), base_offset: 0, valid_start: 0 }
    }

    /// Appends received bytes.
    pub fn extend(&mut self, bytes: &[u8])
        ensures
            final(self).data@ == old(self).data@ + bytes@,
            final(self).base_offset == old(self).base_offset,
            final(self).valid_start == old(self).valid_start,
    {
        let mut i: usize = 0;
        while i < bytes.len()
            invariant
                0 <= i <= bytes@.len(),
                self.data@ == old(self).data@ + bytes@.subrange(0, i as int),
                self.base_offset == old(self).base_offset,
                self.valid_start == old(self).valid_start,
            decreases bytes@.len() - i,
        {
            self.data.push(bytes[i]);
            i = i + 1;
            assert(bytes@.subrange(0, i as int) =~= bytes@.subrange(0, i - 1).push(bytes@[i - 1]));
        }
        assert(bytes@.subrange(0, bytes@.len() as int) =~= bytes@);
    }

    /// A cursor over the bytes not yet consumed, positioned at their start.
    pub fn cursor(&self) -> (c: Cursor<'_>)
        requires
            self.valid_start <= self.data@.len(),
            self.base_offset + self.data@.len() <= u64::MAX,
        ensures
            c@ == stream_view(self.data@, self.base_offset as int, self.valid_start as int),
    {
        let rest = slice_subrange(self.data.as_slice(), self.valid_start, self.data.len());
        Cursor::with_context(rest, 0, self.base_offset + self.valid_start as u64, 0)
    }

    /// Marks bytes after the valid start as consumed.
    pub fn mark_consumed(&mut self, bytes_from_valid_start: usize)
        requires
            old(self).valid_start + bytes_from_valid_start <= usize::MAX,
        ensures
            final(self).valid_start == old(self).valid_start + bytes_from_valid_start,
            final(self).data@ == old(self).data@,
            final(self).base_offset == old(self).base_offset,
    {
        self.valid_start = self.valid_start + bytes_from_valid_start;
    }

    /// Drops the consumed bytes and returns how many were dropped; the
    /// stream offsets of the bytes kept do not change.
    pub fn compact(&mut self) -> (freed: usize)
        requires
            old(self).valid_start <= old(self).data@.len(),
            old(self).base_offset + old(self).valid_start <= u64::MAX,
        ensures
            freed == old(self).valid_start,
            final(self).data@ == old(self).data@.subrange(
                old(self).valid_start as int,
                old(self).data@.len() as int,
            ),
            final(self).base_offset == old(self).base_offset + old(self).valid_start,
            final(self).valid_start == 0,
    {
        let freed = self.valid_start;
        if freed > 0 {
            let rest = self.data.split_off(self.valid_start);
            self.data = rest;
            self.base_offset = self.base_offset + freed as u64;
            self.valid_start = 0;
        } else {
            assert(self.data@.subrange(0, self.data@.len() as int) =~= self.data@);
        }
        freed
    }

    /// Number of bytes not yet consumed.
    pub fn len(&self) -> (n: usize)
        requires
            self.valid_start <= self.data@.len(),
        ensures
            n == self.data@.len() - self.valid_start,
    {
        self.data.len() - self.valid_start
    }

    pub fn is_empty(&self) -> (b: bool)
        requires
            self.valid_start <= self.data@.len(),
        ensures
            b == (self.data@.len() == self.valid_start),
    {
        self.len() == 0
    }
}

} // verus!
