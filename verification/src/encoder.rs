//! Writing encoded values into a growable buffer.
//!
//! Containers are written in place: opening one writes its tag and a
//! placeholder length; finishing it writes the length of the body that was
//! written in between. Writers for the contents of a container borrow the
//! encoder, and finishing a container gives the encoder back.

use vstd::prelude::*;
use vstd::slice::slice_subrange;
use vstd::string::StringSliceAdditionalSpecFns;

use crate::cursor::CursorView;
use crate::decoder::Decoder;
use crate::decoder::sp_skip_all;
use crate::types::Error;
use crate::types::Result;
use crate::types::Tag;
use crate::wire::{bool_bytes, u8_bytes, i8_bytes, u16_bytes, i16_bytes, u32_bytes, i32_bytes};
use crate::wire::{u64_bytes, i64_bytes, byte_vec, u16_le, u32_le, u64_le};
use crate::wire::{enc_scalar, enc_framed, len_prefix, array_header, lemma_len_prefix, lemma_u32_bytes_len};

verus! {

broadcast use vstd::seq::group_seq_axioms;

/// The buffer of a container once its length has been written: the four
/// bytes at `len_offset` become the length of the bytes from `body_start`
/// on.
pub open spec fn patched(buf: Seq<u8>, len_offset: int, body_start: int) -> Seq<u8> {
    buf.subrange(0, len_offset) + len_prefix((buf.len() - body_start) as nat) + buf.subrange(
        body_start,
        buf.len() as int,
    )
}

/// A growable buffer that encodes data into the isopack format.
pub struct Encoder {
    pub buf: Vec<u8>,
    last_flush: usize,
    open_scopes: usize,
}

impl Encoder {
    /// The bytes written so far.
    pub closed spec fn written(&self) -> Seq<u8> {
        self.buf@
    }

    /// How many bytes of the buffer have been flushed.
    pub closed spec fn flushed(&self) -> nat {
        self.last_flush as nat
    }

    /// How many containers have been opened and not finished.
    pub closed spec fn scopes(&self) -> nat {
        self.open_scopes as nat
    }

    /// The encoder `before`, with `bytes` written at the end of its buffer.
    pub open spec fn appended(self, before: Encoder, bytes: Seq<u8>) -> bool {
        &&& self.written() == before.written() + bytes
        &&& self.flushed() == before.flushed()
        &&& self.scopes() == before.scopes()
    }

    pub fn new() -> (e: Self)
        ensures
            e.written() == Seq::<u8>::empty(),
            e.flushed() == 0,
            e.scopes() == 0,
    {
        Self { buf: Vec::new(), last_flush: 0, open_scopes: 0 }
    }

    pub fn with_capacity(cap: usize) -> (e: Self)
        ensures
            e.written() == Seq::<u8>::empty(),
            e.flushed() == 0,
            e.scopes() == 0,
    {
        Self { buf: Vec::with_capacity(cap), last_flush: 0, open_scopes: 0 }
    }

    pub fn as_bytes(&self) -> (b: &[u8])
        ensures
            b@ == self.written(),
    {
        self.buf.as_slice()
    }

    pub fn into_bytes(self) -> (b: Vec<u8>)
        ensures
            b@ == self.written(),
    {
        self.buf
    }

    /// Flush all bytes written since the last flush; returns them.
    /// Can only flush when all containers are finished.
    pub fn flush(&mut self) -> (r: Result<&[u8]>)
        requires
            old(self).flushed() <= old(self).written().len(),
        ensures
            old(self).scopes() > 0 ==> r == Err::<&[u8], Error>(Error::ScopeOpen) && *final(self)
                == *old(self),
            old(self).scopes() == 0 ==> (r matches Ok(s) && s@ == old(self).written().subrange(
                old(self).flushed() as int,
                old(self).written().len() as int,
            )),
            old(self).scopes() == 0 ==> final(self).written() == old(self).written() && final(self).flushed()
                == old(self).written().len() && final(self).scopes() == 0,
    {
        if self.open_scopes > 0 {
            return Err(Error::ScopeOpen);
        }
        let len = self.buf.len();
        let slice = slice_subrange(self.buf.as_slice(), self.last_flush, len);
        self.last_flush = len;
        Ok(slice)
    }

    /// Take ownership of all flushed bytes and remove them from the buffer.
    pub fn take_flushed(&mut self) -> (taken: Vec<u8>)
        requires
            old(self).flushed() <= old(self).written().len(),
        ensures
            taken@ == old(self).written().subrange(0, old(self).flushed() as int),
            final(self).written() == old(self).written().subrange(
                old(self).flushed() as int,
                old(self).written().len() as int,
            ),
            final(self).flushed() == 0,
            final(self).scopes() == old(self).scopes(),
    {
        let mut taken = self.buf.split_off(self.last_flush);
        core::mem::swap(&mut self.buf, &mut taken);
        self.last_flush = 0;
        taken
    }

    /// Create an encoder from existing bytes, which must be a sequence of
    /// complete values.
    pub fn from_bytes(bytes: Vec<u8>) -> (r: Result<Self>)
        ensures
            match sp_skip_all(CursorView::fresh(bytes@)) {
                Ok(_) => r matches Ok(e) && e.written() == bytes@ && e.flushed() == 0 && e.scopes() == 0,
                Err(err) => r is Err && r == Err::<Self, Error>(err),
            },
    {
        let mut decoder = Decoder::new(bytes.as_slice());
        while decoder.remaining() > 0
            invariant
                decoder@.wf(),
                decoder@.data == bytes@,
                decoder@.min_valid == 0,
                sp_skip_all(decoder@) == sp_skip_all(CursorView::fresh(bytes@)),
            decreases decoder@.remaining(),
        {
            decoder.skip_value()?;
        }
        Ok(Self { buf: bytes, last_flush: 0, open_scopes: 0 })
    }

    fn write_tag(&mut self, tag: Tag)
        ensures
            final(self).appended(*old(self), seq![tag.spec_byte()]),
    {
        self.buf.push(tag.to_u8());
        assert(self.written() =~= old(self).written() + seq![tag.spec_byte()]);
    }

    fn write_raw(&mut self, data: &[u8])
        ensures
            final(self).appended(*old(self), data@),
    {
        let mut i: usize = 0;
        while i < data.len()
            invariant
                0 <= i <= data@.len(),
                self.appended(*old(self), data@.subrange(0, i as int)),
            decreases data@.len() - i,
        {
            self.buf.push(data[i]);
            i = i + 1;
            assert(data@.subrange(0, i as int) =~= data@.subrange(0, i - 1).push(data@[i - 1]));
        }
        assert(data@.subrange(0, data@.len() as int) =~= data@);
    }

    fn write_u32_raw(&mut self, v: u32)
        ensures
            final(self).appended(*old(self), u32_bytes(v)),
    {
        let b = u32_le(v);
        self.write_raw(b.as_slice());
    }

    fn write_blob(&mut self, tag: Tag, data: &[u8]) -> (r: Result<()>)
        ensures
            data@.len() > u32::MAX ==> r == Err::<(), Error>(Error::BlobTooLarge(data@.len() as usize))
                && *final(self) == *old(self),
            data@.len() <= u32::MAX ==> r is Ok && final(self).appended(
                *old(self),
                enc_framed(tag, data@),
            ),
    {
        if data.len() > u32::MAX as usize {
            return Err(Error::BlobTooLarge(data.len()));
        }
        self.write_tag(tag);
        self.write_u32_raw(data.len() as u32);
        self.write_raw(data);
        assert(self.written() =~= old(self).written() + enc_framed(tag, data@));
        Ok(())
    }

    /// Writes a tag and a payload, with no size check.
    fn write_tagged(&mut self, tag: Tag, payload: &[u8])
        ensures
            final(self).appended(*old(self), enc_scalar(tag, payload@)),
    {
        self.write_tag(tag);
        self.write_raw(payload);
        assert(self.written() =~= old(self).written() + enc_scalar(tag, payload@));
    }

    /// Writes a scalar: its tag, then its payload.
    fn write_scalar(&mut self, tag: Tag, payload: &[u8]) -> (r: Result<()>)
        ensures
            old(self).written().len() < u32::MAX <==> r is Ok,
            r is Ok ==> final(self).appended(*old(self), enc_scalar(tag, payload@)),
            r is Err ==> r == Err::<(), Error>(Error::ContainerFull) && *final(self) == *old(self),
    {
        if self.buf.len() >= u32::MAX as usize {
            return Err(Error::ContainerFull);
        }
        self.write_tagged(tag, payload);
        Ok(())
    }


    /// Writes a `Bool` scalar.
    pub fn bool(&mut self, v: bool) -> (r: Result<&mut Self>)
        ensures
            old(self).written().len() < u32::MAX <==> r is Ok,
            match r {
                Ok(e) => e.appended(*old(self), enc_scalar(Tag::Bool, bool_bytes(v))) && *final(self)
                    == *final(e),
                Err(err) => err == Error::ContainerFull && *final(self) == *old(self),
            },
    {
        let payload = byte_vec(if v { 1u8 } else { 0u8 });
        self.write_scalar(Tag::Bool, payload.as_slice())?;
        Ok(self)
    }

    /// Writes a `U8` scalar.
    pub fn u8(&mut self, v: u8) -> (r: Result<&mut Self>)
        ensures
            old(self).written().len() < u32::MAX <==> r is Ok,
            match r {
                Ok(e) => e.appended(*old(self), enc_scalar(Tag::U8, u8_bytes(v))) && *final(self)
                    == *final(e),
                Err(err) => err == Error::ContainerFull && *final(self) == *old(self),
            },
    {
        let payload = byte_vec(v);
        self.write_scalar(Tag::U8, payload.as_slice())?;
        Ok(self)
    }

    /// Writes a `S8` scalar.
    pub fn i8(&mut self, v: i8) -> (r: Result<&mut Self>)
        ensures
            old(self).written().len() < u32::MAX <==> r is Ok,
            match r {
                Ok(e) => e.appended(*old(self), enc_scalar(Tag::S8, i8_bytes(v))) && *final(self)
                    == *final(e),
                Err(err) => err == Error::ContainerFull && *final(self) == *old(self),
            },
    {
        let payload = byte_vec(v as u8);
        self.write_scalar(Tag::S8, payload.as_slice())?;
        Ok(self)
    }

    /// Writes a `U16` scalar.
    pub fn u16(&mut self, v: u16) -> (r: Result<&mut Self>)
        ensures
            old(self).written().len() < u32::MAX <==> r is Ok,
            match r {
                Ok(e) => e.appended(*old(self), enc_scalar(Tag::U16, u16_bytes(v))) && *final(self)
                    == *final(e),
                Err(err) => err == Error::ContainerFull && *final(self) == *old(self),
            },
    {
        let payload = u16_le(v);
        self.write_scalar(Tag::U16, payload.as_slice())?;
        Ok(self)
    }

    /// Writes a `S16` scalar.
    pub fn i16(&mut self, v: i16) -> (r: Result<&mut Self>)
        ensures
            old(self).written().len() < u32::MAX <==> r is Ok,
            match r {
                Ok(e) => e.appended(*old(self), enc_scalar(Tag::S16, i16_bytes(v))) && *final(self)
                    == *final(e),
                Err(err) => err == Error::ContainerFull && *final(self) == *old(self),
            },
    {
        let payload = u16_le(v as u16);
        self.write_scalar(Tag::S16, payload.as_slice())?;
        Ok(self)
    }

    /// Writes a `U32` scalar.
    pub fn u32(&mut self, v: u32) -> (r: Result<&mut Self>)
        ensures
            old(self).written().len() < u32::MAX <==> r is Ok,
            match r {
                Ok(e) => e.appended(*old(self), enc_scalar(Tag::U32, u32_bytes(v))) && *final(self)
                    == *final(e),
                Err(err) => err == Error::ContainerFull && *final(self) == *old(self),
            },
    {
        let payload = u32_le(v);
        self.write_scalar(Tag::U32, payload.as_slice())?;
        Ok(self)
    }

    /// Writes a `S32` scalar.
    pub fn i32(&mut self, v: i32) -> (r: Result<&mut Self>)
        ensures
            old(self).written().len() < u32::MAX <==> r is Ok,
            match r {
                Ok(e) => e.appended(*old(self), enc_scalar(Tag::S32, i32_bytes(v))) && *final(self)
                    == *final(e),
                Err(err) => err == Error::ContainerFull && *final(self) == *old(self),
            },
    {
        let payload = u32_le(v as u32);
        self.write_scalar(Tag::S32, payload.as_slice())?;
        Ok(self)
    }

    /// Writes a `U64` scalar.
    pub fn u64(&mut self, v: u64) -> (r: Result<&mut Self>)
        ensures
            old(self).written().len() < u32::MAX <==> r is Ok,
            match r {
                Ok(e) => e.appended(*old(self), enc_scalar(Tag::U64, u64_bytes(v))) && *final(self)
                    == *final(e),
                Err(err) => err == Error::ContainerFull && *final(self) == *old(self),
            },
    {
        let payload = u64_le(v);
        self.write_scalar(Tag::U64, payload.as_slice())?;
        Ok(self)
    }

    /// Writes a `S64` scalar.
    pub fn i64(&mut self, v: i64) -> (r: Result<&mut Self>)
        ensures
            old(self).written().len() < u32::MAX <==> r is Ok,
            match r {
                Ok(e) => e.appended(*old(self), enc_scalar(Tag::S64, i64_bytes(v))) && *final(self)
                    == *final(e),
                Err(err) => err == Error::ContainerFull && *final(self) == *old(self),
            },
    {
        let payload = u64_le(v as u64);
        self.write_scalar(Tag::S64, payload.as_slice())?;
        Ok(self)
    }

    /// Writes an `F32` scalar given by its IEEE-754 bits.
    pub fn f32_bits(&mut self, v: u32) -> (r: Result<&mut Self>)
        ensures
            old(self).written().len() < u32::MAX <==> r is Ok,
            match r {
                Ok(e) => e.appended(*old(self), enc_scalar(Tag::F32, u32_bytes(v))) && *final(self)
                    == *final(e),
                Err(err) => err == Error::ContainerFull && *final(self) == *old(self),
            },
    {
        let payload = u32_le(v);
        self.write_scalar(Tag::F32, payload.as_slice())?;
        Ok(self)
    }

    /// Writes an `F64` scalar given by its IEEE-754 bits.
    pub fn f64_bits(&mut self, v: u64) -> (r: Result<&mut Self>)
        ensures
            old(self).written().len() < u32::MAX <==> r is Ok,
            match r {
                Ok(e) => e.appended(*old(self), enc_scalar(Tag::F64, u64_bytes(v))) && *final(self)
                    == *final(e),
                Err(err) => err == Error::ContainerFull && *final(self) == *old(self),
            },
    {
        let payload = u64_le(v);
        self.write_scalar(Tag::F64, payload.as_slice())?;
        Ok(self)
    }

    /// Writes a string.
    pub fn str(&mut self, v: &str) -> (r: Result<&mut Self>)
        ensures
            v.spec_bytes().len() <= u32::MAX <==> r is Ok,
            match r {
                Ok(e) => e.appended(*old(self), enc_framed(Tag::String, v.spec_bytes()))
                    && *final(self) == *final(e),
                Err(err) => err == Error::BlobTooLarge(v.spec_bytes().len() as usize)
                    && *final(self) == *old(self),
            },
    {
        self.write_blob(Tag::String, v.as_bytes())?;
        Ok(self)
    }

    /// Writes a byte blob.
    pub fn bytes(&mut self, v: &[u8]) -> (r: Result<&mut Self>)
        ensures
            v@.len() <= u32::MAX <==> r is Ok,
            match r {
                Ok(e) => e.appended(*old(self), enc_framed(Tag::Bytes, v@))
                    && *final(self) == *final(e),
                Err(err) => err == Error::BlobTooLarge(v@.len() as usize)
                    && *final(self) == *old(self),
            },
    {
        self.write_blob(Tag::Bytes, v)?;
        Ok(self)
    }

    /// Writes a record given by its raw body.
    pub fn record_raw(&mut self, v: &[u8]) -> (r: Result<&mut Self>)
        ensures
            v@.len() <= u32::MAX <==> r is Ok,
            match r {
                Ok(e) => e.appended(*old(self), enc_framed(Tag::Struct, v@))
                    && *final(self) == *final(e),
                Err(err) => err == Error::BlobTooLarge(v@.len() as usize)
                    && *final(self) == *old(self),
            },
    {
        self.write_blob(Tag::Struct, v)?;
        Ok(self)
    }

    /// Opens a list on this encoder, as `list` does, and gives back where
    /// its length goes; the list is closed with `close_container`.
    pub(crate) fn open_list(&mut self) -> (r: Result<usize>)
        requires
            old(self).scopes() < usize::MAX,
        ensures
            old(self).written().len() < u32::MAX <==> r is Ok,
            r matches Ok(off) ==> off == old(self).written().len() + 1 && final(self).written()
                == old(self).written() + seq![Tag::List.spec_byte(), 0u8, 0u8, 0u8, 0u8]
                && final(self).flushed() == old(self).flushed() && final(self).scopes()
                == old(self).scopes() + 1,
            r is Err ==> r == Err::<usize, Error>(Error::ContainerFull) && *final(self) == *old(self),
    {
        if self.buf.len() >= u32::MAX as usize {
            return Err(Error::ContainerFull);
        }
        self.write_tag(Tag::List);
        let off = self.buf.len();
        self.buf.push(0u8);
        self.buf.push(0u8);
        self.buf.push(0u8);
        self.buf.push(0u8);
        self.open_scopes = self.open_scopes + 1;
        assert(self.written() =~= old(self).written() + seq![Tag::List.spec_byte(), 0u8, 0u8, 0u8, 0u8]);
        Ok(off)
    }

    /// Closes a container opened with `open_list`, as `finish` does: writes
    /// the length of its body and closes its scope.
    pub(crate) fn close_container(&mut self, len_offset: usize) -> (r: Result<()>)
        requires
            len_offset + 4 <= old(self).written().len(),
            old(self).scopes() > 0,
        ensures
            old(self).written().len() - (len_offset + 4) <= u32::MAX <==> r is Ok,
            r is Ok ==> final(self).written() == patched(
                old(self).written(),
                len_offset as int,
                len_offset + 4,
            ),
            r is Err ==> r == Err::<(), Error>(Error::ContainerFull) && final(self).written()
                == old(self).written(),
            final(self).flushed() == old(self).flushed(),
            final(self).scopes() == old(self).scopes() - 1,
    {
        let n = self.buf.len();
        assert(len_offset + 4 <= n);
        let scope = PatchScope { parent: self, len_offset, body_start_offset: len_offset + 4 };
        match scope.finish() {
            Ok(_) => Ok(()),
            Err(e) => Err(e),
        }
    }

    /// Starts a list.
    ///
    /// The container must be closed with `finish`: one dropped without it
    /// leaves its scope open and its length unwritten, so `flush` answers
    /// `ScopeOpen` from then on.
    pub fn list(&mut self) -> (r: Result<ListEncoder<'_>>)
        requires
            old(self).scopes() < usize::MAX,
        ensures
            old(self).written().len() < u32::MAX <==> r is Ok,
            match r {
                Ok(c) => c.opened(*old(self), Tag::List) && *final(self) == *final(c.parent()),
                Err(err) => err == Error::ContainerFull && *final(self) == *old(self),
            },
    {
        if self.buf.len() >= u32::MAX as usize {
            return Err(Error::ContainerFull);
        }
        self.write_tag(Tag::List);
        let scope = PatchScope::new(self);
        assert(scope.enc().written() =~= old(self).written() + seq![Tag::List.spec_byte(), 0u8, 0u8, 0u8, 0u8]);
        Ok(ListEncoder { scope })
    }

    /// Starts a mapping.
    ///
    /// The container must be closed with `finish`: one dropped without it
    /// leaves its scope open and its length unwritten, so `flush` answers
    /// `ScopeOpen` from then on.
    pub fn map(&mut self) -> (r: Result<MapEncoder<'_>>)
        requires
            old(self).scopes() < usize::MAX,
        ensures
            old(self).written().len() < u32::MAX <==> r is Ok,
            match r {
                Ok(c) => c.opened(*old(self), Tag::Mapping) && *final(self) == *final(c.parent()),
                Err(err) => err == Error::ContainerFull && *final(self) == *old(self),
            },
    {
        if self.buf.len() >= u32::MAX as usize {
            return Err(Error::ContainerFull);
        }
        self.write_tag(Tag::Mapping);
        let scope = PatchScope::new(self);
        assert(scope.enc().written() =~= old(self).written() + seq![Tag::Mapping.spec_byte(), 0u8, 0u8, 0u8, 0u8]);
        Ok(MapEncoder { scope })
    }

    /// Starts a record, whose body is written field by field.
    ///
    /// The container must be closed with `finish`: one dropped without it
    /// leaves its scope open and its length unwritten, so `flush` answers
    /// `ScopeOpen` from then on.
    pub fn record(&mut self) -> (r: Result<RecordEncoder<'_>>)
        requires
            old(self).scopes() < usize::MAX,
        ensures
            old(self).written().len() < u32::MAX <==> r is Ok,
            match r {
                Ok(c) => c.opened(*old(self), Tag::Struct) && *final(self) == *final(c.parent()),
                Err(err) => err == Error::ContainerFull && *final(self) == *old(self),
            },
    {
        if self.buf.len() >= u32::MAX as usize {
            return Err(Error::ContainerFull);
        }
        self.write_tag(Tag::Struct);
        let scope = PatchScope::new(self);
        assert(scope.enc().written() =~= old(self).written() + seq![Tag::Struct.spec_byte(), 0u8, 0u8, 0u8, 0u8]);
        Ok(RecordEncoder { scope })
    }

    /// Starts an array of items of `stride` bytes each.
    ///
    /// The container must be closed with `finish`: one dropped without it
    /// leaves its scope open and its length unwritten, so `flush` answers
    /// `ScopeOpen` from then on.
    pub fn array(&mut self, item_tag: Tag, stride: usize) -> (r: Result<ArrayEncoder<'_>>)
        requires
            0 < stride <= u32::MAX,
            old(self).scopes() < usize::MAX,
        ensures
            old(self).written().len() < u32::MAX <==> r is Ok,
            match r {
                Ok(a) => a.opened(*old(self), item_tag, stride as int)
                    && *final(self) == *final(a.parent()),
                Err(err) => err == Error::ContainerFull && *final(self) == *old(self),
            },
    {
        if self.buf.len() >= u32::MAX as usize {
            return Err(Error::ContainerFull);
        }
        self.write_tag(Tag::Array);
        let len_offset = self.buf.len();
        self.write_u32_raw(0);
        self.write_tag(item_tag);
        self.write_u32_raw(stride as u32);
        let current_len = self.buf.len();
        proof {
            lemma_u32_bytes_len(0);
            lemma_u32_bytes_len(stride as u32);
            assert(self.written() =~= old(self).written() + seq![Tag::Array.spec_byte()] + u32_bytes(0)
                + array_header(item_tag, stride as nat));
        }
        let body_start = len_offset + 4;
        Ok(ArrayEncoder { scope: PatchScope::manual(self, len_offset, body_start), stride })
    }
}

// ===========================================================================
// Container scopes
// ===========================================================================

/// The open part of a container: where its length goes and where its body
/// starts. Finishing it writes the length of the body.
struct PatchScope<'a> {
    parent: &'a mut Encoder,
    len_offset: usize,
    body_start_offset: usize,
}

impl<'a> PatchScope<'a> {
    /// The current state of the encoder.
    spec fn enc(&self) -> Encoder {
        *self.parent
    }

    spec fn wf(&self) -> bool {
        &&& self.len_offset + 4 == self.body_start_offset
        &&& self.body_start_offset <= self.parent.written().len()
        &&& self.parent.scopes() > 0
    }

    fn new(parent: &'a mut Encoder) -> (s: Self)
        requires
            old(parent).scopes() < usize::MAX,
        ensures
            s.parent.written() == old(parent).written() + seq![0u8, 0u8, 0u8, 0u8],
            s.parent.flushed() == old(parent).flushed(),
            s.parent.scopes() == old(parent).scopes() + 1,
            s.len_offset == old(parent).written().len(),
            s.body_start_offset == old(parent).written().len() + 4,
            *final(parent) == *final(s.parent),
    {
        let len_offset = parent.buf.len();
        parent.buf.push(0u8);
        parent.buf.push(0u8);
        parent.buf.push(0u8);
        parent.buf.push(0u8);
        let body_start_offset = parent.buf.len();
        parent.open_scopes = parent.open_scopes + 1;
        Self { parent, len_offset, body_start_offset }
    }

    fn manual(parent: &'a mut Encoder, len_offset: usize, body_start_offset: usize) -> (s: Self)
        requires
            old(parent).scopes() < usize::MAX,
        ensures
            s.parent.written() == old(parent).written(),
            s.parent.flushed() == old(parent).flushed(),
            s.parent.scopes() == old(parent).scopes() + 1,
            s.len_offset == len_offset,
            s.body_start_offset == body_start_offset,
            *final(parent) == *final(s.parent),
    {
        parent.open_scopes = parent.open_scopes + 1;
        Self { parent, len_offset, body_start_offset }
    }

    fn check_size(&self) -> (r: Result<()>)
        requires
            self.wf(),
        ensures
            self.enc().written().len() - self.body_start_offset <= u32::MAX <==> r is Ok,
            r is Err ==> r == Err::<(), Error>(Error::ContainerFull),
    {
        let body_len = self.parent.buf.len() - self.body_start_offset;
        if body_len > u32::MAX as usize {
            return Err(Error::ContainerFull);
        }
        Ok(())
    }

    /// Writes the length of the body written so far.
    fn flush(&mut self) -> (r: Result<()>)
        requires
            old(self).wf(),
        ensures
            old(self).parent.written().len() - old(self).body_start_offset <= u32::MAX <==> r is Ok,
            r is Ok ==> final(self).parent.written() == patched(
                old(self).parent.written(),
                old(self).len_offset as int,
                old(self).body_start_offset as int,
            ),
            r is Err ==> r == Err::<(), Error>(Error::ContainerFull) && final(self).parent.written()
                == old(self).parent.written(),
            final(self).parent.flushed() == old(self).parent.flushed(),
            final(self).parent.scopes() == old(self).parent.scopes(),
            final(self).len_offset == old(self).len_offset,
            final(self).body_start_offset == old(self).body_start_offset,
            *final(final(self).parent) == *final(old(self).parent),
    {
        self.check_size()?;
        let body_len = self.parent.buf.len() - self.body_start_offset;
        let len_bytes = u32_le(body_len as u32);
        let ghost before = self.parent.written();
        proof {
            lemma_u32_bytes_len(body_len as u32);
        }
        let lo = self.len_offset;
        self.parent.buf.set(lo, len_bytes[0]);
        self.parent.buf.set(lo + 1, len_bytes[1]);
        self.parent.buf.set(lo + 2, len_bytes[2]);
        self.parent.buf.set(lo + 3, len_bytes[3]);
        proof {
            lemma_len_prefix(body_len as nat);
            assert(self.parent.written() =~= patched(before, lo as int, self.body_start_offset as int));
        }
        Ok(())
    }

    /// Writes the length of the body and closes the scope, giving the
    /// encoder back.
    fn finish(self) -> (r: Result<&'a mut Encoder>)
        requires
            self.wf(),
        ensures
            self.enc().written().len() - self.body_start_offset <= u32::MAX <==> r is Ok,
            match r {
                Ok(e) => e.written() == patched(
                    self.enc().written(),
                    self.len_offset as int,
                    self.body_start_offset as int,
                ) && e.flushed() == self.enc().flushed() && e.scopes() == self.enc().scopes() - 1
                    && *final(e) == *final(self.parent),
                Err(err) => err == Error::ContainerFull && final(self.parent).written()
                    == self.enc().written() && final(self.parent).flushed() == self.enc().flushed()
                    && final(self.parent).scopes() == self.enc().scopes() - 1,
            },
    {
        let mut scope = self;
        match scope.flush() {
            Ok(()) => {
                scope.parent.open_scopes = scope.parent.open_scopes - 1;
                Ok(scope.parent)
            },
            Err(e) => {
                scope.parent.open_scopes = scope.parent.open_scopes - 1;
                Err(e)
            },
        }
    }
}

/// Writes the items of a list.
pub struct ListEncoder<'a> {
    scope: PatchScope<'a>,
}

impl<'a> ListEncoder<'a> {
    /// The encoder this container writes into.
    pub closed spec fn parent(&self) -> &'a mut Encoder {
        self.scope.parent
    }

    /// Where the length of the container goes.
    pub closed spec fn len_offset(&self) -> int {
        self.scope.len_offset as int
    }

    /// Where the body of the container starts.
    pub closed spec fn body_start(&self) -> int {
        self.scope.body_start_offset as int
    }

    /// The body written so far.
    pub open spec fn body(&self) -> Seq<u8> {
        self.parent().written().subrange(self.body_start(), self.parent().written().len() as int)
    }

    pub open spec fn same_scope(self, other: Self) -> bool {
        self.len_offset() == other.len_offset() && self.body_start() == other.body_start()
    }

    pub open spec fn wf(&self) -> bool {
        &&& 0 <= self.len_offset()
        &&& self.len_offset() + 4 == self.body_start()
        &&& self.body_start() <= self.parent().written().len()
        &&& self.parent().scopes() > 0
    }

    /// The container just opened on the encoder `before` with the tag `tag`.
    pub open spec fn opened(self, before: Encoder, tag: Tag) -> bool {
        &&& self.parent().written() == before.written() + seq![tag.spec_byte(), 0u8, 0u8, 0u8, 0u8]
        &&& self.parent().flushed() == before.flushed()
        &&& self.parent().scopes() == before.scopes() + 1
        &&& self.len_offset() == before.written().len() + 1
        &&& self.body_start() == before.written().len() + 5
    }

    /// Writes a `Bool` scalar.
    pub fn bool(&mut self, v: bool) -> (r: Result<&mut Self>)
        ensures
            old(self).parent().written().len() < u32::MAX <==> r is Ok,
            match r {
                Ok(l) => l.parent().appended(*old(self).parent(), enc_scalar(Tag::Bool, bool_bytes(v)))
                    && l.same_scope(*old(self)) && *final(l.parent()) == *final(old(self).parent())
                    && *final(self) == *final(l),
                Err(err) => err == Error::ContainerFull && *final(self).parent() == *old(self).parent()
                    && final(self).same_scope(*old(self))
                    && *final(final(self).parent()) == *final(old(self).parent()),
            },
    {
        self.scope.parent.bool(v)?;
        Ok(self)
    }

    /// Writes a `U8` scalar.
    pub fn u8(&mut self, v: u8) -> (r: Result<&mut Self>)
        ensures
            old(self).parent().written().len() < u32::MAX <==> r is Ok,
            match r {
                Ok(l) => l.parent().appended(*old(self).parent(), enc_scalar(Tag::U8, u8_bytes(v)))
                    && l.same_scope(*old(self)) && *final(l.parent()) == *final(old(self).parent())
                    && *final(self) == *final(l),
                Err(err) => err == Error::ContainerFull && *final(self).parent() == *old(self).parent()
                    && final(self).same_scope(*old(self))
                    && *final(final(self).parent()) == *final(old(self).parent()),
            },
    {
        self.scope.parent.u8(v)?;
        Ok(self)
    }

    /// Writes a `S8` scalar.
    pub fn i8(&mut self, v: i8) -> (r: Result<&mut Self>)
        ensures
            old(self).parent().written().len() < u32::MAX <==> r is Ok,
            match r {
                Ok(l) => l.parent().appended(*old(self).parent(), enc_scalar(Tag::S8, i8_bytes(v)))
                    && l.same_scope(*old(self)) && *final(l.parent()) == *final(old(self).parent())
                    && *final(self) == *final(l),
                Err(err) => err == Error::ContainerFull && *final(self).parent() == *old(self).parent()
                    && final(self).same_scope(*old(self))
                    && *final(final(self).parent()) == *final(old(self).parent()),
            },
    {
        self.scope.parent.i8(v)?;
        Ok(self)
    }

    /// Writes a `U16` scalar.
    pub fn u16(&mut self, v: u16) -> (r: Result<&mut Self>)
        ensures
            old(self).parent().written().len() < u32::MAX <==> r is Ok,
            match r {
                Ok(l) => l.parent().appended(*old(self).parent(), enc_scalar(Tag::U16, u16_bytes(v)))
                    && l.same_scope(*old(self)) && *final(l.parent()) == *final(old(self).parent())
                    && *final(self) == *final(l),
                Err(err) => err == Error::ContainerFull && *final(self).parent() == *old(self).parent()
                    && final(self).same_scope(*old(self))
                    && *final(final(self).parent()) == *final(old(self).parent()),
            },
    {
        self.scope.parent.u16(v)?;
        Ok(self)
    }

    /// Writes a `S16` scalar.
    pub fn i16(&mut self, v: i16) -> (r: Result<&mut Self>)
        ensures
            old(self).parent().written().len() < u32::MAX <==> r is Ok,
            match r {
                Ok(l) => l.parent().appended(*old(self).parent(), enc_scalar(Tag::S16, i16_bytes(v)))
                    && l.same_scope(*old(self)) && *final(l.parent()) == *final(old(self).parent())
                    && *final(self) == *final(l),
                Err(err) => err == Error::ContainerFull && *final(self).parent() == *old(self).parent()
                    && final(self).same_scope(*old(self))
                    && *final(final(self).parent()) == *final(old(self).parent()),
            },
    {
        self.scope.parent.i16(v)?;
        Ok(self)
    }

    /// Writes a `U32` scalar.
    pub fn u32(&mut self, v: u32) -> (r: Result<&mut Self>)
        ensures
            old(self).parent().written().len() < u32::MAX <==> r is Ok,
            match r {
                Ok(l) => l.parent().appended(*old(self).parent(), enc_scalar(Tag::U32, u32_bytes(v)))
                    && l.same_scope(*old(self)) && *final(l.parent()) == *final(old(self).parent())
                    && *final(self) == *final(l),
                Err(err) => err == Error::ContainerFull && *final(self).parent() == *old(self).parent()
                    && final(self).same_scope(*old(self))
                    && *final(final(self).parent()) == *final(old(self).parent()),
            },
    {
        self.scope.parent.u32(v)?;
        Ok(self)
    }

    /// Writes a `S32` scalar.
    pub fn i32(&mut self, v: i32) -> (r: Result<&mut Self>)
        ensures
            old(self).parent().written().len() < u32::MAX <==> r is Ok,
            match r {
                Ok(l) => l.parent().appended(*old(self).parent(), enc_scalar(Tag::S32, i32_bytes(v)))
                    && l.same_scope(*old(self)) && *final(l.parent()) == *final(old(self).parent())
                    && *final(self) == *final(l),
                Err(err) => err == Error::ContainerFull && *final(self).parent() == *old(self).parent()
                    && final(self).same_scope(*old(self))
                    && *final(final(self).parent()) == *final(old(self).parent()),
            },
    {
        self.scope.parent.i32(v)?;
        Ok(self)
    }

    /// Writes a `U64` scalar.
    pub fn u64(&mut self, v: u64) -> (r: Result<&mut Self>)
        ensures
            old(self).parent().written().len() < u32::MAX <==> r is Ok,
            match r {
                Ok(l) => l.parent().appended(*old(self).parent(), enc_scalar(Tag::U64, u64_bytes(v)))
                    && l.same_scope(*old(self)) && *final(l.parent()) == *final(old(self).parent())
                    && *final(self) == *final(l),
                Err(err) => err == Error::ContainerFull && *final(self).parent() == *old(self).parent()
                    && final(self).same_scope(*old(self))
                    && *final(final(self).parent()) == *final(old(self).parent()),
            },
    {
        self.scope.parent.u64(v)?;
        Ok(self)
    }

    /// Writes a `S64` scalar.
    pub fn i64(&mut self, v: i64) -> (r: Result<&mut Self>)
        ensures
            old(self).parent().written().len() < u32::MAX <==> r is Ok,
            match r {
                Ok(l) => l.parent().appended(*old(self).parent(), enc_scalar(Tag::S64, i64_bytes(v)))
                    && l.same_scope(*old(self)) && *final(l.parent()) == *final(old(self).parent())
                    && *final(self) == *final(l),
                Err(err) => err == Error::ContainerFull && *final(self).parent() == *old(self).parent()
                    && final(self).same_scope(*old(self))
                    && *final(final(self).parent()) == *final(old(self).parent()),
            },
    {
        self.scope.parent.i64(v)?;
        Ok(self)
    }

    /// Writes an `F32` scalar given by its IEEE-754 bits.
    pub fn f32_bits(&mut self, v: u32) -> (r: Result<&mut Self>)
        ensures
            old(self).parent().written().len() < u32::MAX <==> r is Ok,
            match r {
                Ok(l) => l.parent().appended(*old(self).parent(), enc_scalar(Tag::F32, u32_bytes(v)))
                    && l.same_scope(*old(self)) && *final(l.parent()) == *final(old(self).parent())
                    && *final(self) == *final(l),
                Err(err) => err == Error::ContainerFull && *final(self).parent() == *old(self).parent()
                    && final(self).same_scope(*old(self))
                    && *final(final(self).parent()) == *final(old(self).parent()),
            },
    {
        self.scope.parent.f32_bits(v)?;
        Ok(self)
    }

    /// Writes an `F64` scalar given by its IEEE-754 bits.
    pub fn f64_bits(&mut self, v: u64) -> (r: Result<&mut Self>)
        ensures
            old(self).parent().written().len() < u32::MAX <==> r is Ok,
            match r {
                Ok(l) => l.parent().appended(*old(self).parent(), enc_scalar(Tag::F64, u64_bytes(v)))
                    && l.same_scope(*old(self)) && *final(l.parent()) == *final(old(self).parent())
                    && *final(self) == *final(l),
                Err(err) => err == Error::ContainerFull && *final(self).parent() == *old(self).parent()
                    && final(self).same_scope(*old(self))
                    && *final(final(self).parent()) == *final(old(self).parent()),
            },
    {
        self.scope.parent.f64_bits(v)?;
        Ok(self)
    }

    /// Writes a string.
    pub fn str(&mut self, v: &str) -> (r: Result<&mut Self>)
        ensures
            v.spec_bytes().len() <= u32::MAX <==> r is Ok,
            match r {
                Ok(l) => l.parent().appended(*old(self).parent(), enc_framed(Tag::String, v.spec_bytes()))
                    && l.same_scope(*old(self)) && *final(l.parent()) == *final(old(self).parent())
                    && *final(self) == *final(l),
                Err(err) => err == Error::BlobTooLarge(v.spec_bytes().len() as usize)
                    && *final(self).parent() == *old(self).parent()
                    && final(self).same_scope(*old(self))
                    && *final(final(self).parent()) == *final(old(self).parent()),
            },
    {
        self.scope.parent.str(v)?;
        Ok(self)
    }

    /// Writes a byte blob.
    pub fn bytes(&mut self, v: &[u8]) -> (r: Result<&mut Self>)
        ensures
            v@.len() <= u32::MAX <==> r is Ok,
            match r {
                Ok(l) => l.parent().appended(*old(self).parent(), enc_framed(Tag::Bytes, v@))
                    && l.same_scope(*old(self)) && *final(l.parent()) == *final(old(self).parent())
                    && *final(self) == *final(l),
                Err(err) => err == Error::BlobTooLarge(v@.len() as usize)
                    && *final(self).parent() == *old(self).parent()
                    && final(self).same_scope(*old(self))
                    && *final(final(self).parent()) == *final(old(self).parent()),
            },
    {
        self.scope.parent.bytes(v)?;
        Ok(self)
    }

    /// Writes a record given by its raw body.
    pub fn record_raw(&mut self, v: &[u8]) -> (r: Result<&mut Self>)
        ensures
            v@.len() <= u32::MAX <==> r is Ok,
            match r {
                Ok(l) => l.parent().appended(*old(self).parent(), enc_framed(Tag::Struct, v@))
                    && l.same_scope(*old(self)) && *final(l.parent()) == *final(old(self).parent())
                    && *final(self) == *final(l),
                Err(err) => err == Error::BlobTooLarge(v@.len() as usize)
                    && *final(self).parent() == *old(self).parent()
                    && final(self).same_scope(*old(self))
                    && *final(final(self).parent()) == *final(old(self).parent()),
            },
    {
        self.scope.parent.record_raw(v)?;
        Ok(self)
    }

    /// Starts a nested list.
    pub fn list(&mut self) -> (r: Result<ListEncoder<'_>>)
        requires
            old(self).parent().scopes() < usize::MAX,
        ensures
            old(self).parent().written().len() < u32::MAX <==> r is Ok,
            match r {
                Ok(c) => c.opened(*old(self).parent(), Tag::List)
                    && *final(self).parent() == *final(c.parent())
                    && final(self).same_scope(*old(self))
                    && *final(final(self).parent()) == *final(old(self).parent()),
                Err(err) => err == Error::ContainerFull && *final(self).parent() == *old(self).parent()
                    && final(self).same_scope(*old(self))
                    && *final(final(self).parent()) == *final(old(self).parent()),
            },
    {
        self.scope.parent.list()
    }

    /// Starts a nested mapping.
    pub fn map(&mut self) -> (r: Result<MapEncoder<'_>>)
        requires
            old(self).parent().scopes() < usize::MAX,
        ensures
            old(self).parent().written().len() < u32::MAX <==> r is Ok,
            match r {
                Ok(c) => c.opened(*old(self).parent(), Tag::Mapping)
                    && *final(self).parent() == *final(c.parent())
                    && final(self).same_scope(*old(self))
                    && *final(final(self).parent()) == *final(old(self).parent()),
                Err(err) => err == Error::ContainerFull && *final(self).parent() == *old(self).parent()
                    && final(self).same_scope(*old(self))
                    && *final(final(self).parent()) == *final(old(self).parent()),
            },
    {
        self.scope.parent.map()
    }

    /// Starts a nested record.
    pub fn record(&mut self) -> (r: Result<RecordEncoder<'_>>)
        requires
            old(self).parent().scopes() < usize::MAX,
        ensures
            old(self).parent().written().len() < u32::MAX <==> r is Ok,
            match r {
                Ok(c) => c.opened(*old(self).parent(), Tag::Struct)
                    && *final(self).parent() == *final(c.parent())
                    && final(self).same_scope(*old(self))
                    && *final(final(self).parent()) == *final(old(self).parent()),
                Err(err) => err == Error::ContainerFull && *final(self).parent() == *old(self).parent()
                    && final(self).same_scope(*old(self))
                    && *final(final(self).parent()) == *final(old(self).parent()),
            },
    {
        self.scope.parent.record()
    }

    /// Starts a nested array of items of `stride` bytes each.
    pub fn array(&mut self, item_tag: Tag, stride: usize) -> (r: Result<ArrayEncoder<'_>>)
        requires
            0 < stride <= u32::MAX,
            old(self).parent().scopes() < usize::MAX,
        ensures
            old(self).parent().written().len() < u32::MAX <==> r is Ok,
            match r {
                Ok(c) => c.opened(*old(self).parent(), item_tag, stride as int)
                    && *final(self).parent() == *final(c.parent())
                    && final(self).same_scope(*old(self))
                    && *final(final(self).parent()) == *final(old(self).parent()),
                Err(err) => err == Error::ContainerFull && *final(self).parent() == *old(self).parent()
                    && final(self).same_scope(*old(self))
                    && *final(final(self).parent()) == *final(old(self).parent()),
            },
    {
        self.scope.parent.array(item_tag, stride)
    }

    /// Writes the length of the body and gives the encoder back.
    pub fn finish(self) -> (r: Result<&'a mut Encoder>)
        requires
            self.wf(),
        ensures
            self.body().len() <= u32::MAX <==> r is Ok,
            match r {
                Ok(e) => e.written() == patched(self.parent().written(), self.len_offset(), self.body_start())
                    && e.flushed() == self.parent().flushed() && e.scopes() == self.parent().scopes()
                    - 1 && *final(e) == *final(self.parent()),
                Err(err) => err == Error::ContainerFull && final(self.parent()).written()
                    == self.parent().written() && final(self.parent()).flushed()
                    == self.parent().flushed() && final(self.parent()).scopes()
                    == self.parent().scopes() - 1,
            },
    {
        self.scope.finish()
    }
}

/// Writes the entries of a mapping: each a key, then a value.
pub struct MapEncoder<'a> {
    scope: PatchScope<'a>,
}

impl<'a> MapEncoder<'a> {
    /// The encoder this container writes into.
    pub closed spec fn parent(&self) -> &'a mut Encoder {
        self.scope.parent
    }

    /// Where the length of the container goes.
    pub closed spec fn len_offset(&self) -> int {
        self.scope.len_offset as int
    }

    /// Where the body of the container starts.
    pub closed spec fn body_start(&self) -> int {
        self.scope.body_start_offset as int
    }

    /// The body written so far.
    pub open spec fn body(&self) -> Seq<u8> {
        self.parent().written().subrange(self.body_start(), self.parent().written().len() as int)
    }

    pub open spec fn same_scope(self, other: Self) -> bool {
        self.len_offset() == other.len_offset() && self.body_start() == other.body_start()
    }

    pub open spec fn wf(&self) -> bool {
        &&& 0 <= self.len_offset()
        &&& self.len_offset() + 4 == self.body_start()
        &&& self.body_start() <= self.parent().written().len()
        &&& self.parent().scopes() > 0
    }

    /// The container just opened on the encoder `before` with the tag `tag`.
    pub open spec fn opened(self, before: Encoder, tag: Tag) -> bool {
        &&& self.parent().written() == before.written() + seq![tag.spec_byte(), 0u8, 0u8, 0u8, 0u8]
        &&& self.parent().flushed() == before.flushed()
        &&& self.parent().scopes() == before.scopes() + 1
        &&& self.len_offset() == before.written().len() + 1
        &&& self.body_start() == before.written().len() + 5
    }

    /// Writes a key and returns the writer of its value.
    pub fn key(&mut self, k: &str) -> (r: Result<MapValueEncoder<'_>>)
        ensures
            k.spec_bytes().len() <= u32::MAX <==> r is Ok,
            match r {
                Ok(v) => v.parent().appended(*old(self).parent(), enc_framed(Tag::String, k.spec_bytes()))
                    && *final(self).parent() == *final(v.parent())
                    && final(self).same_scope(*old(self))
                    && *final(final(self).parent()) == *final(old(self).parent()),
                Err(err) => err == Error::BlobTooLarge(k.spec_bytes().len() as usize)
                    && *final(self).parent() == *old(self).parent()
                    && final(self).same_scope(*old(self))
                    && *final(final(self).parent()) == *final(old(self).parent()),
            },
    {
        self.scope.parent.str(k)?;
        Ok(MapValueEncoder { parent: self.scope.parent })
    }

    /// Writes the length of the body and gives the encoder back.
    pub fn finish(self) -> (r: Result<&'a mut Encoder>)
        requires
            self.wf(),
        ensures
            self.body().len() <= u32::MAX <==> r is Ok,
            match r {
                Ok(e) => e.written() == patched(self.parent().written(), self.len_offset(), self.body_start())
                    && e.flushed() == self.parent().flushed() && e.scopes() == self.parent().scopes()
                    - 1 && *final(e) == *final(self.parent()),
                Err(err) => err == Error::ContainerFull && final(self.parent()).written()
                    == self.parent().written() && final(self.parent()).flushed()
                    == self.parent().flushed() && final(self.parent()).scopes()
                    == self.parent().scopes() - 1,
            },
    {
        self.scope.finish()
    }
}

/// Writes the value of one mapping entry.
pub struct MapValueEncoder<'a> {
    parent: &'a mut Encoder,
}

impl<'a> MapValueEncoder<'a> {
    /// The encoder the value is written into.
    pub closed spec fn parent(&self) -> &'a mut Encoder {
        self.parent
    }

    /// Writes a `Bool` scalar.
    pub fn bool(self, v: bool) -> (r: Result<()>)
        ensures
            self.parent().written().len() < u32::MAX <==> r is Ok,
            r is Ok ==> final(self.parent()).appended(*self.parent(), enc_scalar(Tag::Bool, bool_bytes(v))),
            r is Err ==> r == Err::<(), Error>(Error::ContainerFull) && *final(self.parent())
                == *self.parent(),
    {
        self.parent.bool(v)?;
        Ok(())
    }

    /// Writes a `U8` scalar.
    pub fn u8(self, v: u8) -> (r: Result<()>)
        ensures
            self.parent().written().len() < u32::MAX <==> r is Ok,
            r is Ok ==> final(self.parent()).appended(*self.parent(), enc_scalar(Tag::U8, u8_bytes(v))),
            r is Err ==> r == Err::<(), Error>(Error::ContainerFull) && *final(self.parent())
                == *self.parent(),
    {
        self.parent.u8(v)?;
        Ok(())
    }

    /// Writes a `S8` scalar.
    pub fn i8(self, v: i8) -> (r: Result<()>)
        ensures
            self.parent().written().len() < u32::MAX <==> r is Ok,
            r is Ok ==> final(self.parent()).appended(*self.parent(), enc_scalar(Tag::S8, i8_bytes(v))),
            r is Err ==> r == Err::<(), Error>(Error::ContainerFull) && *final(self.parent())
                == *self.parent(),
    {
        self.parent.i8(v)?;
        Ok(())
    }

    /// Writes a `U16` scalar.
    pub fn u16(self, v: u16) -> (r: Result<()>)
        ensures
            self.parent().written().len() < u32::MAX <==> r is Ok,
            r is Ok ==> final(self.parent()).appended(*self.parent(), enc_scalar(Tag::U16, u16_bytes(v))),
            r is Err ==> r == Err::<(), Error>(Error::ContainerFull) && *final(self.parent())
                == *self.parent(),
    {
        self.parent.u16(v)?;
        Ok(())
    }

    /// Writes a `S16` scalar.
    pub fn i16(self, v: i16) -> (r: Result<()>)
        ensures
            self.parent().written().len() < u32::MAX <==> r is Ok,
            r is Ok ==> final(self.parent()).appended(*self.parent(), enc_scalar(Tag::S16, i16_bytes(v))),
            r is Err ==> r == Err::<(), Error>(Error::ContainerFull) && *final(self.parent())
                == *self.parent(),
    {
        self.parent.i16(v)?;
        Ok(())
    }

    /// Writes a `U32` scalar.
    pub fn u32(self, v: u32) -> (r: Result<()>)
        ensures
            self.parent().written().len() < u32::MAX <==> r is Ok,
            r is Ok ==> final(self.parent()).appended(*self.parent(), enc_scalar(Tag::U32, u32_bytes(v))),
            r is Err ==> r == Err::<(), Error>(Error::ContainerFull) && *final(self.parent())
                == *self.parent(),
    {
        self.parent.u32(v)?;
        Ok(())
    }

    /// Writes a `S32` scalar.
    pub fn i32(self, v: i32) -> (r: Result<()>)
        ensures
            self.parent().written().len() < u32::MAX <==> r is Ok,
            r is Ok ==> final(self.parent()).appended(*self.parent(), enc_scalar(Tag::S32, i32_bytes(v))),
            r is Err ==> r == Err::<(), Error>(Error::ContainerFull) && *final(self.parent())
                == *self.parent(),
    {
        self.parent.i32(v)?;
        Ok(())
    }

    /// Writes a `U64` scalar.
    pub fn u64(self, v: u64) -> (r: Result<()>)
        ensures
            self.parent().written().len() < u32::MAX <==> r is Ok,
            r is Ok ==> final(self.parent()).appended(*self.parent(), enc_scalar(Tag::U64, u64_bytes(v))),
            r is Err ==> r == Err::<(), Error>(Error::ContainerFull) && *final(self.parent())
                == *self.parent(),
    {
        self.parent.u64(v)?;
        Ok(())
    }

    /// Writes a `S64` scalar.
    pub fn i64(self, v: i64) -> (r: Result<()>)
        ensures
            self.parent().written().len() < u32::MAX <==> r is Ok,
            r is Ok ==> final(self.parent()).appended(*self.parent(), enc_scalar(Tag::S64, i64_bytes(v))),
            r is Err ==> r == Err::<(), Error>(Error::ContainerFull) && *final(self.parent())
                == *self.parent(),
    {
        self.parent.i64(v)?;
        Ok(())
    }

    /// Writes an `F32` scalar given by its IEEE-754 bits.
    pub fn f32_bits(self, v: u32) -> (r: Result<()>)
        ensures
            self.parent().written().len() < u32::MAX <==> r is Ok,
            r is Ok ==> final(self.parent()).appended(*self.parent(), enc_scalar(Tag::F32, u32_bytes(v))),
            r is Err ==> r == Err::<(), Error>(Error::ContainerFull) && *final(self.parent())
                == *self.parent(),
    {
        self.parent.f32_bits(v)?;
        Ok(())
    }

    /// Writes an `F64` scalar given by its IEEE-754 bits.
    pub fn f64_bits(self, v: u64) -> (r: Result<()>)
        ensures
            self.parent().written().len() < u32::MAX <==> r is Ok,
            r is Ok ==> final(self.parent()).appended(*self.parent(), enc_scalar(Tag::F64, u64_bytes(v))),
            r is Err ==> r == Err::<(), Error>(Error::ContainerFull) && *final(self.parent())
                == *self.parent(),
    {
        self.parent.f64_bits(v)?;
        Ok(())
    }

    /// Writes a string.
    pub fn str(self, v: &str) -> (r: Result<()>)
        ensures
            v.spec_bytes().len() <= u32::MAX <==> r is Ok,
            r is Ok ==> final(self.parent()).appended(*self.parent(), enc_framed(Tag::String, v.spec_bytes())),
            r is Err ==> r == Err::<(), Error>(Error::BlobTooLarge(v.spec_bytes().len() as usize))
                && *final(self.parent()) == *self.parent(),
    {
        self.parent.str(v)?;
        Ok(())
    }

    /// Writes a byte blob.
    pub fn bytes(self, v: &[u8]) -> (r: Result<()>)
        ensures
            v@.len() <= u32::MAX <==> r is Ok,
            r is Ok ==> final(self.parent()).appended(*self.parent(), enc_framed(Tag::Bytes, v@)),
            r is Err ==> r == Err::<(), Error>(Error::BlobTooLarge(v@.len() as usize))
                && *final(self.parent()) == *self.parent(),
    {
        self.parent.bytes(v)?;
        Ok(())
    }

    /// Writes a record given by its raw body.
    pub fn record_raw(self, v: &[u8]) -> (r: Result<()>)
        ensures
            v@.len() <= u32::MAX <==> r is Ok,
            r is Ok ==> final(self.parent()).appended(*self.parent(), enc_framed(Tag::Struct, v@)),
            r is Err ==> r == Err::<(), Error>(Error::BlobTooLarge(v@.len() as usize))
                && *final(self.parent()) == *self.parent(),
    {
        self.parent.record_raw(v)?;
        Ok(())
    }

    /// Starts a list as the value.
    pub fn list(self) -> (r: Result<ListEncoder<'a>>)
        requires
            self.parent().scopes() < usize::MAX,
        ensures
            self.parent().written().len() < u32::MAX <==> r is Ok,
            match r {
                Ok(c) => c.opened(*self.parent(), Tag::List) && *final(self.parent())
                    == *final(c.parent()),
                Err(err) => err == Error::ContainerFull && *final(self.parent()) == *self.parent(),
            },
    {
        self.parent.list()
    }

    /// Starts a mapping as the value.
    pub fn map(self) -> (r: Result<MapEncoder<'a>>)
        requires
            self.parent().scopes() < usize::MAX,
        ensures
            self.parent().written().len() < u32::MAX <==> r is Ok,
            match r {
                Ok(c) => c.opened(*self.parent(), Tag::Mapping) && *final(self.parent())
                    == *final(c.parent()),
                Err(err) => err == Error::ContainerFull && *final(self.parent()) == *self.parent(),
            },
    {
        self.parent.map()
    }

    /// Starts a record as the value.
    pub fn record(self) -> (r: Result<RecordEncoder<'a>>)
        requires
            self.parent().scopes() < usize::MAX,
        ensures
            self.parent().written().len() < u32::MAX <==> r is Ok,
            match r {
                Ok(c) => c.opened(*self.parent(), Tag::Struct) && *final(self.parent())
                    == *final(c.parent()),
                Err(err) => err == Error::ContainerFull && *final(self.parent()) == *self.parent(),
            },
    {
        self.parent.record()
    }

    /// Starts an array as the value.
    pub fn array(self, item_tag: Tag, stride: usize) -> (r: Result<ArrayEncoder<'a>>)
        requires
            0 < stride <= u32::MAX,
            self.parent().scopes() < usize::MAX,
        ensures
            self.parent().written().len() < u32::MAX <==> r is Ok,
            match r {
                Ok(c) => c.opened(*self.parent(), item_tag, stride as int)
                    && *final(self.parent()) == *final(c.parent()),
                Err(err) => err == Error::ContainerFull && *final(self.parent()) == *self.parent(),
            },
    {
        self.parent.array(item_tag, stride)
    }
}

/// Writes the body of a record: raw fields, or tagged single bytes.
pub struct RecordEncoder<'a> {
    scope: PatchScope<'a>,
}

impl<'a> RecordEncoder<'a> {
    /// The encoder this container writes into.
    pub closed spec fn parent(&self) -> &'a mut Encoder {
        self.scope.parent
    }

    /// Where the length of the container goes.
    pub closed spec fn len_offset(&self) -> int {
        self.scope.len_offset as int
    }

    /// Where the body of the container starts.
    pub closed spec fn body_start(&self) -> int {
        self.scope.body_start_offset as int
    }

    /// The body written so far.
    pub open spec fn body(&self) -> Seq<u8> {
        self.parent().written().subrange(self.body_start(), self.parent().written().len() as int)
    }

    pub open spec fn same_scope(self, other: Self) -> bool {
        self.len_offset() == other.len_offset() && self.body_start() == other.body_start()
    }

    pub open spec fn wf(&self) -> bool {
        &&& 0 <= self.len_offset()
        &&& self.len_offset() + 4 == self.body_start()
        &&& self.body_start() <= self.parent().written().len()
        &&& self.parent().scopes() > 0
    }

    /// The container just opened on the encoder `before` with the tag `tag`.
    pub open spec fn opened(self, before: Encoder, tag: Tag) -> bool {
        &&& self.parent().written() == before.written() + seq![tag.spec_byte(), 0u8, 0u8, 0u8, 0u8]
        &&& self.parent().flushed() == before.flushed()
        &&& self.parent().scopes() == before.scopes() + 1
        &&& self.len_offset() == before.written().len() + 1
        &&& self.body_start() == before.written().len() + 5
    }

    /// Writes raw bytes into the body.
    pub fn bytes(&mut self, data: &[u8]) -> (r: Result<&mut Self>)
        ensures
            r matches Ok(l) && l.parent().appended(*old(self).parent(), data@)
                && l.same_scope(*old(self)) && *final(l.parent()) == *final(old(self).parent())
                && *final(self) == *final(l),
    {
        self.scope.parent.write_raw(data);
        Ok(self)
    }

    /// Writes a tagged `Bool` scalar into the body.
    pub fn bool(&mut self, v: bool) -> (r: Result<&mut Self>)
        ensures
            r matches Ok(l) && l.parent().appended(*old(self).parent(), enc_scalar(Tag::Bool, bool_bytes(v)))
                && l.same_scope(*old(self)) && *final(l.parent()) == *final(old(self).parent())
                && *final(self) == *final(l),
    {
        let payload = byte_vec(if v { 1u8 } else { 0u8 });
        self.scope.parent.write_tagged(Tag::Bool, payload.as_slice());
        Ok(self)
    }

    /// Writes a tagged `U8` scalar into the body.
    pub fn u8(&mut self, v: u8) -> (r: Result<&mut Self>)
        ensures
            r matches Ok(l) && l.parent().appended(*old(self).parent(), enc_scalar(Tag::U8, u8_bytes(v)))
                && l.same_scope(*old(self)) && *final(l.parent()) == *final(old(self).parent())
                && *final(self) == *final(l),
    {
        let payload = byte_vec(v);
        self.scope.parent.write_tagged(Tag::U8, payload.as_slice());
        Ok(self)
    }

    /// Writes a tagged `S8` scalar into the body.
    pub fn i8(&mut self, v: i8) -> (r: Result<&mut Self>)
        ensures
            r matches Ok(l) && l.parent().appended(*old(self).parent(), enc_scalar(Tag::S8, i8_bytes(v)))
                && l.same_scope(*old(self)) && *final(l.parent()) == *final(old(self).parent())
                && *final(self) == *final(l),
    {
        let payload = byte_vec(v as u8);
        self.scope.parent.write_tagged(Tag::S8, payload.as_slice());
        Ok(self)
    }

    /// Writes the 2 little-endian bytes of a `u16` into the body.
    pub fn u16(&mut self, v: u16) -> (r: Result<&mut Self>)
        ensures
            r matches Ok(l) && l.parent().appended(*old(self).parent(), u16_bytes(v))
                && l.same_scope(*old(self)) && *final(l.parent()) == *final(old(self).parent())
                && *final(self) == *final(l),
    {
        let payload = u16_le(v);
        self.bytes(payload.as_slice())?;
        Ok(self)
    }

    /// Writes the 2 little-endian bytes of a `i16` into the body.
    pub fn i16(&mut self, v: i16) -> (r: Result<&mut Self>)
        ensures
            r matches Ok(l) && l.parent().appended(*old(self).parent(), i16_bytes(v))
                && l.same_scope(*old(self)) && *final(l.parent()) == *final(old(self).parent())
                && *final(self) == *final(l),
    {
        let payload = u16_le(v as u16);
        self.bytes(payload.as_slice())?;
        Ok(self)
    }

    /// Writes the 4 little-endian bytes of a `u32` into the body.
    pub fn u32(&mut self, v: u32) -> (r: Result<&mut Self>)
        ensures
            r matches Ok(l) && l.parent().appended(*old(self).parent(), u32_bytes(v))
                && l.same_scope(*old(self)) && *final(l.parent()) == *final(old(self).parent())
                && *final(self) == *final(l),
    {
        let payload = u32_le(v);
        self.bytes(payload.as_slice())?;
        Ok(self)
    }

    /// Writes the 4 little-endian bytes of a `i32` into the body.
    pub fn i32(&mut self, v: i32) -> (r: Result<&mut Self>)
        ensures
            r matches Ok(l) && l.parent().appended(*old(self).parent(), i32_bytes(v))
                && l.same_scope(*old(self)) && *final(l.parent()) == *final(old(self).parent())
                && *final(self) == *final(l),
    {
        let payload = u32_le(v as u32);
        self.bytes(payload.as_slice())?;
        Ok(self)
    }

    /// Writes the 8 little-endian bytes of a `u64` into the body.
    pub fn u64(&mut self, v: u64) -> (r: Result<&mut Self>)
        ensures
            r matches Ok(l) && l.parent().appended(*old(self).parent(), u64_bytes(v))
                && l.same_scope(*old(self)) && *final(l.parent()) == *final(old(self).parent())
                && *final(self) == *final(l),
    {
        let payload = u64_le(v);
        self.bytes(payload.as_slice())?;
        Ok(self)
    }

    /// Writes the 8 little-endian bytes of a `i64` into the body.
    pub fn i64(&mut self, v: i64) -> (r: Result<&mut Self>)
        ensures
            r matches Ok(l) && l.parent().appended(*old(self).parent(), i64_bytes(v))
                && l.same_scope(*old(self)) && *final(l.parent()) == *final(old(self).parent())
                && *final(self) == *final(l),
    {
        let payload = u64_le(v as u64);
        self.bytes(payload.as_slice())?;
        Ok(self)
    }

    /// Writes the 4 little-endian bytes of a `u32` into the body.
    pub fn f32_bits(&mut self, v: u32) -> (r: Result<&mut Self>)
        ensures
            r matches Ok(l) && l.parent().appended(*old(self).parent(), u32_bytes(v))
                && l.same_scope(*old(self)) && *final(l.parent()) == *final(old(self).parent())
                && *final(self) == *final(l),
    {
        let payload = u32_le(v);
        self.bytes(payload.as_slice())?;
        Ok(self)
    }

    /// Writes the 8 little-endian bytes of a `u64` into the body.
    pub fn f64_bits(&mut self, v: u64) -> (r: Result<&mut Self>)
        ensures
            r matches Ok(l) && l.parent().appended(*old(self).parent(), u64_bytes(v))
                && l.same_scope(*old(self)) && *final(l.parent()) == *final(old(self).parent())
                && *final(self) == *final(l),
    {
        let payload = u64_le(v);
        self.bytes(payload.as_slice())?;
        Ok(self)
    }

    /// Writes the length of the body and gives the encoder back.
    pub fn finish(self) -> (r: Result<&'a mut Encoder>)
        requires
            self.wf(),
        ensures
            self.body().len() <= u32::MAX <==> r is Ok,
            match r {
                Ok(e) => e.written() == patched(self.parent().written(), self.len_offset(), self.body_start())
                    && e.flushed() == self.parent().flushed() && e.scopes() == self.parent().scopes()
                    - 1 && *final(e) == *final(self.parent()),
                Err(err) => err == Error::ContainerFull && final(self.parent()).written()
                    == self.parent().written() && final(self.parent()).flushed()
                    == self.parent().flushed() && final(self.parent()).scopes()
                    == self.parent().scopes() - 1,
            },
    {
        self.scope.finish()
    }
}

// ===========================================================================
// Arrays
// ===========================================================================

/// Writes the fixed-size items of an array.
pub struct ArrayEncoder<'a> {
    scope: PatchScope<'a>,
    stride: usize,
}

impl<'a> ArrayEncoder<'a> {
    /// The encoder this container writes into.
    pub closed spec fn parent(&self) -> &'a mut Encoder {
        self.scope.parent
    }

    /// Where the length of the container goes.
    pub closed spec fn len_offset(&self) -> int {
        self.scope.len_offset as int
    }

    /// Where the body of the container starts.
    pub closed spec fn body_start(&self) -> int {
        self.scope.body_start_offset as int
    }

    /// The body written so far.
    pub open spec fn body(&self) -> Seq<u8> {
        self.parent().written().subrange(self.body_start(), self.parent().written().len() as int)
    }

    pub open spec fn same_scope(self, other: Self) -> bool {
        &&& self.len_offset() == other.len_offset()
        &&& self.body_start() == other.body_start()
        &&& self.stride() == other.stride()
    }

    /// The size of every item.
    pub closed spec fn stride(&self) -> int {
        self.stride as int
    }

    pub open spec fn wf(&self) -> bool {
        &&& 0 <= self.len_offset()
        &&& self.len_offset() + 4 == self.body_start()
        &&& self.body_start() <= self.parent().written().len()
        &&& self.parent().scopes() > 0
        &&& 0 < self.stride() <= u32::MAX
    }

    /// The array just opened on the encoder `before`.
    pub open spec fn opened(self, before: Encoder, item_tag: Tag, stride: int) -> bool {
        &&& self.parent().written() == before.written() + seq![Tag::Array.spec_byte()] + u32_bytes(0)
            + array_header(item_tag, stride as nat)
        &&& self.parent().flushed() == before.flushed()
        &&& self.parent().scopes() == before.scopes() + 1
        &&& self.len_offset() == before.written().len() + 1
        &&& self.body_start() == before.written().len() + 5
        &&& self.stride() == stride
    }

    /// Appends bytes as item data without checking them against the stride.
    pub fn push_unchecked(&mut self, data: &[u8]) -> (r: Result<()>)
        ensures
            r is Ok,
            final(self).parent().appended(*old(self).parent(), data@),
            final(self).same_scope(*old(self)),
            *final(final(self).parent()) == *final(old(self).parent()),
    {
        self.scope.parent.write_raw(data);
        Ok(())
    }

    /// Appends one item, which must be `stride` bytes long.
    pub fn push(&mut self, data: &[u8]) -> (r: Result<()>)
        ensures
            data@.len() == old(self).stride() <==> r is Ok,
            r is Ok ==> final(self).parent().appended(*old(self).parent(), data@)
                && final(self).same_scope(*old(self))
                && *final(final(self).parent()) == *final(old(self).parent()),
            r is Err ==> r == Err::<(), Error>(Error::Malformed) && *final(self).parent() == *old(self).parent()
                    && final(self).same_scope(*old(self))
                    && *final(final(self).parent()) == *final(old(self).parent()),
    {
        if data.len() != self.stride {
            return Err(Error::Malformed);
        }
        self.push_unchecked(data)
    }

    /// Writes a tagged `Bool` scalar into the array body.
    pub fn bool(&mut self, v: bool) -> (r: Result<()>)
        ensures
            r is Ok,
            final(self).parent().appended(*old(self).parent(), enc_scalar(Tag::Bool, bool_bytes(v))),
            final(self).same_scope(*old(self)),
            *final(final(self).parent()) == *final(old(self).parent()),
    {
        let payload = byte_vec(if v { 1u8 } else { 0u8 });
        self.scope.parent.write_tagged(Tag::Bool, payload.as_slice());
        Ok(())
    }

    /// Writes a tagged `U8` scalar into the array body.
    pub fn u8(&mut self, v: u8) -> (r: Result<()>)
        ensures
            r is Ok,
            final(self).parent().appended(*old(self).parent(), enc_scalar(Tag::U8, u8_bytes(v))),
            final(self).same_scope(*old(self)),
            *final(final(self).parent()) == *final(old(self).parent()),
    {
        let payload = byte_vec(v);
        self.scope.parent.write_tagged(Tag::U8, payload.as_slice());
        Ok(())
    }

    /// Writes a tagged `S8` scalar into the array body.
    pub fn i8(&mut self, v: i8) -> (r: Result<()>)
        ensures
            r is Ok,
            final(self).parent().appended(*old(self).parent(), enc_scalar(Tag::S8, i8_bytes(v))),
            final(self).same_scope(*old(self)),
            *final(final(self).parent()) == *final(old(self).parent()),
    {
        let payload = byte_vec(v as u8);
        self.scope.parent.write_tagged(Tag::S8, payload.as_slice());
        Ok(())
    }

    /// Appends a `u16` as one item of 2 little-endian bytes.
    pub fn u16(&mut self, v: u16) -> (r: Result<&mut Self>)
        ensures
            old(self).stride() == 2 <==> r is Ok,
            match r {
                Ok(l) => l.parent().appended(*old(self).parent(), u16_bytes(v)) && l.same_scope(*old(self))
                    && *final(l.parent()) == *final(old(self).parent())
                    && *final(self) == *final(l),
                Err(err) => err == Error::Malformed && *final(self).parent() == *old(self).parent()
                    && final(self).same_scope(*old(self))
                    && *final(final(self).parent()) == *final(old(self).parent()),
            },
    {
        let payload = u16_le(v);
        self.push(payload.as_slice())?;
        Ok(self)
    }

    /// Appends a `i16` as one item of 2 little-endian bytes.
    pub fn i16(&mut self, v: i16) -> (r: Result<&mut Self>)
        ensures
            old(self).stride() == 2 <==> r is Ok,
            match r {
                Ok(l) => l.parent().appended(*old(self).parent(), i16_bytes(v)) && l.same_scope(*old(self))
                    && *final(l.parent()) == *final(old(self).parent())
                    && *final(self) == *final(l),
                Err(err) => err == Error::Malformed && *final(self).parent() == *old(self).parent()
                    && final(self).same_scope(*old(self))
                    && *final(final(self).parent()) == *final(old(self).parent()),
            },
    {
        let payload = u16_le(v as u16);
        self.push(payload.as_slice())?;
        Ok(self)
    }

    /// Appends a `u32` as one item of 4 little-endian bytes.
    pub fn u32(&mut self, v: u32) -> (r: Result<&mut Self>)
        ensures
            old(self).stride() == 4 <==> r is Ok,
            match r {
                Ok(l) => l.parent().appended(*old(self).parent(), u32_bytes(v)) && l.same_scope(*old(self))
                    && *final(l.parent()) == *final(old(self).parent())
                    && *final(self) == *final(l),
                Err(err) => err == Error::Malformed && *final(self).parent() == *old(self).parent()
                    && final(self).same_scope(*old(self))
                    && *final(final(self).parent()) == *final(old(self).parent()),
            },
    {
        let payload = u32_le(v);
        self.push(payload.as_slice())?;
        Ok(self)
    }

    /// Appends a `i32` as one item of 4 little-endian bytes.
    pub fn i32(&mut self, v: i32) -> (r: Result<&mut Self>)
        ensures
            old(self).stride() == 4 <==> r is Ok,
            match r {
                Ok(l) => l.parent().appended(*old(self).parent(), i32_bytes(v)) && l.same_scope(*old(self))
                    && *final(l.parent()) == *final(old(self).parent())
                    && *final(self) == *final(l),
                Err(err) => err == Error::Malformed && *final(self).parent() == *old(self).parent()
                    && final(self).same_scope(*old(self))
                    && *final(final(self).parent()) == *final(old(self).parent()),
            },
    {
        let payload = u32_le(v as u32);
        self.push(payload.as_slice())?;
        Ok(self)
    }

    /// Appends a `u64` as one item of 8 little-endian bytes.
    pub fn u64(&mut self, v: u64) -> (r: Result<&mut Self>)
        ensures
            old(self).stride() == 8 <==> r is Ok,
            match r {
                Ok(l) => l.parent().appended(*old(self).parent(), u64_bytes(v)) && l.same_scope(*old(self))
                    && *final(l.parent()) == *final(old(self).parent())
                    && *final(self) == *final(l),
                Err(err) => err == Error::Malformed && *final(self).parent() == *old(self).parent()
                    && final(self).same_scope(*old(self))
                    && *final(final(self).parent()) == *final(old(self).parent()),
            },
    {
        let payload = u64_le(v);
        self.push(payload.as_slice())?;
        Ok(self)
    }

    /// Appends a `i64` as one item of 8 little-endian bytes.
    pub fn i64(&mut self, v: i64) -> (r: Result<&mut Self>)
        ensures
            old(self).stride() == 8 <==> r is Ok,
            match r {
                Ok(l) => l.parent().appended(*old(self).parent(), i64_bytes(v)) && l.same_scope(*old(self))
                    && *final(l.parent()) == *final(old(self).parent())
                    && *final(self) == *final(l),
                Err(err) => err == Error::Malformed && *final(self).parent() == *old(self).parent()
                    && final(self).same_scope(*old(self))
                    && *final(final(self).parent()) == *final(old(self).parent()),
            },
    {
        let payload = u64_le(v as u64);
        self.push(payload.as_slice())?;
        Ok(self)
    }

    /// Appends a `u32` as one item of 4 little-endian bytes.
    pub fn f32_bits(&mut self, v: u32) -> (r: Result<&mut Self>)
        ensures
            old(self).stride() == 4 <==> r is Ok,
            match r {
                Ok(l) => l.parent().appended(*old(self).parent(), u32_bytes(v)) && l.same_scope(*old(self))
                    && *final(l.parent()) == *final(old(self).parent())
                    && *final(self) == *final(l),
                Err(err) => err == Error::Malformed && *final(self).parent() == *old(self).parent()
                    && final(self).same_scope(*old(self))
                    && *final(final(self).parent()) == *final(old(self).parent()),
            },
    {
        let payload = u32_le(v);
        self.push(payload.as_slice())?;
        Ok(self)
    }

    /// Appends a `u64` as one item of 8 little-endian bytes.
    pub fn f64_bits(&mut self, v: u64) -> (r: Result<&mut Self>)
        ensures
            old(self).stride() == 8 <==> r is Ok,
            match r {
                Ok(l) => l.parent().appended(*old(self).parent(), u64_bytes(v)) && l.same_scope(*old(self))
                    && *final(l.parent()) == *final(old(self).parent())
                    && *final(self) == *final(l),
                Err(err) => err == Error::Malformed && *final(self).parent() == *old(self).parent()
                    && final(self).same_scope(*old(self))
                    && *final(final(self).parent()) == *final(old(self).parent()),
            },
    {
        let payload = u64_le(v);
        self.push(payload.as_slice())?;
        Ok(self)
    }

    /// Starts writing one record item, field by field.
    pub fn record(&mut self) -> (b: RecordBodyEncoder<'_, 'a>)
        ensures
            *b.arr() == *old(self),
            b.start() == old(self).parent().written().len(),
            *final(self) == *final(b.arr()),
    {
        let start = self.scope.parent.buf.len();
        RecordBodyEncoder { parent: self, start }
    }

    /// Writes the length of the body and gives the encoder back.
    pub fn finish(self) -> (r: Result<&'a mut Encoder>)
        requires
            self.wf(),
        ensures
            self.body().len() <= u32::MAX <==> r is Ok,
            match r {
                Ok(e) => e.written() == patched(self.parent().written(), self.len_offset(), self.body_start())
                    && e.flushed() == self.parent().flushed() && e.scopes() == self.parent().scopes()
                    - 1 && *final(e) == *final(self.parent()),
                Err(err) => err == Error::ContainerFull && final(self.parent()).written()
                    == self.parent().written() && final(self.parent()).flushed()
                    == self.parent().flushed() && final(self.parent()).scopes()
                    == self.parent().scopes() - 1,
            },
    {
        self.scope.finish()
    }
}

/// Writes one record item of an array; finishing checks that exactly one
/// stride was written.
pub struct RecordBodyEncoder<'p, 'a> {
    parent: &'p mut ArrayEncoder<'a>,
    start: usize,
}

impl<'p, 'a> RecordBodyEncoder<'p, 'a> {
    /// The array this item is written into.
    pub closed spec fn arr(&self) -> &'p mut ArrayEncoder<'a> {
        self.parent
    }

    /// Where the item starts in the encoder's buffer.
    pub closed spec fn start(&self) -> int {
        self.start as int
    }

    pub open spec fn wf(&self) -> bool {
        self.start() <= self.arr().parent().written().len()
    }

    /// Writes raw bytes into the body.
    pub fn bytes(&mut self, data: &[u8]) -> (r: Result<&mut Self>)
        ensures
            r matches Ok(l) && l.arr().parent().appended(*old(self).arr().parent(), data@)
                && l.start() == old(self).start() && l.arr().same_scope(*old(self).arr())
                && *final(l.arr().parent()) == *final(old(self).arr().parent())
                && *final(l.arr()) == *final(old(self).arr())
                && *final(self) == *final(l),
    {
        self.parent.push_unchecked(data)?;
        Ok(self)
    }

    /// Writes a tagged `Bool` scalar into the body.
    pub fn bool(&mut self, v: bool) -> (r: Result<&mut Self>)
        ensures
            r matches Ok(l) && l.arr().parent().appended(*old(self).arr().parent(), enc_scalar(Tag::Bool, bool_bytes(v)))
                && l.start() == old(self).start() && l.arr().same_scope(*old(self).arr())
                && *final(l.arr().parent()) == *final(old(self).arr().parent())
                && *final(l.arr()) == *final(old(self).arr())
                && *final(self) == *final(l),
    {
        let payload = byte_vec(if v { 1u8 } else { 0u8 });
        self.parent.scope.parent.write_tagged(Tag::Bool, payload.as_slice());
        Ok(self)
    }

    /// Writes a tagged `U8` scalar into the body.
    pub fn u8(&mut self, v: u8) -> (r: Result<&mut Self>)
        ensures
            r matches Ok(l) && l.arr().parent().appended(*old(self).arr().parent(), enc_scalar(Tag::U8, u8_bytes(v)))
                && l.start() == old(self).start() && l.arr().same_scope(*old(self).arr())
                && *final(l.arr().parent()) == *final(old(self).arr().parent())
                && *final(l.arr()) == *final(old(self).arr())
                && *final(self) == *final(l),
    {
        let payload = byte_vec(v);
        self.parent.scope.parent.write_tagged(Tag::U8, payload.as_slice());
        Ok(self)
    }

    /// Writes a tagged `S8` scalar into the body.
    pub fn i8(&mut self, v: i8) -> (r: Result<&mut Self>)
        ensures
            r matches Ok(l) && l.arr().parent().appended(*old(self).arr().parent(), enc_scalar(Tag::S8, i8_bytes(v)))
                && l.start() == old(self).start() && l.arr().same_scope(*old(self).arr())
                && *final(l.arr().parent()) == *final(old(self).arr().parent())
                && *final(l.arr()) == *final(old(self).arr())
                && *final(self) == *final(l),
    {
        let payload = byte_vec(v as u8);
        self.parent.scope.parent.write_tagged(Tag::S8, payload.as_slice());
        Ok(self)
    }

    /// Writes the 2 little-endian bytes of a `u16` into the body.
    pub fn u16(&mut self, v: u16) -> (r: Result<&mut Self>)
        ensures
            r matches Ok(l) && l.arr().parent().appended(*old(self).arr().parent(), u16_bytes(v))
                && l.start() == old(self).start() && l.arr().same_scope(*old(self).arr())
                && *final(l.arr().parent()) == *final(old(self).arr().parent())
                && *final(l.arr()) == *final(old(self).arr())
                && *final(self) == *final(l),
    {
        let payload = u16_le(v);
        self.bytes(payload.as_slice())?;
        Ok(self)
    }

    /// Writes the 2 little-endian bytes of a `i16` into the body.
    pub fn i16(&mut self, v: i16) -> (r: Result<&mut Self>)
        ensures
            r matches Ok(l) && l.arr().parent().appended(*old(self).arr().parent(), i16_bytes(v))
                && l.start() == old(self).start() && l.arr().same_scope(*old(self).arr())
                && *final(l.arr().parent()) == *final(old(self).arr().parent())
                && *final(l.arr()) == *final(old(self).arr())
                && *final(self) == *final(l),
    {
        let payload = u16_le(v as u16);
        self.bytes(payload.as_slice())?;
        Ok(self)
    }

    /// Writes the 4 little-endian bytes of a `u32` into the body.
    pub fn u32(&mut self, v: u32) -> (r: Result<&mut Self>)
        ensures
            r matches Ok(l) && l.arr().parent().appended(*old(self).arr().parent(), u32_bytes(v))
                && l.start() == old(self).start() && l.arr().same_scope(*old(self).arr())
                && *final(l.arr().parent()) == *final(old(self).arr().parent())
                && *final(l.arr()) == *final(old(self).arr())
                && *final(self) == *final(l),
    {
        let payload = u32_le(v);
        self.bytes(payload.as_slice())?;
        Ok(self)
    }

    /// Writes the 4 little-endian bytes of a `i32` into the body.
    pub fn i32(&mut self, v: i32) -> (r: Result<&mut Self>)
        ensures
            r matches Ok(l) && l.arr().parent().appended(*old(self).arr().parent(), i32_bytes(v))
                && l.start() == old(self).start() && l.arr().same_scope(*old(self).arr())
                && *final(l.arr().parent()) == *final(old(self).arr().parent())
                && *final(l.arr()) == *final(old(self).arr())
                && *final(self) == *final(l),
    {
        let payload = u32_le(v as u32);
        self.bytes(payload.as_slice())?;
        Ok(self)
    }

    /// Writes the 8 little-endian bytes of a `u64` into the body.
    pub fn u64(&mut self, v: u64) -> (r: Result<&mut Self>)
        ensures
            r matches Ok(l) && l.arr().parent().appended(*old(self).arr().parent(), u64_bytes(v))
                && l.start() == old(self).start() && l.arr().same_scope(*old(self).arr())
                && *final(l.arr().parent()) == *final(old(self).arr().parent())
                && *final(l.arr()) == *final(old(self).arr())
                && *final(self) == *final(l),
    {
        let payload = u64_le(v);
        self.bytes(payload.as_slice())?;
        Ok(self)
    }

    /// Writes the 8 little-endian bytes of a `i64` into the body.
    pub fn i64(&mut self, v: i64) -> (r: Result<&mut Self>)
        ensures
            r matches Ok(l) && l.arr().parent().appended(*old(self).arr().parent(), i64_bytes(v))
                && l.start() == old(self).start() && l.arr().same_scope(*old(self).arr())
                && *final(l.arr().parent()) == *final(old(self).arr().parent())
                && *final(l.arr()) == *final(old(self).arr())
                && *final(self) == *final(l),
    {
        let payload = u64_le(v as u64);
        self.bytes(payload.as_slice())?;
        Ok(self)
    }

    /// Writes the 4 little-endian bytes of a `u32` into the body.
    pub fn f32_bits(&mut self, v: u32) -> (r: Result<&mut Self>)
        ensures
            r matches Ok(l) && l.arr().parent().appended(*old(self).arr().parent(), u32_bytes(v))
                && l.start() == old(self).start() && l.arr().same_scope(*old(self).arr())
                && *final(l.arr().parent()) == *final(old(self).arr().parent())
                && *final(l.arr()) == *final(old(self).arr())
                && *final(self) == *final(l),
    {
        let payload = u32_le(v);
        self.bytes(payload.as_slice())?;
        Ok(self)
    }

    /// Writes the 8 little-endian bytes of a `u64` into the body.
    pub fn f64_bits(&mut self, v: u64) -> (r: Result<&mut Self>)
        ensures
            r matches Ok(l) && l.arr().parent().appended(*old(self).arr().parent(), u64_bytes(v))
                && l.start() == old(self).start() && l.arr().same_scope(*old(self).arr())
                && *final(l.arr().parent()) == *final(old(self).arr().parent())
                && *final(l.arr()) == *final(old(self).arr())
                && *final(self) == *final(l),
    {
        let payload = u64_le(v);
        self.bytes(payload.as_slice())?;
        Ok(self)
    }

    /// Checks that the item is exactly one stride long and gives the array
    /// back.
    pub fn finish(self) -> (r: Result<&'p mut ArrayEncoder<'a>>)
        requires
            self.wf(),
        ensures
            self.arr().parent().written().len() - self.start() == self.arr().stride() <==> r is Ok,
            match r {
                Ok(a) => *a == *self.arr() && *final(a) == *final(self.arr()),
                Err(err) => err == Error::Malformed && *final(self.arr()) == *self.arr(),
            },
    {
        let end = self.parent.scope.parent.buf.len();
        let written = end - self.start;
        if written != self.parent.stride {
            return Err(Error::Malformed);
        }
        Ok(self.parent)
    }
}

} // verus!
