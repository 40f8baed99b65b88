//! Reading encoded values: a decoder over a cursor, lazy decoders for the
//! contents of lists, mappings and arrays, and a reader of record bodies.
//!
//! Each operation is specified by a function from the cursor before it to
//! its outcome and the cursor after it; errors leave the cursor where the
//! original reading stopped.

use vstd::prelude::*;
use vstd::utf8::{valid_utf8, decode_utf8, encode_utf8_decode_utf8};
use vstd::string::StringSliceAdditionalSpecFns;

use crate::cursor::Cursor;
use crate::cursor::CursorView;
use crate::text::str_from_utf8;
use crate::types::Error;
use crate::types::Result;
use crate::types::Tag;
use crate::wire::{bool_of, u8_of, i8_of, u16_of, i16_of, u32_of, i32_of, u64_of, i64_of};
use crate::wire::{len_of, read_u16, read_u32, read_u64};

verus! {

broadcast use vstd::seq::group_seq_axioms;

// ===========================================================================
// Specification of reading
// ===========================================================================

/// Reading a tag byte.
pub open spec fn sp_read_tag(c: CursorView) -> (Result<Tag>, CursorView) {
    let (r, c1) = c.read(1);
    match r {
        Err(e) => (Err(e), c1),
        Ok(b) => match Tag::spec_from_u8(b[0]) {
            Some(t) => (Ok(t), c1),
            None => (Err(Error::InvalidTag(b[0])), c1),
        },
    }
}

/// Reading a 32-bit length.
pub open spec fn sp_read_len(c: CursorView) -> (Result<nat>, CursorView) {
    let (r, c1) = c.read(4);
    match r {
        Err(e) => (Err(e), c1),
        Ok(b) => (Ok(len_of(b)), c1),
    }
}

/// Reading a scalar of the given tag: its payload bytes.
pub open spec fn sp_expect_scalar(c: CursorView, tag: Tag, size: nat) -> (Result<Seq<u8>>, CursorView) {
    let (r, c1) = sp_read_tag(c);
    match r {
        Err(e) => (Err(e), c1),
        Ok(t) => if t != tag {
            (Err(Error::TypeMismatch), c1)
        } else {
            c1.read(size as int)
        },
    }
}

/// Reading a length-prefixed value of the given tag: its body.
pub open spec fn sp_expect_blob(c: CursorView, tag: Tag) -> (Result<Seq<u8>>, CursorView) {
    let (r, c1) = sp_read_tag(c);
    match r {
        Err(e) => (Err(e), c1),
        Ok(t) => if t != tag {
            (Err(Error::TypeMismatch), c1)
        } else {
            let (lr, c2) = sp_read_len(c1);
            match lr {
                Err(e) => (Err(e), c2),
                Ok(n) => c2.read(n as int),
            }
        },
    }
}

/// A body read as UTF-8 text.
pub open spec fn sp_text(r: Result<Seq<u8>>) -> Result<Seq<char>> {
    match r {
        Err(e) => Err(e),
        Ok(b) => if valid_utf8(b) {
            Ok(decode_utf8(b))
        } else {
            Err(Error::InvalidUtf8)
        },
    }
}

/// Skipping the next value, whatever its tag.
pub open spec fn sp_skip_value(c: CursorView) -> (Result<()>, CursorView) {
    let (r, c1) = sp_read_tag(c);
    match r {
        Err(e) => (Err(e), c1),
        Ok(t) => {
            let (lr, c2) = match t.spec_fixed_size() {
                Some(n) => (Ok(n), c1),
                None => sp_read_len(c1),
            };
            match lr {
                Err(e) => (Err(e), c2),
                Ok(n) => {
                    let (br, c3) = c2.read(n as int);
                    match br {
                        Err(e) => (Err(e), c3),
                        Ok(_) => (Ok(()), c3),
                    }
                },
            }
        },
    }
}

/// Skipping values until the cursor reaches the end of its bytes: the first
/// error met, if any.
pub open spec fn sp_skip_all(c: CursorView) -> Result<()>
    decreases c.data.len() - c.pos,
{
    if c.pos >= c.data.len() || c.pos < 0 {
        Ok(())
    } else {
        let (r, c1) = sp_skip_value(c);
        match r {
            Err(e) => Err(e),
            Ok(_) => if c1.pos > c.pos && c1.data == c.data {
                sp_skip_all(c1)
            } else {
                Ok(())
            },
        }
    }
}

/// The abstract state of an array decoder.
pub struct ArrayView {
    pub cursor: CursorView,
    pub item_tag: Tag,
    pub stride: int,
    pub remaining: int,
}

impl ArrayView {
    /// What every array decoder keeps: its items, `stride` bytes each, fill
    /// the rest of its bytes.
    pub open spec fn wf(self) -> bool {
        &&& self.cursor.wf()
        &&& self.cursor.min_valid == 0
        &&& 0 < self.stride <= usize::MAX
        &&& 0 <= self.remaining
        &&& self.cursor.pos + self.remaining * self.stride <= self.cursor.data.len()
    }
}

/// The abstract value of a decoded value: scalars by value (floats by their
/// IEEE bits), blobs and text by content, containers by the state of their
/// decoders.
pub enum ValueModel {
    Bool(bool),
    U8(u8),
    S8(i8),
    U16(u16),
    S16(i16),
    U32(u32),
    S32(i32),
    U64(u64),
    S64(i64),
    F32(u32),
    F64(u64),
    Bytes(Seq<u8>),
    Struct(Seq<u8>),
    Str(Seq<char>),
    List(CursorView, int),
    Mapping(CursorView, int),
    Array(ArrayView),
}

/// The header of an array body: item tag, stride and item count.
pub open spec fn sp_array_header(b: Seq<u8>) -> Result<ArrayView> {
    let c0 = CursorView::fresh(b);
    let (r1, c1) = c0.read(1);
    match r1 {
        Err(e) => Err(e),
        Ok(t) => match Tag::spec_from_u8(t[0]) {
            None => Err(Error::InvalidTag(t[0])),
            Some(item_tag) => {
                let (r2, c2) = c1.read(4);
                match r2 {
                    Err(e) => Err(e),
                    Ok(sb) => {
                        let stride = u32_of(sb) as int;
                        let payload = b.len() - 5;
                        if stride == 0 || payload % stride != 0 {
                            Err(Error::Malformed)
                        } else {
                            Ok(ArrayView { cursor: c2, item_tag, stride, remaining: payload / stride })
                        }
                    },
                }
            },
        },
    }
}

/// A value of the given tag decoded from its payload bytes.
pub open spec fn sp_untagged(tag: Tag, b: Seq<u8>) -> Result<ValueModel> {
    match tag {
        Tag::Bool => Ok(ValueModel::Bool(bool_of(b))),
        Tag::U8 => Ok(ValueModel::U8(u8_of(b))),
        Tag::S8 => Ok(ValueModel::S8(i8_of(b))),
        Tag::U16 => Ok(ValueModel::U16(u16_of(b))),
        Tag::S16 => Ok(ValueModel::S16(i16_of(b))),
        Tag::U32 => Ok(ValueModel::U32(u32_of(b))),
        Tag::S32 => Ok(ValueModel::S32(i32_of(b))),
        Tag::U64 => Ok(ValueModel::U64(u64_of(b))),
        Tag::S64 => Ok(ValueModel::S64(i64_of(b))),
        Tag::F32 => Ok(ValueModel::F32(u32_of(b))),
        Tag::F64 => Ok(ValueModel::F64(u64_of(b))),
        Tag::Bytes => Ok(ValueModel::Bytes(b)),
        Tag::Struct => Ok(ValueModel::Struct(b)),
        Tag::String => if valid_utf8(b) {
            Ok(ValueModel::Str(decode_utf8(b)))
        } else {
            Err(Error::InvalidUtf8)
        },
        Tag::List => Ok(ValueModel::List(CursorView::fresh(b), b.len() as int)),
        Tag::Mapping => Ok(ValueModel::Mapping(CursorView::fresh(b), b.len() as int)),
        Tag::Array => match sp_array_header(b) {
            Ok(a) => Ok(ValueModel::Array(a)),
            Err(e) => Err(e),
        },
    }
}

/// Reading the next value, whatever its tag.
pub open spec fn sp_read_value(c: CursorView) -> (Result<ValueModel>, CursorView) {
    let (r, c1) = sp_read_tag(c);
    match r {
        Err(e) => (Err(e), c1),
        Ok(t) => {
            let (lr, c2) = match t.spec_fixed_size() {
                Some(n) => (Ok(n), c1),
                None => sp_read_len(c1),
            };
            match lr {
                Err(e) => (Err(e), c2),
                Ok(n) => {
                    let (br, c3) = c2.read(n as int);
                    match br {
                        Err(e) => (Err(e), c3),
                        Ok(b) => (sp_untagged(t, b), c3),
                    }
                },
            }
        },
    }
}

/// Reading the next entry of a mapping: a key string, then a value.
pub open spec fn sp_map_entry(c: CursorView) -> (Result<(Seq<char>, ValueModel)>, CursorView) {
    let (kr, c1) = sp_expect_blob(c, Tag::String);
    match kr {
        Err(e) => (Err(e), c1),
        Ok(kb) => if !valid_utf8(kb) {
            (Err(Error::InvalidUtf8), c1)
        } else {
            let (vr, c2) = sp_read_value(c1);
            match vr {
                Err(e) => (Err(e), c2),
                Ok(v) => (Ok((decode_utf8(kb), v)), c2),
            }
        },
    }
}

/// Payload bytes read back as text, as the decoder does it.
fn text_of<'a>(bytes: &'a [u8]) -> (r: Result<&'a str>)
    ensures
        match sp_text(Ok(bytes@)) {
            Ok(s) => r matches Ok(t) && t@ == s,
            Err(e) => r == Err::<&str, Error>(e),
        },
{
    match str_from_utf8(bytes) {
        Some(s) => {
            proof {
                encode_utf8_decode_utf8(s@);
            }
            Ok(s)
        },
        None => Err(Error::InvalidUtf8),
    }
}

// ===========================================================================
// Decoder
// ===========================================================================

/// Reads a sequence of encoded values from a byte buffer.
#[derive(Debug, Clone, Copy)]
pub struct Decoder<'a> {
    cursor: Cursor<'a>,
}

impl<'a> View for Decoder<'a> {
    type V = CursorView;

    closed spec fn view(&self) -> CursorView {
        self.cursor@
    }
}

impl<'a> Decoder<'a> {
    pub fn new(buf: &'a [u8]) -> (d: Self)
        ensures
            d@ == CursorView::fresh(buf@),
            d@.wf(),
    {
        Self { cursor: Cursor::new(buf) }
    }

    pub fn with_cursor(cursor: Cursor<'a>) -> (d: Self)
        ensures
            d@ == cursor@,
    {
        Self { cursor }
    }

    pub fn cursor(&self) -> (c: &Cursor<'a>)
        ensures
            c@ == self@,
    {
        &self.cursor
    }

    pub fn cursor_mut(&mut self) -> (c: &mut Cursor<'a>)
        ensures
            c@ == old(self)@,
            final(self)@ == final(c)@,
    {
        &mut self.cursor
    }

    pub fn pos(&self) -> (p: usize)
        ensures
            p == self@.pos,
            self@.valid(),
    {
        self.cursor.pos()
    }

    pub fn remaining(&self) -> (n: usize)
        ensures
            n == self@.remaining(),
            self@.valid(),
    {
        self.cursor.remaining()
    }

    pub fn read_tag(&mut self) -> (r: Result<Tag>)
        ensures
            (r, final(self)@) == sp_read_tag(old(self)@),
    {
        let byte = self.cursor.read_byte()?;
        match Tag::from_u8(byte) {
            Some(t) => Ok(t),
            None => Err(Error::InvalidTag(byte)),
        }
    }

    pub fn peek_tag(&self) -> (r: Result<Tag>)
        ensures
            r == sp_read_tag(self@).0,
    {
        let byte = self.cursor.peek_byte()?;
        match Tag::from_u8(byte) {
            Some(t) => Ok(t),
            None => Err(Error::InvalidTag(byte)),
        }
    }

    /// Reads a 32-bit length.
    fn read_len(&mut self) -> (r: Result<usize>)
        ensures
            final(self)@ == sp_read_len(old(self)@).1,
            match sp_read_len(old(self)@).0 {
                Ok(n) => r == Ok::<usize, Error>(n as usize),
                Err(e) => r == Err::<usize, Error>(e),
            },
    {
        let b = self.cursor.read_bytes(4)?;
        let n = read_u32(b);
        Ok(n as usize)
    }

    /// Reads the tag of a scalar, checks it, then returns its payload.
    fn expect_scalar(&mut self, tag: Tag, size: usize) -> (r: Result<&'a [u8]>)
        ensures
            final(self)@ == sp_expect_scalar(old(self)@, tag, size as nat).1,
            match r {
                Ok(b) => sp_expect_scalar(old(self)@, tag, size as nat).0 == Ok::<Seq<u8>, Error>(b@)
                    && b@.len() == size,
                Err(e) => sp_expect_scalar(old(self)@, tag, size as nat).0 == Err::<Seq<u8>, Error>(e),
            },
    {
        let t = self.read_tag()?;
        if t != tag {
            return Err(Error::TypeMismatch);
        }
        self.cursor.read_bytes(size)
    }

    /// Reads the tag of a length-prefixed value, checks it, then returns its
    /// body.
    fn expect_blob(&mut self, expected: Tag) -> (r: Result<&'a [u8]>)
        ensures
            final(self)@ == sp_expect_blob(old(self)@, expected).1,
            match r {
                Ok(b) => sp_expect_blob(old(self)@, expected).0 == Ok::<Seq<u8>, Error>(b@),
                Err(e) => sp_expect_blob(old(self)@, expected).0 == Err::<Seq<u8>, Error>(e),
            },
    {
        let tag = self.read_tag()?;
        if tag != expected {
            return Err(Error::TypeMismatch);
        }
        let len = self.read_len()?;
        self.cursor.read_bytes(len)
    }

    /// Reads a `Bool` scalar.
    pub fn bool(&mut self) -> (r: Result<bool>)
        ensures
            final(self)@ == sp_expect_scalar(old(self)@, Tag::Bool, 1).1,
            match sp_expect_scalar(old(self)@, Tag::Bool, 1).0 {
                Ok(b) => r == Ok::<bool, Error>(bool_of(b)),
                Err(e) => r == Err::<bool, Error>(e),
            },
    {
        let b = self.expect_scalar(Tag::Bool, 1)?;
        Ok(b[0] != 0)
    }

    /// Reads a `U8` scalar.
    pub fn u8(&mut self) -> (r: Result<u8>)
        ensures
            final(self)@ == sp_expect_scalar(old(self)@, Tag::U8, 1).1,
            match sp_expect_scalar(old(self)@, Tag::U8, 1).0 {
                Ok(b) => r == Ok::<u8, Error>(u8_of(b)),
                Err(e) => r == Err::<u8, Error>(e),
            },
    {
        let b = self.expect_scalar(Tag::U8, 1)?;
        Ok(b[0])
    }

    /// Reads a `S8` scalar.
    pub fn i8(&mut self) -> (r: Result<i8>)
        ensures
            final(self)@ == sp_expect_scalar(old(self)@, Tag::S8, 1).1,
            match sp_expect_scalar(old(self)@, Tag::S8, 1).0 {
                Ok(b) => r == Ok::<i8, Error>(i8_of(b)),
                Err(e) => r == Err::<i8, Error>(e),
            },
    {
        let b = self.expect_scalar(Tag::S8, 1)?;
        Ok(b[0] as i8)
    }

    /// Reads a `U16` scalar.
    pub fn u16(&mut self) -> (r: Result<u16>)
        ensures
            final(self)@ == sp_expect_scalar(old(self)@, Tag::U16, 2).1,
            match sp_expect_scalar(old(self)@, Tag::U16, 2).0 {
                Ok(b) => r == Ok::<u16, Error>(u16_of(b)),
                Err(e) => r == Err::<u16, Error>(e),
            },
    {
        let b = self.expect_scalar(Tag::U16, 2)?;
        Ok(read_u16(b))
    }

    /// Reads a `S16` scalar.
    pub fn i16(&mut self) -> (r: Result<i16>)
        ensures
            final(self)@ == sp_expect_scalar(old(self)@, Tag::S16, 2).1,
            match sp_expect_scalar(old(self)@, Tag::S16, 2).0 {
                Ok(b) => r == Ok::<i16, Error>(i16_of(b)),
                Err(e) => r == Err::<i16, Error>(e),
            },
    {
        let b = self.expect_scalar(Tag::S16, 2)?;
        Ok(read_u16(b) as i16)
    }

    /// Reads a `U32` scalar.
    pub fn u32(&mut self) -> (r: Result<u32>)
        ensures
            final(self)@ == sp_expect_scalar(old(self)@, Tag::U32, 4).1,
            match sp_expect_scalar(old(self)@, Tag::U32, 4).0 {
                Ok(b) => r == Ok::<u32, Error>(u32_of(b)),
                Err(e) => r == Err::<u32, Error>(e),
            },
    {
        let b = self.expect_scalar(Tag::U32, 4)?;
        Ok(read_u32(b))
    }

    /// Reads a `S32` scalar.
    pub fn i32(&mut self) -> (r: Result<i32>)
        ensures
            final(self)@ == sp_expect_scalar(old(self)@, Tag::S32, 4).1,
            match sp_expect_scalar(old(self)@, Tag::S32, 4).0 {
                Ok(b) => r == Ok::<i32, Error>(i32_of(b)),
                Err(e) => r == Err::<i32, Error>(e),
            },
    {
        let b = self.expect_scalar(Tag::S32, 4)?;
        Ok(read_u32(b) as i32)
    }

    /// Reads a `U64` scalar.
    pub fn u64(&mut self) -> (r: Result<u64>)
        ensures
            final(self)@ == sp_expect_scalar(old(self)@, Tag::U64, 8).1,
            match sp_expect_scalar(old(self)@, Tag::U64, 8).0 {
                Ok(b) => r == Ok::<u64, Error>(u64_of(b)),
                Err(e) => r == Err::<u64, Error>(e),
            },
    {
        let b = self.expect_scalar(Tag::U64, 8)?;
        Ok(read_u64(b))
    }

    /// Reads a `S64` scalar.
    pub fn i64(&mut self) -> (r: Result<i64>)
        ensures
            final(self)@ == sp_expect_scalar(old(self)@, Tag::S64, 8).1,
            match sp_expect_scalar(old(self)@, Tag::S64, 8).0 {
                Ok(b) => r == Ok::<i64, Error>(i64_of(b)),
                Err(e) => r == Err::<i64, Error>(e),
            },
    {
        let b = self.expect_scalar(Tag::S64, 8)?;
        Ok(read_u64(b) as i64)
    }

    /// Reads an `F32` scalar as its IEEE-754 bits.
    pub fn f32_bits(&mut self) -> (r: Result<u32>)
        ensures
            final(self)@ == sp_expect_scalar(old(self)@, Tag::F32, 4).1,
            match sp_expect_scalar(old(self)@, Tag::F32, 4).0 {
                Ok(b) => r == Ok::<u32, Error>(u32_of(b)),
                Err(e) => r == Err::<u32, Error>(e),
            },
    {
        let b = self.expect_scalar(Tag::F32, 4)?;
        Ok(read_u32(b))
    }

    /// Reads an `F64` scalar as its IEEE-754 bits.
    pub fn f64_bits(&mut self) -> (r: Result<u64>)
        ensures
            final(self)@ == sp_expect_scalar(old(self)@, Tag::F64, 8).1,
            match sp_expect_scalar(old(self)@, Tag::F64, 8).0 {
                Ok(b) => r == Ok::<u64, Error>(u64_of(b)),
                Err(e) => r == Err::<u64, Error>(e),
            },
    {
        let b = self.expect_scalar(Tag::F64, 8)?;
        Ok(read_u64(b))
    }

    /// Reads a string.
    pub fn str(&mut self) -> (r: Result<&'a str>)
        ensures
            final(self)@ == sp_expect_blob(old(self)@, Tag::String).1,
            match sp_text(sp_expect_blob(old(self)@, Tag::String).0) {
                Ok(s) => r matches Ok(t) && t@ == s,
                Err(e) => r == Err::<&str, Error>(e),
            },
    {
        let bytes = self.expect_blob(Tag::String)?;
        text_of(bytes)
    }

    /// Reads a byte blob.
    pub fn bytes(&mut self) -> (r: Result<&'a [u8]>)
        ensures
            final(self)@ == sp_expect_blob(old(self)@, Tag::Bytes).1,
            match r {
                Ok(b) => sp_expect_blob(old(self)@, Tag::Bytes).0 == Ok::<Seq<u8>, Error>(b@),
                Err(e) => sp_expect_blob(old(self)@, Tag::Bytes).0 == Err::<Seq<u8>, Error>(e),
            },
    {
        self.expect_blob(Tag::Bytes)
    }

    /// Reads the raw body of a record.
    pub fn record_raw(&mut self) -> (r: Result<&'a [u8]>)
        ensures
            final(self)@ == sp_expect_blob(old(self)@, Tag::Struct).1,
            match r {
                Ok(b) => sp_expect_blob(old(self)@, Tag::Struct).0 == Ok::<Seq<u8>, Error>(b@),
                Err(e) => sp_expect_blob(old(self)@, Tag::Struct).0 == Err::<Seq<u8>, Error>(e),
            },
    {
        self.expect_blob(Tag::Struct)
    }

    /// Reads the next value, whatever its tag.
    pub fn value(&mut self) -> (r: Result<ValueDecoder<'a>>)
        ensures
            final(self)@ == sp_read_value(old(self)@).1,
            match sp_read_value(old(self)@).0 {
                Ok(m) => r matches Ok(v) && v@ == m,
                Err(e) => r is Err && r == Err::<ValueDecoder<'a>, Error>(e),
            },
    {
        ValueDecoder::read(self)
    }

    /// Moves past the next value without decoding it.
    pub fn skip_value(&mut self) -> (r: Result<()>)
        ensures
            (r, final(self)@) == sp_skip_value(old(self)@),
    {
        let tag = self.read_tag()?;
        let len = match tag.fixed_size() {
            Some(n) => n,
            None => self.read_len()?,
        };
        self.cursor.skip(len)
    }

    /// The raw bytes of the next value, which the decoder moves past.
    pub fn raw_value(&mut self) -> (r: Result<&'a [u8]>)
        ensures
            final(self)@ == sp_skip_value(old(self)@).1,
            match sp_skip_value(old(self)@).0 {
                Ok(_) => r matches Ok(b) && b@ == old(self)@.data.subrange(
                    old(self)@.pos,
                    final(self)@.pos,
                ),
                Err(e) => r == Err::<&[u8], Error>(e),
            },
    {
        let start_pos = self.cursor.pos();
        self.skip_value()?;
        let end_pos = self.cursor.pos();
        let slice = self.cursor.full_slice();
        Ok(vstd::slice::slice_subrange(slice, start_pos, end_pos))
    }

    /// Opens the next value as a list.
    pub fn list(&mut self) -> (r: Result<ListDecoder<'a>>)
        ensures
            final(self)@ == sp_expect_blob(old(self)@, Tag::List).1,
            match sp_expect_blob(old(self)@, Tag::List).0 {
                Ok(b) => r matches Ok(l) && l@ == (CursorView::fresh(b), b.len() as int),
                Err(e) => r is Err && r == Err::<ListDecoder<'a>, Error>(e),
            },
    {
        let bytes = self.expect_blob(Tag::List)?;
        Ok(ListDecoder { cursor: Cursor::new(bytes), end_pos: bytes.len() })
    }

    /// Opens the next value as a mapping.
    pub fn map(&mut self) -> (r: Result<MapDecoder<'a>>)
        ensures
            final(self)@ == sp_expect_blob(old(self)@, Tag::Mapping).1,
            match sp_expect_blob(old(self)@, Tag::Mapping).0 {
                Ok(b) => r matches Ok(m) && m@ == (CursorView::fresh(b), b.len() as int),
                Err(e) => r is Err && r == Err::<MapDecoder<'a>, Error>(e),
            },
    {
        let bytes = self.expect_blob(Tag::Mapping)?;
        Ok(MapDecoder { cursor: Cursor::new(bytes), end_pos: bytes.len() })
    }

    /// Opens the next value as an array.
    pub fn array(&mut self) -> (r: Result<ArrayDecoder<'a>>)
        ensures
            final(self)@ == sp_expect_blob(old(self)@, Tag::Array).1,
            match sp_expect_blob(old(self)@, Tag::Array).0 {
                Ok(b) => match sp_array_header(b) {
                    Ok(a) => r matches Ok(d) && d@ == a,
                    Err(e) => r is Err && r == Err::<ArrayDecoder<'a>, Error>(e),
                },
                Err(e) => r is Err && r == Err::<ArrayDecoder<'a>, Error>(e),
            },
    {
        let bytes = self.expect_blob(Tag::Array)?;
        ArrayDecoder::parse(bytes)
    }

    /// Opens the next value as a record.
    pub fn record(&mut self) -> (r: Result<RecordDecoder<'a>>)
        ensures
            final(self)@ == sp_expect_blob(old(self)@, Tag::Struct).1,
            match sp_expect_blob(old(self)@, Tag::Struct).0 {
                Ok(b) => r matches Ok(d) && d@ == (CursorView::fresh(b), b.len() as int),
                Err(e) => r is Err && r == Err::<RecordDecoder<'a>, Error>(e),
            },
    {
        let bytes = self.record_raw()?;
        Ok(RecordDecoder::new(bytes))
    }
}

// ===========================================================================
// Lists and mappings
// ===========================================================================

/// Reads the items of a list one by one.
#[derive(Debug, Clone, Copy)]
pub struct ListDecoder<'a> {
    cursor: Cursor<'a>,
    end_pos: usize,
}

impl<'a> View for ListDecoder<'a> {
    type V = (CursorView, int);

    closed spec fn view(&self) -> (CursorView, int) {
        (self.cursor@, self.end_pos as int)
    }
}

impl<'a> ListDecoder<'a> {
    /// The next item, or `None` after the last one. On an error the decoder
    /// stays where it was.
    pub fn next(&mut self) -> (r: Result<Option<ValueDecoder<'a>>>)
        ensures
            old(self)@.0.pos >= old(self)@.1 ==> (r matches Ok(None) && final(self)@ == old(self)@),
            old(self)@.0.pos < old(self)@.1 ==> match sp_read_value(old(self)@.0).0 {
                Ok(m) => r matches Ok(Some(v)) && v@ == m && final(self)@ == (
                    sp_read_value(old(self)@.0).1,
                    old(self)@.1,
                ),
                Err(e) => r == Err::<Option<ValueDecoder<'a>>, Error>(e) && final(self)@ == old(self)@,
            },
    {
        if self.cursor.pos() >= self.end_pos {
            return Ok(None);
        }
        let mut decoder = Decoder::with_cursor(self.cursor);
        let value = ValueDecoder::read(&mut decoder)?;
        self.cursor = decoder.cursor;
        Ok(Some(value))
    }
}

/// Reads the entries of a mapping one by one.
#[derive(Debug, Clone, Copy)]
pub struct MapDecoder<'a> {
    cursor: Cursor<'a>,
    end_pos: usize,
}

impl<'a> View for MapDecoder<'a> {
    type V = (CursorView, int);

    closed spec fn view(&self) -> (CursorView, int) {
        (self.cursor@, self.end_pos as int)
    }
}

impl<'a> MapDecoder<'a> {
    /// The next key and value, or `None` after the last entry. On an error
    /// the decoder stays where it was.
    pub fn next(&mut self) -> (r: Result<Option<(&'a str, ValueDecoder<'a>)>>)
        ensures
            old(self)@.0.pos >= old(self)@.1 ==> (r matches Ok(None) && final(self)@ == old(self)@),
            old(self)@.0.pos < old(self)@.1 ==> match sp_map_entry(old(self)@.0).0 {
                Ok((k, m)) => r matches Ok(Some((key, v))) && key@ == k && v@ == m && final(self)@
                    == (sp_map_entry(old(self)@.0).1, old(self)@.1),
                Err(e) => r == Err::<Option<(&'a str, ValueDecoder<'a>)>, Error>(e) && final(self)@ == old(self)@,
            },
    {
        if self.cursor.pos() >= self.end_pos {
            return Ok(None);
        }
        let mut decoder = Decoder::with_cursor(self.cursor);
        let k_bytes = decoder.expect_blob(Tag::String)?;
        let key = text_of(k_bytes)?;
        let val = ValueDecoder::read(&mut decoder)?;
        self.cursor = decoder.cursor;
        Ok(Some((key, val)))
    }
}

// ===========================================================================
// Arrays
// ===========================================================================

/// Reads the fixed-size items of an array one by one.
#[derive(Debug, Clone, Copy)]
pub struct ArrayDecoder<'a> {
    cursor: Cursor<'a>,
    item_tag: Tag,
    stride: usize,
    remaining: usize,
}

impl<'a> View for ArrayDecoder<'a> {
    type V = ArrayView;

    closed spec fn view(&self) -> ArrayView {
        ArrayView {
            cursor: self.cursor@,
            item_tag: self.item_tag,
            stride: self.stride as int,
            remaining: self.remaining as int,
        }
    }
}

impl<'a> ArrayDecoder<'a> {
    #[verifier::type_invariant]
    spec fn inv(self) -> bool {
        self@.wf()
    }

    /// Reads the header of an array body.
    fn parse(bytes: &'a [u8]) -> (r: Result<Self>)
        ensures
            match sp_array_header(bytes@) {
                Ok(a) => r matches Ok(d) && d@ == a,
                Err(e) => r is Err && r == Err::<Self, Error>(e),
            },
    {
        let mut inner = Cursor::new(bytes);
        let item_tag_byte = inner.read_byte()?;
        let item_tag = match Tag::from_u8(item_tag_byte) {
            Some(t) => t,
            None => return Err(Error::InvalidTag(item_tag_byte)),
        };
        let stride_bytes = inner.read_bytes(4)?;
        let stride = read_u32(stride_bytes) as usize;
        let header_size: usize = 5;
        let payload_len = bytes.len() - header_size;
        if stride == 0 || payload_len % stride != 0 {
            return Err(Error::Malformed);
        }
        let count = payload_len / stride;
        proof {
            vstd::arithmetic::div_mod::lemma_fundamental_div_mod(payload_len as int, stride as int);
            assert(count * stride == payload_len) by (nonlinear_arith)
                requires
                    payload_len == stride * (payload_len / stride) + payload_len % stride,
                    payload_len % stride == 0,
                    count == payload_len / stride,
            ;
        }
        Ok(ArrayDecoder { cursor: inner, item_tag, stride, remaining: count })
    }

    pub fn item_tag(&self) -> (t: Tag)
        ensures
            t == self@.item_tag,
    {
        self.item_tag
    }

    pub fn stride(&self) -> (s: usize)
        ensures
            s == self@.stride,
            self@.wf(),
    {
        proof {
            use_type_invariant(self);
        }
        self.stride
    }

    pub fn remaining(&self) -> (n: usize)
        ensures
            n == self@.remaining,
            self@.wf(),
    {
        proof {
            use_type_invariant(self);
        }
        self.remaining
    }

    /// The next item, or `None` after the last one.
    ///
    /// Items of a scalar tag must be at least as wide as the scalar.
    pub fn next(&mut self) -> (r: Result<Option<ValueDecoder<'a>>>)
        requires
            old(self)@.remaining > 0 ==> (old(self)@.item_tag.spec_fixed_size() matches Some(n) ==> n
                <= old(self)@.stride),
        ensures
            ({
                let a = old(self)@;
                if a.remaining == 0 {
                    r matches Ok(None) && final(self)@ == a
                } else {
                    let c1 = a.cursor.advance(a.stride);
                    let item = a.cursor.data.subrange(a.cursor.pos, a.cursor.pos + a.stride);
                    &&& final(self)@ == (ArrayView { cursor: c1, remaining: a.remaining - 1, ..a })
                    &&& match sp_untagged(a.item_tag, item) {
                        Ok(m) => r matches Ok(Some(v)) && v@ == m,
                        Err(e) => r == Err::<Option<ValueDecoder<'a>>, Error>(e),
                    }
                }
            }),
    {
        proof {
            use_type_invariant(&*self);
        }
        if self.remaining == 0 {
            return Ok(None);
        }
        let ghost a = self@;
        proof {
            assert((a.remaining - 1) * a.stride + a.stride == a.remaining * a.stride)
                by (nonlinear_arith);
        }
        let mut cursor = self.cursor;
        let bytes = cursor.read_bytes(self.stride)?;
        self.remaining = self.remaining - 1;
        self.cursor = cursor;
        let value = ValueDecoder::from_untagged_bytes(self.item_tag, bytes)?;
        Ok(Some(value))
    }

    /// Moves past all remaining items.
    pub fn skip_all(&mut self) -> (r: Result<()>)
        ensures
            r is Ok,
            final(self)@ == (ArrayView {
                cursor: old(self)@.cursor.advance(old(self)@.remaining * old(self)@.stride),
                remaining: 0,
                ..old(self)@
            }),
    {
        proof {
            use_type_invariant(&*self);
        }
        if self.remaining > 0 {
            let skip = self.remaining * self.stride;
            let mut cursor = self.cursor;
            assert(cursor@.need(skip as int) is None);
            cursor.skip(skip)?;
            self.remaining = 0;
            self.cursor = cursor;
        } else {
            assert(self@.remaining * self@.stride == 0) by (nonlinear_arith)
                requires
                    self@.remaining == 0,
            ;
        }
        Ok(())
    }

    /// Reads the next item as a value of the given scalar tag and size.
    fn next_scalar(&mut self, tag: Tag, size: usize) -> (r: Result<Option<&'a [u8]>>)
        ensures
            ({
                let a = old(self)@;
                if a.remaining == 0 {
                    r matches Ok(None) && final(self)@ == a
                } else if a.item_tag != tag {
                    r == Err::<Option<&'a [u8]>, Error>(Error::TypeMismatch) && final(self)@ == a
                } else if a.stride != size {
                    r == Err::<Option<&'a [u8]>, Error>(Error::Malformed) && final(self)@ == a
                } else {
                    &&& r matches Ok(Some(b)) && b@ == a.cursor.data.subrange(
                        a.cursor.pos,
                        a.cursor.pos + a.stride,
                    ) && b@.len() == size
                    &&& final(self)@ == (ArrayView {
                        cursor: a.cursor.advance(a.stride),
                        remaining: a.remaining - 1,
                        ..a
                    })
                }
            }),
    {
        proof {
            use_type_invariant(&*self);
        }
        if self.remaining == 0 {
            return Ok(None);
        }
        if self.item_tag != tag {
            return Err(Error::TypeMismatch);
        }
        if self.stride != size {
            return Err(Error::Malformed);
        }
        let ghost a = self@;
        proof {
            assert((a.remaining - 1) * a.stride + a.stride == a.remaining * a.stride)
                by (nonlinear_arith);
        }
        let mut cursor = self.cursor;
        let bytes = cursor.read_bytes(self.stride)?;
        self.remaining = self.remaining - 1;
        self.cursor = cursor;
        Ok(Some(bytes))
    }

    /// The next item as a `Bool` scalar, or `None` after the last one.
    pub fn bool(&mut self) -> (r: Result<Option<bool>>)
        ensures
            ({
                let a = old(self)@;
                if a.remaining == 0 {
                    r == Ok::<Option<bool>, Error>(None) && final(self)@ == a
                } else if a.item_tag != Tag::Bool {
                    r == Err::<Option<bool>, Error>(Error::TypeMismatch) && final(self)@ == a
                } else if a.stride != 1 {
                    r == Err::<Option<bool>, Error>(Error::Malformed) && final(self)@ == a
                } else {
                    &&& r == Ok::<Option<bool>, Error>(
                        Some(bool_of(a.cursor.data.subrange(a.cursor.pos, a.cursor.pos + 1))),
                    )
                    &&& final(self)@ == (ArrayView {
                        cursor: a.cursor.advance(1),
                        remaining: a.remaining - 1,
                        ..a
                    })
                }
            }),
    {
        match self.next_scalar(Tag::Bool, 1)? {
            Some(b) => Ok(Some(b[0] != 0)),
            None => Ok(None),
        }
    }

    /// The next item as a `U8` scalar, or `None` after the last one.
    pub fn u8(&mut self) -> (r: Result<Option<u8>>)
        ensures
            ({
                let a = old(self)@;
                if a.remaining == 0 {
                    r == Ok::<Option<u8>, Error>(None) && final(self)@ == a
                } else if a.item_tag != Tag::U8 {
                    r == Err::<Option<u8>, Error>(Error::TypeMismatch) && final(self)@ == a
                } else if a.stride != 1 {
                    r == Err::<Option<u8>, Error>(Error::Malformed) && final(self)@ == a
                } else {
                    &&& r == Ok::<Option<u8>, Error>(
                        Some(u8_of(a.cursor.data.subrange(a.cursor.pos, a.cursor.pos + 1))),
                    )
                    &&& final(self)@ == (ArrayView {
                        cursor: a.cursor.advance(1),
                        remaining: a.remaining - 1,
                        ..a
                    })
                }
            }),
    {
        match self.next_scalar(Tag::U8, 1)? {
            Some(b) => Ok(Some(b[0])),
            None => Ok(None),
        }
    }

    /// The next item as a `S8` scalar, or `None` after the last one.
    pub fn i8(&mut self) -> (r: Result<Option<i8>>)
        ensures
            ({
                let a = old(self)@;
                if a.remaining == 0 {
                    r == Ok::<Option<i8>, Error>(None) && final(self)@ == a
                } else if a.item_tag != Tag::S8 {
                    r == Err::<Option<i8>, Error>(Error::TypeMismatch) && final(self)@ == a
                } else if a.stride != 1 {
                    r == Err::<Option<i8>, Error>(Error::Malformed) && final(self)@ == a
                } else {
                    &&& r == Ok::<Option<i8>, Error>(
                        Some(i8_of(a.cursor.data.subrange(a.cursor.pos, a.cursor.pos + 1))),
                    )
                    &&& final(self)@ == (ArrayView {
                        cursor: a.cursor.advance(1),
                        remaining: a.remaining - 1,
                        ..a
                    })
                }
            }),
    {
        match self.next_scalar(Tag::S8, 1)? {
            Some(b) => Ok(Some(b[0] as i8)),
            None => Ok(None),
        }
    }

    /// The next item as a `U16` scalar, or `None` after the last one.
    pub fn u16(&mut self) -> (r: Result<Option<u16>>)
        ensures
            ({
                let a = old(self)@;
                if a.remaining == 0 {
                    r == Ok::<Option<u16>, Error>(None) && final(self)@ == a
                } else if a.item_tag != Tag::U16 {
                    r == Err::<Option<u16>, Error>(Error::TypeMismatch) && final(self)@ == a
                } else if a.stride != 2 {
                    r == Err::<Option<u16>, Error>(Error::Malformed) && final(self)@ == a
                } else {
                    &&& r == Ok::<Option<u16>, Error>(
                        Some(u16_of(a.cursor.data.subrange(a.cursor.pos, a.cursor.pos + 2))),
                    )
                    &&& final(self)@ == (ArrayView {
                        cursor: a.cursor.advance(2),
                        remaining: a.remaining - 1,
                        ..a
                    })
                }
            }),
    {
        match self.next_scalar(Tag::U16, 2)? {
            Some(b) => Ok(Some(read_u16(b))),
            None => Ok(None),
        }
    }

    /// The next item as a `S16` scalar, or `None` after the last one.
    pub fn i16(&mut self) -> (r: Result<Option<i16>>)
        ensures
            ({
                let a = old(self)@;
                if a.remaining == 0 {
                    r == Ok::<Option<i16>, Error>(None) && final(self)@ == a
                } else if a.item_tag != Tag::S16 {
                    r == Err::<Option<i16>, Error>(Error::TypeMismatch) && final(self)@ == a
                } else if a.stride != 2 {
                    r == Err::<Option<i16>, Error>(Error::Malformed) && final(self)@ == a
                } else {
                    &&& r == Ok::<Option<i16>, Error>(
                        Some(i16_of(a.cursor.data.subrange(a.cursor.pos, a.cursor.pos + 2))),
                    )
                    &&& final(self)@ == (ArrayView {
                        cursor: a.cursor.advance(2),
                        remaining: a.remaining - 1,
                        ..a
                    })
                }
            }),
    {
        match self.next_scalar(Tag::S16, 2)? {
            Some(b) => Ok(Some(read_u16(b) as i16)),
            None => Ok(None),
        }
    }

    /// The next item as a `U32` scalar, or `None` after the last one.
    pub fn u32(&mut self) -> (r: Result<Option<u32>>)
        ensures
            ({
                let a = old(self)@;
                if a.remaining == 0 {
                    r == Ok::<Option<u32>, Error>(None) && final(self)@ == a
                } else if a.item_tag != Tag::U32 {
                    r == Err::<Option<u32>, Error>(Error::TypeMismatch) && final(self)@ == a
                } else if a.stride != 4 {
                    r == Err::<Option<u32>, Error>(Error::Malformed) && final(self)@ == a
                } else {
                    &&& r == Ok::<Option<u32>, Error>(
                        Some(u32_of(a.cursor.data.subrange(a.cursor.pos, a.cursor.pos + 4))),
                    )
                    &&& final(self)@ == (ArrayView {
                        cursor: a.cursor.advance(4),
                        remaining: a.remaining - 1,
                        ..a
                    })
                }
            }),
    {
        match self.next_scalar(Tag::U32, 4)? {
            Some(b) => Ok(Some(read_u32(b))),
            None => Ok(None),
        }
    }

    /// The next item as a `S32` scalar, or `None` after the last one.
    pub fn i32(&mut self) -> (r: Result<Option<i32>>)
        ensures
            ({
                let a = old(self)@;
                if a.remaining == 0 {
                    r == Ok::<Option<i32>, Error>(None) && final(self)@ == a
                } else if a.item_tag != Tag::S32 {
                    r == Err::<Option<i32>, Error>(Error::TypeMismatch) && final(self)@ == a
                } else if a.stride != 4 {
                    r == Err::<Option<i32>, Error>(Error::Malformed) && final(self)@ == a
                } else {
                    &&& r == Ok::<Option<i32>, Error>(
                        Some(i32_of(a.cursor.data.subrange(a.cursor.pos, a.cursor.pos + 4))),
                    )
                    &&& final(self)@ == (ArrayView {
                        cursor: a.cursor.advance(4),
                        remaining: a.remaining - 1,
                        ..a
                    })
                }
            }),
    {
        match self.next_scalar(Tag::S32, 4)? {
            Some(b) => Ok(Some(read_u32(b) as i32)),
            None => Ok(None),
        }
    }

    /// The next item as a `U64` scalar, or `None` after the last one.
    pub fn u64(&mut self) -> (r: Result<Option<u64>>)
        ensures
            ({
                let a = old(self)@;
                if a.remaining == 0 {
                    r == Ok::<Option<u64>, Error>(None) && final(self)@ == a
                } else if a.item_tag != Tag::U64 {
                    r == Err::<Option<u64>, Error>(Error::TypeMismatch) && final(self)@ == a
                } else if a.stride != 8 {
                    r == Err::<Option<u64>, Error>(Error::Malformed) && final(self)@ == a
                } else {
                    &&& r == Ok::<Option<u64>, Error>(
                        Some(u64_of(a.cursor.data.subrange(a.cursor.pos, a.cursor.pos + 8))),
                    )
                    &&& final(self)@ == (ArrayView {
                        cursor: a.cursor.advance(8),
                        remaining: a.remaining - 1,
                        ..a
                    })
                }
            }),
    {
        match self.next_scalar(Tag::U64, 8)? {
            Some(b) => Ok(Some(read_u64(b))),
            None => Ok(None),
        }
    }

    /// The next item as a `S64` scalar, or `None` after the last one.
    pub fn i64(&mut self) -> (r: Result<Option<i64>>)
        ensures
            ({
                let a = old(self)@;
                if a.remaining == 0 {
                    r == Ok::<Option<i64>, Error>(None) && final(self)@ == a
                } else if a.item_tag != Tag::S64 {
                    r == Err::<Option<i64>, Error>(Error::TypeMismatch) && final(self)@ == a
                } else if a.stride != 8 {
                    r == Err::<Option<i64>, Error>(Error::Malformed) && final(self)@ == a
                } else {
                    &&& r == Ok::<Option<i64>, Error>(
                        Some(i64_of(a.cursor.data.subrange(a.cursor.pos, a.cursor.pos + 8))),
                    )
                    &&& final(self)@ == (ArrayView {
                        cursor: a.cursor.advance(8),
                        remaining: a.remaining - 1,
                        ..a
                    })
                }
            }),
    {
        match self.next_scalar(Tag::S64, 8)? {
            Some(b) => Ok(Some(read_u64(b) as i64)),
            None => Ok(None),
        }
    }

    /// The next item as a `F32` scalar, or `None` after the last one.
    pub fn f32_bits(&mut self) -> (r: Result<Option<u32>>)
        ensures
            ({
                let a = old(self)@;
                if a.remaining == 0 {
                    r == Ok::<Option<u32>, Error>(None) && final(self)@ == a
                } else if a.item_tag != Tag::F32 {
                    r == Err::<Option<u32>, Error>(Error::TypeMismatch) && final(self)@ == a
                } else if a.stride != 4 {
                    r == Err::<Option<u32>, Error>(Error::Malformed) && final(self)@ == a
                } else {
                    &&& r == Ok::<Option<u32>, Error>(
                        Some(u32_of(a.cursor.data.subrange(a.cursor.pos, a.cursor.pos + 4))),
                    )
                    &&& final(self)@ == (ArrayView {
                        cursor: a.cursor.advance(4),
                        remaining: a.remaining - 1,
                        ..a
                    })
                }
            }),
    {
        match self.next_scalar(Tag::F32, 4)? {
            Some(b) => Ok(Some(read_u32(b))),
            None => Ok(None),
        }
    }

    /// The next item as a `F64` scalar, or `None` after the last one.
    pub fn f64_bits(&mut self) -> (r: Result<Option<u64>>)
        ensures
            ({
                let a = old(self)@;
                if a.remaining == 0 {
                    r == Ok::<Option<u64>, Error>(None) && final(self)@ == a
                } else if a.item_tag != Tag::F64 {
                    r == Err::<Option<u64>, Error>(Error::TypeMismatch) && final(self)@ == a
                } else if a.stride != 8 {
                    r == Err::<Option<u64>, Error>(Error::Malformed) && final(self)@ == a
                } else {
                    &&& r == Ok::<Option<u64>, Error>(
                        Some(u64_of(a.cursor.data.subrange(a.cursor.pos, a.cursor.pos + 8))),
                    )
                    &&& final(self)@ == (ArrayView {
                        cursor: a.cursor.advance(8),
                        remaining: a.remaining - 1,
                        ..a
                    })
                }
            }),
    {
        match self.next_scalar(Tag::F64, 8)? {
            Some(b) => Ok(Some(read_u64(b))),
            None => Ok(None),
        }
    }
}

// ===========================================================================
// Values
// ===========================================================================

/// A decoded value. Floats are carried as their IEEE-754 bits; lists,
/// mappings and arrays as decoders of their contents.
#[derive(Debug)]
pub enum ValueDecoder<'a> {
    Bool(bool),
    U8(u8),
    S8(i8),
    U16(u16),
    S16(i16),
    U32(u32),
    S32(i32),
    U64(u64),
    S64(i64),
    F32(u32),
    F64(u64),
    Bytes(&'a [u8]),
    Struct(&'a [u8]),
    Str(&'a str),
    List(ListDecoder<'a>),
    Mapping(MapDecoder<'a>),
    Array(ArrayDecoder<'a>),
}

impl<'a> View for ValueDecoder<'a> {
    type V = ValueModel;

    open spec fn view(&self) -> ValueModel {
        match self {
            ValueDecoder::Bool(v) => ValueModel::Bool(*v),
            ValueDecoder::U8(v) => ValueModel::U8(*v),
            ValueDecoder::S8(v) => ValueModel::S8(*v),
            ValueDecoder::U16(v) => ValueModel::U16(*v),
            ValueDecoder::S16(v) => ValueModel::S16(*v),
            ValueDecoder::U32(v) => ValueModel::U32(*v),
            ValueDecoder::S32(v) => ValueModel::S32(*v),
            ValueDecoder::U64(v) => ValueModel::U64(*v),
            ValueDecoder::S64(v) => ValueModel::S64(*v),
            ValueDecoder::F32(v) => ValueModel::F32(*v),
            ValueDecoder::F64(v) => ValueModel::F64(*v),
            ValueDecoder::Bytes(b) => ValueModel::Bytes(b@),
            ValueDecoder::Struct(b) => ValueModel::Struct(b@),
            ValueDecoder::Str(s) => ValueModel::Str(s@),
            ValueDecoder::List(l) => ValueModel::List(l@.0, l@.1),
            ValueDecoder::Mapping(m) => ValueModel::Mapping(m@.0, m@.1),
            ValueDecoder::Array(a) => ValueModel::Array(a@),
        }
    }
}

impl<'a> ValueDecoder<'a> {
    /// Decodes a value of the given tag from its payload bytes.
    ///
    /// The bytes of a scalar must be at least as many as its size.
    pub fn from_untagged_bytes(tag: Tag, bytes: &'a [u8]) -> (r: Result<Self>)
        requires
            tag.spec_fixed_size() matches Some(n) ==> n <= bytes@.len(),
        ensures
            match sp_untagged(tag, bytes@) {
                Ok(m) => r matches Ok(v) && v@ == m,
                Err(e) => r is Err && r == Err::<Self, Error>(e),
            },
    {
        match tag {
            Tag::Bool => Ok(ValueDecoder::Bool(bytes[0] != 0)),
            Tag::U8 => Ok(ValueDecoder::U8(bytes[0])),
            Tag::S8 => Ok(ValueDecoder::S8(bytes[0] as i8)),
            Tag::U16 => Ok(ValueDecoder::U16(read_u16(bytes))),
            Tag::S16 => Ok(ValueDecoder::S16(read_u16(bytes) as i16)),
            Tag::U32 => Ok(ValueDecoder::U32(read_u32(bytes))),
            Tag::S32 => Ok(ValueDecoder::S32(read_u32(bytes) as i32)),
            Tag::U64 => Ok(ValueDecoder::U64(read_u64(bytes))),
            Tag::S64 => Ok(ValueDecoder::S64(read_u64(bytes) as i64)),
            Tag::F32 => Ok(ValueDecoder::F32(read_u32(bytes))),
            Tag::F64 => Ok(ValueDecoder::F64(read_u64(bytes))),
            Tag::Bytes => Ok(ValueDecoder::Bytes(bytes)),
            Tag::Struct => Ok(ValueDecoder::Struct(bytes)),
            Tag::String => {
                let s = text_of(bytes)?;
                Ok(ValueDecoder::Str(s))
            },
            Tag::List => Ok(
                ValueDecoder::List(ListDecoder { cursor: Cursor::new(bytes), end_pos: bytes.len() }),
            ),
            Tag::Mapping => Ok(
                ValueDecoder::Mapping(MapDecoder { cursor: Cursor::new(bytes), end_pos: bytes.len() }),
            ),
            Tag::Array => {
                let a = ArrayDecoder::parse(bytes)?;
                Ok(ValueDecoder::Array(a))
            },
        }
    }

    /// Reads the next value of a decoder, whatever its tag.
    pub fn read(decoder: &mut Decoder<'a>) -> (r: Result<Self>)
        ensures
            final(decoder)@ == sp_read_value(old(decoder)@).1,
            match sp_read_value(old(decoder)@).0 {
                Ok(m) => r matches Ok(v) && v@ == m,
                Err(e) => r is Err && r == Err::<Self, Error>(e),
            },
    {
        let tag = decoder.read_tag()?;
        let len = match tag.fixed_size() {
            Some(n) => n,
            None => decoder.read_len()?,
        };
        let bytes = decoder.cursor.read_bytes(len)?;
        Self::from_untagged_bytes(tag, bytes)
    }

    /// The text of a string value.
    pub fn as_str(&self) -> (r: Result<&'a str>)
        ensures
            match self@ {
                ValueModel::Str(s) => r matches Ok(t) && t@ == s,
                _ => r == Err::<&str, Error>(Error::TypeMismatch),
            },
    {
        match self {
            ValueDecoder::Str(v) => Ok(*v),
            _ => Err(Error::TypeMismatch),
        }
    }

    /// The bytes of a byte blob value.
    pub fn as_bytes(&self) -> (r: Result<&'a [u8]>)
        ensures
            match self@ {
                ValueModel::Bytes(b) => r matches Ok(t) && t@ == b,
                _ => r == Err::<&[u8], Error>(Error::TypeMismatch),
            },
    {
        match self {
            ValueDecoder::Bytes(v) => Ok(*v),
            _ => Err(Error::TypeMismatch),
        }
    }

    pub fn as_bool(&self) -> (r: Result<bool>)
        ensures
            match self@ {
                ValueModel::Bool(v) => r == Ok::<bool, Error>(v),
                _ => r == Err::<bool, Error>(Error::TypeMismatch),
            },
    {
        match self {
            ValueDecoder::Bool(v) => Ok(*v),
            _ => Err(Error::TypeMismatch),
        }
    }

    pub fn as_u8(&self) -> (r: Result<u8>)
        ensures
            match self@ {
                ValueModel::U8(v) => r == Ok::<u8, Error>(v),
                _ => r == Err::<u8, Error>(Error::TypeMismatch),
            },
    {
        match self {
            ValueDecoder::U8(v) => Ok(*v),
            _ => Err(Error::TypeMismatch),
        }
    }

    pub fn as_i8(&self) -> (r: Result<i8>)
        ensures
            match self@ {
                ValueModel::S8(v) => r == Ok::<i8, Error>(v),
                _ => r == Err::<i8, Error>(Error::TypeMismatch),
            },
    {
        match self {
            ValueDecoder::S8(v) => Ok(*v),
            _ => Err(Error::TypeMismatch),
        }
    }

    pub fn as_u16(&self) -> (r: Result<u16>)
        ensures
            match self@ {
                ValueModel::U16(v) => r == Ok::<u16, Error>(v),
                _ => r == Err::<u16, Error>(Error::TypeMismatch),
            },
    {
        match self {
            ValueDecoder::U16(v) => Ok(*v),
            _ => Err(Error::TypeMismatch),
        }
    }

    pub fn as_i16(&self) -> (r: Result<i16>)
        ensures
            match self@ {
                ValueModel::S16(v) => r == Ok::<i16, Error>(v),
                _ => r == Err::<i16, Error>(Error::TypeMismatch),
            },
    {
        match self {
            ValueDecoder::S16(v) => Ok(*v),
            _ => Err(Error::TypeMismatch),
        }
    }

    pub fn as_u32(&self) -> (r: Result<u32>)
        ensures
            match self@ {
                ValueModel::U32(v) => r == Ok::<u32, Error>(v),
                _ => r == Err::<u32, Error>(Error::TypeMismatch),
            },
    {
        match self {
            ValueDecoder::U32(v) => Ok(*v),
            _ => Err(Error::TypeMismatch),
        }
    }

    pub fn as_i32(&self) -> (r: Result<i32>)
        ensures
            match self@ {
                ValueModel::S32(v) => r == Ok::<i32, Error>(v),
                _ => r == Err::<i32, Error>(Error::TypeMismatch),
            },
    {
        match self {
            ValueDecoder::S32(v) => Ok(*v),
            _ => Err(Error::TypeMismatch),
        }
    }

    pub fn as_u64(&self) -> (r: Result<u64>)
        ensures
            match self@ {
                ValueModel::U64(v) => r == Ok::<u64, Error>(v),
                _ => r == Err::<u64, Error>(Error::TypeMismatch),
            },
    {
        match self {
            ValueDecoder::U64(v) => Ok(*v),
            _ => Err(Error::TypeMismatch),
        }
    }

    pub fn as_i64(&self) -> (r: Result<i64>)
        ensures
            match self@ {
                ValueModel::S64(v) => r == Ok::<i64, Error>(v),
                _ => r == Err::<i64, Error>(Error::TypeMismatch),
            },
    {
        match self {
            ValueDecoder::S64(v) => Ok(*v),
            _ => Err(Error::TypeMismatch),
        }
    }

    pub fn as_f32_bits(&self) -> (r: Result<u32>)
        ensures
            match self@ {
                ValueModel::F32(v) => r == Ok::<u32, Error>(v),
                _ => r == Err::<u32, Error>(Error::TypeMismatch),
            },
    {
        match self {
            ValueDecoder::F32(v) => Ok(*v),
            _ => Err(Error::TypeMismatch),
        }
    }

    pub fn as_f64_bits(&self) -> (r: Result<u64>)
        ensures
            match self@ {
                ValueModel::F64(v) => r == Ok::<u64, Error>(v),
                _ => r == Err::<u64, Error>(Error::TypeMismatch),
            },
    {
        match self {
            ValueDecoder::F64(v) => Ok(*v),
            _ => Err(Error::TypeMismatch),
        }
    }
}

// ===========================================================================
// Records
// ===========================================================================

/// Reads the fields of a record body in order, without tags.
pub struct RecordDecoder<'a> {
    cursor: Cursor<'a>,
    end: usize,
}

impl<'a> View for RecordDecoder<'a> {
    type V = (CursorView, int);

    closed spec fn view(&self) -> (CursorView, int) {
        (self.cursor@, self.end as int)
    }
}

impl<'a> RecordDecoder<'a> {
    pub fn new(data: &'a [u8]) -> (d: Self)
        ensures
            d@ == (CursorView::fresh(data@), data@.len() as int),
    {
        Self { end: data.len(), cursor: Cursor::new(data) }
    }

    pub fn new_unchecked(data: &'a [u8]) -> (d: Self)
        ensures
            d@ == (CursorView::fresh(data@), data@.len() as int),
    {
        Self { end: data.len(), cursor: Cursor::new(data) }
    }

    /// Bytes not yet read.
    pub fn remaining(&self) -> (n: usize)
        ensures
            n == self@.0.remaining(),
    {
        self.cursor.remaining()
    }

    /// The bytes not yet read. A record decoder starts at the beginning of
    /// its bytes and reads never move it past their end.
    pub fn raw(&self) -> (s: &'a [u8])
        requires
            self@.0.pos <= self@.0.data.len(),
        ensures
            s@ == self@.0.data.subrange(self@.0.pos, self@.0.data.len() as int),
    {
        self.cursor.as_slice()
    }

    /// Reads `len` raw bytes.
    pub fn bytes(&mut self, len: usize) -> (r: Result<&'a [u8]>)
        ensures
            final(self)@ == (old(self)@.0.read(len as int).1, old(self)@.1),
            match r {
                Ok(b) => old(self)@.0.read(len as int).0 == Ok::<Seq<u8>, Error>(b@),
                Err(e) => old(self)@.0.read(len as int).0 == Err::<Seq<u8>, Error>(e),
            },
    {
        self.cursor.read_bytes(len)
    }

    /// Reads the next 1-byte field as a `bool`.
    pub fn bool(&mut self) -> (r: Result<bool>)
        ensures
            final(self)@ == (old(self)@.0.read(1).1, old(self)@.1),
            match old(self)@.0.read(1).0 {
                Ok(b) => r == Ok::<bool, Error>(bool_of(b)),
                Err(e) => r == Err::<bool, Error>(e),
            },
    {
        let b = self.cursor.read_bytes(1)?;
        Ok(b[0] != 0)
    }

    /// Reads the next 1-byte field as a `u8`.
    pub fn u8(&mut self) -> (r: Result<u8>)
        ensures
            final(self)@ == (old(self)@.0.read(1).1, old(self)@.1),
            match old(self)@.0.read(1).0 {
                Ok(b) => r == Ok::<u8, Error>(u8_of(b)),
                Err(e) => r == Err::<u8, Error>(e),
            },
    {
        let b = self.cursor.read_bytes(1)?;
        Ok(b[0])
    }

    /// Reads the next 1-byte field as a `i8`.
    pub fn i8(&mut self) -> (r: Result<i8>)
        ensures
            final(self)@ == (old(self)@.0.read(1).1, old(self)@.1),
            match old(self)@.0.read(1).0 {
                Ok(b) => r == Ok::<i8, Error>(i8_of(b)),
                Err(e) => r == Err::<i8, Error>(e),
            },
    {
        let b = self.cursor.read_bytes(1)?;
        Ok(b[0] as i8)
    }

    /// Reads the next 2-byte field as a `u16`.
    pub fn u16(&mut self) -> (r: Result<u16>)
        ensures
            final(self)@ == (old(self)@.0.read(2).1, old(self)@.1),
            match old(self)@.0.read(2).0 {
                Ok(b) => r == Ok::<u16, Error>(u16_of(b)),
                Err(e) => r == Err::<u16, Error>(e),
            },
    {
        let b = self.cursor.read_bytes(2)?;
        Ok(read_u16(b))
    }

    /// Reads the next 2-byte field as a `i16`.
    pub fn i16(&mut self) -> (r: Result<i16>)
        ensures
            final(self)@ == (old(self)@.0.read(2).1, old(self)@.1),
            match old(self)@.0.read(2).0 {
                Ok(b) => r == Ok::<i16, Error>(i16_of(b)),
                Err(e) => r == Err::<i16, Error>(e),
            },
    {
        let b = self.cursor.read_bytes(2)?;
        Ok(read_u16(b) as i16)
    }

    /// Reads the next 4-byte field as a `u32`.
    pub fn u32(&mut self) -> (r: Result<u32>)
        ensures
            final(self)@ == (old(self)@.0.read(4).1, old(self)@.1),
            match old(self)@.0.read(4).0 {
                Ok(b) => r == Ok::<u32, Error>(u32_of(b)),
                Err(e) => r == Err::<u32, Error>(e),
            },
    {
        let b = self.cursor.read_bytes(4)?;
        Ok(read_u32(b))
    }

    /// Reads the next 4-byte field as a `i32`.
    pub fn i32(&mut self) -> (r: Result<i32>)
        ensures
            final(self)@ == (old(self)@.0.read(4).1, old(self)@.1),
            match old(self)@.0.read(4).0 {
                Ok(b) => r == Ok::<i32, Error>(i32_of(b)),
                Err(e) => r == Err::<i32, Error>(e),
            },
    {
        let b = self.cursor.read_bytes(4)?;
        Ok(read_u32(b) as i32)
    }

    /// Reads the next 8-byte field as a `u64`.
    pub fn u64(&mut self) -> (r: Result<u64>)
        ensures
            final(self)@ == (old(self)@.0.read(8).1, old(self)@.1),
            match old(self)@.0.read(8).0 {
                Ok(b) => r == Ok::<u64, Error>(u64_of(b)),
                Err(e) => r == Err::<u64, Error>(e),
            },
    {
        let b = self.cursor.read_bytes(8)?;
        Ok(read_u64(b))
    }

    /// Reads the next 8-byte field as a `i64`.
    pub fn i64(&mut self) -> (r: Result<i64>)
        ensures
            final(self)@ == (old(self)@.0.read(8).1, old(self)@.1),
            match old(self)@.0.read(8).0 {
                Ok(b) => r == Ok::<i64, Error>(i64_of(b)),
                Err(e) => r == Err::<i64, Error>(e),
            },
    {
        let b = self.cursor.read_bytes(8)?;
        Ok(read_u64(b) as i64)
    }

    /// Reads the next 4-byte field as a `u32`.
    pub fn f32_bits(&mut self) -> (r: Result<u32>)
        ensures
            final(self)@ == (old(self)@.0.read(4).1, old(self)@.1),
            match old(self)@.0.read(4).0 {
                Ok(b) => r == Ok::<u32, Error>(u32_of(b)),
                Err(e) => r == Err::<u32, Error>(e),
            },
    {
        let b = self.cursor.read_bytes(4)?;
        Ok(read_u32(b))
    }

    /// Reads the next 8-byte field as a `u64`.
    pub fn f64_bits(&mut self) -> (r: Result<u64>)
        ensures
            final(self)@ == (old(self)@.0.read(8).1, old(self)@.1),
            match old(self)@.0.read(8).0 {
                Ok(b) => r == Ok::<u64, Error>(u64_of(b)),
                Err(e) => r == Err::<u64, Error>(e),
            },
    {
        let b = self.cursor.read_bytes(8)?;
        Ok(read_u64(b))
    }
}

} // verus!
