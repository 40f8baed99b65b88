//! Component-model values and their isopack form.
//!
//! A [`WireVal`] holds, as plain values, what the encoder reads of a
//! component-model value; a [`WireType`] says what the decoder is to read.
//! Scalars are written as isopack scalars (a `char` as its `u32` scalar
//! value, floats by their IEEE bits), strings as strings, and lists, tuples
//! and records as lists of their items (a record's field names are not
//! written). Flags are written as a list of their names. Resources,
//! futures, streams and error contexts cannot be written.
//!
//! The decoder reads scalars, characters, strings and flags; it reads a
//! list only when it is empty, and refuses records, tuples, variants and
//! enums. An option or a result is read as a value and refused, since the
//! format has no option or result value.

use vstd::prelude::*;
use vstd::utf8::{encode_utf8, encode_utf8_valid_utf8, encode_utf8_decode_utf8};
use vstd::string::StringExecFns;

use crate::cursor::CursorView;
use crate::decoder::{Decoder, ValueModel, sp_expect_scalar, sp_expect_blob, sp_text, sp_read_value};
use crate::encoder::Encoder;
use crate::laws::{law_finish_frames, law_scalar_roundtrip, law_framed_roundtrip, law_text_roundtrip, law_payload_roundtrip, law_read_value_framed, at};
use crate::ledger::WireType;
use crate::types::{Error, Result, Tag};
use crate::wire::{bool_bytes, u8_bytes, i8_bytes, u16_bytes, i16_bytes, u32_bytes, i32_bytes, u64_bytes, i64_bytes};
use crate::wire::{bool_of, u8_of, i8_of, u16_of, i16_of, u32_of, i32_of, u64_of, i64_of};
use crate::wire::{enc_scalar, enc_framed, lemma_len_prefix};

verus! {

// =============================================================================
// Values
// =============================================================================

/// A component-model value.
#[derive(Debug)]
pub enum WireVal {
    Bool(bool),
    U8(u8),
    S8(i8),
    U16(u16),
    S16(i16),
    U32(u32),
    S32(i32),
    U64(u64),
    S64(i64),
    /// A 32-bit float, by its IEEE bits.
    F32Bits(u32),
    /// A 64-bit float, by its IEEE bits.
    F64Bits(u64),
    Char(char),
    Str(String),
    List(Vec<WireVal>),
    Tuple(Vec<WireVal>),
    /// The values of a record's fields, in order.
    Record(Vec<WireVal>),
    /// The names of the flags that are set.
    Flags(Vec<String>),
    /// A resource handle.
    Resource,
    /// A future.
    Future,
    /// A stream.
    Stream,
    /// An error context.
    ErrorContext,
}

/// The abstract form of a value: texts by their characters.
pub enum ValueView {
    Bool(bool),
    U8(u8),
    S8(i8),
    U16(u16),
    S16(i16),
    U32(u32),
    S32(i32),
    U64(u64),
    S64(i64),
    F32Bits(u32),
    F64Bits(u64),
    Char(char),
    Str(Seq<char>),
    List(Seq<ValueView>),
    Tuple(Seq<ValueView>),
    Record(Seq<ValueView>),
    Flags(Seq<Seq<char>>),
    Resource,
    Future,
    Stream,
    ErrorContext,
}

/// The abstract form of a value.
pub open spec fn val_view(v: WireVal) -> ValueView
    decreases v,
{
    match v {
        WireVal::Bool(x) => ValueView::Bool(x),
        WireVal::U8(x) => ValueView::U8(x),
        WireVal::S8(x) => ValueView::S8(x),
        WireVal::U16(x) => ValueView::U16(x),
        WireVal::S16(x) => ValueView::S16(x),
        WireVal::U32(x) => ValueView::U32(x),
        WireVal::S32(x) => ValueView::S32(x),
        WireVal::U64(x) => ValueView::U64(x),
        WireVal::S64(x) => ValueView::S64(x),
        WireVal::F32Bits(x) => ValueView::F32Bits(x),
        WireVal::F64Bits(x) => ValueView::F64Bits(x),
        WireVal::Char(c) => ValueView::Char(c),
        WireVal::Str(s) => ValueView::Str(s@),
        WireVal::List(items) => ValueView::List(vals_view(items@)),
        WireVal::Tuple(items) => ValueView::Tuple(vals_view(items@)),
        WireVal::Record(items) => ValueView::Record(vals_view(items@)),
        WireVal::Flags(names) => ValueView::Flags(texts_view(names@)),
        WireVal::Resource => ValueView::Resource,
        WireVal::Future => ValueView::Future,
        WireVal::Stream => ValueView::Stream,
        WireVal::ErrorContext => ValueView::ErrorContext,
    }
}

/// The abstract forms of values, in order.
pub open spec fn vals_view(s: Seq<WireVal>) -> Seq<ValueView>
    decreases s,
{
    if s.len() == 0 {
        Seq::empty()
    } else {
        vals_view(s.drop_last()).push(val_view(s.last()))
    }
}

/// The characters of texts, in order.
pub open spec fn texts_view(s: Seq<String>) -> Seq<Seq<char>> {
    s.map_values(|t: String| t@)
}

// =============================================================================
// Encoding
// =============================================================================

/// A scalar written when the buffer holds `at` bytes: refused once the
/// buffer has reached the largest 32-bit length.
pub open spec fn scalar_at(at: nat, tag: Tag, payload: Seq<u8>) -> Result<Seq<u8>> {
    if at < u32::MAX {
        Ok(enc_scalar(tag, payload))
    } else {
        Err(Error::ContainerFull)
    }
}

/// A text written as a string: refused when its UTF-8 bytes do not fit a
/// 32-bit length.
pub open spec fn text_blob(s: Seq<char>) -> Result<Seq<u8>> {
    let b = encode_utf8(s);
    if b.len() <= u32::MAX {
        Ok(enc_framed(Tag::String, b))
    } else {
        Err(Error::BlobTooLarge(b.len() as usize))
    }
}

/// A list opened when the buffer holds `at` bytes, with the given body:
/// refused when the buffer is full, then when the body fails, then when
/// the body does not fit a 32-bit length.
pub open spec fn list_at(at: nat, body: Result<Seq<u8>>) -> Result<Seq<u8>> {
    if at >= u32::MAX {
        Err(Error::ContainerFull)
    } else {
        match body {
            Err(e) => Err(e),
            Ok(b) => if b.len() <= u32::MAX {
                Ok(enc_framed(Tag::List, b))
            } else {
                Err(Error::ContainerFull)
            },
        }
    }
}

/// The bytes that writing `v` appends to a buffer of `at` bytes, or the
/// first error met.
pub open spec fn sp_encode(at: nat, v: WireVal) -> Result<Seq<u8>>
    decreases v,
{
    match v {
        WireVal::Bool(x) => scalar_at(at, Tag::Bool, bool_bytes(x)),
        WireVal::U8(x) => scalar_at(at, Tag::U8, u8_bytes(x)),
        WireVal::S8(x) => scalar_at(at, Tag::S8, i8_bytes(x)),
        WireVal::U16(x) => scalar_at(at, Tag::U16, u16_bytes(x)),
        WireVal::S16(x) => scalar_at(at, Tag::S16, i16_bytes(x)),
        WireVal::U32(x) => scalar_at(at, Tag::U32, u32_bytes(x)),
        WireVal::S32(x) => scalar_at(at, Tag::S32, i32_bytes(x)),
        WireVal::U64(x) => scalar_at(at, Tag::U64, u64_bytes(x)),
        WireVal::S64(x) => scalar_at(at, Tag::S64, i64_bytes(x)),
        WireVal::F32Bits(x) => scalar_at(at, Tag::F32, u32_bytes(x)),
        WireVal::F64Bits(x) => scalar_at(at, Tag::F64, u64_bytes(x)),
        WireVal::Char(c) => scalar_at(at, Tag::U32, u32_bytes(c as u32)),
        WireVal::Str(s) => text_blob(s@),
        WireVal::List(items) => list_at(at, sp_encode_items(at + 5, items@)),
        WireVal::Tuple(items) => list_at(at, sp_encode_items(at + 5, items@)),
        WireVal::Record(items) => list_at(at, sp_encode_items(at + 5, items@)),
        WireVal::Flags(names) => list_at(at, sp_encode_names(names@)),
        _ => Err(Error::Malformed),
    }
}

/// The bytes that writing `items` one after the other appends to a buffer
/// of `at` bytes, or the first error met.
pub open spec fn sp_encode_items(at: nat, items: Seq<WireVal>) -> Result<Seq<u8>>
    decreases items,
{
    if items.len() == 0 {
        Ok(Seq::empty())
    } else {
        match sp_encode_items(at, items.drop_last()) {
            Err(e) => Err(e),
            Ok(b) => match sp_encode(at + b.len(), items.last()) {
                Err(e) => Err(e),
                Ok(b2) => Ok(b + b2),
            },
        }
    }
}

/// The strings of flag names written one after the other, or the first
/// error met.
pub open spec fn sp_encode_names(names: Seq<String>) -> Result<Seq<u8>>
    decreases names.len(),
{
    if names.len() == 0 {
        Ok(Seq::empty())
    } else {
        match sp_encode_names(names.drop_last()) {
            Err(e) => Err(e),
            Ok(b) => match text_blob(names.last()@) {
                Err(e) => Err(e),
                Ok(b2) => Ok(b + b2),
            },
        }
    }
}

/// A list left closed over the body written so far: its length is written
/// when the body fits a 32-bit length, and stays zero otherwise.
pub open spec fn closed_list(body: Seq<u8>) -> Seq<u8> {
    if body.len() <= u32::MAX {
        enc_framed(Tag::List, body)
    } else {
        seq![Tag::List.spec_byte(), 0u8, 0u8, 0u8, 0u8] + body
    }
}

/// The bytes that a failed write of `v` leaves after a buffer of `at`
/// bytes: nothing for a value that is not a container, nor for a container
/// refused at its opening; otherwise the container closed over what was
/// written of its body before the failure.
pub open spec fn sp_left(at: nat, v: WireVal) -> Seq<u8>
    decreases v,
{
    match v {
        WireVal::List(items) => if at >= u32::MAX {
            Seq::empty()
        } else {
            closed_list(sp_left_items(at + 5, items@))
        },
        WireVal::Tuple(items) => if at >= u32::MAX {
            Seq::empty()
        } else {
            closed_list(sp_left_items(at + 5, items@))
        },
        WireVal::Record(items) => if at >= u32::MAX {
            Seq::empty()
        } else {
            closed_list(sp_left_items(at + 5, items@))
        },
        WireVal::Flags(names) => if at >= u32::MAX {
            Seq::empty()
        } else {
            closed_list(sp_left_names(names@))
        },
        _ => Seq::empty(),
    }
}

/// The bytes written of `items` after a buffer of `at` bytes up to the
/// first failure, that item's own leftover included; all of them when
/// none fails.
pub open spec fn sp_left_items(at: nat, items: Seq<WireVal>) -> Seq<u8>
    decreases items,
{
    if items.len() == 0 {
        Seq::empty()
    } else {
        match sp_encode_items(at, items.drop_last()) {
            Err(_) => sp_left_items(at, items.drop_last()),
            Ok(b) => match sp_encode(at + b.len(), items.last()) {
                Ok(b2) => b + b2,
                Err(_) => b + sp_left(at + b.len(), items.last()),
            },
        }
    }
}

/// The strings of flag names written up to the first refused one; all of
/// them when none is refused.
pub open spec fn sp_left_names(names: Seq<String>) -> Seq<u8>
    decreases names.len(),
{
    if names.len() == 0 {
        Seq::empty()
    } else {
        match sp_encode_names(names.drop_last()) {
            Err(_) => sp_left_names(names.drop_last()),
            Ok(b) => match text_blob(names.last()@) {
                Ok(b2) => b + b2,
                Err(_) => b,
            },
        }
    }
}

/// How deeply containers nest in a value.
pub open spec fn depth(v: WireVal) -> nat
    decreases v,
{
    match v {
        WireVal::List(items) => 1 + depth_items(items@),
        WireVal::Tuple(items) => 1 + depth_items(items@),
        WireVal::Record(items) => 1 + depth_items(items@),
        WireVal::Flags(_) => 1,
        _ => 0,
    }
}

/// How deeply containers nest in any of the values.
pub open spec fn depth_items(s: Seq<WireVal>) -> nat
    decreases s,
{
    if s.len() == 0 {
        0
    } else {
        let a = depth_items(s.drop_last());
        let b = depth(s.last());
        if a >= b {
            a
        } else {
            b
        }
    }
}

proof fn lemma_depth_item(s: Seq<WireVal>, i: int)
    requires
        0 <= i < s.len(),
    ensures
        depth(s[i]) <= depth_items(s),
    decreases s.len(),
{
    if i < s.len() - 1 {
        lemma_depth_item(s.drop_last(), i);
    }
}

proof fn lemma_encode_items_prefix(at: nat, items: Seq<WireVal>, k: int)
    requires
        0 <= k <= items.len(),
        sp_encode_items(at, items.take(k)) is Err,
    ensures
        sp_encode_items(at, items) == sp_encode_items(at, items.take(k)),
    decreases items.len() - k,
{
    if k < items.len() {
        assert(items.take(k + 1).drop_last() =~= items.take(k));
        lemma_encode_items_prefix(at, items, k + 1);
    } else {
        assert(items.take(k) =~= items);
    }
}

proof fn lemma_encode_names_prefix(names: Seq<String>, k: int)
    requires
        0 <= k <= names.len(),
        sp_encode_names(names.take(k)) is Err,
    ensures
        sp_encode_names(names) == sp_encode_names(names.take(k)),
    decreases names.len() - k,
{
    if k < names.len() {
        assert(names.take(k + 1).drop_last() =~= names.take(k));
        lemma_encode_names_prefix(names, k + 1);
    } else {
        assert(names.take(k) =~= names);
    }
}

proof fn lemma_left_items_prefix(at: nat, items: Seq<WireVal>, k: int)
    requires
        0 <= k <= items.len(),
        sp_encode_items(at, items.take(k)) is Err,
    ensures
        sp_left_items(at, items) == sp_left_items(at, items.take(k)),
    decreases items.len() - k,
{
    if k < items.len() {
        assert(items.take(k + 1).drop_last() =~= items.take(k));
        lemma_left_items_prefix(at, items, k + 1);
    } else {
        assert(items.take(k) =~= items);
    }
}

proof fn lemma_left_names_prefix(names: Seq<String>, k: int)
    requires
        0 <= k <= names.len(),
        sp_encode_names(names.take(k)) is Err,
    ensures
        sp_left_names(names) == sp_left_names(names.take(k)),
    decreases names.len() - k,
{
    if k < names.len() {
        assert(names.take(k + 1).drop_last() =~= names.take(k));
        lemma_left_names_prefix(names, k + 1);
    } else {
        assert(names.take(k) =~= names);
    }
}

/// Closes the list whose length goes at `off`, over the body written after
/// its header, whether or not that length fits, as a list given up on is
/// closed: the scope ends either way.
fn close_list(enc: &mut Encoder, off: usize, Ghost(w0): Ghost<Seq<u8>>, Ghost(body): Ghost<Seq<u8>>) -> (r: Result<()>)
    requires
        off == w0.len() + 1,
        old(enc).written() == w0 + seq![Tag::List.spec_byte(), 0u8, 0u8, 0u8, 0u8] + body,
        old(enc).scopes() > 0,
    ensures
        body.len() <= u32::MAX <==> r is Ok,
        r is Err ==> r == Err::<(), Error>(Error::ContainerFull),
        final(enc).written() == w0 + closed_list(body),
        final(enc).scopes() == old(enc).scopes() - 1,
        final(enc).flushed() == old(enc).flushed(),
{
    let r = enc.close_container(off);
    proof {
        if body.len() <= u32::MAX {
            law_finish_frames(w0, Tag::List, body);
        }
    }
    r
}

/// Writes a list of the items: its tag and length, then each item. When an
/// item fails, the list is closed over what was written of it and the
/// error is returned.
fn encode_list(items: &Vec<WireVal>, enc: &mut Encoder) -> (r: Result<()>)
    requires
        old(enc).scopes() + 1 + depth_items(items@) <= usize::MAX,
    ensures
        match list_at(old(enc).written().len(), sp_encode_items(old(enc).written().len() + 5, items@)) {
            Ok(b) => r is Ok && final(enc).written() == old(enc).written() + b,
            Err(e) => r == Err::<(), Error>(e) && final(enc).written() == old(enc).written() + (
            if old(enc).written().len() >= u32::MAX {
                Seq::<u8>::empty()
            } else {
                closed_list(sp_left_items(old(enc).written().len() + 5, items@))
            }),
        },
        final(enc).scopes() == old(enc).scopes(),
        final(enc).flushed() == old(enc).flushed(),
    decreases items,
{
    let ghost w0 = enc.written();
    let off = match enc.open_list() {
        Ok(o) => o,
        Err(e) => {
            return Err(e);
        },
    };
    let ghost w1 = enc.written();
    let mut i: usize = 0;
    while i < items.len()
        invariant
            w0 == old(enc).written(),
            w1 == w0 + seq![Tag::List.spec_byte(), 0u8, 0u8, 0u8, 0u8],
            off == w0.len() + 1,
            w0.len() < u32::MAX,
            i <= items@.len(),
            old(enc).scopes() + 1 + depth_items(items@) <= usize::MAX,
            enc.scopes() == old(enc).scopes() + 1,
            enc.flushed() == old(enc).flushed(),
            sp_encode_items(w1.len(), items@.take(i as int)) matches Ok(b) && enc.written() == w1 + b,
        decreases items@.len() - i,
    {
        let ghost before = enc.written();
        let ghost b = before.subrange(w1.len() as int, before.len() as int);
        proof {
            lemma_depth_item(items@, i as int);
            assert(items@.take(i + 1).drop_last() =~= items@.take(i as int));
            assert(items@.take(i + 1).last() == items@[i as int]);
            assert(before =~= w1 + b);
        }
        let r = encode_val(&items[i], enc);
        if r.is_err() {
            let ghost body = enc.written().subrange(w1.len() as int, enc.written().len() as int);
            proof {
                lemma_encode_items_prefix(w1.len(), items@, i + 1);
                lemma_left_items_prefix(w1.len(), items@, i + 1);
                assert(body =~= b + sp_left(before.len(), items@[i as int]));
                assert(enc.written() =~= w0 + seq![Tag::List.spec_byte(), 0u8, 0u8, 0u8, 0u8] + body);
            }
            let _ = close_list(enc, off, Ghost(w0), Ghost(body));
            return r;
        }
        i = i + 1;
    }
    proof {
        assert(items@.take(i as int) =~= items@);
    }
    let ghost body = enc.written().subrange(w1.len() as int, enc.written().len() as int);
    proof {
        assert(enc.written() =~= w0 + seq![Tag::List.spec_byte(), 0u8, 0u8, 0u8, 0u8] + body);
        assert(sp_left_items(w1.len(), items@) == body);
    }
    close_list(enc, off, Ghost(w0), Ghost(body))
}

/// Writes a list of the flag names. When a name is refused, the list is
/// closed over the names written before it and the error is returned.
fn encode_flags(names: &Vec<String>, enc: &mut Encoder) -> (r: Result<()>)
    requires
        old(enc).scopes() < usize::MAX,
    ensures
        match list_at(old(enc).written().len(), sp_encode_names(names@)) {
            Ok(b) => r is Ok && final(enc).written() == old(enc).written() + b,
            Err(e) => r == Err::<(), Error>(e) && final(enc).written() == old(enc).written() + (
            if old(enc).written().len() >= u32::MAX {
                Seq::<u8>::empty()
            } else {
                closed_list(sp_left_names(names@))
            }),
        },
        final(enc).scopes() == old(enc).scopes(),
        final(enc).flushed() == old(enc).flushed(),
{
    let ghost w0 = enc.written();
    let off = match enc.open_list() {
        Ok(o) => o,
        Err(e) => {
            return Err(e);
        },
    };
    let ghost w1 = enc.written();
    let r = encode_names(names, enc);
    let ghost body = enc.written().subrange(w1.len() as int, enc.written().len() as int);
    proof {
        assert(enc.written() =~= w0 + seq![Tag::List.spec_byte(), 0u8, 0u8, 0u8, 0u8] + body);
    }
    let c = close_list(enc, off, Ghost(w0), Ghost(body));
    if r.is_err() {
        return r;
    }
    c
}

/// Writes the flag names, each as a string.
fn encode_names(names: &Vec<String>, enc: &mut Encoder) -> (r: Result<()>)
    ensures
        match sp_encode_names(names@) {
            Ok(b) => r is Ok,
            Err(e) => r == Err::<(), Error>(e),
        },
        final(enc).written() == old(enc).written() + sp_left_names(names@),
        final(enc).scopes() == old(enc).scopes(),
        final(enc).flushed() == old(enc).flushed(),
{
    let ghost w0 = enc.written();
    let mut i: usize = 0;
    while i < names.len()
        invariant
            w0 == old(enc).written(),
            i <= names@.len(),
            enc.scopes() == old(enc).scopes(),
            enc.flushed() == old(enc).flushed(),
            sp_encode_names(names@.take(i as int)) matches Ok(b) && enc.written() == w0 + b,
        decreases names@.len() - i,
    {
        proof {
            assert(names@.take(i + 1).drop_last() =~= names@.take(i as int));
            assert(names@.take(i + 1).last() == names@[i as int]);
        }
        match enc.str(names[i].as_str()) {
            Ok(_) => {},
            Err(e) => {
                proof {
                    lemma_encode_names_prefix(names@, i + 1);
                    lemma_left_names_prefix(names@, i + 1);
                }
                return Err(e);
            },
        }
        i = i + 1;
    }
    proof {
        assert(names@.take(i as int) =~= names@);
    }
    Ok(())
}

/// Encodes a value into the encoder.
///
/// Scalars are written as scalars (a character as its `u32` scalar value,
/// a float by its bits), a string as a string, and a list, tuple or record
/// as a list of its items; flags are written as a list of their names.
/// Resources, futures, streams and error contexts cannot be written and
/// give `Error::Malformed`. The writes refuse a full buffer, a string that
/// does not fit a 32-bit length and a list body that does not.
///
/// A refused value that is not a container leaves the encoder as it was. A
/// list that fails part-way is closed over what was written of its body,
/// with its length written when it fits, so that no container stays open.
pub fn encode_val(val: &WireVal, enc: &mut Encoder) -> (r: Result<()>)
    requires
        old(enc).scopes() + depth(*val) <= usize::MAX,
    ensures
        match sp_encode(old(enc).written().len(), *val) {
            Ok(b) => r is Ok && final(enc).written() == old(enc).written() + b,
            Err(e) => r == Err::<(), Error>(e) && final(enc).written() == old(enc).written() + sp_left(
                old(enc).written().len(),
                *val,
            ),
        },
        r is Err && !(*val is List || *val is Tuple || *val is Record || *val is Flags)
            ==> final(enc).written() == old(enc).written(),
        final(enc).scopes() == old(enc).scopes(),
        final(enc).flushed() == old(enc).flushed(),
    decreases val,
{
    let r = match val {
        WireVal::Bool(v) => match enc.bool(*v) {
            Ok(_) => Ok(()),
            Err(e) => Err(e),
        },
        WireVal::U8(v) => match enc.u8(*v) {
            Ok(_) => Ok(()),
            Err(e) => Err(e),
        },
        WireVal::S8(v) => match enc.i8(*v) {
            Ok(_) => Ok(()),
            Err(e) => Err(e),
        },
        WireVal::U16(v) => match enc.u16(*v) {
            Ok(_) => Ok(()),
            Err(e) => Err(e),
        },
        WireVal::S16(v) => match enc.i16(*v) {
            Ok(_) => Ok(()),
            Err(e) => Err(e),
        },
        WireVal::U32(v) => match enc.u32(*v) {
            Ok(_) => Ok(()),
            Err(e) => Err(e),
        },
        WireVal::S32(v) => match enc.i32(*v) {
            Ok(_) => Ok(()),
            Err(e) => Err(e),
        },
        WireVal::U64(v) => match enc.u64(*v) {
            Ok(_) => Ok(()),
            Err(e) => Err(e),
        },
        WireVal::S64(v) => match enc.i64(*v) {
            Ok(_) => Ok(()),
            Err(e) => Err(e),
        },
        WireVal::F32Bits(v) => match enc.f32_bits(*v) {
            Ok(_) => Ok(()),
            Err(e) => Err(e),
        },
        WireVal::F64Bits(v) => match enc.f64_bits(*v) {
            Ok(_) => Ok(()),
            Err(e) => Err(e),
        },
        WireVal::Char(c) => match enc.u32(*c as u32) {
            Ok(_) => Ok(()),
            Err(e) => Err(e),
        },
        WireVal::Str(s) => match enc.str(s.as_str()) {
            Ok(_) => Ok(()),
            Err(e) => Err(e),
        },
        WireVal::List(items) => encode_list(items, enc),
        WireVal::Tuple(items) => encode_list(items, enc),
        WireVal::Record(items) => encode_list(items, enc),
        WireVal::Flags(names) => encode_flags(names, enc),
        _ => Err(Error::Malformed),
    };
    r
}


// =============================================================================
// Decoding
// =============================================================================

/// Whether a number is a Unicode scalar value: not a surrogate and at most
/// 0x10FFFF.
pub open spec fn is_scalar_value(u: u32) -> bool {
    u < 0xD800 || (0xE000 <= u && u <= 0x10FFFF)
}

/// Calls `char::from_u32`. Trusted: by std's documentation it gives the
/// character whose scalar value is `u` when `u` is a Unicode scalar value
/// (not a surrogate, at most 0x10FFFF), and `None` otherwise.
#[verifier::external_body]
fn char_from_u32(u: u32) -> (r: Option<char>)
    ensures
        r is Some <==> is_scalar_value(u),
        r matches Some(c) ==> c as u32 == u,
{
    char::from_u32(u)
}

/// A scalar of the given tag read and turned into a value by `f`.
pub open spec fn scalar_in(c: CursorView, tag: Tag, size: nat, f: spec_fn(Seq<u8>) -> ValueView) -> (Result<ValueView>, CursorView) {
    let (r, c1) = sp_expect_scalar(c, tag, size);
    (
        match r {
            Ok(b) => Ok(f(b)),
            Err(e) => Err(e),
        },
        c1,
    )
}

/// The flag names read from a list body from `c` up to `end`, after the
/// names `acc`: each item must be a string.
pub open spec fn sp_flags(c: CursorView, end: int, acc: Seq<Seq<char>>) -> Result<Seq<Seq<char>>>
    decreases end - c.pos,
{
    if c.pos >= end {
        Ok(acc)
    } else {
        let (r, c1) = sp_read_value(c);
        match r {
            Err(e) => Err(e),
            Ok(m) => match m {
                ValueModel::Str(s) => if c.pos < c1.pos <= end {
                    sp_flags(c1, end, acc.push(s))
                } else {
                    Err(Error::Malformed)
                },
                _ => Err(Error::TypeMismatch),
            },
        }
    }
}

/// Reading a value of type `ty`: the value or the first error, and where
/// the reader stands afterwards.
#[verifier::opaque]
pub open spec fn sp_decode(c: CursorView, ty: WireType) -> (Result<ValueView>, CursorView) {
    match ty {
        WireType::Bool => scalar_in(c, Tag::Bool, 1, |b: Seq<u8>| ValueView::Bool(bool_of(b))),
        WireType::S8 => scalar_in(c, Tag::S8, 1, |b: Seq<u8>| ValueView::S8(i8_of(b))),
        WireType::U8 => scalar_in(c, Tag::U8, 1, |b: Seq<u8>| ValueView::U8(u8_of(b))),
        WireType::S16 => scalar_in(c, Tag::S16, 2, |b: Seq<u8>| ValueView::S16(i16_of(b))),
        WireType::U16 => scalar_in(c, Tag::U16, 2, |b: Seq<u8>| ValueView::U16(u16_of(b))),
        WireType::S32 => scalar_in(c, Tag::S32, 4, |b: Seq<u8>| ValueView::S32(i32_of(b))),
        WireType::U32 => scalar_in(c, Tag::U32, 4, |b: Seq<u8>| ValueView::U32(u32_of(b))),
        WireType::S64 => scalar_in(c, Tag::S64, 8, |b: Seq<u8>| ValueView::S64(i64_of(b))),
        WireType::U64 => scalar_in(c, Tag::U64, 8, |b: Seq<u8>| ValueView::U64(u64_of(b))),
        WireType::Float32 => scalar_in(c, Tag::F32, 4, |b: Seq<u8>| ValueView::F32Bits(u32_of(b))),
        WireType::Float64 => scalar_in(c, Tag::F64, 8, |b: Seq<u8>| ValueView::F64Bits(u64_of(b))),
        WireType::Char => {
            let (r, c1) = sp_expect_scalar(c, Tag::U32, 4);
            (
                match r {
                    Err(e) => Err(e),
                    Ok(b) => if is_scalar_value(u32_of(b)) {
                        Ok(ValueView::Char(u32_of(b) as char))
                    } else {
                        Err(Error::Malformed)
                    },
                },
                c1,
            )
        },
        WireType::String => {
            let (r, c1) = sp_expect_blob(c, Tag::String);
            (
                match sp_text(r) {
                    Ok(s) => Ok(ValueView::Str(s)),
                    Err(e) => Err(e),
                },
                c1,
            )
        },
        WireType::List(_) => {
            let (r, c1) = sp_expect_blob(c, Tag::List);
            (
                match r {
                    Err(e) => Err(e),
                    Ok(b) => if b.len() == 0 {
                        Ok(ValueView::List(Seq::empty()))
                    } else {
                        match sp_read_value(CursorView::fresh(b)).0 {
                            Err(e) => Err(e),
                            Ok(_) => Err(Error::Malformed),
                        }
                    },
                },
                c1,
            )
        },
        WireType::Record(_) => (Err(Error::Malformed), c),
        WireType::Tuple(_) => (Err(Error::Malformed), c),
        WireType::Variant(_) => (Err(Error::Malformed), c),
        WireType::Enum(_) => (Err(Error::Malformed), c),
        WireType::Option(_) => {
            let (r, c1) = sp_read_value(c);
            (
                match r {
                    Err(e) => Err(e),
                    Ok(_) => Err(Error::TypeMismatch),
                },
                c1,
            )
        },
        WireType::Result { .. } => {
            let (r, c1) = sp_read_value(c);
            (
                match r {
                    Err(e) => Err(e),
                    Ok(_) => Err(Error::TypeMismatch),
                },
                c1,
            )
        },
        WireType::Flags(_) => {
            let (r, c1) = sp_expect_blob(c, Tag::List);
            (
                match r {
                    Err(e) => Err(e),
                    Ok(b) => match sp_flags(CursorView::fresh(b), b.len() as int, Seq::empty()) {
                        Ok(n) => Ok(ValueView::Flags(n)),
                        Err(e) => Err(e),
                    },
                },
                c1,
            )
        },
        _ => (Err(Error::Malformed), c),
    }
}

proof fn lemma_read_value_progress(c: CursorView)
    ensures
        sp_read_value(c).0 is Ok ==> c.pos < sp_read_value(c).1.pos <= c.data.len(),
        sp_read_value(c).1.data == c.data,
{
}

/// Decodes flags: a list whose items are all strings.
#[verifier::loop_isolation(false)]
fn decode_flags<'a>(dec: &mut Decoder<'a>, ty: &WireType) -> (r: Result<WireVal>)
    requires
        *ty is Flags,
    ensures
        final(dec)@ == sp_decode(old(dec)@, *ty).1,
        match sp_decode(old(dec)@, *ty).0 {
            Ok(v) => r matches Ok(x) && val_view(x) == v,
            Err(e) => r == Err::<WireVal, Error>(e),
        },
{
    proof {
        reveal(sp_decode);
    }
    let mut l = match dec.list() {
        Ok(l) => l,
        Err(e) => return Err(e),
    };
    let ghost body = l@.0.data;
    let mut names: Vec<String> = Vec::new();
    proof {
        assert(texts_view(names@) =~= Seq::<Seq<char>>::empty());
    }
    loop
        invariant
            l@.1 == body.len(),
            l@.0.data == body,
            0 <= l@.0.pos <= body.len(),
            sp_flags(l@.0, l@.1, texts_view(names@)) == sp_flags(
                CursorView::fresh(body),
                body.len() as int,
                Seq::empty(),
            ),
        decreases l@.1 - l@.0.pos,
    {
        let ghost cur = l@.0;
        proof {
            lemma_read_value_progress(cur);
        }
        match l.next() {
            Ok(None) => {
                return Ok(WireVal::Flags(names));
            },
            Ok(Some(v)) => match v.as_str() {
                Ok(t) => {
                    let ghost before = names@;
                    names.push(String::from_str(t));
                    proof {
                        assert(texts_view(names@) =~= texts_view(before).push(t@));
                    }
                },
                Err(e) => {
                    return Err(e);
                },
            },
            Err(e) => {
                return Err(e);
            },
        }
    }
}

/// Decodes a list, which must be empty.
fn decode_list<'a>(dec: &mut Decoder<'a>, ty: &WireType) -> (r: Result<WireVal>)
    requires
        *ty is List,
    ensures
        final(dec)@ == sp_decode(old(dec)@, *ty).1,
        match sp_decode(old(dec)@, *ty).0 {
            Ok(v) => r matches Ok(x) && val_view(x) == v,
            Err(e) => r == Err::<WireVal, Error>(e),
        },
{
    proof {
        reveal(sp_decode);
    }
    let mut l = match dec.list() {
        Ok(l) => l,
        Err(e) => return Err(e),
    };
    match l.next() {
        Ok(None) => {
            let items: Vec<WireVal> = Vec::new();
            proof {
                assert(vals_view(items@) =~= Seq::<ValueView>::empty());
            }
            Ok(WireVal::List(items))
        },
        Ok(Some(_)) => Err(Error::Malformed),
        Err(e) => Err(e),
    }
}

/// Whether a type is a number type: a boolean, an integer or a float.
pub open spec fn is_number(ty: WireType) -> bool {
    ||| ty is Bool
    ||| ty is S8
    ||| ty is U8
    ||| ty is S16
    ||| ty is U16
    ||| ty is S32
    ||| ty is U32
    ||| ty is S64
    ||| ty is U64
    ||| ty is Float32
    ||| ty is Float64
}

/// Decodes a boolean, an integer or a float.
fn decode_number<'a>(dec: &mut Decoder<'a>, ty: &WireType) -> (r: Result<WireVal>)
    requires
        is_number(*ty),
    ensures
        final(dec)@ == sp_decode(old(dec)@, *ty).1,
        match sp_decode(old(dec)@, *ty).0 {
            Ok(v) => r matches Ok(x) && val_view(x) == v,
            Err(e) => r == Err::<WireVal, Error>(e),
        },
{
    proof {
        reveal(sp_decode);
    }
    match ty {
        WireType::Bool => match dec.bool() {
            Ok(v) => Ok(WireVal::Bool(v)),
            Err(e) => Err(e),
        },
        WireType::S8 => match dec.i8() {
            Ok(v) => Ok(WireVal::S8(v)),
            Err(e) => Err(e),
        },
        WireType::U8 => match dec.u8() {
            Ok(v) => Ok(WireVal::U8(v)),
            Err(e) => Err(e),
        },
        WireType::S16 => match dec.i16() {
            Ok(v) => Ok(WireVal::S16(v)),
            Err(e) => Err(e),
        },
        WireType::U16 => match dec.u16() {
            Ok(v) => Ok(WireVal::U16(v)),
            Err(e) => Err(e),
        },
        WireType::S32 => match dec.i32() {
            Ok(v) => Ok(WireVal::S32(v)),
            Err(e) => Err(e),
        },
        WireType::U32 => match dec.u32() {
            Ok(v) => Ok(WireVal::U32(v)),
            Err(e) => Err(e),
        },
        WireType::S64 => match dec.i64() {
            Ok(v) => Ok(WireVal::S64(v)),
            Err(e) => Err(e),
        },
        WireType::U64 => match dec.u64() {
            Ok(v) => Ok(WireVal::U64(v)),
            Err(e) => Err(e),
        },
        WireType::Float32 => match dec.f32_bits() {
            Ok(v) => Ok(WireVal::F32Bits(v)),
            Err(e) => Err(e),
        },
        WireType::Float64 => match dec.f64_bits() {
            Ok(v) => Ok(WireVal::F64Bits(v)),
            Err(e) => Err(e),
        },
        _ => Err(Error::Malformed),
    }
}

/// Decodes a character, a string, or a type that cannot be read.
fn decode_other<'a>(dec: &mut Decoder<'a>, ty: &WireType) -> (r: Result<WireVal>)
    requires
        !is_number(*ty),
        !(*ty is List),
        !(*ty is Flags),
    ensures
        final(dec)@ == sp_decode(old(dec)@, *ty).1,
        match sp_decode(old(dec)@, *ty).0 {
            Ok(v) => r matches Ok(x) && val_view(x) == v,
            Err(e) => r == Err::<WireVal, Error>(e),
        },
{
    proof {
        reveal(sp_decode);
    }
    match ty {
        WireType::Char => {
            let ghost c0 = dec@;
            match dec.u32() {
                Ok(u) => match char_from_u32(u) {
                    Some(ch) => {
                        proof {
                            let (rr, c1) = sp_expect_scalar(c0, Tag::U32, 4);
                            assert(rr matches Ok(b) && u32_of(b) == u);
                            assert(is_scalar_value(u));
                            vstd::utf8::char_u32_cast(ch, u);
                            assert(sp_decode(c0, *ty).0 == Ok::<ValueView, Error>(ValueView::Char(ch)));
                        }
                        Ok(WireVal::Char(ch))
                    },
                    None => Err(Error::Malformed),
                },
                Err(e) => Err(e),
            }
        },
        WireType::String => match dec.str() {
            Ok(t) => Ok(WireVal::Str(String::from_str(t))),
            Err(e) => Err(e),
        },
        WireType::Record(_) => Err(Error::Malformed),
        WireType::Tuple(_) => Err(Error::Malformed),
        WireType::Variant(_) => Err(Error::Malformed),
        WireType::Enum(_) => Err(Error::Malformed),
        WireType::Option(_) => match dec.value() {
            Ok(_) => Err(Error::TypeMismatch),
            Err(e) => Err(e),
        },
        WireType::Result { .. } => match dec.value() {
            Ok(_) => Err(Error::TypeMismatch),
            Err(e) => Err(e),
        },
        _ => Err(Error::Malformed),
    }
}

/// Whether a type is a number type.
fn is_number_type(ty: &WireType) -> (b: bool)
    ensures
        b == is_number(*ty),
{
    match ty {
        WireType::Bool | WireType::S8 | WireType::U8 | WireType::S16 | WireType::U16 | WireType::S32
        | WireType::U32 | WireType::S64 | WireType::U64 | WireType::Float32 | WireType::Float64 => true,
        _ => false,
    }
}

/// Decodes a value of type `ty` from the decoder.
///
/// Scalars, characters (a `u32` that must be a Unicode scalar value),
/// strings and flags (a list of strings) are read. A list is read only
/// when it is empty: a list with an item gives `Error::Malformed`.
/// Records, tuples, variants, enums and resources give `Error::Malformed`
/// without reading; an option or a result reads a value and gives
/// `Error::TypeMismatch`, since the format has no option or result value.
pub fn decode_val_from_decoder<'a>(dec: &mut Decoder<'a>, ty: &WireType) -> (r: Result<WireVal>)
    ensures
        final(dec)@ == sp_decode(old(dec)@, *ty).1,
        match sp_decode(old(dec)@, *ty).0 {
            Ok(v) => r matches Ok(x) && val_view(x) == v,
            Err(e) => r == Err::<WireVal, Error>(e),
        },
{
    if is_number_type(ty) {
        decode_number(dec, ty)
    } else if let WireType::List(_) = ty {
        decode_list(dec, ty)
    } else if let WireType::Flags(_) = ty {
        decode_flags(dec, ty)
    } else {
        decode_other(dec, ty)
    }
}

/// Decodes a value of type `ty` from the start of `bytes`.
pub fn decode_val(bytes: &[u8], ty: &WireType) -> (r: Result<WireVal>)
    ensures
        match sp_decode(CursorView::fresh(bytes@), *ty).0 {
            Ok(v) => r matches Ok(x) && val_view(x) == v,
            Err(e) => r == Err::<WireVal, Error>(e),
        },
{
    let mut dec = Decoder::new(bytes);
    decode_val_from_decoder(&mut dec, ty)
}


// =============================================================================
// Laws
// =============================================================================

/// A value is read back as a value of type `ty`: scalars, characters and
/// strings of their own type, an empty list as a list, and flags as flags.
pub open spec fn decodes_as(v: WireVal, ty: WireType) -> bool {
    match (v, ty) {
        (WireVal::Bool(_), WireType::Bool) => true,
        (WireVal::U8(_), WireType::U8) => true,
        (WireVal::S8(_), WireType::S8) => true,
        (WireVal::U16(_), WireType::U16) => true,
        (WireVal::S16(_), WireType::S16) => true,
        (WireVal::U32(_), WireType::U32) => true,
        (WireVal::S32(_), WireType::S32) => true,
        (WireVal::U64(_), WireType::U64) => true,
        (WireVal::S64(_), WireType::S64) => true,
        (WireVal::F32Bits(_), WireType::Float32) => true,
        (WireVal::F64Bits(_), WireType::Float64) => true,
        (WireVal::Char(_), WireType::Char) => true,
        (WireVal::Str(_), WireType::String) => true,
        (WireVal::List(items), WireType::List(_)) => items@.len() == 0,
        (WireVal::Flags(_), WireType::Flags(_)) => true,
        _ => false,
    }
}

proof fn lemma_empty_list_roundtrip(
    before: Seq<u8>,
    v: WireVal,
    ty: WireType,
    after: Seq<u8>,
    base: int,
    min_valid: int,
)
    requires
        min_valid <= before.len(),
        decodes_as(v, ty),
        v is List,
        sp_encode(before.len(), v) is Ok,
    ensures
        match sp_encode(before.len(), v) {
            Ok(b) => sp_decode(at(before, b, after, base, min_valid), ty) == (
                Ok::<ValueView, Error>(val_view(v)),
                at(before, b, after, base, min_valid).advance(b.len() as int),
            ),
            Err(_) => true,
        },
{
    reveal(sp_decode);
    let items = v->List_0;
    assert(sp_encode_items(before.len() + 5, items@) == Ok::<Seq<u8>, Error>(Seq::empty()));
    let b = enc_framed(Tag::List, Seq::<u8>::empty());
    lemma_len_prefix(0);
    assert(b.len() == 5);
    assert(sp_encode(before.len(), v) == Ok::<Seq<u8>, Error>(b));
    law_framed_roundtrip(before, Tag::List, Seq::empty(), after, base, min_valid);
    let c = at(before, b, after, base, min_valid);
    assert(sp_expect_blob(c, Tag::List).0 == Ok::<Seq<u8>, Error>(Seq::<u8>::empty()));
    assert(vals_view(items@) =~= Seq::<ValueView>::empty());
    assert(val_view(v) == ValueView::List(Seq::empty()));
    assert(ty is List);
    assert(sp_decode(c, ty).0 == Ok::<ValueView, Error>(ValueView::List(Seq::empty())));
}

proof fn lemma_number_roundtrip(
    before: Seq<u8>,
    v: WireVal,
    ty: WireType,
    after: Seq<u8>,
    base: int,
    min_valid: int,
)
    requires
        min_valid <= before.len(),
        decodes_as(v, ty),
        !(v is List),
        !(v is Flags),
        !(v is Char),
        !(v is Str),
        sp_encode(before.len(), v) is Ok,
    ensures
        match sp_encode(before.len(), v) {
            Ok(b) => sp_decode(at(before, b, after, base, min_valid), ty) == (
                Ok::<ValueView, Error>(val_view(v)),
                at(before, b, after, base, min_valid).advance(b.len() as int),
            ),
            Err(_) => true,
        },
{
    reveal(sp_decode);
    match v {
        WireVal::Bool(x) => {
            law_payload_roundtrip(x, 0, 0, 0, 0, 0, 0, 0, 0);
            law_scalar_roundtrip(before, Tag::Bool, bool_bytes(x), after, base, min_valid);
        },
        WireVal::U8(x) => {
            law_payload_roundtrip(true, x, 0, 0, 0, 0, 0, 0, 0);
            law_scalar_roundtrip(before, Tag::U8, u8_bytes(x), after, base, min_valid);
        },
        WireVal::S8(x) => {
            law_payload_roundtrip(true, 0, x, 0, 0, 0, 0, 0, 0);
            law_scalar_roundtrip(before, Tag::S8, i8_bytes(x), after, base, min_valid);
        },
        WireVal::U16(x) => {
            law_payload_roundtrip(true, 0, 0, x, 0, 0, 0, 0, 0);
            law_scalar_roundtrip(before, Tag::U16, u16_bytes(x), after, base, min_valid);
        },
        WireVal::S16(x) => {
            law_payload_roundtrip(true, 0, 0, 0, x, 0, 0, 0, 0);
            law_scalar_roundtrip(before, Tag::S16, i16_bytes(x), after, base, min_valid);
        },
        WireVal::U32(x) => {
            law_payload_roundtrip(true, 0, 0, 0, 0, x, 0, 0, 0);
            law_scalar_roundtrip(before, Tag::U32, u32_bytes(x), after, base, min_valid);
        },
        WireVal::S32(x) => {
            law_payload_roundtrip(true, 0, 0, 0, 0, 0, x, 0, 0);
            law_scalar_roundtrip(before, Tag::S32, i32_bytes(x), after, base, min_valid);
        },
        WireVal::U64(x) => {
            law_payload_roundtrip(true, 0, 0, 0, 0, 0, 0, x, 0);
            law_scalar_roundtrip(before, Tag::U64, u64_bytes(x), after, base, min_valid);
        },
        WireVal::S64(x) => {
            law_payload_roundtrip(true, 0, 0, 0, 0, 0, 0, 0, x);
            law_scalar_roundtrip(before, Tag::S64, i64_bytes(x), after, base, min_valid);
        },
        WireVal::F32Bits(x) => {
            law_payload_roundtrip(true, 0, 0, 0, 0, x, 0, 0, 0);
            law_scalar_roundtrip(before, Tag::F32, u32_bytes(x), after, base, min_valid);
        },
        WireVal::F64Bits(x) => {
            law_payload_roundtrip(true, 0, 0, 0, 0, 0, 0, x, 0);
            law_scalar_roundtrip(before, Tag::F64, u64_bytes(x), after, base, min_valid);
        },
        _ => {},
    }
}



/// Every scalar value is written as the encoder's scalar of the matching
/// tag (a character as its `u32` scalar value, a float by its bits), and
/// that scalar, wherever it stands, decodes as the value at the value's type.
pub proof fn law_scalar_value_forms(
    before: Seq<u8>,
    v: WireVal,
    after: Seq<u8>,
    base: int,
    min_valid: int,
)
    requires
        min_valid <= before.len(),
    ensures
        ({
            let n = before.len();
            let dec = |tag: Tag, payload: Seq<u8>, ty: WireType|
                sp_decode(at(before, enc_scalar(tag, payload), after, base, min_valid), ty).0;
            match v {
                WireVal::Bool(x) => (n < u32::MAX ==> sp_encode(n, v) == Ok::<Seq<u8>, Error>(
                    enc_scalar(Tag::Bool, bool_bytes(x)),
                )) && dec(Tag::Bool, bool_bytes(x), WireType::Bool) == Ok::<ValueView, Error>(
                    ValueView::Bool(x),
                ),
                WireVal::U8(x) => (n < u32::MAX ==> sp_encode(n, v) == Ok::<Seq<u8>, Error>(
                    enc_scalar(Tag::U8, u8_bytes(x)),
                )) && dec(Tag::U8, u8_bytes(x), WireType::U8) == Ok::<ValueView, Error>(
                    ValueView::U8(x),
                ),
                WireVal::S8(x) => (n < u32::MAX ==> sp_encode(n, v) == Ok::<Seq<u8>, Error>(
                    enc_scalar(Tag::S8, i8_bytes(x)),
                )) && dec(Tag::S8, i8_bytes(x), WireType::S8) == Ok::<ValueView, Error>(
                    ValueView::S8(x),
                ),
                WireVal::U16(x) => (n < u32::MAX ==> sp_encode(n, v) == Ok::<Seq<u8>, Error>(
                    enc_scalar(Tag::U16, u16_bytes(x)),
                )) && dec(Tag::U16, u16_bytes(x), WireType::U16) == Ok::<ValueView, Error>(
                    ValueView::U16(x),
                ),
                WireVal::S16(x) => (n < u32::MAX ==> sp_encode(n, v) == Ok::<Seq<u8>, Error>(
                    enc_scalar(Tag::S16, i16_bytes(x)),
                )) && dec(Tag::S16, i16_bytes(x), WireType::S16) == Ok::<ValueView, Error>(
                    ValueView::S16(x),
                ),
                WireVal::U32(x) => (n < u32::MAX ==> sp_encode(n, v) == Ok::<Seq<u8>, Error>(
                    enc_scalar(Tag::U32, u32_bytes(x)),
                )) && dec(Tag::U32, u32_bytes(x), WireType::U32) == Ok::<ValueView, Error>(
                    ValueView::U32(x),
                ),
                WireVal::S32(x) => (n < u32::MAX ==> sp_encode(n, v) == Ok::<Seq<u8>, Error>(
                    enc_scalar(Tag::S32, i32_bytes(x)),
                )) && dec(Tag::S32, i32_bytes(x), WireType::S32) == Ok::<ValueView, Error>(
                    ValueView::S32(x),
                ),
                WireVal::U64(x) => (n < u32::MAX ==> sp_encode(n, v) == Ok::<Seq<u8>, Error>(
                    enc_scalar(Tag::U64, u64_bytes(x)),
                )) && dec(Tag::U64, u64_bytes(x), WireType::U64) == Ok::<ValueView, Error>(
                    ValueView::U64(x),
                ),
                WireVal::S64(x) => (n < u32::MAX ==> sp_encode(n, v) == Ok::<Seq<u8>, Error>(
                    enc_scalar(Tag::S64, i64_bytes(x)),
                )) && dec(Tag::S64, i64_bytes(x), WireType::S64) == Ok::<ValueView, Error>(
                    ValueView::S64(x),
                ),
                WireVal::F32Bits(x) => (n < u32::MAX ==> sp_encode(n, v) == Ok::<Seq<u8>, Error>(
                    enc_scalar(Tag::F32, u32_bytes(x)),
                )) && dec(Tag::F32, u32_bytes(x), WireType::Float32) == Ok::<ValueView, Error>(
                    ValueView::F32Bits(x),
                ),
                WireVal::F64Bits(x) => (n < u32::MAX ==> sp_encode(n, v) == Ok::<Seq<u8>, Error>(
                    enc_scalar(Tag::F64, u64_bytes(x)),
                )) && dec(Tag::F64, u64_bytes(x), WireType::Float64) == Ok::<ValueView, Error>(
                    ValueView::F64Bits(x),
                ),
                WireVal::Char(c) => (n < u32::MAX ==> sp_encode(n, v) == Ok::<Seq<u8>, Error>(
                    enc_scalar(Tag::U32, u32_bytes(c as u32)),
                )) && dec(Tag::U32, u32_bytes(c as u32), WireType::Char) == Ok::<ValueView, Error>(
                    ValueView::Char(c),
                ),
                _ => true,
            }
        }),
{
    reveal(sp_decode);
    match v {
        WireVal::Bool(x) => {
            law_payload_roundtrip(x, 0, 0, 0, 0, 0, 0, 0, 0);
            law_scalar_roundtrip(before, Tag::Bool, bool_bytes(x), after, base, min_valid);
        },
        WireVal::U8(x) => {
            law_payload_roundtrip(true, x, 0, 0, 0, 0, 0, 0, 0);
            law_scalar_roundtrip(before, Tag::U8, u8_bytes(x), after, base, min_valid);
        },
        WireVal::S8(x) => {
            law_payload_roundtrip(true, 0, x, 0, 0, 0, 0, 0, 0);
            law_scalar_roundtrip(before, Tag::S8, i8_bytes(x), after, base, min_valid);
        },
        WireVal::U16(x) => {
            law_payload_roundtrip(true, 0, 0, x, 0, 0, 0, 0, 0);
            law_scalar_roundtrip(before, Tag::U16, u16_bytes(x), after, base, min_valid);
        },
        WireVal::S16(x) => {
            law_payload_roundtrip(true, 0, 0, 0, x, 0, 0, 0, 0);
            law_scalar_roundtrip(before, Tag::S16, i16_bytes(x), after, base, min_valid);
        },
        WireVal::U32(x) => {
            law_payload_roundtrip(true, 0, 0, 0, 0, x, 0, 0, 0);
            law_scalar_roundtrip(before, Tag::U32, u32_bytes(x), after, base, min_valid);
        },
        WireVal::S32(x) => {
            law_payload_roundtrip(true, 0, 0, 0, 0, 0, x, 0, 0);
            law_scalar_roundtrip(before, Tag::S32, i32_bytes(x), after, base, min_valid);
        },
        WireVal::U64(x) => {
            law_payload_roundtrip(true, 0, 0, 0, 0, 0, 0, x, 0);
            law_scalar_roundtrip(before, Tag::U64, u64_bytes(x), after, base, min_valid);
        },
        WireVal::S64(x) => {
            law_payload_roundtrip(true, 0, 0, 0, 0, 0, 0, 0, x);
            law_scalar_roundtrip(before, Tag::S64, i64_bytes(x), after, base, min_valid);
        },
        WireVal::F32Bits(x) => {
            law_payload_roundtrip(true, 0, 0, 0, 0, x, 0, 0, 0);
            law_scalar_roundtrip(before, Tag::F32, u32_bytes(x), after, base, min_valid);
        },
        WireVal::F64Bits(x) => {
            law_payload_roundtrip(true, 0, 0, 0, 0, 0, 0, x, 0);
            law_scalar_roundtrip(before, Tag::F64, u64_bytes(x), after, base, min_valid);
        },
        WireVal::Char(c) => {
            let u = c as u32;
            law_payload_roundtrip(true, 0, 0, 0, 0, u, 0, 0, 0);
            law_scalar_roundtrip(before, Tag::U32, u32_bytes(u), after, base, min_valid);
            vstd::utf8::char_is_scalar(c);
            vstd::utf8::char_u32_cast(c, u);
        },
        _ => {},
    }
}

proof fn lemma_char_roundtrip(
    before: Seq<u8>,
    v: WireVal,
    ty: WireType,
    after: Seq<u8>,
    base: int,
    min_valid: int,
)
    requires
        min_valid <= before.len(),
        decodes_as(v, ty),
        v is Char,
        sp_encode(before.len(), v) is Ok,
    ensures
        match sp_encode(before.len(), v) {
            Ok(b) => sp_decode(at(before, b, after, base, min_valid), ty) == (
                Ok::<ValueView, Error>(val_view(v)),
                at(before, b, after, base, min_valid).advance(b.len() as int),
            ),
            Err(_) => true,
        },
{
    reveal(sp_decode);
    match v {
        WireVal::Char(c) => {
            let u = c as u32;
            law_payload_roundtrip(true, 0, 0, 0, 0, u, 0, 0, 0);
            law_scalar_roundtrip(before, Tag::U32, u32_bytes(u), after, base, min_valid);
            vstd::utf8::char_is_scalar(c);
            vstd::utf8::char_u32_cast(c, u);
        },
        _ => {},
    }
}


#[verifier::rlimit(40)]
proof fn lemma_str_roundtrip(
    before: Seq<u8>,
    v: WireVal,
    ty: WireType,
    after: Seq<u8>,
    base: int,
    min_valid: int,
)
    requires
        min_valid <= before.len(),
        decodes_as(v, ty),
        v is Str,
        sp_encode(before.len(), v) is Ok,
    ensures
        match sp_encode(before.len(), v) {
            Ok(b) => sp_decode(at(before, b, after, base, min_valid), ty) == (
                Ok::<ValueView, Error>(val_view(v)),
                at(before, b, after, base, min_valid).advance(b.len() as int),
            ),
            Err(_) => true,
        },
{
    reveal(sp_decode);
    match v {
        WireVal::Str(t) => {
            let b = encode_utf8(t@);
            assert(b.len() <= u32::MAX);
            let e = enc_framed(Tag::String, b);
            assert(sp_encode(before.len(), v) == Ok::<Seq<u8>, Error>(e));
            law_framed_roundtrip(before, Tag::String, b, after, base, min_valid);
            lemma_len_prefix(b.len());
            assert(e.len() == 5 + b.len());
            law_text_roundtrip(t@);
            let c = at(before, e, after, base, min_valid);
            assert(sp_decode(c, ty) == (
                match sp_text(sp_expect_blob(c, Tag::String).0) {
                    Ok(x) => Ok(ValueView::Str(x)),
                    Err(er) => Err(er),
                },
                sp_expect_blob(c, Tag::String).1,
            ));
            assert(val_view(v) == ValueView::Str(t@));
        },
        _ => {},
    }
}


/// The bytes of a successful result; none for an error.
spec fn ok_bytes(r: Result<Seq<u8>>) -> Seq<u8> {
    match r {
        Ok(b) => b,
        Err(_) => Seq::empty(),
    }
}

proof fn lemma_encode_names_first(names: Seq<String>)
    requires
        names.len() > 0,
        sp_encode_names(names) is Ok,
    ensures
        text_blob(names[0]@) is Ok,
        sp_encode_names(names.drop_first()) is Ok,
        ok_bytes(sp_encode_names(names)) == ok_bytes(text_blob(names[0]@)) + ok_bytes(
            sp_encode_names(names.drop_first()),
        ),
    decreases names.len(),
{
    if names.len() == 1 {
        assert(names.drop_last() =~= Seq::<String>::empty());
        assert(names.drop_first() =~= Seq::<String>::empty());
        assert(names.last() == names[0]);
        assert(ok_bytes(sp_encode_names(names)) =~= ok_bytes(text_blob(names[0]@)) + Seq::<u8>::empty());
    } else {
        let dl = names.drop_last();
        lemma_encode_names_first(dl);
        assert(dl[0] == names[0]);
        assert(names.drop_first().drop_last() =~= dl.drop_first());
        assert(names.drop_first().last() == names.last());
        assert(ok_bytes(sp_encode_names(names)) =~= ok_bytes(text_blob(names[0]@)) + ok_bytes(
            sp_encode_names(names.drop_first()),
        ));
    }
}

proof fn lemma_flags_read(before: Seq<u8>, names: Seq<String>, acc: Seq<Seq<char>>)
    requires
        sp_encode_names(names) is Ok,
    ensures
        sp_flags(
            at(before, ok_bytes(sp_encode_names(names)), Seq::empty(), 0, 0),
            (before.len() + ok_bytes(sp_encode_names(names)).len()) as int,
            acc,
        ) == Ok::<Seq<Seq<char>>, Error>(acc + texts_view(names)),
    decreases names.len(),
{
    let b = ok_bytes(sp_encode_names(names));
    let c = at(before, b, Seq::empty(), 0, 0);
    if names.len() == 0 {
        assert(texts_view(names) =~= Seq::<Seq<char>>::empty());
        assert(acc + texts_view(names) =~= acc);
    } else {
        lemma_encode_names_first(names);
        let t = encode_utf8(names[0]@);
        let blob = enc_framed(Tag::String, t);
        let rest = ok_bytes(sp_encode_names(names.drop_first()));
        assert(b == blob + rest);
        assert(t.len() <= u32::MAX);
        law_read_value_framed(before, Tag::String, t, rest, 0, 0);
        assert(at(before, blob, rest, 0, 0) == c) by {
            assert(before + blob + rest =~= before + b + Seq::<u8>::empty());
        }
        encode_utf8_valid_utf8(names[0]@);
        encode_utf8_decode_utf8(names[0]@);
        lemma_len_prefix(t.len());
        assert(blob.len() == 5 + t.len());
        let c1 = c.advance(5 + t.len() as int);
        assert(c1 == at(before + blob, rest, Seq::empty(), 0, 0)) by {
            assert(before + b + Seq::<u8>::empty() =~= before + blob + rest + Seq::<u8>::empty());
        }
        lemma_flags_read(before + blob, names.drop_first(), acc.push(names[0]@));
        assert(acc.push(names[0]@) + texts_view(names.drop_first()) =~= acc + texts_view(names));
    }
}

proof fn lemma_flags_roundtrip(
    before: Seq<u8>,
    v: WireVal,
    ty: WireType,
    after: Seq<u8>,
    base: int,
    min_valid: int,
)
    requires
        min_valid <= before.len(),
        decodes_as(v, ty),
        v is Flags,
        sp_encode(before.len(), v) is Ok,
    ensures
        match sp_encode(before.len(), v) {
            Ok(b) => sp_decode(at(before, b, after, base, min_valid), ty) == (
                Ok::<ValueView, Error>(val_view(v)),
                at(before, b, after, base, min_valid).advance(b.len() as int),
            ),
            Err(_) => true,
        },
{
    reveal(sp_decode);
    let names = v->Flags_0;
    let body = ok_bytes(sp_encode_names(names@));
    assert(sp_encode_names(names@) is Ok);
    assert(body.len() <= u32::MAX);
    let e = enc_framed(Tag::List, body);
    assert(sp_encode(before.len(), v) == Ok::<Seq<u8>, Error>(e));
    law_framed_roundtrip(before, Tag::List, body, after, base, min_valid);
    lemma_len_prefix(body.len());
    assert(e.len() == 5 + body.len());
    lemma_flags_read(Seq::empty(), names@, Seq::empty());
    assert(at(Seq::empty(), body, Seq::empty(), 0, 0) == CursorView::fresh(body)) by {
        assert(Seq::<u8>::empty() + body + Seq::<u8>::empty() =~= body);
    }
    assert(Seq::<Seq<char>>::empty() + texts_view(names@) =~= texts_view(names@));
    let c = at(before, e, after, base, min_valid);
    assert(sp_decode(c, ty) == (
        match sp_expect_blob(c, Tag::List).0 {
            Err(er) => Err(er),
            Ok(bb) => match sp_flags(CursorView::fresh(bb), bb.len() as int, Seq::empty()) {
                Ok(n) => Ok(ValueView::Flags(n)),
                Err(er) => Err(er),
            },
        },
        sp_expect_blob(c, Tag::List).1,
    ));
}

/// What a read gives back of a write: a value written after any bytes,
/// when the write succeeds, is read back from its position as the same
/// value for its type, and the reader moves past exactly what was written.
pub proof fn law_value_roundtrip(
    before: Seq<u8>,
    v: WireVal,
    ty: WireType,
    after: Seq<u8>,
    base: int,
    min_valid: int,
)
    requires
        min_valid <= before.len(),
        decodes_as(v, ty),
        sp_encode(before.len(), v) is Ok,
    ensures
        match sp_encode(before.len(), v) {
            Ok(b) => sp_decode(at(before, b, after, base, min_valid), ty) == (
                Ok::<ValueView, Error>(val_view(v)),
                at(before, b, after, base, min_valid).advance(b.len() as int),
            ),
            Err(_) => true,
        },
{
    if v is List {
        lemma_empty_list_roundtrip(before, v, ty, after, base, min_valid);
    } else if v is Flags {
        lemma_flags_roundtrip(before, v, ty, after, base, min_valid);
    } else if v is Char {
        lemma_char_roundtrip(before, v, ty, after, base, min_valid);
    } else if v is Str {
        lemma_str_roundtrip(before, v, ty, after, base, min_valid);
    } else {
        lemma_number_roundtrip(before, v, ty, after, base, min_valid);
    }
}

} // verus!
