//! Laws of the format: what is written reads back, truncated input asks for
//! exactly the missing bytes, reading is not changed by bytes that arrive
//! later, and the encoder's containers frame exactly what was written
//! into them.

use vstd::prelude::*;
use vstd::utf8::{valid_utf8, decode_utf8, encode_utf8, encode_utf8_valid_utf8, encode_utf8_decode_utf8};

use crate::cursor::CursorView;
use crate::decoder::{sp_read_tag, sp_read_len, sp_expect_scalar, sp_expect_blob, sp_text};
use crate::decoder::{sp_skip_value, sp_skip_all, sp_read_value, sp_untagged, sp_array_header};
use crate::decoder::{ArrayView, ValueModel};
use crate::encoder::patched;
use crate::types::{Error, Result, Tag};
use crate::wire::{enc_scalar, enc_framed, len_prefix, len_of, array_header, lemma_len_prefix};
use crate::wire::{bool_bytes, u8_bytes, i8_bytes, u16_bytes, i16_bytes, u32_bytes, i32_bytes, u64_bytes, i64_bytes};
use crate::wire::{bool_of, u8_of, i8_of, u16_of, i16_of, u32_of, i32_of, u64_of, i64_of};
use crate::cursor::stream_view;
use vstd::bytes::{spec_u16_to_le_bytes, spec_u32_to_le_bytes, spec_u64_to_le_bytes};
use vstd::bytes::{lemma_auto_spec_u16_to_from_le_bytes, lemma_auto_spec_u32_to_from_le_bytes, lemma_auto_spec_u64_to_from_le_bytes};

verus! {

broadcast use vstd::seq::group_seq_axioms;

/// A cursor positioned right after `before`, reading `before + mid + after`.
pub open spec fn at(before: Seq<u8>, mid: Seq<u8>, after: Seq<u8>, base: int, min_valid: int) -> CursorView {
    CursorView { data: before + mid + after, pos: before.len() as int, base, min_valid }
}

/// Reading `k` bytes of `mid` from its start.
proof fn lemma_read_mid(before: Seq<u8>, mid: Seq<u8>, after: Seq<u8>, base: int, min_valid: int, k: int)
    requires
        min_valid <= before.len(),
        0 <= k <= mid.len(),
    ensures
        at(before, mid, after, base, min_valid).read(k) == (
            Ok::<Seq<u8>, Error>(mid.subrange(0, k)),
            at(before, mid, after, base, min_valid).advance(k),
        ),
{
    let c = at(before, mid, after, base, min_valid);
    assert(c.data.subrange(c.pos, c.pos + k) =~= mid.subrange(0, k));
}

/// The tag byte of an encoded value reads back as its tag.
proof fn lemma_read_tag_mid(before: Seq<u8>, tag: Tag, rest: Seq<u8>, after: Seq<u8>, base: int, min_valid: int)
    requires
        min_valid <= before.len(),
    ensures
        sp_read_tag(at(before, seq![tag.spec_byte()] + rest, after, base, min_valid)) == (
            Ok::<Tag, Error>(tag),
            at(before, seq![tag.spec_byte()] + rest, after, base, min_valid).advance(1),
        ),
{
    let mid = seq![tag.spec_byte()] + rest;
    lemma_read_mid(before, mid, after, base, min_valid, 1);
    law_tag_byte_roundtrip(tag);
}

// ---------------------------------------------------------------------------
// Tags
// ---------------------------------------------------------------------------

/// Every tag reads back from its byte.
pub proof fn law_tag_byte_roundtrip(t: Tag)
    ensures
        Tag::spec_from_u8(t.spec_byte()) == Some(t),
{
}

/// A byte that reads as a tag is that tag's byte: no two tags share a byte.
pub proof fn law_tag_byte_unique(b: u8)
    ensures
        Tag::spec_from_u8(b) matches Some(t) ==> t.spec_byte() == b,
{
}

/// The wire byte of every tag is the format's table entry, and every table
/// entry reads back as its tag.
pub proof fn law_tag_table()
    ensures
        Tag::Bool.spec_byte() == 0x01u8 && Tag::spec_from_u8(0x01u8) == Some(Tag::Bool),
        Tag::S8.spec_byte() == 0x02u8 && Tag::spec_from_u8(0x02u8) == Some(Tag::S8),
        Tag::U8.spec_byte() == 0x03u8 && Tag::spec_from_u8(0x03u8) == Some(Tag::U8),
        Tag::S16.spec_byte() == 0x04u8 && Tag::spec_from_u8(0x04u8) == Some(Tag::S16),
        Tag::U16.spec_byte() == 0x05u8 && Tag::spec_from_u8(0x05u8) == Some(Tag::U16),
        Tag::S32.spec_byte() == 0x06u8 && Tag::spec_from_u8(0x06u8) == Some(Tag::S32),
        Tag::U32.spec_byte() == 0x07u8 && Tag::spec_from_u8(0x07u8) == Some(Tag::U32),
        Tag::S64.spec_byte() == 0x08u8 && Tag::spec_from_u8(0x08u8) == Some(Tag::S64),
        Tag::U64.spec_byte() == 0x09u8 && Tag::spec_from_u8(0x09u8) == Some(Tag::U64),
        Tag::F32.spec_byte() == 0x0Au8 && Tag::spec_from_u8(0x0Au8) == Some(Tag::F32),
        Tag::F64.spec_byte() == 0x0Bu8 && Tag::spec_from_u8(0x0Bu8) == Some(Tag::F64),
        Tag::String.spec_byte() == 0x10u8 && Tag::spec_from_u8(0x10u8) == Some(Tag::String),
        Tag::Bytes.spec_byte() == 0x11u8 && Tag::spec_from_u8(0x11u8) == Some(Tag::Bytes),
        Tag::Struct.spec_byte() == 0x12u8 && Tag::spec_from_u8(0x12u8) == Some(Tag::Struct),
        Tag::List.spec_byte() == 0x20u8 && Tag::spec_from_u8(0x20u8) == Some(Tag::List),
        Tag::Mapping.spec_byte() == 0x21u8 && Tag::spec_from_u8(0x21u8) == Some(Tag::Mapping),
        Tag::Array.spec_byte() == 0x23u8 && Tag::spec_from_u8(0x23u8) == Some(Tag::Array),
{
}

/// A scalar is written as its table byte followed by the little-endian
/// bytes of its value; for instance an `u64` as `0x09` and its eight bytes,
/// an `f64` as `0x0B` and the eight bytes of its bits.
pub proof fn law_scalar_bytes(a: u16, b: u32, c: u64)
    ensures
        enc_scalar(Tag::U16, u16_bytes(a)) == seq![0x05u8] + spec_u16_to_le_bytes(a),
        enc_scalar(Tag::U32, u32_bytes(b)) == seq![0x07u8] + spec_u32_to_le_bytes(b),
        enc_scalar(Tag::F32, u32_bytes(b)) == seq![0x0Au8] + spec_u32_to_le_bytes(b),
        enc_scalar(Tag::U64, u64_bytes(c)) == seq![0x09u8] + spec_u64_to_le_bytes(c),
        enc_scalar(Tag::S64, i64_bytes(c as i64)) == seq![0x08u8] + spec_u64_to_le_bytes(c),
        enc_scalar(Tag::F64, u64_bytes(c)) == seq![0x0Bu8] + spec_u64_to_le_bytes(c),
{
    assert(((c as i64) as u64) == c) by (bit_vector);
}

// ---------------------------------------------------------------------------
// What is written reads back
// ---------------------------------------------------------------------------

/// A scalar written after any bytes reads back, from its position, as its
/// payload, and the reader moves past exactly the scalar.
pub proof fn law_scalar_roundtrip(
    before: Seq<u8>,
    tag: Tag,
    payload: Seq<u8>,
    after: Seq<u8>,
    base: int,
    min_valid: int,
)
    requires
        min_valid <= before.len(),
        tag.spec_fixed_size() == Some(payload.len()),
    ensures
        sp_expect_scalar(at(before, enc_scalar(tag, payload), after, base, min_valid), tag, payload.len())
            == (Ok::<Seq<u8>, Error>(payload), at(before, enc_scalar(tag, payload), after, base, min_valid).advance(1 + payload.len() as int)),
{
    let c = at(before, enc_scalar(tag, payload), after, base, min_valid);
    lemma_read_tag_mid(before, tag, payload, after, base, min_valid);
    let c1 = c.advance(1);
    assert(c1 == at(before + seq![tag.spec_byte()], payload, after, base, min_valid)) by {
        assert(before + enc_scalar(tag, payload) + after =~= before + seq![tag.spec_byte()] + payload + after);
    }
    lemma_read_mid(before + seq![tag.spec_byte()], payload, after, base, min_valid, payload.len() as int);
    assert(payload.subrange(0, payload.len() as int) =~= payload);
}

/// A length-prefixed value written after any bytes reads back, from its
/// position, as its body, and the reader moves past exactly the value.
pub proof fn law_framed_roundtrip(
    before: Seq<u8>,
    tag: Tag,
    body: Seq<u8>,
    after: Seq<u8>,
    base: int,
    min_valid: int,
)
    requires
        min_valid <= before.len(),
        body.len() <= u32::MAX,
    ensures
        sp_expect_blob(at(before, enc_framed(tag, body), after, base, min_valid), tag) == (
            Ok::<Seq<u8>, Error>(body),
            at(before, enc_framed(tag, body), after, base, min_valid).advance(5 + body.len() as int),
        ),
        tag.spec_fixed_size() is None ==> sp_skip_value(
            at(before, enc_framed(tag, body), after, base, min_valid),
        ) == (
            Ok::<(), Error>(()),
            at(before, enc_framed(tag, body), after, base, min_valid).advance(5 + body.len() as int),
        ),
{
    let c = at(before, enc_framed(tag, body), after, base, min_valid);
    lemma_len_prefix(body.len());
    let lp = len_prefix(body.len());
    lemma_read_tag_mid(before, tag, lp + body, after, base, min_valid);
    assert(enc_framed(tag, body) =~= seq![tag.spec_byte()] + (lp + body));
    let b1 = before + seq![tag.spec_byte()];
    assert(c.advance(1) == at(b1, lp, body + after, base, min_valid)) by {
        assert(before + enc_framed(tag, body) + after =~= b1 + lp + (body + after));
    }
    lemma_read_mid(b1, lp, body + after, base, min_valid, 4);
    assert(lp.subrange(0, 4) =~= lp);
    let b2 = b1 + lp;
    assert(c.advance(5) == at(b2, body, after, base, min_valid)) by {
        assert(before + enc_framed(tag, body) + after =~= b2 + body + after);
    }
    lemma_read_mid(b2, body, after, base, min_valid, body.len() as int);
    assert(body.subrange(0, body.len() as int) =~= body);
    assert(sp_read_len(c.advance(1)) == (Ok::<nat, Error>(body.len()), c.advance(5)));
}

/// Text written as UTF-8 reads back as the same text.
pub proof fn law_text_roundtrip(chars: Seq<char>)
    ensures
        sp_text(Ok(encode_utf8(chars))) == Ok::<Seq<char>, Error>(chars),
{
    encode_utf8_valid_utf8(chars);
    encode_utf8_decode_utf8(chars);
}

/// A scalar read as "the next value" is the scalar of its payload.
pub proof fn law_read_value_scalar(
    before: Seq<u8>,
    tag: Tag,
    payload: Seq<u8>,
    after: Seq<u8>,
    base: int,
    min_valid: int,
)
    requires
        min_valid <= before.len(),
        tag.spec_fixed_size() == Some(payload.len()),
    ensures
        sp_read_value(at(before, enc_scalar(tag, payload), after, base, min_valid)) == (
            sp_untagged(tag, payload),
            at(before, enc_scalar(tag, payload), after, base, min_valid).advance(1 + payload.len() as int),
        ),
        sp_skip_value(at(before, enc_scalar(tag, payload), after, base, min_valid)) == (
            Ok::<(), Error>(()),
            at(before, enc_scalar(tag, payload), after, base, min_valid).advance(1 + payload.len() as int),
        ),
{
    law_scalar_roundtrip(before, tag, payload, after, base, min_valid);
    let c = at(before, enc_scalar(tag, payload), after, base, min_valid);
    lemma_read_tag_mid(before, tag, payload, after, base, min_valid);
    assert(c.advance(1) == at(before + seq![tag.spec_byte()], payload, after, base, min_valid)) by {
        assert(before + enc_scalar(tag, payload) + after =~= before + seq![tag.spec_byte()] + payload + after);
    }
    lemma_read_mid(before + seq![tag.spec_byte()], payload, after, base, min_valid, payload.len() as int);
    assert(payload.subrange(0, payload.len() as int) =~= payload);
}

/// A length-prefixed value read as "the next value" is the value of its
/// body: a list or mapping decoder over the body, a blob, text, or an
/// array decoder.
pub proof fn law_read_value_framed(
    before: Seq<u8>,
    tag: Tag,
    body: Seq<u8>,
    after: Seq<u8>,
    base: int,
    min_valid: int,
)
    requires
        min_valid <= before.len(),
        body.len() <= u32::MAX,
        tag.spec_fixed_size() is None,
    ensures
        sp_read_value(at(before, enc_framed(tag, body), after, base, min_valid)) == (
            sp_untagged(tag, body),
            at(before, enc_framed(tag, body), after, base, min_valid).advance(5 + body.len() as int),
        ),
{
    law_framed_roundtrip(before, tag, body, after, base, min_valid);
    let c = at(before, enc_framed(tag, body), after, base, min_valid);
    lemma_len_prefix(body.len());
    let lp = len_prefix(body.len());
    lemma_read_tag_mid(before, tag, lp + body, after, base, min_valid);
    assert(enc_framed(tag, body) =~= seq![tag.spec_byte()] + (lp + body));
    let b1 = before + seq![tag.spec_byte()];
    assert(c.advance(1) == at(b1, lp, body + after, base, min_valid)) by {
        assert(before + enc_framed(tag, body) + after =~= b1 + lp + (body + after));
    }
    lemma_read_mid(b1, lp, body + after, base, min_valid, 4);
    assert(lp.subrange(0, 4) =~= lp);
    let b2 = b1 + lp;
    assert(c.advance(5) == at(b2, body, after, base, min_valid)) by {
        assert(before + enc_framed(tag, body) + after =~= b2 + body + after);
    }
    lemma_read_mid(b2, body, after, base, min_valid, body.len() as int);
    assert(body.subrange(0, body.len() as int) =~= body);
}

/// The next value read over an encoded value has the kind of its tag: a
/// scalar is the number its payload holds, a byte blob its bytes, a record
/// body its bytes, valid text its characters, a list or a mapping a decoder
/// over its body, and an array an array decoder.
pub proof fn law_read_value_kind(
    before: Seq<u8>,
    tag: Tag,
    body: Seq<u8>,
    after: Seq<u8>,
    base: int,
    min_valid: int,
)
    requires
        min_valid <= before.len(),
        fits((tag, body)),
    ensures
        ({
            let r = sp_read_value(at(before, encode_one((tag, body)), after, base, min_valid)).0;
            match tag {
                Tag::Bool => r == Ok::<ValueModel, Error>(ValueModel::Bool(bool_of(body))),
                Tag::U8 => r == Ok::<ValueModel, Error>(ValueModel::U8(u8_of(body))),
                Tag::S8 => r == Ok::<ValueModel, Error>(ValueModel::S8(i8_of(body))),
                Tag::U16 => r == Ok::<ValueModel, Error>(ValueModel::U16(u16_of(body))),
                Tag::S16 => r == Ok::<ValueModel, Error>(ValueModel::S16(i16_of(body))),
                Tag::U32 => r == Ok::<ValueModel, Error>(ValueModel::U32(u32_of(body))),
                Tag::S32 => r == Ok::<ValueModel, Error>(ValueModel::S32(i32_of(body))),
                Tag::U64 => r == Ok::<ValueModel, Error>(ValueModel::U64(u64_of(body))),
                Tag::S64 => r == Ok::<ValueModel, Error>(ValueModel::S64(i64_of(body))),
                Tag::F32 => r == Ok::<ValueModel, Error>(ValueModel::F32(u32_of(body))),
                Tag::F64 => r == Ok::<ValueModel, Error>(ValueModel::F64(u64_of(body))),
                Tag::Bytes => r == Ok::<ValueModel, Error>(ValueModel::Bytes(body)),
                Tag::Struct => r == Ok::<ValueModel, Error>(ValueModel::Struct(body)),
                Tag::String => valid_utf8(body) ==> r == Ok::<ValueModel, Error>(
                    ValueModel::Str(decode_utf8(body)),
                ),
                Tag::List => r == Ok::<ValueModel, Error>(
                    ValueModel::List(CursorView::fresh(body), body.len() as int),
                ),
                Tag::Mapping => r == Ok::<ValueModel, Error>(
                    ValueModel::Mapping(CursorView::fresh(body), body.len() as int),
                ),
                Tag::Array => r is Ok ==> r->Ok_0 is Array,
            }
        }),
{
    if tag.spec_fixed_size() is Some {
        law_read_value_scalar(before, tag, body, after, base, min_valid);
    } else {
        law_read_value_framed(before, tag, body, after, base, min_valid);
    }
}

/// Every payload has the size of its type, and reads back as the value
/// that was written.
pub proof fn law_payload_roundtrip(
    b: bool,
    a: u8,
    c: i8,
    d: u16,
    e: i16,
    f: u32,
    g: i32,
    h: u64,
    i: i64,
)
    ensures
        bool_bytes(b).len() == 1 && bool_of(bool_bytes(b)) == b,
        u8_bytes(a).len() == 1 && u8_of(u8_bytes(a)) == a,
        i8_bytes(c).len() == 1 && i8_of(i8_bytes(c)) == c,
        u16_bytes(d).len() == 2 && u16_of(u16_bytes(d)) == d,
        i16_bytes(e).len() == 2 && i16_of(i16_bytes(e)) == e,
        u32_bytes(f).len() == 4 && u32_of(u32_bytes(f)) == f,
        i32_bytes(g).len() == 4 && i32_of(i32_bytes(g)) == g,
        u64_bytes(h).len() == 8 && u64_of(u64_bytes(h)) == h,
        i64_bytes(i).len() == 8 && i64_of(i64_bytes(i)) == i,
{
    lemma_auto_spec_u16_to_from_le_bytes();
    lemma_auto_spec_u32_to_from_le_bytes();
    lemma_auto_spec_u64_to_from_le_bytes();
    assert(u16_bytes(d).subrange(0, 2) =~= u16_bytes(d));
    assert(i16_bytes(e).subrange(0, 2) =~= i16_bytes(e));
    assert(u32_bytes(f).subrange(0, 4) =~= u32_bytes(f));
    assert(i32_bytes(g).subrange(0, 4) =~= i32_bytes(g));
    assert(u64_bytes(h).subrange(0, 8) =~= u64_bytes(h));
    assert(i64_bytes(i).subrange(0, 8) =~= i64_bytes(i));
    assert(((c as u8) as i8) == c) by (bit_vector);
    assert(((e as u16) as i16) == e) by (bit_vector);
    assert(((g as u32) as i32) == g) by (bit_vector);
    assert(((i as u64) as i64) == i) by (bit_vector);
}

// ---------------------------------------------------------------------------
// Containers frame what was written into them
// ---------------------------------------------------------------------------

/// Finishing a list, mapping or record that was opened on `before` and
/// into which `body` was written leaves exactly the framed container.
pub proof fn law_finish_frames(before: Seq<u8>, tag: Tag, body: Seq<u8>)
    requires
        body.len() <= u32::MAX,
    ensures
        patched(
            before + seq![tag.spec_byte(), 0u8, 0u8, 0u8, 0u8] + body,
            before.len() as int + 1,
            before.len() as int + 5,
        ) == before + enc_framed(tag, body),
{
    lemma_len_prefix(body.len());
    let buf = before + seq![tag.spec_byte(), 0u8, 0u8, 0u8, 0u8] + body;
    assert(buf.subrange(0, before.len() as int + 1) =~= before + seq![tag.spec_byte()]);
    assert(buf.subrange(before.len() as int + 5, buf.len() as int) =~= body);
    assert(patched(buf, before.len() as int + 1, before.len() as int + 5) =~= before + enc_framed(tag, body));
}

/// Finishing an array opened on `before` with items written after its
/// header leaves exactly the framed array, whose header reads back as its
/// item tag and stride and whose item count is the number of items.
pub proof fn law_array_frames(before: Seq<u8>, item_tag: Tag, stride: nat, items: Seq<u8>, count: nat)
    requires
        0 < stride <= u32::MAX,
        items.len() == count * stride,
        items.len() + 5 <= u32::MAX,
    ensures
        patched(
            before + seq![Tag::Array.spec_byte()] + len_prefix(0) + array_header(item_tag, stride) + items,
            before.len() as int + 1,
            before.len() as int + 5,
        ) == before + enc_framed(Tag::Array, array_header(item_tag, stride) + items),
        sp_array_header(array_header(item_tag, stride) + items) == Ok::<ArrayView, Error>(
            ArrayView {
                cursor: CursorView::fresh(array_header(item_tag, stride) + items).advance(5),
                item_tag,
                stride: stride as int,
                remaining: count as int,
            },
        ),
{
    lemma_len_prefix(0);
    lemma_len_prefix(stride);
    let h = array_header(item_tag, stride);
    let body = h + items;
    lemma_len_prefix(body.len());
    let buf = before + seq![Tag::Array.spec_byte()] + len_prefix(0) + h + items;
    assert(buf.subrange(0, before.len() as int + 1) =~= before + seq![Tag::Array.spec_byte()]);
    assert(buf.subrange(before.len() as int + 5, buf.len() as int) =~= body);
    assert(patched(buf, before.len() as int + 1, before.len() as int + 5) =~= before + enc_framed(Tag::Array, body));
    // the header
    let c0 = CursorView::fresh(body);
    assert(c0.data.subrange(0, 1) =~= seq![item_tag.spec_byte()]);
    law_tag_byte_roundtrip(item_tag);
    assert(c0.data.subrange(1, 5) =~= len_prefix(stride));
    assert(u32_of(len_prefix(stride)) == stride) by {
        assert(len_of(len_prefix(stride)) == stride);
    }
    assert(body.len() - 5 == items.len());
    assert(((count * stride) as int) % (stride as int) == 0 && ((count * stride) as int) / (stride as int) == count) by {
        vstd::arithmetic::div_mod::lemma_mod_multiples_basic(count as int, stride as int);
        vstd::arithmetic::div_mod::lemma_div_multiples_vanish(count as int, stride as int);
        assert((stride as int) * (count as int) == (count as int) * (stride as int)) by (nonlinear_arith);
    }
}

// ---------------------------------------------------------------------------
// Streaming
// ---------------------------------------------------------------------------

/// Reading a scalar from the first `k` bytes of its encoding, fewer than
/// all of them, fails with the exact number of bytes missing, and leaves
/// the reader where more input lets it resume.
pub proof fn law_truncated_scalar_pending(
    before: Seq<u8>,
    tag: Tag,
    payload: Seq<u8>,
    k: int,
    base: int,
    min_valid: int,
)
    requires
        0 <= min_valid <= before.len(),
        tag.spec_fixed_size() == Some(payload.len()),
        0 <= k < 1 + payload.len(),
    ensures
        ({
            let c = at(before, enc_scalar(tag, payload).subrange(0, k), Seq::empty(), base, min_valid);
            if k == 0 {
                sp_expect_scalar(c, tag, payload.len()) == (Err::<Seq<u8>, Error>(Error::Pending(1)), c)
            } else {
                sp_expect_scalar(c, tag, payload.len()) == (
                    Err::<Seq<u8>, Error>(Error::Pending((1 + payload.len() - k) as usize)),
                    c.advance(1),
                )
            }
        }),
{
    let e = enc_scalar(tag, payload);
    let c = at(before, e.subrange(0, k), Seq::empty(), base, min_valid);
    if k > 0 {
        assert(c.data =~= before + seq![tag.spec_byte()] + e.subrange(1, k));
        lemma_read_tag_mid(before, tag, e.subrange(1, k), Seq::empty(), base, min_valid);
        assert(before + (seq![tag.spec_byte()] + e.subrange(1, k)) + Seq::<u8>::empty() =~= c.data);
    }
}

/// The cursor `c` over more bytes: what arrived later is appended.
pub open spec fn extended(c: CursorView, more: Seq<u8>) -> CursorView {
    CursorView { data: c.data + more, ..c }
}

proof fn lemma_read_extends(c: CursorView, more: Seq<u8>, n: int)
    requires
        0 <= c.pos,
        0 <= n,
        c.read(n).0 is Ok,
    ensures
        extended(c, more).read(n) == (c.read(n).0, extended(c.read(n).1, more)),
{
    assert(extended(c, more).data.subrange(c.pos, c.pos + n) =~= c.data.subrange(c.pos, c.pos + n));
}

/// Reading a scalar, a length-prefixed value or any value, or skipping a
/// value, gives the same outcome once more bytes have arrived, whenever it
/// succeeded before they did.
pub proof fn law_reading_ignores_later_bytes(c: CursorView, more: Seq<u8>, tag: Tag, size: nat)
    requires
        0 <= c.pos,
    ensures
        sp_expect_scalar(c, tag, size).0 is Ok ==> sp_expect_scalar(extended(c, more), tag, size) == (
            sp_expect_scalar(c, tag, size).0,
            extended(sp_expect_scalar(c, tag, size).1, more),
        ),
        sp_expect_blob(c, tag).0 is Ok ==> sp_expect_blob(extended(c, more), tag) == (
            sp_expect_blob(c, tag).0,
            extended(sp_expect_blob(c, tag).1, more),
        ),
        sp_skip_value(c).0 is Ok ==> sp_skip_value(extended(c, more)) == (
            sp_skip_value(c).0,
            extended(sp_skip_value(c).1, more),
        ),
        sp_read_value(c).0 is Ok ==> sp_read_value(extended(c, more)) == (
            sp_read_value(c).0,
            extended(sp_read_value(c).1, more),
        ),
{
    if c.read(1).0 is Ok {
        lemma_read_extends(c, more, 1);
        let c1 = c.advance(1);
        if c1.read(size as int).0 is Ok {
            lemma_read_extends(c1, more, size as int);
        }
        if c1.read(4).0 is Ok {
            lemma_read_extends(c1, more, 4);
            let c2 = c1.advance(4);
            let n = len_of(c1.read(4).0->Ok_0);
            if c2.read(n as int).0 is Ok {
                lemma_read_extends(c2, more, n as int);
            }
        }
        match sp_read_tag(c).0 {
            Ok(t) => match t.spec_fixed_size() {
                Some(m) => {
                    if c1.read(m as int).0 is Ok {
                        lemma_read_extends(c1, more, m as int);
                    }
                },
                None => {},
            },
            Err(_) => {},
        }
    }
}

/// The encoding of one value given by its tag and payload: a scalar is its
/// tag and payload, any other value its tag, length and body.
pub open spec fn encode_one(v: (Tag, Seq<u8>)) -> Seq<u8> {
    if v.0.spec_fixed_size() is Some {
        enc_scalar(v.0, v.1)
    } else {
        enc_framed(v.0, v.1)
    }
}

/// A value's payload fits its tag: a scalar has its size, a body fits a
/// 32-bit length.
pub open spec fn fits(v: (Tag, Seq<u8>)) -> bool {
    match v.0.spec_fixed_size() {
        Some(n) => v.1.len() == n,
        None => v.1.len() <= u32::MAX,
    }
}

/// The encodings of a sequence of values, one after the other.
pub open spec fn encode_all(vals: Seq<(Tag, Seq<u8>)>) -> Seq<u8>
    decreases vals.len(),
{
    if vals.len() == 0 {
        Seq::empty()
    } else {
        encode_one(vals[0]) + encode_all(vals.drop_first())
    }
}

proof fn lemma_skip_all_from(before: Seq<u8>, vals: Seq<(Tag, Seq<u8>)>)
    requires
        forall|i: int| 0 <= i < vals.len() ==> #[trigger] fits(vals[i]),
    ensures
        sp_skip_all(at(before, encode_all(vals), Seq::empty(), 0, 0)) == Ok::<(), Error>(()),
    decreases vals.len(),
{
    let c = at(before, encode_all(vals), Seq::empty(), 0, 0);
    if vals.len() == 0 {
        assert(c.pos >= c.data.len());
    } else {
        let v = vals[0];
        assert(fits(v));
        let rest = vals.drop_first();
        assert forall|i: int| 0 <= i < rest.len() implies #[trigger] fits(rest[i]) by {
            assert(rest[i] == vals[i + 1]);
            assert(fits(vals[i + 1]));
        }
        let one = encode_one(v);
        assert(encode_all(vals) == one + encode_all(rest));
        let len1: int;
        if v.0.spec_fixed_size() is Some {
            law_read_value_scalar(before, v.0, v.1, encode_all(rest), 0, 0);
            len1 = 1 + v.1.len() as int;
        } else {
            law_framed_roundtrip(before, v.0, v.1, encode_all(rest), 0, 0);
            lemma_len_prefix(v.1.len());
            len1 = 5 + v.1.len() as int;
        }
        assert(at(before, one, encode_all(rest), 0, 0) == c) by {
            assert(before + one + encode_all(rest) =~= before + encode_all(vals) + Seq::<u8>::empty());
        }
        assert(one.len() == len1);
        let c1 = c.advance(len1);
        assert(c1 == at(before + one, encode_all(rest), Seq::empty(), 0, 0)) by {
            assert(before + encode_all(vals) + Seq::<u8>::empty() =~= before + one + encode_all(rest) + Seq::<u8>::empty());
        }
        lemma_skip_all_from(before + one, rest);
        assert(c.pos < c.data.len());
    }
}

/// A sequence of encoded values is accepted whole by skipping value after
/// value, as the encoder does when it resumes from existing bytes.
pub proof fn law_encoded_values_accepted(vals: Seq<(Tag, Seq<u8>)>)
    requires
        forall|i: int| 0 <= i < vals.len() ==> #[trigger] fits(vals[i]),
    ensures
        sp_skip_all(CursorView::fresh(encode_all(vals))) == Ok::<(), Error>(()),
{
    lemma_skip_all_from(Seq::empty(), vals);
    assert(at(Seq::empty(), encode_all(vals), Seq::empty(), 0, 0) == CursorView::fresh(encode_all(vals))) by {
        assert(Seq::<u8>::empty() + encode_all(vals) + Seq::<u8>::empty() =~= encode_all(vals));
    }
}

proof fn lemma_skip_all_then(before: Seq<u8>, vals: Seq<(Tag, Seq<u8>)>, tail: Seq<u8>)
    requires
        forall|i: int| 0 <= i < vals.len() ==> #[trigger] fits(vals[i]),
    ensures
        sp_skip_all(at(before, encode_all(vals), tail, 0, 0)) == sp_skip_all(
            at(before + encode_all(vals), tail, Seq::empty(), 0, 0),
        ),
    decreases vals.len(),
{
    let c = at(before, encode_all(vals), tail, 0, 0);
    if vals.len() == 0 {
        assert(c == at(before + encode_all(vals), tail, Seq::empty(), 0, 0)) by {
            assert(before + encode_all(vals) + tail =~= before + encode_all(vals) + tail + Seq::<u8>::empty());
        }
    } else {
        let v = vals[0];
        assert(fits(v));
        let rest = vals.drop_first();
        assert forall|i: int| 0 <= i < rest.len() implies #[trigger] fits(rest[i]) by {
            assert(rest[i] == vals[i + 1]);
            assert(fits(vals[i + 1]));
        }
        let one = encode_one(v);
        assert(encode_all(vals) == one + encode_all(rest));
        let after = encode_all(rest) + tail;
        let len1: int;
        if v.0.spec_fixed_size() is Some {
            law_read_value_scalar(before, v.0, v.1, after, 0, 0);
            len1 = 1 + v.1.len() as int;
        } else {
            law_framed_roundtrip(before, v.0, v.1, after, 0, 0);
            lemma_len_prefix(v.1.len());
            len1 = 5 + v.1.len() as int;
        }
        assert(at(before, one, after, 0, 0) == c) by {
            assert(before + one + after =~= before + encode_all(vals) + tail);
        }
        assert(one.len() == len1);
        let c1 = c.advance(len1);
        assert(c1 == at(before + one, encode_all(rest), tail, 0, 0)) by {
            assert(before + encode_all(vals) + tail =~= before + one + encode_all(rest) + tail);
        }
        lemma_skip_all_then(before + one, rest, tail);
        assert(before + one + encode_all(rest) =~= before + encode_all(vals));
        assert(c.pos < c.data.len());
    }
}

/// Skipping values over complete values followed by any bytes comes to the
/// same outcome as skipping values from the first of those bytes: an error
/// met after the first value is returned like one met at the first.
pub proof fn law_skip_all_after_values(vals: Seq<(Tag, Seq<u8>)>, tail: Seq<u8>)
    requires
        forall|i: int| 0 <= i < vals.len() ==> #[trigger] fits(vals[i]),
    ensures
        sp_skip_all(CursorView::fresh(encode_all(vals) + tail)) == sp_skip_all(
            CursorView { data: encode_all(vals) + tail, pos: encode_all(vals).len() as int, base: 0, min_valid: 0 },
        ),
{
    lemma_skip_all_then(Seq::empty(), vals, tail);
    assert(Seq::<u8>::empty() + encode_all(vals) + tail =~= encode_all(vals) + tail);
    assert(Seq::<u8>::empty() + encode_all(vals) + tail + Seq::<u8>::empty() =~= encode_all(vals) + tail);
    assert(Seq::<u8>::empty() + encode_all(vals) =~= encode_all(vals));
}

proof fn lemma_skip_cut_off(before: Seq<u8>, v: (Tag, Seq<u8>), k: int)
    requires
        fits(v),
        0 < k < encode_one(v).len(),
    ensures
        sp_skip_value(at(before, encode_one(v).subrange(0, k), Seq::empty(), 0, 0)).0 matches Err(
            Error::Pending(_),
        ),
{
    let e = encode_one(v);
    let t = e.subrange(0, k);
    let c = at(before, t, Seq::empty(), 0, 0);
    if v.0.spec_fixed_size() is None {
        lemma_len_prefix(v.1.len());
    }
    assert(t =~= seq![v.0.spec_byte()] + e.subrange(1, k));
    lemma_read_tag_mid(before, v.0, e.subrange(1, k), Seq::empty(), 0, 0);
    let c1 = c.advance(1);
    if v.0.spec_fixed_size() is None && k >= 5 {
        let lp = len_prefix(v.1.len());
        assert(c1.data.subrange(c1.pos, c1.pos + 4) =~= lp);
        assert(c1.read(4) == (Ok::<Seq<u8>, Error>(lp), c1.advance(4)));
    }
}

/// Bytes that end in the middle of a value are refused as pending, however
/// many complete values come before it: the encoder resumes only from
/// whole values.
pub proof fn law_cut_off_value_pending(vals: Seq<(Tag, Seq<u8>)>, v: (Tag, Seq<u8>), k: int)
    requires
        forall|i: int| 0 <= i < vals.len() ==> #[trigger] fits(vals[i]),
        fits(v),
        0 < k < encode_one(v).len(),
    ensures
        sp_skip_all(CursorView::fresh(encode_all(vals) + encode_one(v).subrange(0, k))) matches Err(
            Error::Pending(_),
        ),
{
    let t = encode_one(v).subrange(0, k);
    law_skip_all_after_values(vals, t);
    lemma_skip_cut_off(encode_all(vals), v, k);
    let c = CursorView { data: encode_all(vals) + t, pos: encode_all(vals).len() as int, base: 0, min_valid: 0 };
    assert(c == at(encode_all(vals), t, Seq::empty(), 0, 0)) by {
        assert(encode_all(vals) + t + Seq::<u8>::empty() =~= encode_all(vals) + t);
    }
    assert(c.pos < c.data.len());
}

// ---------------------------------------------------------------------------
// Positions
// ---------------------------------------------------------------------------

/// Seeking to a location marked earlier brings a cursor back to the marked
/// position, provided the position has not been released.
pub proof fn law_seek_to_mark(marked: CursorView, now: CursorView)
    requires
        marked.wf(),
        marked.pos >= marked.min_valid,
        now.data == marked.data,
        now.base == marked.base,
        now.min_valid == marked.min_valid,
    ensures
        now.seek_to(marked.absolute()) == (Ok::<(), Error>(()), marked),
{
}

/// Compacting a stream buffer does not move the cursor it gives: the same
/// bytes at the same stream positions. A second compaction right after the
/// first finds nothing consumed and keeps the bytes as they are. (Both
/// compactions ask, as `compact` does, that the stream offset of the first
/// byte kept fit a `u64`.)
pub proof fn law_compact_keeps_stream(data: Seq<u8>, base_offset: int, valid_start: int)
    requires
        0 <= valid_start <= data.len(),
    ensures
        stream_view(data, base_offset, valid_start) == stream_view(
            data.subrange(valid_start, data.len() as int),
            base_offset + valid_start,
            0,
        ),
        data.subrange(valid_start, data.len() as int).subrange(0, data.len() - valid_start)
            == data.subrange(valid_start, data.len() as int),
{
    assert(data.subrange(valid_start, data.len() as int).subrange(0, data.len() - valid_start)
        =~= data.subrange(valid_start, data.len() as int));
}

/// The chunks handed out by successive flushes, followed by what has not
/// been flushed, are the buffer.
pub proof fn law_flushed_chunks(buf: Seq<u8>, first: int, second: int)
    requires
        0 <= first <= second <= buf.len(),
    ensures
        buf.subrange(0, first) + buf.subrange(first, second) + buf.subrange(second, buf.len() as int)
            == buf,
{
    assert(buf.subrange(0, first) + buf.subrange(first, second) + buf.subrange(second, buf.len() as int)
        =~= buf);
}

} // verus!

