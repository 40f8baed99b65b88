//! The byte layout of encoded values, stated as specifications, and the
//! little-endian conversions of scalar payloads.
//!
//! A scalar is its tag byte followed by its little-endian payload. A string,
//! a byte blob, a record, a list, a mapping and an array are their tag byte,
//! a 32-bit little-endian byte length and that many bytes of body.

use vstd::prelude::*;
use vstd::bytes::*;
use vstd::slice::slice_subrange;

use crate::types::Tag;

verus! {

broadcast use vstd::seq::group_seq_axioms;

// ---------------------------------------------------------------------------
// Payloads of scalars
// ---------------------------------------------------------------------------

pub open spec fn bool_bytes(v: bool) -> Seq<u8> {
    seq![if v { 1u8 } else { 0u8 }]
}

pub open spec fn u8_bytes(v: u8) -> Seq<u8> {
    seq![v]
}

pub open spec fn i8_bytes(v: i8) -> Seq<u8> {
    seq![v as u8]
}

pub open spec fn u16_bytes(v: u16) -> Seq<u8> {
    spec_u16_to_le_bytes(v)
}

pub open spec fn i16_bytes(v: i16) -> Seq<u8> {
    spec_u16_to_le_bytes(v as u16)
}

pub open spec fn u32_bytes(v: u32) -> Seq<u8> {
    spec_u32_to_le_bytes(v)
}

pub open spec fn i32_bytes(v: i32) -> Seq<u8> {
    spec_u32_to_le_bytes(v as u32)
}

pub open spec fn u64_bytes(v: u64) -> Seq<u8> {
    spec_u64_to_le_bytes(v)
}

pub open spec fn i64_bytes(v: i64) -> Seq<u8> {
    spec_u64_to_le_bytes(v as u64)
}

/// Payload read back as a `bool`: any non-zero byte is `true`.
pub open spec fn bool_of(b: Seq<u8>) -> bool {
    b[0] != 0
}

pub open spec fn u8_of(b: Seq<u8>) -> u8 {
    b[0]
}

pub open spec fn i8_of(b: Seq<u8>) -> i8 {
    b[0] as i8
}

pub open spec fn u16_of(b: Seq<u8>) -> u16 {
    spec_u16_from_le_bytes(b.subrange(0, 2))
}

pub open spec fn i16_of(b: Seq<u8>) -> i16 {
    spec_u16_from_le_bytes(b.subrange(0, 2)) as i16
}

pub open spec fn u32_of(b: Seq<u8>) -> u32 {
    spec_u32_from_le_bytes(b.subrange(0, 4))
}

pub open spec fn i32_of(b: Seq<u8>) -> i32 {
    spec_u32_from_le_bytes(b.subrange(0, 4)) as i32
}

pub open spec fn u64_of(b: Seq<u8>) -> u64 {
    spec_u64_from_le_bytes(b.subrange(0, 8))
}

pub open spec fn i64_of(b: Seq<u8>) -> i64 {
    spec_u64_from_le_bytes(b.subrange(0, 8)) as i64
}

// ---------------------------------------------------------------------------
// Encoded values
// ---------------------------------------------------------------------------

/// A scalar on the wire: its tag byte, then its payload.
pub open spec fn enc_scalar(tag: Tag, payload: Seq<u8>) -> Seq<u8> {
    seq![tag.spec_byte()] + payload
}

/// The 32-bit little-endian length that prefixes a body.
pub open spec fn len_prefix(n: nat) -> Seq<u8> {
    spec_u32_to_le_bytes(n as u32)
}

/// A length-prefixed value on the wire: its tag byte, the length of its
/// body, then the body.
pub open spec fn enc_framed(tag: Tag, body: Seq<u8>) -> Seq<u8> {
    seq![tag.spec_byte()] + len_prefix(body.len()) + body
}

/// The header of an array body: the tag of its items and their size.
pub open spec fn array_header(item_tag: Tag, stride: nat) -> Seq<u8> {
    seq![item_tag.spec_byte()] + spec_u32_to_le_bytes(stride as u32)
}

/// The length read back from a 4-byte prefix.
pub open spec fn len_of(b: Seq<u8>) -> nat {
    u32_of(b) as nat
}

// ---------------------------------------------------------------------------
// Facts
// ---------------------------------------------------------------------------

/// A 32-bit length prefix is four bytes and reads back as the length.
pub proof fn lemma_len_prefix(n: nat)
    requires
        n <= u32::MAX,
    ensures
        len_prefix(n).len() == 4,
        len_of(len_prefix(n)) == n,
{
    lemma_auto_spec_u32_to_from_le_bytes();
    assert(spec_u32_to_le_bytes(n as u32).len() == 4);
    assert(len_prefix(n).subrange(0, 4) =~= len_prefix(n));
}

/// The four bytes of any length prefix.
pub proof fn lemma_u32_bytes_len(v: u32)
    ensures
        spec_u32_to_le_bytes(v).len() == 4,
        spec_u32_from_le_bytes(spec_u32_to_le_bytes(v)) == v,
{
    lemma_auto_spec_u32_to_from_le_bytes();
    assert(spec_u32_to_le_bytes(v).len() == 4);
}

// ---------------------------------------------------------------------------
// Executable conversions
// ---------------------------------------------------------------------------

pub fn byte_vec(b: u8) -> (r: Vec<u8>)
    ensures
        r@ == seq![b],
{
    let mut r = Vec::new();
    r.push(b);
    r
}

pub fn u16_le(v: u16) -> (r: Vec<u8>)
    ensures
        r@ == u16_bytes(v),
        r@.len() == 2,
{
    u16_to_le_bytes(v)
}

pub fn u32_le(v: u32) -> (r: Vec<u8>)
    ensures
        r@ == u32_bytes(v),
        r@.len() == 4,
{
    u32_to_le_bytes(v)
}

pub fn u64_le(v: u64) -> (r: Vec<u8>)
    ensures
        r@ == u64_bytes(v),
        r@.len() == 8,
{
    u64_to_le_bytes(v)
}

pub fn read_u16(src: &[u8]) -> (v: u16)
    requires
        src@.len() >= 2,
    ensures
        v == u16_of(src@),
{
    u16_from_le_bytes(slice_subrange(src, 0, 2))
}

pub fn read_u32(src: &[u8]) -> (v: u32)
    requires
        src@.len() >= 4,
    ensures
        v == u32_of(src@),
{
    u32_from_le_bytes(slice_subrange(src, 0, 4))
}

pub fn read_u64(src: &[u8]) -> (v: u64)
    requires
        src@.len() >= 8,
    ensures
        v == u64_of(src@),
{
    u64_from_le_bytes(slice_subrange(src, 0, 8))
}

} // verus!
