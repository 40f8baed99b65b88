//! Core types of the isopack binary format: value tags and errors.

use vstd::prelude::*;

verus! {

/// The one-byte tag that starts every encoded value.
///
/// The byte that stands for each tag on the wire is given by [`Tag::to_u8`].
#[derive(Debug, Clone, Copy, PartialEq, Eq, Structural)]
pub enum Tag {
    Bool,
    S8,
    U8,
    S16,
    U16,
    S32,
    U32,
    S64,
    U64,
    F32,
    F64,
    String,
    Bytes,
    Struct,
    List,
    Mapping,
    Array,
}

impl Tag {
    /// The wire byte of a tag.
    pub open spec fn spec_byte(self) -> u8 {
        match self {
            Tag::Bool => 0x01,
            Tag::S8 => 0x02,
            Tag::U8 => 0x03,
            Tag::S16 => 0x04,
            Tag::U16 => 0x05,
            Tag::S32 => 0x06,
            Tag::U32 => 0x07,
            Tag::S64 => 0x08,
            Tag::U64 => 0x09,
            Tag::F32 => 0x0A,
            Tag::F64 => 0x0B,
            Tag::String => 0x10,
            Tag::Bytes => 0x11,
            Tag::Struct => 0x12,
            Tag::List => 0x20,
            Tag::Mapping => 0x21,
            Tag::Array => 0x23,
        }
    }

    /// The tag that a wire byte stands for, if any.
    pub open spec fn spec_from_u8(b: u8) -> Option<Tag> {
        if b == 0x01 {
            Some(Tag::Bool)
        } else if b == 0x02 {
            Some(Tag::S8)
        } else if b == 0x03 {
            Some(Tag::U8)
        } else if b == 0x04 {
            Some(Tag::S16)
        } else if b == 0x05 {
            Some(Tag::U16)
        } else if b == 0x06 {
            Some(Tag::S32)
        } else if b == 0x07 {
            Some(Tag::U32)
        } else if b == 0x08 {
            Some(Tag::S64)
        } else if b == 0x09 {
            Some(Tag::U64)
        } else if b == 0x0A {
            Some(Tag::F32)
        } else if b == 0x0B {
            Some(Tag::F64)
        } else if b == 0x10 {
            Some(Tag::String)
        } else if b == 0x11 {
            Some(Tag::Bytes)
        } else if b == 0x12 {
            Some(Tag::Struct)
        } else if b == 0x20 {
            Some(Tag::List)
        } else if b == 0x21 {
            Some(Tag::Mapping)
        } else if b == 0x23 {
            Some(Tag::Array)
        } else {
            None
        }
    }

    /// Number of payload bytes that follow the tag of a scalar; `None` for
    /// the tags whose payload is prefixed by a 32-bit length.
    pub open spec fn spec_fixed_size(self) -> Option<nat> {
        match self {
            Tag::Bool | Tag::U8 | Tag::S8 => Some(1),
            Tag::U16 | Tag::S16 => Some(2),
            Tag::U32 | Tag::S32 | Tag::F32 => Some(4),
            Tag::U64 | Tag::S64 | Tag::F64 => Some(8),
            _ => None,
        }
    }

    /// Decodes a wire byte into a tag.
    pub fn from_u8(b: u8) -> (r: Option<Tag>)
        ensures
            r == Tag::spec_from_u8(b),
    {
        match b {
            0x01 => Some(Tag::Bool),
            0x02 => Some(Tag::S8),
            0x03 => Some(Tag::U8),
            0x04 => Some(Tag::S16),
            0x05 => Some(Tag::U16),
            0x06 => Some(Tag::S32),
            0x07 => Some(Tag::U32),
            0x08 => Some(Tag::S64),
            0x09 => Some(Tag::U64),
            0x0A => Some(Tag::F32),
            0x0B => Some(Tag::F64),
            0x10 => Some(Tag::String),
            0x11 => Some(Tag::Bytes),
            0x12 => Some(Tag::Struct),
            0x20 => Some(Tag::List),
            0x21 => Some(Tag::Mapping),
            0x23 => Some(Tag::Array),
            _ => None,
        }
    }

    /// The wire byte of this tag.
    pub fn to_u8(self) -> (b: u8)
        ensures
            b == self.spec_byte(),
    {
        match self {
            Tag::Bool => 0x01,
            Tag::S8 => 0x02,
            Tag::U8 => 0x03,
            Tag::S16 => 0x04,
            Tag::U16 => 0x05,
            Tag::S32 => 0x06,
            Tag::U32 => 0x07,
            Tag::S64 => 0x08,
            Tag::U64 => 0x09,
            Tag::F32 => 0x0A,
            Tag::F64 => 0x0B,
            Tag::String => 0x10,
            Tag::Bytes => 0x11,
            Tag::Struct => 0x12,
            Tag::List => 0x20,
            Tag::Mapping => 0x21,
            Tag::Array => 0x23,
        }
    }

    /// Payload size of a scalar tag (see [`Tag::spec_fixed_size`]).
    pub fn fixed_size(self) -> (r: Option<usize>)
        ensures
            match r {
                Some(n) => self.spec_fixed_size() == Some(n as nat),
                None => self.spec_fixed_size() is None,
            },
    {
        match self {
            Tag::Bool | Tag::U8 | Tag::S8 => Some(1),
            Tag::U16 | Tag::S16 => Some(2),
            Tag::U32 | Tag::S32 | Tag::F32 => Some(4),
            Tag::U64 | Tag::S64 | Tag::F64 => Some(8),
            _ => None,
        }
    }
}

/// Errors of encoding and decoding.
#[derive(Debug, Clone, Copy, PartialEq, Eq, Structural)]
pub enum Error {
    /// More input is needed: the number of bytes missing.
    Pending(usize),
    /// A byte where a tag was expected is no tag.
    InvalidTag(u8),
    /// A string payload is not valid UTF-8.
    InvalidUtf8,
    /// The value found has another tag than the one asked for.
    TypeMismatch,
    /// The bytes do not follow the format.
    Malformed,
    /// A blob is longer than a 32-bit length can describe.
    BlobTooLarge(usize),
    /// A buffer or container has reached the 32-bit size limit.
    ContainerFull,
    /// A location lies before the start of the buffer.
    SeekBeforeBuffer,
    /// A location lies after the end of the buffer.
    SeekAfterBuffer,
    /// A container is still open.
    ScopeOpen,
    /// The position lies in a part of the stream that was released.
    PositionFreed,
    /// A position lies outside the buffer.
    OutOfBounds,
}

pub type Result<T> = core::result::Result<T, Error>;

} // verus!
