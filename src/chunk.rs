//! The container shared by style and map files: a six-byte header (a four-byte
//! file type and a version), then chunks of a four-byte tag, a little-endian
//! `u32` size and that many payload bytes.
use crate::bytes::{le_u16, le_u32, read_u16_le, read_u32_le};
use vstd::prelude::*;
use vstd::utf8::{decode_utf8, valid_utf8};

verus! {

/// A chunk that a decoder needs and that the file does not hold.
#[derive(Debug, Clone, Copy, PartialEq, Eq, Structural)]
pub enum ChunkBuilderError {
    MissingTilesChunk,
    MissingPaletteIndexChunk,
    MissingCompressedMapChunk,
}

/// Why a file could not be decoded.
#[derive(Debug, Clone, Copy, PartialEq, Eq, Structural)]
pub enum ParseError {
    /// A fixed-size read ran past the end of the bytes.
    Truncated,
    /// The header's four-byte file type is not UTF-8.
    InvalidFileType,
    /// A chunk tag that the format does not know ended the chunks (strict decoding only).
    UnknownChunkType,
    /// The chunks ended without one that the file needs.
    Incomplete(ChunkBuilderError),
    /// A column of the compressed map points outside its tables.
    ColumnOutOfRange,
}

/// How a run of chunks came to its end.
#[derive(Debug, Clone, Copy, PartialEq, Eq, Structural)]
pub enum StreamEnd {
    /// Fewer than four bytes were left where a tag would start.
    Exhausted,
    /// A tag that the format does not know stood where a chunk would start.
    UnknownTag,
}

/// The header at the start of every file.
#[derive(Debug)]
pub struct FileHeader {
    pub file_type: String,
    pub version: u16,
}

/// Size in bytes of the file header.
pub const HEADER_SIZE: usize = 6;

/// Size in bytes of a chunk's tag and size fields.
pub const CHUNK_HEAD_SIZE: usize = 8;

/// The header that `s` starts with: the file type's characters and the version;
/// `Truncated` where `s` is shorter than a header, `InvalidFileType` where the
/// file type is not UTF-8.
pub open spec fn header_of(s: Seq<u8>) -> Result<(Seq<char>, u16), ParseError> {
    if s.len() < 6 {
        Err(ParseError::Truncated)
    } else if !valid_utf8(s.subrange(0, 4)) {
        Err(ParseError::InvalidFileType)
    } else {
        Ok((decode_utf8(s.subrange(0, 4)), le_u16(s, 4)))
    }
}

/// Relies on `String::from_utf8`: it succeeds exactly on valid UTF-8, with the
/// characters that the bytes encode.
#[verifier::external_body]
fn string_from_utf8(bytes: Vec<u8>) -> (r: Option<String>)
    ensures
        r is Some <==> valid_utf8(bytes@),
        r matches Some(s) ==> s@ == decode_utf8(bytes@),
{
    match String::from_utf8(bytes) {
        Ok(s) => Some(s),
        Err(_) => None,
    }
}

/// Reads the file header at the start of `bytes`.
pub fn read_header(bytes: &[u8]) -> (r: Result<FileHeader, ParseError>)
    ensures
        match header_of(bytes@) {
            Ok((file_type, version)) => r matches Ok(h) && h.file_type@ == file_type
                && h.version == version,
            Err(e) => r == Err::<FileHeader, ParseError>(e),
        },
{
    if bytes.len() < HEADER_SIZE {
        return Err(ParseError::Truncated);
    }
    let tag = vec![bytes[0], bytes[1], bytes[2], bytes[3]];
    assert(tag@ =~= bytes@.subrange(0, 4));
    match string_from_utf8(tag) {
        Some(file_type) => Ok(FileHeader { file_type, version: read_u16_le(bytes, 4) }),
        None => Err(ParseError::InvalidFileType),
    }
}

/// Whether `s` starts with the four bytes `a b c d`.
pub open spec fn has_tag(s: Seq<u8>, a: u8, b: u8, c: u8, d: u8) -> bool {
    s.len() >= 4 && s[0] == a && s[1] == b && s[2] == c && s[3] == d
}

/// Whether `bytes` starts with `a b c d`.
pub fn tag_is(bytes: &[u8], a: u8, b: u8, c: u8, d: u8) -> (r: bool)
    requires
        bytes@.len() >= 4,
    ensures
        r == has_tag(bytes@, a, b, c, d),
{
    bytes[0] == a && bytes[1] == b && bytes[2] == c && bytes[3] == d
}

/// The declared payload size of the chunk that `s` starts with.
pub open spec fn chunk_size(s: Seq<u8>) -> u32 {
    le_u32(s, 4)
}

/// The bytes after the tag and size of the chunk that `s` starts with.
pub open spec fn chunk_body(s: Seq<u8>) -> Seq<u8> {
    s.subrange(8, s.len() as int)
}

/// What the bytes left after a skipped chunk are: `None` where its declared
/// size runs past the end, so that nothing follows it.
pub open spec fn after_skip(s: Seq<u8>) -> Option<Seq<u8>> {
    let body = chunk_body(s);
    if chunk_size(s) > body.len() {
        None
    } else {
        Some(body.subrange(chunk_size(s) as int, body.len() as int))
    }
}

/// Reads the head of the chunk that `bytes` starts with: `Ok(None)` where fewer
/// than four bytes are left (the chunks are over), `Err(Truncated)` where a tag
/// but no size fits, else the declared payload size.
pub fn read_chunk_head(bytes: &[u8]) -> (r: Result<Option<u32>, ParseError>)
    ensures
        bytes@.len() < 4 ==> r == Ok::<Option<u32>, ParseError>(None),
        4 <= bytes@.len() < 8 ==> r == Err::<Option<u32>, ParseError>(ParseError::Truncated),
        bytes@.len() >= 8 ==> r == Ok::<Option<u32>, ParseError>(Some(chunk_size(bytes@))),
{
    if bytes.len() < 4 {
        Ok(None)
    } else if bytes.len() < CHUNK_HEAD_SIZE {
        Err(ParseError::Truncated)
    } else {
        Ok(Some(read_u32_le(bytes, 4)))
    }
}

} // verus!
