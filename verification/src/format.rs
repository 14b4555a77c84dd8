//! The byte layout of a FLAC stream's metadata, as far as the tags need it.
//!
//! A stream opens with the marker `fLaC`. Metadata blocks follow, each a
//! four-byte header and a body of the length that the header declares. The
//! body of a Vorbis comment block holds a vendor string and a counted list
//! of `KEY=VALUE` entries, every one of them prefixed with its length.
//!
//! Everything here is a function of the bytes still to be read, so that a
//! contract can apply it to a cursor's view.

use crate::error::ParseError;
use crate::text::split_text;
use crate::wire::{be_u32, le_u32, read_be_u32};
use vstd::prelude::*;
use vstd::utf8::*;

verus! {

/// The block type of a Vorbis comment block.
pub const VORBIS_COMMENT: u8 = 4;

/// The marker that opens every FLAC stream: `fLaC` in ASCII.
pub open spec fn magic() -> Seq<u8> {
    seq![0x66u8, 0x4Cu8, 0x61u8, 0x43u8]
}

/// Whether `s` begins with the stream marker.
pub open spec fn starts_with_magic(s: Seq<u8>) -> bool {
    s.len() >= 4 && s.take(4) == magic()
}

/// The header of one metadata block.
#[derive(Clone, Copy, Debug, PartialEq, Eq, Structural)]
pub struct BlockHeader {
    /// Set on the final metadata block of the stream.
    pub is_last: bool,
    /// What the block holds, in `0..=127`.
    pub block_type: u8,
    /// The length of the block's body in bytes, below `2^24`.
    pub length: u32,
}

/// The header that four bytes spell: the top bit of the first byte is the
/// last-block flag, its other seven bits are the block type, and the three
/// bytes after it are the body's length, highest byte first.
pub open spec fn header_of(word: Seq<u8>) -> BlockHeader
    recommends
        word.len() == 4,
{
    BlockHeader {
        is_last: word[0] >= 0x80,
        block_type: (word[0] % 0x80) as u8,
        length: (0x1_0000 * (word[1] as int) + 0x100 * (word[2] as int) + word[3] as int) as u32,
    }
}

/// Decodes a metadata block header.
pub fn decode_header(word: &[u8; 4]) -> (h: BlockHeader)
    ensures
        h == header_of(word@),
        h.block_type <= 127,
        h.length < 0x100_0000,
{
    let flags = word[0];
    let masked: [u8; 4] = [0, word[1], word[2], word[3]];
    let length = read_be_u32(&masked);
    let is_last = flags >> 7 == 1;
    let block_type = flags & 0x7f;
    proof {
        assert((flags >> 7 == 1) == (flags >= 0x80)) by (bit_vector);
        assert(flags & 0x7f == flags % 0x80) by (bit_vector);
        assert(length as int == be_u32(masked@));
    }
    BlockHeader { is_last, block_type, length }
}

/// What reading comes to: the value that was read or the reason why there
/// is none, and the bytes that are left unread either way.
pub struct Parsed<T> {
    /// The value, or the failure.
    pub result: Result<T, ParseError>,
    /// The bytes that were not consumed.
    pub rest: Seq<u8>,
}

/// `value` was read and `rest` is left.
pub open spec fn done<T>(value: T, rest: Seq<u8>) -> Parsed<T> {
    Parsed { result: Ok(value), rest }
}

/// Reading failed with `e` and `rest` is left.
pub open spec fn failed<T>(e: ParseError, rest: Seq<u8>) -> Parsed<T> {
    Parsed { result: Err(e), rest }
}

/// The search for the first Vorbis comment block.
///
/// `s` starts at a block header. Blocks of other types are passed over by
/// their declared length. Where the search succeeds, what is left is the
/// body of the comment block and all that follows it. A stream that ends
/// inside a header or inside a body to be passed over is `Truncated`, and a
/// last block of another type means `NoCommentBlock`; the header that shows
/// either has then been consumed if it was whole.
pub open spec fn seek_comment_block(s: Seq<u8>) -> Parsed<()>
    decreases s.len(),
{
    if s.len() < 4 {
        failed(ParseError::Truncated, s)
    } else {
        let h = header_of(s.take(4));
        if h.block_type == VORBIS_COMMENT {
            done((), s.skip(4))
        } else if h.is_last {
            failed(ParseError::NoCommentBlock, s.skip(4))
        } else if s.len() < 4 + h.length {
            failed(ParseError::Truncated, s.skip(4))
        } else {
            seek_comment_block(s.skip(4 + h.length))
        }
    }
}

/// The text in the first `n` bytes of `s`. Where fewer bytes are left,
/// none is consumed; bytes that are not UTF-8 are consumed all the same.
pub open spec fn text_of(s: Seq<u8>, n: int) -> Parsed<Seq<char>> {
    if s.len() < n {
        failed(ParseError::Truncated, s)
    } else if !valid_utf8(s.take(n)) {
        failed(ParseError::MalformedData, s.skip(n))
    } else {
        done(decode_utf8(s.take(n)), s.skip(n))
    }
}

/// A 32-bit little-endian number at the front of `s`. Where fewer than
/// four bytes are left, none is consumed.
pub open spec fn length_field(s: Seq<u8>) -> Parsed<int> {
    if s.len() < 4 {
        failed(ParseError::Truncated, s)
    } else {
        done(le_u32(s.take(4)), s.skip(4))
    }
}

/// A length-prefixed text at the front of `s`.
pub open spec fn text_field(s: Seq<u8>) -> Parsed<Seq<char>> {
    let length = length_field(s);
    match length.result {
        Err(e) => failed(e, length.rest),
        Ok(n) => text_of(length.rest, n),
    }
}

/// The mapping from tag keys to tag values.
pub type Tags = Map<Seq<char>, Seq<char>>;

/// `tags` after the next `n` comment entries of `s` were added to it in
/// order. A later entry replaces an earlier one with the same key. An entry
/// that does not split is `MalformedData`, and is consumed.
pub open spec fn comment_entries(s: Seq<u8>, n: nat, tags: Tags) -> Parsed<Tags>
    decreases n,
{
    if n == 0 {
        done(tags, s)
    } else {
        let entry = text_field(s);
        match entry.result {
            Err(e) => failed(e, entry.rest),
            Ok(text) => match split_text(text) {
                None => failed(ParseError::MalformedData, entry.rest),
                Some((key, value)) => comment_entries(
                    entry.rest,
                    (n - 1) as nat,
                    tags.insert(key, value),
                ),
            },
        }
    }
}

/// What a Vorbis comment block holds.
pub struct Comments {
    /// The vendor string.
    pub vendor: Seq<char>,
    /// The tags.
    pub tags: Tags,
}

/// The contents of the comment block whose body starts `s`: the vendor
/// string, the entry count, then that many entries.
pub open spec fn comment_block(s: Seq<u8>) -> Parsed<Comments> {
    let vendor = text_field(s);
    match vendor.result {
        Err(e) => failed(e, vendor.rest),
        Ok(vendor_string) => {
            let count = length_field(vendor.rest);
            match count.result {
                Err(e) => failed(e, count.rest),
                Ok(n) => {
                    let entries = comment_entries(count.rest, n as nat, Map::empty());
                    match entries.result {
                        Err(e) => failed(e, entries.rest),
                        Ok(tags) => done(Comments { vendor: vendor_string, tags }, entries.rest),
                    }
                },
            }
        },
    }
}

/// The comments of a stream that starts at a block header.
pub open spec fn metadata_comments(s: Seq<u8>) -> Parsed<Comments> {
    let search = seek_comment_block(s);
    match search.result {
        Err(e) => failed(e, search.rest),
        Ok(_) => comment_block(search.rest),
    }
}

/// The comments of a whole stream. Whatever keeps the marker from being
/// read and recognised makes the stream `NotFlac`: too few bytes, of which
/// none is consumed, or four bytes that are not the marker.
pub open spec fn stream_comments(s: Seq<u8>) -> Parsed<Comments> {
    if s.len() < 4 {
        failed(ParseError::NotFlac, s)
    } else if !starts_with_magic(s) {
        failed(ParseError::NotFlac, s.skip(4))
    } else {
        metadata_comments(s.skip(4))
    }
}

} // verus!
