//! The parser: from a cursor at the start of a stream to its tags.

use crate::cursor::ByteCursor;
use crate::error::ParseError;
use crate::format::{
    comment_block, comment_entries, decode_header, done, failed, length_field,
    metadata_comments, starts_with_magic, stream_comments, text_of, Comments, VORBIS_COMMENT,
};
use crate::laws::law_prefix_decides;
use crate::metadata::{MusicData, MusicMetaData, VorbisMetadata};
use crate::tags::TagMap;
use crate::text::{split_comment, utf8_text};
use crate::wire::read_le_u32;
use vstd::prelude::*;

verus! {

/// Whether `r` reports `expected`: the same failure, or metadata with the
/// expected vendor string and tags.
pub open spec fn reports_comments(
    r: Result<VorbisMetadata, ParseError>,
    expected: Result<Comments, ParseError>,
) -> bool {
    match expected {
        Ok(c) => r matches Ok(data) && data.vendor() == c.vendor && data.tags() == c.tags,
        Err(e) => r matches Err(f) && f == e,
    }
}

/// Whether `r` reports `expected`: the same failure, or the expected tags.
pub open spec fn reports_tags(
    r: Result<MusicMetaData, ParseError>,
    expected: Result<Comments, ParseError>,
) -> bool {
    match expected {
        Ok(c) => r matches Ok(data) && data.tags() == c.tags,
        Err(e) => r matches Err(f) && f == e,
    }
}

/// Whether `r` reports `expected`: the same failure, or the expected text.
pub open spec fn reports_text(
    r: Result<String, ParseError>,
    expected: Result<Seq<char>, ParseError>,
) -> bool {
    match expected {
        Ok(text) => r matches Ok(s) && s@ == text,
        Err(e) => r matches Err(f) && f == e,
    }
}

/// Whether `r` reports `expected`: the same failure, or the expected
/// number.
pub open spec fn reports_length(
    r: Result<u32, ParseError>,
    expected: Result<int, ParseError>,
) -> bool {
    match expected {
        Ok(n) => r matches Ok(m) && m == n,
        Err(e) => r matches Err(f) && f == e,
    }
}

/// Reads the stream marker: four bytes, which are `fLaC` in a FLAC stream.
///
/// Says whether the four bytes are the marker; what to make of other bytes
/// is left to the caller. Fails only where the stream has no four bytes.
pub fn is_flac_file(file: &mut ByteCursor) -> (r: Result<bool, ParseError>)
    ensures
        match r {
            Ok(found) => old(file)@.len() >= 4 && found == starts_with_magic(old(file)@)
                && final(file).is_after(*old(file), 4),
            Err(e) => old(file)@.len() < 4 && e == ParseError::Truncated && *final(file)
                == *old(file),
        },
{
    let word = match file.read_word() {
        Ok(word) => word,
        Err(e) => {
            return Err(e);
        },
    };
    let same = word[0] == 0x66 && word[1] == 0x4C && word[2] == 0x61 && word[3] == 0x43;
    proof {
        let marker = crate::format::magic();
        if same {
            assert(word@ =~= marker);
        } else {
            assert(word@[0] != marker[0] || word@[1] != marker[1] || word@[2] != marker[2]
                || word@[3] != marker[3]);
        }
    }
    Ok(same)
}

/// Reads a 32-bit little-endian number: a length or a count inside a
/// comment block. Fails with `Truncated`, and consumes nothing, where fewer
/// than four bytes are left.
pub fn read_length(file: &mut ByteCursor) -> (r: Result<u32, ParseError>)
    ensures
        reports_length(r, length_field(old(file)@).result),
        final(file)@ == length_field(old(file)@).rest,
        final(file).is_ahead_of(*old(file)),
{
    proof {
        file.lemma_ahead_of_itself();
    }
    match file.read_word() {
        Ok(word) => Ok(read_le_u32(&word)),
        Err(e) => Err(e),
    }
}

/// Reads the next `bytes_to_read` bytes as UTF-8 text.
///
/// Fails with `Truncated`, and consumes nothing, where fewer bytes are
/// left; fails with `MalformedData` where the bytes are not well-formed
/// UTF-8, and has consumed them then.
pub fn read_n(file: &mut ByteCursor, bytes_to_read: u64) -> (r: Result<String, ParseError>)
    ensures
        reports_text(r, text_of(old(file)@, bytes_to_read as int).result),
        final(file)@ == text_of(old(file)@, bytes_to_read as int).rest,
        final(file).is_ahead_of(*old(file)),
{
    proof {
        file.lemma_ahead_of_itself();
    }
    if bytes_to_read > file.remaining() as u64 {
        return Err(ParseError::Truncated);
    }
    let n = bytes_to_read as usize;
    let bytes = match file.read_exact(n) {
        Ok(bytes) => bytes,
        Err(e) => {
            return Err(e);
        },
    };
    match utf8_text(bytes) {
        Ok(text) => Ok(text.to_owned()),
        Err(_) => Err(ParseError::MalformedData),
    }
}

/// Decodes a Vorbis comment block from the first byte of its body: the
/// vendor string, the number of entries, and the entries.
///
/// The lengths inside the block alone decide how far it reads; the length
/// that the block's header declared is not held against them. A failure
/// leaves the cursor behind the last field that could be read.
pub fn parse_vorbis_comments(file: &mut ByteCursor) -> (r: Result<VorbisMetadata, ParseError>)
    ensures
        reports_comments(r, comment_block(old(file)@).result),
        final(file)@ == comment_block(old(file)@).rest,
        final(file).is_ahead_of(*old(file)),
{
    let ghost at_start = *file;
    let vendor_len = match read_length(file) {
        Ok(n) => n,
        Err(e) => {
            return Err(e);
        },
    };
    let ghost at_vendor = *file;
    let vendor_string = match read_n(file, vendor_len as u64) {
        Ok(s) => s,
        Err(e) => {
            proof {
                file.lemma_ahead_of_ahead(at_vendor, at_start);
            }
            return Err(e);
        },
    };
    proof {
        file.lemma_ahead_of_ahead(at_vendor, at_start);
    }
    let ghost at_count = *file;
    let ncomments = match read_length(file) {
        Ok(n) => n,
        Err(e) => {
            proof {
                file.lemma_ahead_of_ahead(at_count, at_start);
            }
            return Err(e);
        },
    };
    proof {
        file.lemma_ahead_of_ahead(at_count, at_start);
    }
    let ghost entries = file@;
    let mut comments = TagMap::new();
    let mut i: u32 = 0;
    while i < ncomments
        invariant
            i <= ncomments,
            file.is_ahead_of(at_start),
            at_start == *old(file),
            comment_entries(entries, ncomments as nat, Map::empty()) == comment_entries(
                file@,
                (ncomments - i) as nat,
                comments@,
            ),
            comment_block(at_start@) == ({
                let all = comment_entries(entries, ncomments as nat, Map::empty());
                match all.result {
                    Err(e) => failed::<Comments>(e, all.rest),
                    Ok(tags) => done(Comments { vendor: vendor_string@, tags }, all.rest),
                }
            }),
        decreases ncomments - i,
    {
        let ghost at_entry = *file;
        let length = match read_length(file) {
            Ok(n) => n,
            Err(e) => {
                proof {
                    file.lemma_ahead_of_ahead(at_entry, at_start);
                }
                return Err(e);
            },
        };
        let ghost at_text = *file;
        proof {
            file.lemma_ahead_of_ahead(at_entry, at_start);
        }
        let text = match read_n(file, length as u64) {
            Ok(s) => s,
            Err(e) => {
                proof {
                    file.lemma_ahead_of_ahead(at_text, at_start);
                }
                return Err(e);
            },
        };
        proof {
            file.lemma_ahead_of_ahead(at_text, at_start);
        }
        match split_comment(text.as_str()) {
            Some((key, value)) => {
                comments.insert(key, value);
            },
            None => {
                return Err(ParseError::MalformedData);
            },
        }
        i = i + 1;
    }
    Ok(VorbisMetadata::new(vendor_string, comments))
}

/// Searches the metadata blocks for the Vorbis comment block and decodes
/// it. The cursor stands behind the stream marker, at the first block
/// header.
///
/// Blocks of other types are passed over by their declared length, unread.
/// The search ends with `NoCommentBlock` behind the header of a last block
/// of another type.
pub fn search_comment_block(file: &mut ByteCursor) -> (r: Result<VorbisMetadata, ParseError>)
    ensures
        reports_comments(r, metadata_comments(old(file)@).result),
        final(file)@ == metadata_comments(old(file)@).rest,
        final(file).is_ahead_of(*old(file)),
{
    proof {
        file.lemma_ahead_of_itself();
    }
    loop
        invariant
            file.is_ahead_of(*old(file)),
            metadata_comments(old(file)@) == metadata_comments(file@),
        decreases file@.len(),
    {
        let ghost at_header = *file;
        let word = match file.read_word() {
            Ok(word) => word,
            Err(e) => {
                return Err(e);
            },
        };
        proof {
            file.lemma_ahead_of_ahead(at_header, *old(file));
        }
        let header = decode_header(&word);
        if header.block_type == VORBIS_COMMENT {
            let ghost at_body = *file;
            let r = parse_vorbis_comments(file);
            proof {
                file.lemma_ahead_of_ahead(at_body, *old(file));
            }
            return r;
        }
        if header.is_last {
            return Err(ParseError::NoCommentBlock);
        }
        let ghost at_body = *file;
        match file.consume(header.length as usize) {
            Ok(()) => {},
            Err(e) => {
                return Err(e);
            },
        }
        proof {
            file.lemma_ahead_of_ahead(at_body, *old(file));
            assert(file@ =~= at_header@.skip(4 + header.length));
        }
    }
}

/// What turns a stream of some format into metadata.
pub trait MusicDataParser<'a, M> where M: MusicData<'a> {
    /// Reads the metadata from where the parser stands.
    fn parse(&mut self) -> (r: Result<M, ParseError>);
}

/// A parser for the metadata of a FLAC stream. [`FlacParser::new`] makes
/// one behind the stream marker, which it has read and found right.
pub struct FlacParser<'a, 'b> {
    /// The cursor of the stream, borrowed for as long as the parser lives.
    /// It stands at a block header.
    pub file: &'a mut ByteCursor<'b>,
}

impl<'a, 'b> FlacParser<'a, 'b> {
    /// Reads the stream marker and, where it is right, gives a parser for
    /// what follows it.
    ///
    /// Fails with `Truncated` where the stream has no four bytes, and with
    /// `NotFlac` where the four bytes are not the marker.
    pub fn new(file: &'a mut ByteCursor<'b>) -> (r: Result<FlacParser<'a, 'b>, ParseError>)
        ensures
            match r {
                Ok(parser) => starts_with_magic(old(file)@) && parser.file.is_after(*old(file), 4)
                    && *final(parser.file) == *final(file),
                Err(e) => !starts_with_magic(old(file)@) && if old(file)@.len() < 4 {
                    e == ParseError::Truncated && *final(file) == *old(file)
                } else {
                    e == ParseError::NotFlac && final(file).is_after(*old(file), 4)
                },
            },
    {
        match is_flac_file(file) {
            Ok(true) => Ok(FlacParser { file }),
            Ok(false) => Err(ParseError::NotFlac),
            Err(e) => Err(e),
        }
    }
}

impl<'a, 'b, 'c> MusicDataParser<'a, VorbisMetadata> for FlacParser<'b, 'c> {
    /// Searches the metadata blocks for the Vorbis comment block and
    /// decodes it.
    fn parse(&mut self) -> (r: Result<VorbisMetadata, ParseError>)
        ensures
            reports_comments(r, metadata_comments(old(self).file@).result),
            final(self).file@ == metadata_comments(old(self).file@).rest,
            final(self).file.is_ahead_of(*old(self).file),
            *final(final(self).file) == *final(old(self).file),
    {
        search_comment_block(self.file)
    }
}

/// Reads the tags of a FLAC stream from its first byte.
///
/// A stream that does not begin with the marker is `NotFlac`, also where it
/// is too short to hold one. After success the cursor stands behind the
/// last comment entry; after a failure, behind the last field that could be
/// read.
pub fn parse(file: &mut ByteCursor) -> (r: Result<MusicMetaData, ParseError>)
    ensures
        reports_tags(r, stream_comments(old(file)@).result),
        final(file)@ == stream_comments(old(file)@).rest,
        !starts_with_magic(old(file)@) ==> (r matches Err(e) && e == ParseError::NotFlac),
        final(file).is_ahead_of(*old(file)),
{
    match FlacParser::new(file) {
        Ok(mut parser) => {
            let ghost behind_marker = *parser.file;
            match parser.parse() {
                Ok(comments) => {
                    proof {
                        parser.file.lemma_ahead_of_ahead(behind_marker, *old(file));
                    }
                    Ok(MusicMetaData::from(comments))
                },
                Err(e) => {
                    proof {
                        parser.file.lemma_ahead_of_ahead(behind_marker, *old(file));
                    }
                    Err(e)
                },
            }
        },
        Err(_) => {
            proof {
                file.lemma_ahead_of_itself();
            }
            Err(ParseError::NotFlac)
        },
    }
}

/// What to do after a try at a stream that is still being read.
pub enum Progress {
    /// The result stands, whatever the stream holds further on.
    Finished(Result<MusicMetaData, ParseError>),
    /// The bytes end too early to tell: read on and try again.
    ReadOn,
}

/// Whether the bytes read so far leave the result open: they are too few
/// for the marker, or they end before the comment block does.
pub open spec fn is_open(read: Seq<u8>) -> bool {
    read.len() < 4 || stream_comments(read).result == Err::<Comments, ParseError>(
        ParseError::Truncated,
    )
}

/// Tries to read the tags from the first bytes of a stream.
///
/// `read` is what was read of the stream so far and `at_end` says whether
/// that is all of it. At the end of the stream the result is that of
/// [`parse`]. Before the end it is given only where more bytes cannot
/// change it: it is then the result for every stream that begins with
/// `read`. Otherwise the answer is to read on.
pub fn parse_so_far(read: &[u8], at_end: bool) -> (progress: Progress)
    ensures
        match progress {
            Progress::Finished(r) => {
                &&& at_end || !is_open(read@)
                &&& reports_tags(r, stream_comments(read@).result)
                &&& !at_end ==> forall|more: Seq<u8>|
                    reports_tags(r, #[trigger] stream_comments(read@ + more).result)
            },
            Progress::ReadOn => !at_end && is_open(read@),
        },
{
    let mut cursor = ByteCursor::new(read);
    let r = parse(&mut cursor);
    if at_end {
        return Progress::Finished(r);
    }
    match r {
        Err(ParseError::Truncated) => Progress::ReadOn,
        Err(ParseError::NotFlac) => {
            if read.len() < 4 {
                Progress::ReadOn
            } else {
                proof {
                    assert forall|more: Seq<u8>|
                        reports_tags(r, #[trigger] stream_comments(read@ + more).result) by {
                        law_prefix_decides(read@, more);
                    }
                }
                Progress::Finished(r)
            }
        },
        r => {
            proof {
                assert forall|more: Seq<u8>|
                    reports_tags(r, #[trigger] stream_comments(read@ + more).result) by {
                    law_prefix_decides(read@, more);
                }
            }
            Progress::Finished(r)
        },
    }
}

} // verus!
