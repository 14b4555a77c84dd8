//! How a stream is laid out from its parts.
//!
//! Nothing here runs: the library only reads streams. These functions say
//! which bytes a header, a metadata block, a text field and a comment block
//! are written as, and the lemmas show that the decoding functions of
//! [`crate::format`] take those bytes apart again. The laws of the library
//! are stated over them.

use crate::error::ParseError;
use crate::format::{
    comment_block, comment_entries, done, failed, header_of, length_field, magic,
    seek_comment_block, text_field, BlockHeader, Comments, Tags, VORBIS_COMMENT,
};
use crate::text::{is_separator, lemma_split_at, sole_separator, split_text};
use crate::wire::le_u32;
use vstd::prelude::*;
use vstd::utf8::*;

verus! {

/// The four bytes of `n`, lowest byte first.
pub open spec fn le_bytes(n: int) -> Seq<u8> {
    seq![
        (n % 0x100) as u8,
        (n / 0x100 % 0x100) as u8,
        (n / 0x1_0000 % 0x100) as u8,
        (n / 0x100_0000 % 0x100) as u8,
    ]
}

/// Whether `h` can be written: its type fits seven bits, its length 24.
pub open spec fn valid_header(h: BlockHeader) -> bool {
    h.block_type <= 127 && h.length < 0x100_0000
}

/// The four bytes of a block header.
pub open spec fn header_bytes(h: BlockHeader) -> Seq<u8> {
    seq![
        (if h.is_last {
            0x80 + h.block_type
        } else {
            h.block_type as int
        }) as u8,
        (h.length / 0x1_0000) as u8,
        (h.length / 0x100 % 0x100) as u8,
        (h.length % 0x100) as u8,
    ]
}

/// A metadata block: its flag, its type and its body.
pub struct Block {
    /// Set on the final metadata block of the stream.
    pub is_last: bool,
    /// What the block holds.
    pub block_type: u8,
    /// The bytes of the body.
    pub body: Seq<u8>,
}

impl Block {
    /// The header that announces this block.
    pub open spec fn header(self) -> BlockHeader {
        BlockHeader {
            is_last: self.is_last,
            block_type: self.block_type,
            length: self.body.len() as u32,
        }
    }

    /// Whether the block can be written: its type fits seven bits and the
    /// length of its body 24.
    pub open spec fn valid(self) -> bool {
        self.block_type <= 127 && self.body.len() < 0x100_0000
    }

    /// The bytes of the block: header, then body.
    pub open spec fn bytes(self) -> Seq<u8> {
        header_bytes(self.header()) + self.body
    }
}

/// The bytes of some blocks, one after the other.
pub open spec fn blocks_bytes(blocks: Seq<Block>) -> Seq<u8>
    decreases blocks.len(),
{
    if blocks.len() == 0 {
        Seq::empty()
    } else {
        blocks[0].bytes() + blocks_bytes(blocks.drop_first())
    }
}

/// Whether `before` can stand before the comment block: every block can be
/// written, none is a comment block and none is marked as the last.
pub open spec fn leads_on(before: Seq<Block>) -> bool {
    forall|i: int|
        0 <= i < before.len() ==> (#[trigger] before[i]).valid() && before[i].block_type
            != VORBIS_COMMENT && !before[i].is_last
}

/// Whether `h` can announce a comment block.
pub open spec fn announces_comments(h: BlockHeader) -> bool {
    valid_header(h) && h.block_type == VORBIS_COMMENT
}

/// The bytes of a stream with comments: the marker, the blocks before the
/// comment block, that block's header, and then `body`, which is the
/// block's body with all that follows it.
pub open spec fn comment_stream(before: Seq<Block>, header: BlockHeader, body: Seq<u8>) -> Seq<u8> {
    magic() + blocks_bytes(before) + header_bytes(header) + body
}

/// Whether `text` can be written as a text field: its UTF-8 form is short
/// enough for a 32-bit length.
pub open spec fn fits_field(text: Seq<char>) -> bool {
    encode_utf8(text).len() < 0x1_0000_0000
}

/// The bytes of a text field: the length of the text's UTF-8 form, then
/// that form.
pub open spec fn text_bytes(text: Seq<char>) -> Seq<u8> {
    le_bytes(encode_utf8(text).len() as int) + encode_utf8(text)
}

/// A tag as it is given to a writer.
pub type Pair = (Seq<char>, Seq<char>);

/// The text of the comment entry for a tag: `KEY=VALUE`.
pub open spec fn entry_text(pair: Pair) -> Seq<char> {
    pair.0 + seq!['='] + pair.1
}

/// Whether a tag can be written as a comment entry: neither its key nor its
/// value holds `=`, and the entry is short enough.
pub open spec fn valid_pair(pair: Pair) -> bool {
    &&& !pair.0.contains('=')
    &&& !pair.1.contains('=')
    &&& fits_field(entry_text(pair))
}

/// The bytes of the comment entries for some tags, in their order.
pub open spec fn entries_bytes(pairs: Seq<Pair>) -> Seq<u8>
    decreases pairs.len(),
{
    if pairs.len() == 0 {
        Seq::empty()
    } else {
        text_bytes(entry_text(pairs[0])) + entries_bytes(pairs.drop_first())
    }
}

/// `tags` after the given tags were set in their order.
pub open spec fn collect(pairs: Seq<Pair>, tags: Tags) -> Tags
    decreases pairs.len(),
{
    if pairs.len() == 0 {
        tags
    } else {
        collect(pairs.drop_first(), tags.insert(pairs[0].0, pairs[0].1))
    }
}

/// The bytes of a comment block's body that declares `count` entries and
/// holds those for `pairs`.
pub open spec fn comment_body_bytes(vendor: Seq<char>, count: nat, pairs: Seq<Pair>) -> Seq<u8> {
    text_bytes(vendor) + le_bytes(count as int) + entries_bytes(pairs)
}

/// A number below `2^32` is the sum of its four base-256 digits.
proof fn lemma_digits(n: int)
    requires
        0 <= n < 0x1_0000_0000,
    ensures
        n == n % 0x100 + 0x100 * (n / 0x100 % 0x100) + 0x1_0000 * (n / 0x1_0000 % 0x100)
            + 0x100_0000 * (n / 0x100_0000 % 0x100),
{
    let q1 = n / 0x100;
    let q2 = q1 / 0x100;
    let q3 = q2 / 0x100;
    assert(n == 0x100 * q1 + n % 0x100);
    assert(q1 == 0x100 * q2 + q1 % 0x100);
    assert(q2 == 0x100 * q3 + q2 % 0x100);
    assert(q2 == n / 0x1_0000);
    assert(q3 == n / 0x100_0000);
    assert(q3 < 0x100);
}

/// Reading four little-endian bytes gives back the number they were
/// written from.
pub proof fn lemma_le_round_trip(n: int)
    requires
        0 <= n < 0x1_0000_0000,
    ensures
        le_bytes(n).len() == 4,
        le_u32(le_bytes(n)) == n,
{
    let b = le_bytes(n);
    assert(b[0] as int == n % 0x100);
    assert(b[1] as int == n / 0x100 % 0x100);
    assert(b[2] as int == n / 0x1_0000 % 0x100);
    assert(b[3] as int == n / 0x100_0000 % 0x100);
    lemma_digits(n);
}

/// Decoding the bytes of a header gives back the header.
pub proof fn lemma_header_round_trip(h: BlockHeader)
    requires
        valid_header(h),
    ensures
        header_bytes(h).len() == 4,
        header_of(header_bytes(h)) == h,
{
    let b = header_bytes(h);
    assert(b[1] as int == h.length / 0x1_0000);
    assert(b[2] as int == h.length / 0x100 % 0x100);
    assert(b[3] as int == h.length % 0x100);
}

/// A length field reads as the number that it was written from.
pub proof fn lemma_length_field(n: int, rest: Seq<u8>)
    requires
        0 <= n < 0x1_0000_0000,
    ensures
        length_field(le_bytes(n) + rest) == done(n, rest),
{
    lemma_le_round_trip(n);
    let s = le_bytes(n) + rest;
    assert(s.take(4) =~= le_bytes(n));
    assert(s.skip(4) =~= rest);
}

/// A text field reads as the text that it was written from.
pub proof fn lemma_text_field(text: Seq<char>, rest: Seq<u8>)
    requires
        fits_field(text),
    ensures
        text_field(text_bytes(text) + rest) == done(text, rest),
{
    let body = encode_utf8(text);
    let n = body.len() as int;
    assert(text_bytes(text) + rest =~= le_bytes(n) + (body + rest));
    lemma_length_field(n, body + rest);
    assert((body + rest).take(n) =~= body);
    assert((body + rest).skip(n) =~= rest);
    encode_utf8_valid_utf8(text);
    encode_utf8_decode_utf8(text);
}

/// The entry written for a tag splits into that tag.
pub proof fn lemma_split_entry(pair: Pair)
    requires
        !pair.0.contains('='),
        !pair.1.contains('='),
    ensures
        split_text(entry_text(pair)) == Some(pair),
{
    let text = entry_text(pair);
    let at = pair.0.len() as int;
    assert(is_separator(text, at));
    assert forall|j: int| is_separator(text, j) implies j == at by {
        if j < at {
            assert(pair.0[j] == '=');
        } else if j > at {
            assert(pair.1[j - at - 1] == '=');
        }
    }
    assert(sole_separator(text, at));
    lemma_split_at(text, at);
    assert(text.take(at) =~= pair.0);
    assert(text.skip(at + 1) =~= pair.1);
}

/// The entries written for some tags read as those tags, set in order:
/// of `count` entries to read, those that are left are read with the tags
/// so far.
pub proof fn lemma_entries(pairs: Seq<Pair>, rest: Seq<u8>, count: nat, tags: Tags)
    requires
        forall|i: int| 0 <= i < pairs.len() ==> valid_pair(#[trigger] pairs[i]),
        pairs.len() <= count,
    ensures
        comment_entries(entries_bytes(pairs) + rest, count, tags) == comment_entries(
            rest,
            (count - pairs.len()) as nat,
            collect(pairs, tags),
        ),
    decreases pairs.len(),
{
    if pairs.len() == 0 {
        assert(entries_bytes(pairs) + rest =~= rest);
    } else {
        let first = pairs[0];
        let others = pairs.drop_first();
        let after = entries_bytes(others) + rest;
        assert(valid_pair(first));
        assert(entries_bytes(pairs) + rest =~= text_bytes(entry_text(first)) + after);
        lemma_text_field(entry_text(first), after);
        lemma_split_entry(first);
        assert forall|i: int| 0 <= i < others.len() implies valid_pair(#[trigger] others[i]) by {
            assert(others[i] == pairs[i + 1]);
        }
        lemma_entries(others, rest, (count - 1) as nat, tags.insert(first.0, first.1));
    }
}

/// The body of a comment block reads as what it was written from, up to
/// the entries that it holds: the entries that it declares beyond those are
/// read from what follows.
pub proof fn lemma_comment_body(vendor: Seq<char>, pairs: Seq<Pair>, count: nat, rest: Seq<u8>)
    requires
        fits_field(vendor),
        forall|i: int| 0 <= i < pairs.len() ==> valid_pair(#[trigger] pairs[i]),
        pairs.len() <= count < 0x1_0000_0000,
    ensures
        comment_block(comment_body_bytes(vendor, count, pairs) + rest) == ({
            let entries = comment_entries(
                rest,
                (count - pairs.len()) as nat,
                collect(pairs, Map::empty()),
            );
            match entries.result {
                Err(e) => failed::<Comments>(e, entries.rest),
                Ok(tags) => done(Comments { vendor, tags }, entries.rest),
            }
        }),
{
    let entries = entries_bytes(pairs) + rest;
    let after_vendor = le_bytes(count as int) + entries;
    assert(comment_body_bytes(vendor, count, pairs) + rest =~= text_bytes(vendor) + after_vendor);
    lemma_text_field(vendor, after_vendor);
    lemma_length_field(count as int, entries);
    lemma_entries(pairs, rest, count, Map::empty());
}

/// What the search makes of a block at the front of the stream: it stops
/// at a comment block, gives up at a last block of another type and
/// otherwise goes on behind the block.
pub proof fn lemma_seek_block(block: Block, rest: Seq<u8>)
    requires
        block.valid(),
    ensures
        seek_comment_block(block.bytes() + rest) == if block.block_type == VORBIS_COMMENT {
            done((), block.body + rest)
        } else if block.is_last {
            failed(ParseError::NoCommentBlock, block.body + rest)
        } else {
            seek_comment_block(rest)
        },
{
    let s = block.bytes() + rest;
    let h = block.header();
    lemma_header_round_trip(h);
    assert(s.take(4) =~= header_bytes(h));
    assert(s.skip(4) =~= block.body + rest);
    assert(s.skip(4 + h.length) =~= rest);
}

} // verus!
