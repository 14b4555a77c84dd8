//! What holds of every stream.
//!
//! Each law is proved from the model in [`crate::format`], over which the
//! contracts of the parsing functions are stated, and from the layout in
//! [`crate::encoding`].

use crate::encoding::{
    announces_comments, blocks_bytes, collect, comment_body_bytes, comment_stream, fits_field,
    header_bytes, le_bytes, leads_on, lemma_comment_body, lemma_header_round_trip,
    lemma_length_field, lemma_seek_block, lemma_text_field, text_bytes, valid_pair, Block, Pair,
};
use crate::error::ParseError;
use crate::format::{
    comment_block, comment_entries, done, failed, header_of, length_field, magic,
    metadata_comments, seek_comment_block, starts_with_magic, stream_comments, text_field,
    BlockHeader, Comments, Parsed, Tags, VORBIS_COMMENT,
};
use crate::metadata::{MusicData, MusicMetaData};
use crate::parser::{is_open, reports_tags};
use crate::text::{is_separator, sole_separator, split_text};
use vstd::prelude::*;

verus! {

/// Behind the marker a stream is read as its metadata blocks.
pub proof fn lemma_behind_marker(blocks: Seq<u8>)
    ensures
        starts_with_magic(magic() + blocks),
        stream_comments(magic() + blocks) == metadata_comments(blocks),
{
    let s = magic() + blocks;
    assert(s.take(4) =~= magic());
    assert(s.skip(4) =~= blocks);
}

/// Blocks that are neither comment blocks nor marked as the last are passed
/// over: the search finds behind them what it would find without them,
/// whatever their bodies hold.
pub proof fn lemma_seek_past(blocks: Seq<Block>, rest: Seq<u8>)
    requires
        leads_on(blocks),
    ensures
        seek_comment_block(blocks_bytes(blocks) + rest) == seek_comment_block(rest),
    decreases blocks.len(),
{
    if blocks.len() == 0 {
        assert(blocks_bytes(blocks) + rest =~= rest);
    } else {
        let first = blocks[0];
        let others = blocks.drop_first();
        let after = blocks_bytes(others) + rest;
        assert(first.valid());
        assert(blocks_bytes(blocks) + rest =~= first.bytes() + after);
        lemma_seek_block(first, after);
        assert(leads_on(others)) by {
            assert forall|i: int| 0 <= i < others.len() implies (#[trigger] others[i]).valid()
                && others[i].block_type != VORBIS_COMMENT && !others[i].is_last by {
                assert(others[i] == blocks[i + 1]);
            }
        }
        lemma_seek_past(others, rest);
    }
}

/// The search gives up at the last of some blocks of which none is a
/// comment block.
pub proof fn lemma_seek_in_vain(blocks: Seq<Block>, tail: Seq<u8>)
    requires
        blocks.len() > 0,
        forall|i: int|
            0 <= i < blocks.len() ==> (#[trigger] blocks[i]).valid() && blocks[i].block_type
                != VORBIS_COMMENT,
        blocks.last().is_last,
    ensures
        seek_comment_block(blocks_bytes(blocks) + tail).result == Err::<(), ParseError>(
            ParseError::NoCommentBlock,
        ),
    decreases blocks.len(),
{
    let first = blocks[0];
    let others = blocks.drop_first();
    let after = blocks_bytes(others) + tail;
    assert(first.valid());
    assert(blocks_bytes(blocks) + tail =~= first.bytes() + after);
    lemma_seek_block(first, after);
    if !first.is_last {
        assert(others.len() > 0) by {
            if others.len() == 0 {
                assert(blocks.last() == first);
            }
        }
        assert forall|i: int| 0 <= i < others.len() implies (#[trigger] others[i]).valid()
            && others[i].block_type != VORBIS_COMMENT by {
            assert(others[i] == blocks[i + 1]);
        }
        assert(others.last() == blocks.last());
        lemma_seek_in_vain(others, tail);
    }
}

/// A stream whose metadata blocks hold no comment block yields
/// `NoCommentBlock`: none of the blocks is a comment block and the final one
/// carries the last-block flag. What follows the blocks does not matter.
pub proof fn law_no_comment_block(blocks: Seq<Block>, tail: Seq<u8>)
    requires
        blocks.len() > 0,
        forall|i: int|
            0 <= i < blocks.len() ==> (#[trigger] blocks[i]).valid() && blocks[i].block_type
                != VORBIS_COMMENT,
        blocks.last().is_last,
    ensures
        stream_comments(magic() + blocks_bytes(blocks) + tail).result == Err::<
            Comments,
            ParseError,
        >(ParseError::NoCommentBlock),
{
    let metadata = blocks_bytes(blocks) + tail;
    assert(magic() + blocks_bytes(blocks) + tail =~= magic() + metadata);
    lemma_behind_marker(metadata);
    lemma_seek_in_vain(blocks, tail);
}

/// Blocks of other types before the comment block are skipped unread: a
/// stream with such blocks behind its marker yields what the stream
/// without them yields, whatever their bodies hold.
pub proof fn law_other_blocks_are_skipped(blocks: Seq<Block>, rest: Seq<u8>)
    requires
        leads_on(blocks),
    ensures
        stream_comments(magic() + blocks_bytes(blocks) + rest) == stream_comments(magic() + rest),
{
    assert(magic() + blocks_bytes(blocks) + rest =~= magic() + (blocks_bytes(blocks) + rest));
    lemma_behind_marker(blocks_bytes(blocks) + rest);
    lemma_behind_marker(rest);
    lemma_seek_past(blocks, rest);
}

/// Behind the marker, the blocks of other types and the comment block's
/// header, a stream is read as the comment block's body. The length that
/// the header declares plays no part.
pub proof fn lemma_comment_stream(before: Seq<Block>, header: BlockHeader, body: Seq<u8>)
    requires
        leads_on(before),
        announces_comments(header),
    ensures
        stream_comments(comment_stream(before, header, body)) == comment_block(body),
{
    let from_header = header_bytes(header) + body;
    assert(comment_stream(before, header, body) =~= magic() + blocks_bytes(before) + from_header);
    law_other_blocks_are_skipped(before, from_header);
    lemma_behind_marker(from_header);
    lemma_header_round_trip(header);
    assert(from_header.take(4) =~= header_bytes(header));
    assert(from_header.skip(4) =~= body);
}

/// A stream that was written from a vendor string and some tags yields
/// them: its comment block holds one entry for each tag, and the tags come
/// out as they were set in order, with what follows the block left unread.
pub proof fn law_round_trip(
    before: Seq<Block>,
    header: BlockHeader,
    vendor: Seq<char>,
    pairs: Seq<Pair>,
    tail: Seq<u8>,
)
    requires
        leads_on(before),
        announces_comments(header),
        fits_field(vendor),
        forall|i: int| 0 <= i < pairs.len() ==> valid_pair(#[trigger] pairs[i]),
        pairs.len() < 0x1_0000_0000,
    ensures
        stream_comments(
            comment_stream(before, header, comment_body_bytes(vendor, pairs.len(), pairs) + tail),
        ) == done(Comments { vendor, tags: collect(pairs, Map::empty()) }, tail),
{
    lemma_comment_stream(before, header, comment_body_bytes(vendor, pairs.len(), pairs) + tail);
    lemma_comment_body(vendor, pairs, pairs.len(), tail);
}

/// Setting tags in order leaves each key with the value of its last entry:
/// where no later entry has the key of entry `last`, the key has the value
/// of that entry.
pub proof fn law_last_entry_wins(pairs: Seq<Pair>, tags: Tags, last: int)
    requires
        0 <= last < pairs.len(),
        forall|i: int| last < i < pairs.len() ==> (#[trigger] pairs[i]).0 != pairs[last].0,
    ensures
        collect(pairs, tags).contains_key(pairs[last].0),
        collect(pairs, tags)[pairs[last].0] == pairs[last].1,
    decreases pairs.len(),
{
    let others = pairs.drop_first();
    let next = tags.insert(pairs[0].0, pairs[0].1);
    if last == 0 {
        assert forall|i: int| 0 <= i < others.len() implies (#[trigger] others[i]).0
            != pairs[0].0 by {
            assert(others[i] == pairs[i + 1]);
        }
        lemma_collect_keeps(others, next, pairs[0].0);
    } else {
        assert(others[last - 1] == pairs[last]);
        assert forall|i: int| last - 1 < i < others.len() implies (#[trigger] others[i]).0
            != others[last - 1].0 by {
            assert(others[i] == pairs[i + 1]);
        }
        law_last_entry_wins(others, next, last - 1);
    }
}

/// Setting tags leaves every other key as it was.
pub proof fn lemma_collect_keeps(pairs: Seq<Pair>, tags: Tags, key: Seq<char>)
    requires
        forall|i: int| 0 <= i < pairs.len() ==> (#[trigger] pairs[i]).0 != key,
    ensures
        collect(pairs, tags).contains_key(key) == tags.contains_key(key),
        tags.contains_key(key) ==> collect(pairs, tags)[key] == tags[key],
    decreases pairs.len(),
{
    if pairs.len() > 0 {
        let others = pairs.drop_first();
        assert(pairs[0].0 != key);
        assert forall|i: int| 0 <= i < others.len() implies (#[trigger] others[i]).0 != key by {
            assert(others[i] == pairs[i + 1]);
        }
        lemma_collect_keeps(others, tags.insert(pairs[0].0, pairs[0].1), key);
    }
}

/// What splitting comes to: a text without `=` does not split, nor does a
/// text with `=` in two places, and a text that splits is its key, `=` and
/// its value, neither of which holds `=`.
pub proof fn law_split(text: Seq<char>)
    ensures
        !text.contains('=') ==> split_text(text) is None,
        forall|i: int, j: int|
            is_separator(text, i) && is_separator(text, j) && i != j ==> split_text(text) is None,
        split_text(text) matches Some((key, value)) ==> text == key + seq!['='] + value
            && !key.contains('=') && !value.contains('='),
{
    if !text.contains('=') {
        assert forall|i: int| !sole_separator(text, i) by {
            if is_separator(text, i) {
                assert(text.contains(text[i]));
            }
        }
    }
    if let Some((key, value)) = split_text(text) {
        let at = choose|i: int| sole_separator(text, i);
        assert(text =~= key + seq!['='] + value);
        if key.contains('=') {
            let i = choose|i: int| 0 <= i < key.len() && key[i] == '=';
            assert(is_separator(text, i));
        }
        if value.contains('=') {
            let i = choose|i: int| 0 <= i < value.len() && value[i] == '=';
            assert(is_separator(text, at + 1 + i));
        }
    }
}

/// Entries fail as the first of them does.
pub proof fn lemma_first_entry_fails(s: Seq<u8>, n: nat, tags: Tags, e: ParseError, rest: Seq<u8>)
    requires
        n > 0,
        text_field(s) == failed::<Seq<char>>(e, rest),
    ensures
        comment_entries(s, n, tags) == failed::<Tags>(e, rest),
{
}

/// Entries fail with `MalformedData` where the first of them does not
/// split.
pub proof fn lemma_first_entry_splits(
    s: Seq<u8>,
    n: nat,
    tags: Tags,
    text: Seq<char>,
    rest: Seq<u8>,
)
    requires
        n > 0,
        text_field(s) == done(text, rest),
        split_text(text) is None,
    ensures
        comment_entries(s, n, tags) == failed::<Tags>(ParseError::MalformedData, rest),
{
}

/// A comment block fails as the first entry behind those that are in
/// order does.
pub proof fn lemma_block_fails_at_entry(
    vendor: Seq<char>,
    pairs: Seq<Pair>,
    count: nat,
    after: Seq<u8>,
    e: ParseError,
    rest: Seq<u8>,
)
    requires
        fits_field(vendor),
        forall|i: int| 0 <= i < pairs.len() ==> valid_pair(#[trigger] pairs[i]),
        pairs.len() < count < 0x1_0000_0000,
        text_field(after) == failed::<Seq<char>>(e, rest),
    ensures
        comment_block(comment_body_bytes(vendor, count, pairs) + after) == failed::<Comments>(
            e,
            rest,
        ),
{
    let left = (count - pairs.len()) as nat;
    lemma_first_entry_fails(after, left, collect(pairs, Map::empty()), e, rest);
    lemma_comment_body(vendor, pairs, count, after);
}

/// A comment block is `MalformedData` where the first entry behind those
/// that are in order does not split.
pub proof fn lemma_block_fails_at_split(
    vendor: Seq<char>,
    pairs: Seq<Pair>,
    count: nat,
    after: Seq<u8>,
    text: Seq<char>,
    rest: Seq<u8>,
)
    requires
        fits_field(vendor),
        forall|i: int| 0 <= i < pairs.len() ==> valid_pair(#[trigger] pairs[i]),
        pairs.len() < count < 0x1_0000_0000,
        text_field(after) == done(text, rest),
        split_text(text) is None,
    ensures
        comment_block(comment_body_bytes(vendor, count, pairs) + after) == failed::<Comments>(
            ParseError::MalformedData,
            rest,
        ),
{
    let left = (count - pairs.len()) as nat;
    lemma_first_entry_splits(after, left, collect(pairs, Map::empty()), text, rest);
    lemma_comment_body(vendor, pairs, count, after);
}

/// A stream with a comment entry that does not split is `MalformedData`:
/// of the entries that the comment block declares, some are in order, and
/// the one behind them is without `=`, or with more than one.
pub proof fn law_entry_must_split(
    before: Seq<Block>,
    header: BlockHeader,
    vendor: Seq<char>,
    count: nat,
    pairs: Seq<Pair>,
    text: Seq<char>,
    rest: Seq<u8>,
)
    requires
        leads_on(before),
        announces_comments(header),
        fits_field(vendor),
        forall|i: int| 0 <= i < pairs.len() ==> valid_pair(#[trigger] pairs[i]),
        pairs.len() < count < 0x1_0000_0000,
        fits_field(text),
        split_text(text) is None,
    ensures
        stream_comments(
            comment_stream(
                before,
                header,
                comment_body_bytes(vendor, count, pairs) + (text_bytes(text) + rest),
            ),
        ) == failed::<Comments>(ParseError::MalformedData, rest),
{
    let after = text_bytes(text) + rest;
    lemma_text_field(text, rest);
    lemma_block_fails_at_split(vendor, pairs, count, after, text, rest);
    lemma_comment_stream(before, header, comment_body_bytes(vendor, count, pairs) + after);
}

/// A text field that declares more bytes than are left is `Truncated`,
/// and only its length is consumed.
pub proof fn lemma_text_must_fit(n: int, short: Seq<u8>)
    requires
        short.len() < n < 0x1_0000_0000,
    ensures
        text_field(le_bytes(n) + short) == failed::<Seq<char>>(ParseError::Truncated, short),
{
    lemma_length_field(n, short);
}

/// A stream with a comment entry that declares more bytes than the stream
/// still holds is `Truncated`: of the entries that the comment block
/// declares, some are in order, and behind them stands a length `n` with
/// fewer than `n` bytes after it.
pub proof fn law_entry_must_fit(
    before: Seq<Block>,
    header: BlockHeader,
    vendor: Seq<char>,
    count: nat,
    pairs: Seq<Pair>,
    n: int,
    short: Seq<u8>,
)
    requires
        leads_on(before),
        announces_comments(header),
        fits_field(vendor),
        forall|i: int| 0 <= i < pairs.len() ==> valid_pair(#[trigger] pairs[i]),
        pairs.len() < count < 0x1_0000_0000,
        short.len() < n < 0x1_0000_0000,
    ensures
        stream_comments(
            comment_stream(
                before,
                header,
                comment_body_bytes(vendor, count, pairs) + (le_bytes(n) + short),
            ),
        ) == failed::<Comments>(ParseError::Truncated, short),
{
    let after = le_bytes(n) + short;
    lemma_text_must_fit(n, short);
    lemma_block_fails_at_entry(vendor, pairs, count, after, ParseError::Truncated, short);
    lemma_comment_stream(before, header, comment_body_bytes(vendor, count, pairs) + after);
}

/// Whether `first` is decided by the bytes it was read from, whatever
/// follows them: `later` is then the same value or failure, with `more`
/// added to the bytes that were left unread. Only `Truncated` is open to
/// what follows.
pub open spec fn decides<T>(first: Parsed<T>, later: Parsed<T>, more: Seq<u8>) -> bool {
    first.result != Err::<T, ParseError>(ParseError::Truncated) ==> later == (Parsed {
        result: first.result,
        rest: first.rest + more,
    })
}

/// A length field is decided by the bytes it was read from.
pub proof fn lemma_length_field_prefix(s: Seq<u8>, more: Seq<u8>)
    ensures
        decides(length_field(s), length_field(s + more), more),
{
    if s.len() >= 4 {
        assert((s + more).take(4) =~= s.take(4));
        assert((s + more).skip(4) =~= s.skip(4) + more);
    }
}

/// A text field is decided by the bytes it was read from.
pub proof fn lemma_text_field_prefix(s: Seq<u8>, more: Seq<u8>)
    ensures
        decides(text_field(s), text_field(s + more), more),
{
    lemma_length_field_prefix(s, more);
    let length = length_field(s);
    if let Ok(n) = length.result {
        let rest = length.rest;
        if rest.len() >= n {
            assert(0 <= n) by {
                let b = s.take(4);
                assert(b[0] >= 0 && b[1] >= 0 && b[2] >= 0 && b[3] >= 0);
            }
            assert((rest + more).take(n) =~= rest.take(n));
            assert((rest + more).skip(n) =~= rest.skip(n) + more);
        }
    }
}

/// The entries of a comment block are decided by the bytes they were read
/// from.
pub proof fn lemma_entries_prefix(s: Seq<u8>, n: nat, tags: Tags, more: Seq<u8>)
    ensures
        decides(comment_entries(s, n, tags), comment_entries(s + more, n, tags), more),
    decreases n,
{
    if n == 0 {
    } else {
        lemma_text_field_prefix(s, more);
        let entry = text_field(s);
        if let Ok(text) = entry.result {
            if let Some((key, value)) = split_text(text) {
                lemma_entries_prefix(entry.rest, (n - 1) as nat, tags.insert(key, value), more);
            }
        }
    }
}

/// A comment block is decided by the bytes it was read from.
pub proof fn lemma_comment_block_prefix(s: Seq<u8>, more: Seq<u8>)
    ensures
        decides(comment_block(s), comment_block(s + more), more),
{
    lemma_text_field_prefix(s, more);
    let vendor = text_field(s);
    if vendor.result is Ok {
        lemma_length_field_prefix(vendor.rest, more);
        let count = length_field(vendor.rest);
        if let Ok(n) = count.result {
            lemma_entries_prefix(count.rest, n as nat, Map::empty(), more);
        }
    }
}

/// Where the comment block begins is decided by the bytes that were
/// searched.
pub proof fn lemma_seek_prefix(s: Seq<u8>, more: Seq<u8>)
    ensures
        decides(seek_comment_block(s), seek_comment_block(s + more), more),
    decreases s.len(),
{
    if s.len() >= 4 {
        assert((s + more).take(4) =~= s.take(4));
        assert((s + more).skip(4) =~= s.skip(4) + more);
        let h = header_of(s.take(4));
        if h.block_type != VORBIS_COMMENT && !h.is_last && s.len() >= 4 + h.length {
            assert((s + more).skip(4 + h.length) =~= s.skip(4 + h.length) + more);
            lemma_seek_prefix(s.skip(4 + h.length), more);
        }
    }
}

/// The whole stream is decided by the bytes that were read of it, once
/// they are enough to hold the marker.
pub proof fn lemma_stream_prefix(read: Seq<u8>, more: Seq<u8>)
    requires
        read.len() >= 4,
    ensures
        decides(stream_comments(read), stream_comments(read + more), more),
{
    assert((read + more).take(4) =~= read.take(4));
    assert((read + more).skip(4) =~= read.skip(4) + more);
    if starts_with_magic(read) {
        lemma_seek_prefix(read.skip(4), more);
        let search = seek_comment_block(read.skip(4));
        if search.result is Ok {
            lemma_comment_block_prefix(search.rest, more);
        }
    }
}

/// A result that is not open is final: once the bytes read so far hold the
/// marker and the whole comment block, or show why there is none, the bytes
/// that follow change nothing but what is left unread. A stream can so be
/// parsed while it is still being read.
pub proof fn law_prefix_decides(read: Seq<u8>, more: Seq<u8>)
    requires
        !is_open(read),
    ensures
        stream_comments(read + more) == (Parsed {
            result: stream_comments(read).result,
            rest: stream_comments(read).rest + more,
        }),
{
    lemma_stream_prefix(read, more);
}

/// Parsing is a function of the bytes: two results for the same stream
/// fail alike or hold equal tags.
pub proof fn law_parse_is_deterministic(
    stream: Seq<u8>,
    first: Result<MusicMetaData, ParseError>,
    second: Result<MusicMetaData, ParseError>,
)
    requires
        reports_tags(first, stream_comments(stream).result),
        reports_tags(second, stream_comments(stream).result),
    ensures
        match (first, second) {
            (Ok(a), Ok(b)) => a.tags() == b.tags(),
            (Err(e), Err(f)) => e == f,
            _ => false,
        },
{
}


} // verus!
