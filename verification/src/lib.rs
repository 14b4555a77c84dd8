//! Reads the Vorbis comment tags (title, artist, album, track number and any
//! other `KEY=VALUE` pair) out of the metadata section of a FLAC stream.
//!
//! The stream is a byte buffer in memory behind a forward-only
//! [`ByteCursor`]. [`parse`] checks the stream marker, walks the metadata
//! blocks up to the first Vorbis comment block and decodes it into a
//! [`TagMap`]; [`parse_so_far`] does the same for a stream that is still
//! being read.
//!
//! - [`format`] is the model: what the bytes of a stream mean.
//! - [`encoding`] is its converse: which bytes a stream is written as.
//! - [`laws`] holds what follows for every stream.
//! - [`parser`], [`cursor`], [`text`] and [`wire`] do the reading, each
//!   function with a contract over the model.
//! - [`metadata`] and [`tags`] hold what was read.

pub mod cursor;
pub mod encoding;
pub mod error;
pub mod format;
pub mod laws;
pub mod metadata;
pub mod parser;
pub mod tags;
pub mod text;
pub mod wire;

pub use crate::cursor::ByteCursor;
pub use crate::error::ParseError;
pub use crate::format::{decode_header, BlockHeader, VORBIS_COMMENT};
pub use crate::metadata::{MusicData, MusicMetaData, VorbisMetadata};
pub use crate::parser::{
    is_flac_file, parse, parse_so_far, parse_vorbis_comments, read_length, read_n,
    search_comment_block, FlacParser, MusicDataParser, Progress,
};
pub use crate::tags::TagMap;
pub use crate::text::split_comment;
