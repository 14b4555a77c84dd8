//! The ways in which reading the tags of a stream can fail.

use vstd::prelude::*;

verus! {

/// Why a stream yielded no tags.
#[derive(Clone, Copy, Debug, PartialEq, Eq, Structural)]
pub enum ParseError {
    /// The stream does not begin with the `fLaC` marker.
    NotFlac,
    /// The last metadata block went by without a Vorbis comment block.
    NoCommentBlock,
    /// A text field is not valid UTF-8, or a comment entry does not hold
    /// exactly one `=`.
    MalformedData,
    /// The stream ends before a field of fixed or declared length does.
    Truncated,
    /// The byte source itself failed. Nothing in this library reads from a
    /// source that can fail, so no function here returns this kind: it is
    /// for callers that fill the buffer from a file or a socket.
    Io,
}

impl ParseError {
    /// The text of this error's message.
    pub open spec fn spec_message(self) -> Seq<char> {
        match self {
            ParseError::NotFlac => "could not parse as a flac file"@,
            ParseError::NoCommentBlock => "no comment block"@,
            ParseError::MalformedData => "malformed FLAC file, could not decode user comment"@,
            ParseError::Truncated => "unexpected end of stream"@,
            ParseError::Io => "could not read from the byte source"@,
        }
    }

    /// A short message for people, one per kind.
    pub fn message(&self) -> (text: &'static str)
        ensures
            text@ == self.spec_message(),
    {
        match self {
            ParseError::NotFlac => "could not parse as a flac file",
            ParseError::NoCommentBlock => "no comment block",
            ParseError::MalformedData => "malformed FLAC file, could not decode user comment",
            ParseError::Truncated => "unexpected end of stream",
            ParseError::Io => "could not read from the byte source",
        }
    }
}

} // verus!
