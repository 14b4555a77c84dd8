//! The decoded metadata and the lookups that every kind of it offers.

use crate::format::Tags;
use crate::tags::TagMap;
use vstd::prelude::*;
use vstd::std_specs::convert::FromSpecImpl;

verus! {

/// Whether `found` is what looking `key` up in `tags` gives: its value, or
/// nothing where `tags` has no such key.
pub open spec fn is_lookup(tags: Tags, key: Seq<char>, found: Option<&str>) -> bool {
    match found {
        Some(value) => tags.contains_key(key) && value@ == tags[key],
        None => !tags.contains_key(key),
    }
}

/// Lookups shared by every metadata format, whatever else a format keeps.
pub trait MusicData<'a> {
    /// The tags that the lookups read.
    spec fn tags(&self) -> Tags;

    /// The title of the track: the value of `TITLE`.
    fn title(&'a self) -> (found: Option<&'a str>)
        ensures
            is_lookup(self.tags(), "TITLE"@, found),
    ;

    /// The artist of the track: the value of `ARTIST`.
    fn artist(&'a self) -> (found: Option<&'a str>)
        ensures
            is_lookup(self.tags(), "ARTIST"@, found),
    ;

    /// The album of the track: the value of `ALBUM`.
    fn album(&'a self) -> (found: Option<&'a str>)
        ensures
            is_lookup(self.tags(), "ALBUM"@, found),
    ;

    /// The track number: the value of `TRACKNUMBER`. It is text, since
    /// numbers such as `A3` (side A, track 3) occur.
    fn tracknumber(&'a self) -> (found: Option<&'a str>)
        ensures
            is_lookup(self.tags(), "TRACKNUMBER"@, found),
    ;

    /// Gives up the metadata for its tags.
    fn map(self) -> (all: TagMap)
        ensures
            all@ == self.tags(),
    ;
}

/// The contents of a Vorbis comment block.
pub struct VorbisMetadata {
    vendor_string: String,
    user_comments: TagMap,
}

impl VorbisMetadata {
    /// The vendor string of the block.
    pub closed spec fn vendor(&self) -> Seq<char> {
        self.vendor_string@
    }

    /// Metadata with the given vendor string and tags.
    pub fn new(vendor_string: String, user_comments: TagMap) -> (data: Self)
        ensures
            data.vendor() == vendor_string@,
            data.tags() == user_comments@,
    {
        VorbisMetadata { vendor_string, user_comments }
    }

    /// The vendor string of the block: the name of the program that wrote
    /// the comments.
    pub fn vendor_string(&self) -> (vendor: &str)
        ensures
            vendor@ == self.vendor(),
    {
        self.vendor_string.as_str()
    }
}

impl<'a> MusicData<'a> for VorbisMetadata {
    closed spec fn tags(&self) -> Tags {
        self.user_comments@
    }

    fn title(&'a self) -> (found: Option<&'a str>) {
        self.user_comments.get("TITLE")
    }

    fn artist(&'a self) -> (found: Option<&'a str>) {
        self.user_comments.get("ARTIST")
    }

    fn album(&'a self) -> (found: Option<&'a str>) {
        self.user_comments.get("ALBUM")
    }

    fn tracknumber(&'a self) -> (found: Option<&'a str>) {
        self.user_comments.get("TRACKNUMBER")
    }

    fn map(self) -> (all: TagMap) {
        self.user_comments
    }
}

/// Tags alone, from whatever format they were read.
pub struct MusicMetaData {
    map: TagMap,
}

impl<'a> MusicData<'a> for MusicMetaData {
    closed spec fn tags(&self) -> Tags {
        self.map@
    }

    fn title(&'a self) -> (found: Option<&'a str>) {
        self.map.get("TITLE")
    }

    fn artist(&'a self) -> (found: Option<&'a str>) {
        self.map.get("ARTIST")
    }

    fn album(&'a self) -> (found: Option<&'a str>) {
        self.map.get("ALBUM")
    }

    fn tracknumber(&'a self) -> (found: Option<&'a str>) {
        self.map.get("TRACKNUMBER")
    }

    fn map(self) -> (all: TagMap) {
        self.map
    }
}

impl From<VorbisMetadata> for MusicMetaData {
    /// Keeps the tags and drops the vendor string.
    fn from(c: VorbisMetadata) -> (data: MusicMetaData)
        ensures
            data.tags() == c.tags(),
    {
        MusicMetaData { map: c.user_comments }
    }
}

impl FromSpecImpl<VorbisMetadata> for MusicMetaData {
    open spec fn obeys_from_spec() -> bool {
        true
    }

    closed spec fn from_spec(c: VorbisMetadata) -> MusicMetaData {
        MusicMetaData { map: c.user_comments }
    }
}

} // verus!
