//! The data model of a parsed HLS media playlist.

use vstd::prelude::*;

verus! {

/// An `EXT-X-BYTERANGE`: `length` bytes starting at `offset`.
#[derive(Debug, Clone, Copy, PartialEq, Eq, Structural)]
pub struct ByteRange {
    pub length: u64,
    pub offset: u64,
}

/// The encryption in force for a segment.
#[derive(Debug, Clone)]
pub enum EncryptionState {
    /// `METHOD=NONE`, or no `EXT-X-KEY` yet.
    Unencrypted,
    Aes128 { key_url: String, iv: Option<[u8; 16]> },
}

/// The mathematical value of an [`EncryptionState`].
pub enum SpecEncryption {
    Unencrypted,
    Aes128 { key_url: Seq<char>, iv: Option<Seq<u8>> },
}

impl View for EncryptionState {
    type V = SpecEncryption;

    open spec fn view(&self) -> SpecEncryption {
        match self {
            EncryptionState::Unencrypted => SpecEncryption::Unencrypted,
            EncryptionState::Aes128 { key_url, iv } => SpecEncryption::Aes128 {
                key_url: key_url@,
                iv: match iv {
                    Some(b) => Some(b@),
                    None => None,
                },
            },
        }
    }
}

impl EncryptionState {
    /// A copy with the same value.
    pub fn duplicate(&self) -> (r: Self)
        ensures
            r@ == self@,
    {
        match self {
            EncryptionState::Unencrypted => EncryptionState::Unencrypted,
            EncryptionState::Aes128 { key_url, iv } => EncryptionState::Aes128 {
                key_url: key_url.clone(),
                iv: match iv {
                    Some(b) => Some(*b),
                    None => None,
                },
            },
        }
    }
}

/// The byte range of an init segment (`EXT-X-MAP:BYTERANGE`).
#[derive(Debug, Clone, Copy, PartialEq, Eq, Hash, Structural)]
pub struct InitByteRange {
    pub length: u64,
    pub offset: u64,
}

/// An `EXT-X-MAP` initialization section.
#[derive(Debug, Clone)]
pub struct InitSegment {
    pub url: String,
    pub byte_range: Option<InitByteRange>,
}

/// The mathematical value of an [`InitSegment`].
pub struct SpecInitSegment {
    pub url: Seq<char>,
    pub byte_range: Option<InitByteRange>,
}

impl View for InitSegment {
    type V = SpecInitSegment;

    open spec fn view(&self) -> SpecInitSegment {
        SpecInitSegment { url: self.url@, byte_range: self.byte_range }
    }
}

impl InitSegment {
    /// A copy with the same value.
    pub fn duplicate(&self) -> (r: Self)
        ensures
            r@ == self@,
    {
        InitSegment { url: self.url.clone(), byte_range: self.byte_range }
    }

    /// Whether two init segments are the same (same URL and byte range).
    pub fn same_as(&self, other: &InitSegment) -> (r: bool)
        ensures
            r == (self@ == other@),
    {
        let a = crate::text::chars_of(self.url.as_str());
        let b = crate::text::chars_of(other.url.as_str());
        crate::text::chars_eq(a.as_slice(), b.as_slice()) && self.byte_range == other.byte_range
    }
}

/// One media segment of a playlist.
#[derive(Debug, Clone)]
pub struct Segment {
    /// The `EXTINF` duration in seconds, as the decimal text the playlist
    /// gives (always a literal that `f64::from_str` accepts); `None` when no
    /// `EXTINF` preceded the segment, which counts as a duration of zero.
    pub duration: Option<String>,
    pub url: String,
    pub byte_range: Option<ByteRange>,
    pub encryption: EncryptionState,
    pub init_segment: Option<InitSegment>,
    pub discontinuity: bool,
}

/// The mathematical value of a [`Segment`].
pub struct SpecSegment {
    pub duration: Option<Seq<char>>,
    pub url: Seq<char>,
    pub byte_range: Option<ByteRange>,
    pub encryption: SpecEncryption,
    pub init_segment: Option<SpecInitSegment>,
    pub discontinuity: bool,
}

impl View for Segment {
    type V = SpecSegment;

    open spec fn view(&self) -> SpecSegment {
        SpecSegment {
            duration: match self.duration {
                Some(d) => Some(d@),
                None => None,
            },
            url: self.url@,
            byte_range: self.byte_range,
            encryption: self.encryption@,
            init_segment: match self.init_segment {
                Some(i) => Some(i@),
                None => None,
            },
            discontinuity: self.discontinuity,
        }
    }
}

/// A parsed media playlist.
#[derive(Debug)]
pub struct Playlist {
    pub target_duration: Option<u64>,
    pub media_sequence: u64,
    pub segments: Vec<Segment>,
    pub end_list: bool,
}

/// The mathematical value of a [`Playlist`].
pub struct SpecPlaylist {
    pub target_duration: Option<u64>,
    pub media_sequence: u64,
    pub segments: Seq<SpecSegment>,
    pub end_list: bool,
}

pub open spec fn segments_view(s: Seq<Segment>) -> Seq<SpecSegment> {
    s.map_values(|x: Segment| x@)
}

impl View for Playlist {
    type V = SpecPlaylist;

    open spec fn view(&self) -> SpecPlaylist {
        SpecPlaylist {
            target_duration: self.target_duration,
            media_sequence: self.media_sequence,
            segments: segments_view(self.segments@),
            end_list: self.end_list,
        }
    }
}

/// Where a downloaded stream was written.
#[derive(Debug)]
pub struct DownloadResult {
    /// Path of the rewritten `playlist.m3u8`.
    pub playlist_path: String,
    pub segment_count: usize,
}

} // verus!
