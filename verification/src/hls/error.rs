//! Errors raised while interpreting HLS playlists.

use vstd::prelude::*;

verus! {

/// A failure to fetch, interpret, decrypt or store an HLS stream. Transport
/// and file system failures are carried as the display text of the
/// underlying error.
#[derive(Debug, Clone)]
pub enum HlsError {
    /// An HTTP request failed.
    Http(String),
    /// The playlist text does not follow the m3u8 format.
    Parse(String),
    /// An `EXT-X-KEY` names an encryption method other than `NONE` or `AES-128`.
    UnsupportedEncryption(String),
    /// A segment could not be decrypted.
    Decryption { segment: String, reason: String },
    /// Reading or writing `path` failed.
    Io { path: String, message: String },
}

/// The mathematical value of an [`HlsError`].
pub enum SpecHlsError {
    Http(Seq<char>),
    Parse(Seq<char>),
    UnsupportedEncryption(Seq<char>),
    Decryption { segment: Seq<char>, reason: Seq<char> },
    Io { path: Seq<char>, message: Seq<char> },
}

impl View for HlsError {
    type V = SpecHlsError;

    open spec fn view(&self) -> SpecHlsError {
        match self {
            HlsError::Http(m) => SpecHlsError::Http(m@),
            HlsError::Parse(m) => SpecHlsError::Parse(m@),
            HlsError::UnsupportedEncryption(m) => SpecHlsError::UnsupportedEncryption(m@),
            HlsError::Decryption { segment, reason } => SpecHlsError::Decryption {
                segment: segment@,
                reason: reason@,
            },
            HlsError::Io { path, message } => SpecHlsError::Io { path: path@, message: message@ },
        }
    }
}

/// The human-readable rendering of an error.
pub open spec fn hls_error_text(e: SpecHlsError) -> Seq<char> {
    match e {
        SpecHlsError::Http(m) => "HTTP request failed: "@ + m,
        SpecHlsError::Parse(m) => "failed to parse m3u8 playlist: "@ + m,
        SpecHlsError::UnsupportedEncryption(m) => "unsupported encryption method: "@ + m,
        SpecHlsError::Decryption { segment, reason } => "decryption failed for segment "@ + segment
            + ": "@ + reason,
        SpecHlsError::Io { path, message } => "I/O error on "@ + path + ": "@ + message,
    }
}

impl HlsError {
    /// The error's message, as it is displayed to users.
    pub fn to_string(&self) -> (r: String)
        ensures
            r@ == hls_error_text(self@),
    {
        match self {
            HlsError::Http(m) => crate::text::concat_str("HTTP request failed: ", m.as_str()),
            HlsError::Parse(m) => crate::text::concat_str("failed to parse m3u8 playlist: ", m.as_str()),
            HlsError::UnsupportedEncryption(m) => crate::text::concat_str(
                "unsupported encryption method: ",
                m.as_str(),
            ),
            HlsError::Decryption { segment, reason } => {
                let a = crate::text::concat_str("decryption failed for segment ", segment.as_str());
                let b = a.concat(": ");
                b.concat(reason.as_str())
            },
            HlsError::Io { path, message } => {
                let a = crate::text::concat_str("I/O error on ", path.as_str());
                let b = a.concat(": ");
                b.concat(message.as_str())
            },
        }
    }
}

} // verus!
