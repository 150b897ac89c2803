//! yt-dlp: where it is and which version it reports.

use vstd::prelude::*;

use crate::text::{chars_of, string_of, trim, trim_chars};

verus! {

/// A located yt-dlp executable.
pub struct YtDlp {
    pub path: String,
    pub version: String,
}

/// The version `yt-dlp --version` reports: its whole output, trimmed, when
/// that is not empty.
pub open spec fn ytdlp_version_spec(stdout: Seq<char>) -> Option<Seq<char>> {
    if trim(stdout).len() == 0 {
        None
    } else {
        Some(trim(stdout))
    }
}

/// Reads the version out of the output of a successful `yt-dlp --version`.
pub fn parse_version_output(stdout: &str) -> (r: Option<String>)
    ensures
        match ytdlp_version_spec(stdout@) {
            Some(v) => r matches Some(x) && x@ == v,
            None => r is None,
        },
{
    let v = chars_of(stdout);
    let t = trim_chars(v.as_slice());
    if t.len() == 0 {
        None
    } else {
        Some(string_of(t.as_slice()))
    }
}

} // verus!
