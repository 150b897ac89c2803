//! Progress events emitted while an HLS stream is downloaded.

use vstd::prelude::*;

use super::download::{segment_filename, segment_filename_spec};
use crate::text::{concat_str, decimal, decimal_string_u128};

verus! {

/// A step of an HLS download.
pub enum HlsEvent<'a> {
    /// Fired once after the top-level playlist is parsed and the output
    /// directory is created, before any segment is downloaded.
    PlaylistParsed { segment_count: usize },
    /// Fired after a segment (index 0-based) has been downloaded, decrypted,
    /// and written to disk.
    SegmentComplete { index: usize, total: usize },
    /// Fired after each new init segment is written to disk.
    InitSegmentComplete { url: &'a str },
}

/// Receives [`HlsEvent`]s; implemented by callers that display progress.
pub trait ProgressReporter {
    fn report(&self, event: HlsEvent<'_>);
}

/// A reporter that ignores every event.
pub struct NoProgress;

impl ProgressReporter for NoProgress {
    fn report(&self, event: HlsEvent<'_>) {
    }
}

} // verus!

verus! {

/// The line a command-line tool prints for a progress event.
pub fn progress_message(event: &HlsEvent<'_>) -> (r: String)
    ensures
        match *event {
            HlsEvent::PlaylistParsed { segment_count } => r@ == "playlist: "@ + decimal(segment_count as nat)
                + " segments"@,
            HlsEvent::SegmentComplete { index, total } => r@ == "["@ + decimal(index as nat + 1) + "/"@
                + decimal(total as nat) + "] "@ + segment_filename_spec(index as nat),
            HlsEvent::InitSegmentComplete { url } => r@ == "init segment: "@ + url@,
        },
{
    match event {
        HlsEvent::PlaylistParsed { segment_count } => {
            let a = concat_str("playlist: ", decimal_string_u128(*segment_count as u128).as_str());
            a.concat(" segments")
        },
        HlsEvent::SegmentComplete { index, total } => {
            let a = concat_str("[", decimal_string_u128(*index as u128 + 1).as_str());
            let b = a.concat("/");
            let c = b.concat(decimal_string_u128(*total as u128).as_str());
            let d = c.concat("] ");
            d.concat(segment_filename(*index).as_str())
        },
        HlsEvent::InitSegmentComplete { url } => concat_str("init segment: ", url),
    }
}

} // verus!
