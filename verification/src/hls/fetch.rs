//! Fetching a playlist: checking its URL, and deciding which transport
//! failures are worth another try. The requests themselves, and the waiting
//! between them, are made by the caller.

use vstd::prelude::*;

use crate::hls::error::HlsError;
use crate::text::concat_str;

verus! {

/// What `url::Url::parse(s)` gives: the serialization of the parsed URL, or
/// the display text of the error.
pub uninterp spec fn url_parse(s: Seq<char>) -> Result<Seq<char>, Seq<char>>;

/// Parses `s` with the `url` crate (`Url::parse`, serialized with
/// `to_string`). The contract only names the outcome: WHATWG URL parsing is
/// not restated.
#[verifier::external_body]
fn parse_url(s: &str) -> (r: Result<String, String>)
    ensures
        match r {
            Ok(u) => url_parse(s@) == Ok::<Seq<char>, Seq<char>>(u@),
            Err(e) => url_parse(s@) == Err::<Seq<char>, Seq<char>>(e@),
        },
{
    url::Url::parse(s).map(|u| u.to_string()).map_err(|e| e.to_string())
}

/// The URL a playlist is fetched from and resolved against: `playlist_url`
/// as the `url` crate parses it, or a parse error naming why it is invalid.
pub fn playlist_base_url(playlist_url: &str) -> (r: Result<String, HlsError>)
    ensures
        match url_parse(playlist_url@) {
            Ok(u) => r matches Ok(x) && x@ == u,
            Err(e) => r matches Err(HlsError::Parse(m)) && m@ == "invalid URL: "@ + e,
        },
{
    match parse_url(playlist_url) {
        Ok(u) => Ok(u),
        Err(e) => Err(HlsError::Parse(concat_str("invalid URL: ", e.as_str()))),
    }
}

/// How many times a failed playlist request is tried again.
pub const PLAYLIST_MAX_RETRIES: usize = 4;

/// The shortest wait before a retry, in seconds; waits grow exponentially
/// (with jitter) up to [`PLAYLIST_MAX_DELAY_SECS`].
pub const PLAYLIST_MIN_DELAY_SECS: u64 = 1;

/// The longest wait before a retry, in seconds.
pub const PLAYLIST_MAX_DELAY_SECS: u64 = 5;

/// What went wrong with a request, as far as the retry decision needs it.
#[derive(Debug, Clone, Copy)]
pub struct TransportFailure {
    /// The request timed out.
    pub timeout: bool,
    /// No connection could be made.
    pub connect: bool,
    /// The HTTP status of an error response, if one came back.
    pub status: Option<u16>,
}

/// A failure worth another try: a timeout, a failed connection, a server
/// error (5xx), or one of 403, 408 and 429, which CDNs answer transiently
/// (403 when a freshly signed URL is used too quickly).
pub open spec fn retryable(f: TransportFailure) -> bool {
    f.timeout || f.connect || match f.status {
        Some(s) => (500 <= s <= 599) || s == 403 || s == 408 || s == 429,
        None => false,
    }
}

/// Whether a failed playlist request should be tried again (see [`retryable`]).
pub fn is_retryable(f: &TransportFailure) -> (r: bool)
    ensures
        r == retryable(*f),
{
    if f.timeout || f.connect {
        return true;
    }
    match f.status {
        Some(s) => (500 <= s && s <= 599) || s == 403 || s == 408 || s == 429,
        None => false,
    }
}

/// Whether the playlist is requested again after its `attempts`-th request
/// failed with `f`: only for a failure worth another try, and at most
/// [`PLAYLIST_MAX_RETRIES`] times in all.
pub open spec fn retry_allowed(attempts: int, f: TransportFailure) -> bool {
    retryable(f) && attempts <= PLAYLIST_MAX_RETRIES
}

/// Decides, after the `attempts`-th request for a playlist failed with `f`,
/// whether to request it again (see [`retry_allowed`]).
pub fn retry_playlist(attempts: usize, f: &TransportFailure) -> (r: bool)
    ensures
        r == retry_allowed(attempts as int, *f),
{
    is_retryable(f) && attempts <= PLAYLIST_MAX_RETRIES
}

/// The playlist is requested at most `PLAYLIST_MAX_RETRIES + 1` (five)
/// times: when the failures of its first requests, in order, were each
/// followed by another request, there were at most `PLAYLIST_MAX_RETRIES` of
/// them, and so at most one request more.
pub proof fn law_playlist_requested_at_most_five_times(failures: Seq<TransportFailure>)
    requires
        forall|i: int| 0 <= i < failures.len() ==> retry_allowed(i + 1, #[trigger] failures[i]),
    ensures
        failures.len() <= PLAYLIST_MAX_RETRIES,
        failures.len() + 1 <= 5,
{
    if failures.len() > PLAYLIST_MAX_RETRIES {
        let i = PLAYLIST_MAX_RETRIES as int;
        assert(retry_allowed(i + 1, failures[i]));
    }
}

/// Which failures are tried again: every timeout and every failed
/// connection; every server error (status 500 to 599); and 403, 408 and 429.
/// An answer with any other status (such as 404), or a failure with neither
/// status nor timeout nor connection trouble, is final.
pub proof fn law_retryable_failures(f: TransportFailure)
    ensures
        f.timeout ==> retryable(f),
        f.connect ==> retryable(f),
        f.status matches Some(s) && 500 <= s <= 599 ==> retryable(f),
        f.status matches Some(s) && (s == 403 || s == 408 || s == 429) ==> retryable(f),
        !f.timeout && !f.connect && f.status is None ==> !retryable(f),
        !f.timeout && !f.connect && (f.status matches Some(s) && !(500 <= s <= 599) && s != 403 && s != 408 && s
            != 429) ==> !retryable(f),
{
}

/// A failure worth another try is tried again on each of the first
/// `PLAYLIST_MAX_RETRIES` requests and never after; a final failure is never
/// tried again.
pub proof fn law_retry_count(attempts: int, f: TransportFailure)
    ensures
        retryable(f) && 1 <= attempts <= 4 ==> retry_allowed(attempts, f),
        attempts > 4 ==> !retry_allowed(attempts, f),
        !retryable(f) ==> !retry_allowed(attempts, f),
{
}

} // verus!
