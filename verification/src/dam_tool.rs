//! Decisions of the DAM command-line tools: what a login stores, what the
//! status report says, which password and output directory a command uses,
//! and which stream URL a download starts from. Reading and writing the
//! session file, prompting and talking to DAM are the tools' own part.

use vstd::prelude::*;

use crate::provider::dam::LoginData;
use crate::provider::types::MediaStream;
use crate::text::concat_str;

verus! {

/// The authentication state that a login leaves on disk.
#[derive(Debug, Clone)]
pub struct StoredSession {
    pub user_code: String,
    pub damtomo_id: String,
    pub auth_token: String,
}

impl StoredSession {
    /// What to store after `user_code` logged in and DAM answered `data`.
    pub fn from_login(user_code: String, data: &LoginData) -> (r: Self)
        ensures
            r.user_code@ == user_code@,
            r.damtomo_id@ == data.damtomo_id@,
            r.auth_token@ == data.auth_token@,
    {
        StoredSession { user_code, damtomo_id: data.damtomo_id.clone(), auth_token: data.auth_token.clone() }
    }
}

/// The file, relative to the working directory, that holds the stored session.
pub fn dotfile_path() -> (r: String)
    ensures
        r@ == ".dam-tool.json"@,
{
    String::from_str(".dam-tool.json")
}

/// The proxy line of a status report: the proxy URL, or `<not set>`.
pub fn proxy_text(url: Option<&str>) -> (r: String)
    ensures
        match url {
            Some(u) => r@ == u@,
            None => r@ == "<not set>"@,
        },
{
    match url {
        Some(u) => String::from_str(u),
        None => String::from_str("<not set>"),
    }
}

/// The proxy authentication line of a status report.
pub fn proxy_auth_text(user: Option<&str>, pass: Option<&str>) -> (r: String)
    ensures
        match user {
            Some(u) => match pass {
                Some(_) => r@ == "username="@ + u@,
                None => r@ == "username="@ + u@ + " (no password)"@,
            },
            None => r@ == "<none>"@,
        },
{
    match user {
        Some(u) => match pass {
            Some(_) => concat_str("username=", u),
            None => {
                let a = concat_str("username=", u);
                a.concat(" (no password)")
            },
        },
        None => String::from_str("<none>"),
    }
}

/// The stored-session line of a status report.
pub fn session_text(damtomo_id: Option<&str>) -> (r: String)
    ensures
        match damtomo_id {
            Some(d) => r@ == "damtomoId="@ + d@,
            None => r@ == "<none>"@,
        },
{
    match damtomo_id {
        Some(d) => concat_str("damtomoId=", d),
        None => String::from_str("<none>"),
    }
}

/// The basic-auth credentials for the proxy: the user with the password, or
/// an empty password when none was given; none without a user.
pub fn proxy_basic_auth(user: Option<&str>, pass: Option<&str>) -> (r: Option<(String, String)>)
    ensures
        match user {
            Some(u) => r matches Some(c) && c.0@ == u@ && c.1@ == (match pass {
                Some(p) => p@,
                None => ""@,
            }),
            None => r is None,
        },
{
    match user {
        Some(u) => {
            let p = match pass {
                Some(p) => String::from_str(p),
                None => String::from_str(""),
            };
            Some((String::from_str(u), p))
        },
        None => None,
    }
}

/// The password given on the command line, unless it is absent or empty, in
/// which case the user is asked for one.
pub fn given_password(password: Option<&str>) -> (r: Option<String>)
    ensures
        match password {
            Some(p) => if p@.len() > 0 {
                r matches Some(q) && q@ == p@
            } else {
                r is None
            },
            None => r is None,
        },
{
    match password {
        Some(p) => {
            if p.is_empty() {
                None
            } else {
                Some(String::from_str(p))
            }
        },
        None => None,
    }
}

/// The directory a download writes to: the one given, or, when it is
/// given empty, one named after the song.
pub fn output_dir(song_id: &str, output: &str) -> (r: String)
    ensures
        r@ == (if output@.len() == 0 {
            song_id@
        } else {
            output@
        }),
{
    if output.is_empty() {
        String::from_str(song_id)
    } else {
        String::from_str(output)
    }
}

/// The URL a download starts from: the high-quality playlist of an HLS
/// stream. Any other stream is handed back, to be reported.
pub fn hls_url(stream: MediaStream) -> (r: Result<String, MediaStream>)
    ensures
        match stream {
            MediaStream::Hls { url_high, .. } => r matches Ok(u) && u@ == url_high@,
            _ => r == Err::<String, MediaStream>(stream),
        },
{
    match stream {
        MediaStream::Hls { url_high, .. } => Ok(url_high),
        other => Err(other),
    }
}

} // verus!
