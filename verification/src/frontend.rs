//! How the two frontend single-page apps (`/projector` and `/remocon`) are
//! served: a built `dist` directory as static files, falling back to its
//! `index.html` for client-side routes, or, when the configured root is an
//! HTTP(S) URL, every request forwarded to that development server. The
//! router and the forwarding itself belong to the web layer.

use vstd::prelude::*;

use crate::config::{is_http_root, root_is_http, FrontendConfig};
use crate::text::{chars_of, concat_str, string_of, subvec};

verus! {

/// `s` without any `c` at its end.
pub open spec fn trim_end_char(s: Seq<char>, c: char) -> Seq<char>
    decreases s.len(),
{
    if s.len() > 0 && s.last() == c {
        trim_end_char(s.drop_last(), c)
    } else {
        s
    }
}

/// How a frontend is served.
#[derive(Debug, Clone)]
pub enum SpaMode {
    /// Forward requests to the development server at `base_url`.
    DevProxy { base_url: String },
    /// Serve the files under `dist`, with `index` for unknown paths.
    Static { dist: String, index: String },
}

/// Removes every trailing `/` from `s`.
pub fn trim_trailing_slashes(s: &str) -> (r: String)
    ensures
        r@ == trim_end_char(s@, '/'),
{
    let v = chars_of(s);
    let mut n = v.len();
    assert(v@.take(n as int) =~= v@);
    while n > 0 && v[n - 1] == '/'
        invariant
            n <= v@.len(),
            trim_end_char(v@.take(n as int), '/') == trim_end_char(v@, '/'),
        decreases n,
    {
        assert(v@.take(n as int).drop_last() =~= v@.take(n - 1));
        n = n - 1;
    }
    let w = subvec(v.as_slice(), 0, n);
    assert(w@ =~= v@.take(n as int));
    string_of(w.as_slice())
}

/// How to serve `frontend`: forwarded to its root URL, trailing slashes
/// removed, when the root is an HTTP(S) URL; otherwise from its root
/// directory with `<root>/index.html` as the fallback.
pub fn spa_mode(frontend: &FrontendConfig) -> (r: SpaMode)
    ensures
        is_http_root(frontend.root@) ==> (r matches SpaMode::DevProxy { base_url } && base_url@
            == trim_end_char(frontend.root@, '/')),
        !is_http_root(frontend.root@) ==> (r matches SpaMode::Static { dist, index } && dist@ == frontend.root@
            && index@ == frontend.root@ + "/index.html"@),
{
    if root_is_http(frontend.root.as_str()) {
        SpaMode::DevProxy { base_url: trim_trailing_slashes(frontend.root.as_str()) }
    } else {
        SpaMode::Static { dist: frontend.root.clone(), index: concat_str(frontend.root.as_str(), "/index.html") }
    }
}

/// The URL a forwarded request goes to: the development server's base URL
/// followed by the request's path and query.
pub fn proxy_url(base_url: &str, path_and_query: &str) -> (r: String)
    ensures
        r@ == base_url@ + path_and_query@,
{
    concat_str(base_url, path_and_query)
}

} // verus!
