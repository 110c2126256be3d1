//! Application constants and the rules for the persisted configuration:
//! which stream URLs are accepted, and the text written to the config file.

use vstd::prelude::*;

use crate::icy::opt_chars;
use crate::text::{chars_of, same_chars};

verus! {

/// This project's repository (shown in the About entry).
pub const REPO_URL: &'static str = "https://github.com/samuelb/whirr";

/// The application's name, shown to the OS for media controls / the login item.
pub const APP_DISPLAY_NAME: &'static str = "Whirr";

/// Reverse-DNS application identifier (bundle id / desktop file base name).
/// Used by packaging and as the desktop notification icon name.
pub const APP_ID: &'static str = "io.github.samuelb.whirr";

/// D-Bus well-known name element used for the MPRIS interface on Linux.
pub const DBUS_NAME: &'static str = "whirr";

/// Comment block written above the config when no stream URL is set yet,
/// telling the user what to add.
pub const STREAM_URL_HINT: &'static str = "\
# No stream URL is configured. Use \"Set stream URL…\" in the tray menu, or set
# stream_url here, e.g.:
#
#     stream_url = \"https://example.com/stream.mp3\"
#
# Changes to this file are applied automatically while the app is running.

";

/// The scheme of `s` parsed as an absolute URL by `reqwest::Url` (the `url`
/// crate), lower-cased, or `None` where it does not parse.
pub uninterp spec fn url_scheme(s: Seq<char>) -> Option<Seq<char>>;

/// Parses `s` with `<reqwest::Url as FromStr>::from_str` and takes the URL's
/// `scheme()`. The contract names the result: the URL grammar is not restated.
#[verifier::external_body]
fn parse_url_scheme(s: &str) -> (r: Option<String>)
    ensures
        opt_chars(r) == url_scheme(s@),
{
    match s.parse::<reqwest::Url>() {
        Ok(url) => Some(url.scheme().to_string()),
        Err(_) => None,
    }
}

/// Whether a URL scheme is `http` or `https`.
pub open spec fn is_http_scheme(scheme: Seq<char>) -> bool {
    scheme == seq!['h', 't', 't', 'p'] || scheme == seq!['h', 't', 't', 'p', 's']
}

/// Whether `s` parses as a URL whose scheme is `http` or `https`.
pub open spec fn valid_stream_url(s: Seq<char>) -> bool {
    match url_scheme(s) {
        Some(scheme) => is_http_scheme(scheme),
        None => false,
    }
}

/// Whether `s` parses as an http(s) URL — the only kind of stream we accept.
pub fn is_valid_stream_url(s: &str) -> (r: bool)
    ensures
        r == valid_stream_url(s@),
{
    match parse_url_scheme(s) {
        None => false,
        Some(scheme) => is_http(scheme.as_str()),
    }
}

/// Whether a URL scheme is `http` or `https`.
pub fn is_http(scheme: &str) -> (r: bool)
    ensures
        r == is_http_scheme(scheme@),
{
    let c = chars_of(scheme);
    let http: Vec<char> = vec!['h', 't', 't', 'p'];
    let https: Vec<char> = vec!['h', 't', 't', 'p', 's'];
    assert(http@ =~= seq!['h', 't', 't', 'p']);
    assert(https@ =~= seq!['h', 't', 't', 'p', 's']);
    same_chars(&c, &http) || same_chars(&c, &https)
}

/// The configured stream URL, with an invalid or non-http(s) one dropped.
pub open spec fn normalized_url(url: Option<Seq<char>>) -> Option<Seq<char>> {
    match url {
        Some(u) => if valid_stream_url(u) {
            Some(u)
        } else {
            None
        },
        None => None,
    }
}

/// The stream-URL part of normalizing a loaded configuration: a URL that is
/// not a valid http(s) URL is ignored.
pub fn normalized_stream_url(url: Option<String>) -> (r: Option<String>)
    ensures
        opt_chars(r) == normalized_url(opt_chars(url)),
        r is Some ==> r == url,
{
    match url {
        Some(u) => {
            if is_valid_stream_url(u.as_str()) {
                Some(u)
            } else {
                None
            }
        },
        None => None,
    }
}

/// The text of the config file: the serialized settings, with the hint on
/// how to set a stream URL in front of them while none is set.
pub fn config_file_text(serialized: String, has_stream_url: bool) -> (r: String)
    ensures
        r@ == if has_stream_url {
            serialized@
        } else {
            STREAM_URL_HINT@ + serialized@
        },
{
    if has_stream_url {
        serialized
    } else {
        String::from_str(STREAM_URL_HINT).concat(serialized.as_str())
    }
}

} // verus!
