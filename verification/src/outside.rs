//! The calls into the `url`, `regex` and `urlencoding` crates, each behind a
//! small function whose contract Verus takes on trust.

use vstd::prelude::*;
use vstd::string::*;

verus! {

/// The host that `url::Url::parse(s)` finds in `s` (`Url::host_str`), or
/// `None` when `s` does not parse or the parsed URL has no host. WHATWG URL
/// parsing takes pages to state, so the result is only named here.
pub uninterp spec fn url_host_of(s: Seq<char>) -> Option<Seq<char>>;

/// The scheme that `url::Url::parse(s)` finds in `s` (`Url::scheme`), or
/// `None` when `s` does not parse.
pub uninterp spec fn url_scheme_of(s: Seq<char>) -> Option<Seq<char>>;

/// The text of capture group 1 of the first match of the regular expression
/// `pattern` in `text` (`regex::Regex::new`, `captures`, `get(1)`), or `None`
/// when the pattern does not compile, nothing matches or the group is unset.
pub uninterp spec fn regex_first_group(pattern: Seq<char>, text: Seq<char>) -> Option<Seq<char>>;

pub open spec fn opt_view(o: Option<String>) -> Option<Seq<char>> {
    match o {
        Some(s) => Some(s@),
        None => None,
    }
}

/// Calls `url::Url::parse` and `Url::host_str`. The contract claims only that
/// the same text always yields the same host (`url_host_of`).
#[verifier::external_body]
pub(crate) fn url_host(s: &str) -> (r: Option<String>)
    ensures
        opt_view(r) == url_host_of(s@),
{
    url::Url::parse(s).ok().and_then(|u| u.host_str().map(|h| h.to_string()))
}

/// Calls `url::Url::parse` and `Url::scheme`. The contract claims only that
/// the same text always yields the same scheme (`url_scheme_of`).
#[verifier::external_body]
pub(crate) fn url_scheme(s: &str) -> (r: Option<String>)
    ensures
        opt_view(r) == url_scheme_of(s@),
{
    url::Url::parse(s).ok().map(|u| u.scheme().to_string())
}

/// Compiles `pattern` with `regex::Regex::new` and returns capture group 1 of
/// its first match in `text` (`captures`, `get(1)`). The contract claims only
/// that the result is a function of the two texts (`regex_first_group`).
#[verifier::external_body]
pub(crate) fn first_capture(pattern: &str, text: &str) -> (r: Option<String>)
    ensures
        opt_view(r) == regex_first_group(pattern@, text@),
{
    let re = regex::Regex::new(pattern).ok()?;
    let caps = re.captures(text)?;
    caps.get(1).map(|m| m.as_str().to_string())
}

/// A byte that `urlencoding::encode` copies unchanged: ASCII alphanumerics
/// and `-`, `.`, `_`, `~`.
pub open spec fn url_safe_byte(b: u8) -> bool {
    (48 <= b <= 57) || (65 <= b <= 90) || (97 <= b <= 122) || b == 45 || b == 46 || b == 95
        || b == 126
}

/// Upper-case hex digit of a nibble.
pub open spec fn hex_upper(n: u8) -> char {
    if n < 10 {
        ((n + 48) as u32) as char
    } else {
        ((n + 55) as u32) as char
    }
}

/// What `urlencoding::encode` writes for one byte.
pub open spec fn encode_byte(b: u8) -> Seq<char> {
    if url_safe_byte(b) {
        seq![(b as u32) as char]
    } else {
        seq!['%', hex_upper(b / 16), hex_upper(b % 16)]
    }
}

/// Percent-encoding of a byte string, byte by byte.
pub open spec fn percent_encoded(bytes: Seq<u8>) -> Seq<char>
    decreases bytes.len(),
{
    if bytes.len() == 0 {
        seq![]
    } else {
        percent_encoded(bytes.drop_last()) + encode_byte(bytes.last())
    }
}

/// Calls `urlencoding::encode`: every UTF-8 byte of `s` except ASCII
/// alphanumerics and `-`, `.`, `_`, `~` becomes `%XX` with upper-case hex
/// digits (crate documentation and `enc.rs`).
#[verifier::external_body]
pub(crate) fn url_encode(s: &str) -> (r: String)
    ensures
        r@ == percent_encoded(s.spec_bytes()),
{
    urlencoding::encode(s).into_owned()
}

} // verus!
