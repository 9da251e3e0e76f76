//! Trusted interfaces to the outside crates the compiler leans on: URL
//! parsing for the broker address and human-readable duration parsing for
//! `set-sql-timeout`. Each contract states only what those crates' own
//! sources show; the results are functions of the input text alone.

use vstd::prelude::*;

verus! {

/// Why a broker URL yielded no usable host.
pub enum UrlHostError {
    /// The text did not parse as a URL; carries the parser's message.
    Unparseable(String),
    /// The URL parsed but has no host component.
    NoHost,
}

/// Whether `url::Url::parse` accepts the text.
pub uninterp spec fn url_parses(s: Seq<char>) -> bool;

/// The host component `url::Url::host_str` reports for the parsed text.
pub uninterp spec fn url_host_of(s: Seq<char>) -> Option<Seq<char>>;

/// The port `url::Url::port` reports for the parsed text.
pub uninterp spec fn url_port_of(s: Seq<char>) -> Option<u16>;

/// Relies on `url::Url::parse`, `Url::host_str` and `Url::port`: parsing
/// depends on the text alone, and the two accessors only read components of
/// the parsed representation.
#[verifier::external_body]
pub fn parse_url_host_port(s: &str) -> (r: Result<(String, Option<u16>), UrlHostError>)
    ensures
        match r {
            Ok(hp) => url_parses(s@) && url_host_of(s@) == Some(hp.0@) && url_port_of(s@) == hp.1,
            Err(UrlHostError::Unparseable(_)) => !url_parses(s@),
            Err(UrlHostError::NoHost) => url_parses(s@) && url_host_of(s@) is None,
        },
{
    match url::Url::parse(s) {
        Ok(u) => match u.host_str() {
            Some(h) => Ok((h.to_string(), u.port())),
            None => Err(UrlHostError::NoHost),
        },
        Err(e) => Err(UrlHostError::Unparseable(e.to_string())),
    }
}

/// The duration `parse_duration::parse` reads from the text, in
/// milliseconds; `None` where the text is rejected.
pub uninterp spec fn duration_millis_of(s: Seq<char>) -> Option<u128>;

/// The message `parse_duration::parse`'s error displays for a rejected
/// text; like the parse itself, a function of the text alone.
pub uninterp spec fn duration_error_of(s: Seq<char>) -> Seq<char>;

/// Relies on `parse_duration::parse`: the parsed duration depends on the
/// input text alone, and so does the message its error displays;
/// `Duration::as_millis` converts the result to milliseconds.
#[verifier::external_body]
pub fn parse_duration_millis(s: &str) -> (r: Result<u128, String>)
    ensures
        match r {
            Ok(ms) => duration_millis_of(s@) == Some(ms),
            Err(m) => duration_millis_of(s@) is None && m@ == duration_error_of(s@),
        },
{
    match parse_duration::parse(s) {
        Ok(d) => Ok(d.as_millis()),
        Err(e) => Err(e.to_string()),
    }
}

} // verus!
