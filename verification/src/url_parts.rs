//! What the `url` crate makes of a target string.

use vstd::prelude::*;

verus! {

/// The parts of a parsed URL that resolution reads.
#[derive(Debug, Clone, PartialEq, Eq)]
pub struct UrlParts {
    /// The scheme, without the colon.
    pub scheme: String,
    /// The host, if the URL has one.
    pub host: Option<String>,
    /// The port, if the URL gives one. The parser leaves out a port that is
    /// the usual one of the scheme, such as 80 for `http` and `ws`.
    pub port: Option<u16>,
}

/// [`UrlParts`] as plain values.
pub struct UrlPartsView {
    pub scheme: Seq<char>,
    pub host: Option<Seq<char>>,
    pub port: Option<u16>,
}

impl View for UrlParts {
    type V = UrlPartsView;

    open spec fn view(&self) -> UrlPartsView {
        UrlPartsView {
            scheme: self.scheme@,
            host: match self.host {
                Some(host) => Some(host@),
                None => None,
            },
            port: self.port,
        }
    }
}

/// What the parser made of a target, as plain values.
pub open spec fn parsed_view(parsed: Option<UrlParts>) -> Option<UrlPartsView> {
    match parsed {
        Some(parts) => Some(parts@),
        None => None,
    }
}

/// What `url::Url::parse` makes of `input`: nothing where it returns an
/// error, else the scheme, host and port of the URL it returns, as its
/// methods `scheme`, `host_str` and `port` give them.
pub uninterp spec fn url_parse(input: Seq<char>) -> Option<UrlPartsView>;

/// Parses `input` with `url::Url::parse` and reads the scheme, the host and
/// the port off the result with `Url::scheme`, `Url::host_str` and
/// `Url::port`.
///
/// Nothing is proved of this function. Its contract claims two things. The
/// result is a function of `input`, the one that [`url_parse`] names: the
/// parser reads nothing but its argument. And a text whose first character
/// is a digit is refused: the parser wants a scheme first, and a scheme
/// begins with a letter.
#[verifier::external_body]
pub(crate) fn parse_url(input: &str) -> (parsed: Option<UrlParts>)
    ensures
        parsed_view(parsed) == url_parse(input@),
        input@.len() > 0 && '0' <= input@[0] && input@[0] <= '9' ==> parsed is None,
{
    match url::Url::parse(input) {
        Ok(url) => Some(
            UrlParts {
                scheme: url.scheme().to_owned(),
                host: url.host_str().map(str::to_owned),
                port: url.port(),
            },
        ),
        Err(_) => None,
    }
}

} // verus!
