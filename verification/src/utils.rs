//! Domain-syntax validation by URL parsing.

use reqwest::Url;
use vstd::prelude::*;
use vstd::string::*;

verus! {

/// `reqwest::Url`, the parsed URL of the `url` crate. Only whether parsing
/// succeeds matters here, so the value stays opaque.
#[verifier::external_type_specification]
#[verifier::external_body]
pub struct ExUrl(reqwest::Url);

/// `url::ParseError`, the reason for which a text is no URL. It is never
/// looked into.
#[verifier::external_type_specification]
#[verifier::external_body]
pub struct ExParseError(url::ParseError);

/// Whether the URL parser accepts `input` as an absolute URL. The parser's
/// grammar is not restated here; this only gives its verdict a name.
pub uninterp spec fn url_parses(input: Seq<char>) -> bool;

/// `Url::parse` reads an absolute URL from a string. It keeps no state and
/// consults nothing but its argument, so whether it succeeds is a function
/// of the text alone: the verdict named `url_parses`. Nothing is claimed
/// of the parsed URL or of the kind of error.
pub assume_specification[ reqwest::Url::parse ](input: &str) -> (parsed: Result<
    reqwest::Url,
    url::ParseError,
>)
    ensures
        parsed.is_ok() == url_parses(input@),
;

/// The candidate with the scheme `http://` put in front.
pub open spec fn with_http_scheme(candidate: Seq<char>) -> Seq<char> {
    "http://"@ + candidate
}

/// The validation policy: a candidate passes when it parses as a URL as it
/// stands, or does so once `http://` is put in front of it.
pub open spec fn domain_syntax_ok(candidate: Seq<char>) -> bool {
    url_parses(candidate) || url_parses(with_http_scheme(candidate))
}

/// Checks a candidate name against the validation policy. The check is
/// deliberately permissive: whatever the URL parser lets through counts,
/// a bare single word included.
pub fn valid_domain(url: &str) -> (ok: bool)
    ensures
        ok == domain_syntax_ok(url@),
{
    match Url::parse(url) {
        Ok(_) => true,
        Err(_) => {
            let prefixed = "http://".to_owned().concat(url);
            Url::parse(prefixed.as_str()).is_ok()
        },
    }
}

} // verus!
