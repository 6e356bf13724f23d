//! The certificate-transparency log source: the records it returns, how it
//! is asked, and how the outcome of a request is read.

use crate::errors::AppError;
use vstd::prelude::*;
use vstd::string::*;

verus! {

/// One record of the log source. Its only field of interest is the
/// certificate's name value, which may pack several host names, one per line.
#[derive(Debug, Clone, PartialEq, Eq)]
pub struct CrtshResponse {
    pub name_value: String,
}

/// The name values of a list of records, in order.
pub open spec fn name_values(records: Seq<CrtshResponse>) -> Seq<Seq<char>> {
    records.map_values(|r: CrtshResponse| r.name_value@)
}

/// Something that can ask the log source for the records of a domain.
///
/// The request itself is made outside this library, so the trait fixes no
/// answer. Each client says in `may_reply` what it may return for a domain,
/// and `fetch` returns nothing else; a client that goes out to the network
/// may allow every answer. A client reports a source that could not be
/// reached as `AppError::InternalServerError` and an answer that is not a
/// list of records as `AppError::BadResponse`; `read_reply` does that for it.
pub trait CrtshClient: Sync + Send {
    /// Whether this client may return `fetched` when it is asked for
    /// `domain`. A client that does not say otherwise may return anything.
    open spec fn may_reply(
        &self,
        domain: Seq<char>,
        fetched: Result<Vec<CrtshResponse>, AppError>,
    ) -> bool {
        true
    }

    /// Asks the log source for the records of `domain`.
    fn fetch(&self, domain: &str) -> (fetched: Result<Vec<CrtshResponse>, AppError>)
        ensures
            self.may_reply(domain@, fetched),
    ;
}

/// How one request to the log source ended.
#[derive(Debug, Clone, PartialEq, Eq)]
pub enum UpstreamReply {
    /// The request could not be completed; the text says why.
    Unreachable(String),
    /// An answer came, but not one that reads as a list of records.
    Malformed,
    /// The records that the log source returned.
    Rows(Vec<CrtshResponse>),
}

/// What `read_reply` makes of each way a request can end.
pub open spec fn reply_outcome(reply: UpstreamReply) -> Result<Vec<CrtshResponse>, AppError> {
    match reply {
        UpstreamReply::Unreachable(cause) => Err(AppError::InternalServerError(cause)),
        UpstreamReply::Malformed => Err(AppError::BadResponse),
        UpstreamReply::Rows(rows) => Ok(rows),
    }
}

/// Reads the outcome of a request: the records where there are any, and
/// otherwise the failure that the caller is to be told of. Nothing is tried
/// again.
pub fn read_reply(reply: UpstreamReply) -> (outcome: Result<Vec<CrtshResponse>, AppError>)
    ensures
        outcome == reply_outcome(reply),
{
    match reply {
        UpstreamReply::Unreachable(cause) => Err(AppError::InternalServerError(cause)),
        UpstreamReply::Malformed => Err(AppError::BadResponse),
        UpstreamReply::Rows(rows) => Ok(rows),
    }
}

/// The URL that asks the log source at `base_url` for every certificate
/// whose subject matches `%.<domain>`, with the answer in JSON. The `%` of
/// the pattern travels percent-encoded.
pub open spec fn query_url_of(base_url: Seq<char>, domain: Seq<char>) -> Seq<char> {
    base_url + "/?q=%25."@ + domain + "&output=json"@
}

/// The configuration of the client for the log source: where the source
/// is, and by what name the client makes itself known to it.
#[derive(Debug, Clone, PartialEq, Eq)]
pub struct CrtshClientImpl {
    user_agent: String,
    base_url: String,
}

impl CrtshClientImpl {
    /// The name that the client sends with each request.
    pub closed spec fn agent(&self) -> Seq<char> {
        self.user_agent@
    }

    /// The address of the log source, without a trailing slash.
    pub closed spec fn base(&self) -> Seq<char> {
        self.base_url@
    }

    pub fn new(user_agent: String, base_url: String) -> (client: Self)
        ensures
            client.agent() == user_agent@,
            client.base() == base_url@,
    {
        CrtshClientImpl { user_agent, base_url }
    }

    pub fn user_agent(&self) -> (agent: &str)
        ensures
            agent@ == self.agent(),
    {
        self.user_agent.as_str()
    }

    pub fn base_url(&self) -> (base: &str)
        ensures
            base@ == self.base(),
    {
        self.base_url.as_str()
    }

    /// The URL to fetch for `domain`.
    pub fn query_url(&self, domain: &str) -> (url: String)
        ensures
            url@ == query_url_of(self.base(), domain@),
    {
        self.base_url.clone().concat("/?q=%25.").concat(domain).concat("&output=json")
    }
}

impl Default for CrtshClientImpl {
    /// The client for the public log source at `https://crt.sh`.
    fn default() -> (client: Self)
        ensures
            client.agent() == "enumland/0.1.0"@,
            client.base() == "https://crt.sh"@,
    {
        CrtshClientImpl::new("enumland/0.1.0".to_owned(), "https://crt.sh".to_owned())
    }
}

} // verus!
