//! The one request that the service answers: the subdomains of a domain.

use crate::backends::crtsh::{name_values, CrtshResponse};
use crate::errors::AppError;
use crate::extract::{extract, extracted, rejected_from, Extraction};
use crate::state::AppState;
use crate::text::string_views;
use vstd::prelude::*;

verus! {

/// Whether `out` is the answer to what the log source returned: the
/// extraction of the records where they came, and the client's failure,
/// unchanged, where they did not.
pub open spec fn answers(
    fetched: Result<Vec<CrtshResponse>, AppError>,
    out: Result<Extraction, AppError>,
) -> bool {
    match fetched {
        Ok(records) => {
            &&& out matches Ok(found)
            &&& found.domains@ == extracted(name_values(records@))
            &&& string_views(found.rejected@) == rejected_from(name_values(records@))
        },
        Err(failure) => out matches Err(told) && told == failure,
    }
}

/// Answers from what the log source returned.
pub fn respond(fetched: Result<Vec<CrtshResponse>, AppError>) -> (out: Result<Extraction, AppError>)
    ensures
        answers(fetched, out),
{
    match fetched {
        Ok(records) => Ok(extract(&records)),
        Err(failure) => Err(failure),
    }
}

/// Handles a request for the subdomains of the domain given as `q`.
///
/// Without `q` the request fails with `AppError::MissingDomainParam` and the
/// log source is not asked. With it, the client of `state` fetches the
/// records for the domain, and the answer is what `respond` makes of them.
/// The client is asked about the domain exactly as it was given, and the
/// answer is the answer to something that this client may return for it.
pub fn get_domains(q: Option<&str>, state: &AppState) -> (out: Result<Extraction, AppError>)
    ensures
        q is None ==> out matches Err(AppError::MissingDomainParam),
        q matches Some(domain) ==> exists|fetched: Result<Vec<CrtshResponse>, AppError>|
            state.crtsh_client.may_reply(domain@, fetched) && #[trigger] answers(fetched, out),
{
    match q {
        None => Err(AppError::MissingDomainParam),
        Some(domain) => {
            let fetched = state.crtsh_client.fetch(domain);
            let ghost seen = fetched;
            let out = respond(fetched);
            assert(state.crtsh_client.may_reply(domain@, seen) && answers(seen, out));
            out
        },
    }
}

} // verus!
