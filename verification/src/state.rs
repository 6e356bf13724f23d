//! What the request handler shares between requests.

use crate::backends::crtsh::CrtshClient;
use vstd::prelude::*;

verus! {

/// The state of the service: the client for the log source. It is only
/// read, so any number of requests may use it at once.
pub struct AppState {
    pub crtsh_client: Box<dyn CrtshClient>,
}

} // verus!
