//! Client lifecycle state: the cached handshake response that makes
//! `init` idempotent.  Task wiring (receive loop, keepalive task) runs
//! outside the library; the decisions those tasks take live in
//! `dispatcher`, `session` and `keepalive`.

use vstd::prelude::*;
use crate::init::InitConnectResponse;

verus! {

/// The lifecycle state the client keeps between calls.
pub struct ClientCore {
    pub init_response: Option<InitConnectResponse>,
}

impl ClientCore {
    /// A freshly connected client: no handshake has happened.
    pub fn new() -> (r: ClientCore)
        ensures
            r.init_response is None,
    {
        ClientCore { init_response: None }
    }

    /// The handshake is idempotent: while a response is cached, `init`
    /// returns exactly that response and sends no second request.  The
    /// caller performs the exchange only when this returns nothing.
    pub fn cached_init(&self) -> (r: Option<&InitConnectResponse>)
        ensures
            match r {
                Some(resp) => self.init_response == Some(*resp),
                None => self.init_response is None,
            },
    {
        match &self.init_response {
            Some(resp) => Some(resp),
            None => None,
        }
    }

    /// Record the handshake response; later `init` calls return it.
    pub fn complete_init(&mut self, resp: InitConnectResponse)
        ensures
            final(self).init_response == Some(resp),
    {
        self.init_response = Some(resp);
    }
}

} // verus!
