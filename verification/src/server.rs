use vstd::prelude::*;

use crate::config::{Configuration, DownstreamConfig};

verus! {

/// The proxy as a whole: it listens where its configuration says and relays
/// every connection to a backend.
pub struct ProxyServer {
    config: Configuration,
}

impl ProxyServer {
    /// What the server was made with.
    pub closed spec fn spec_config(&self) -> Configuration {
        self.config
    }

    /// A server that is set up with `config`.
    pub fn new(config: Configuration) -> (r: ProxyServer)
        ensures
            r.spec_config() == config,
    {
        ProxyServer { config }
    }

    /// What the server is set up with.
    pub fn config(&self) -> (r: &Configuration)
        ensures
            *r == self.spec_config(),
    {
        &self.config
    }

    /// The backend that connections are relayed to: the first one of the
    /// configuration, if it names any.
    pub fn destination(&self) -> (r: Option<&DownstreamConfig>)
        ensures
            match r {
                Some(downstream) => self.spec_config().downstreams@.len() > 0 && *downstream
                    == self.spec_config().downstreams@[0],
                None => self.spec_config().downstreams@.len() == 0,
            },
    {
        if self.config.downstreams.len() > 0 {
            Some(&self.config.downstreams[0])
        } else {
            None
        }
    }
}

} // verus!
