use vstd::prelude::*;

verus! {

/// A backend that connections can be relayed to.
#[derive(Debug)]
pub struct DownstreamConfig {
    /// Host and port, with a colon between them.
    pub address: String,
    pub name: String,
    pub default: bool,
}

/// What the proxy is set up with: where it listens and where it relays to.
#[derive(Debug)]
pub struct Configuration {
    pub downstreams: Vec<DownstreamConfig>,
    /// Host and port, with a colon between them.
    pub bind_address: String,
}

impl Clone for DownstreamConfig {
    fn clone(&self) -> (r: DownstreamConfig)
        ensures
            r == *self,
    {
        DownstreamConfig {
            address: self.address.clone(),
            name: self.name.clone(),
            default: self.default,
        }
    }
}

impl Clone for Configuration {
    fn clone(&self) -> (r: Configuration)
        ensures
            r.bind_address == self.bind_address,
            r.downstreams@ == self.downstreams@,
    {
        let mut downstreams: Vec<DownstreamConfig> = Vec::new();
        let mut i: usize = 0;
        while i < self.downstreams.len()
            invariant
                i <= self.downstreams.len(),
                downstreams@ == self.downstreams@.take(i as int),
            decreases self.downstreams.len() - i,
        {
            downstreams.push(self.downstreams[i].clone());
            i = i + 1;
            assert(downstreams@ =~= self.downstreams@.take(i as int));
        }
        assert(self.downstreams@.take(i as int) =~= self.downstreams@);
        Configuration { downstreams, bind_address: self.bind_address.clone() }
    }
}

} // verus!
