//! The node service: a configuration that is ready to be run.

use crate::config::NodeConfig;
use vstd::prelude::*;

verus! {

/// The main service of a node.
#[derive(Debug)]
pub struct KoraNodeService {
    config: NodeConfig,
}

impl KoraNodeService {
    /// The configuration that the service runs with.
    pub closed spec fn settings(&self) -> NodeConfig {
        self.config
    }

    /// The service that runs with `config`.
    pub fn new(config: NodeConfig) -> (service: Self)
        ensures
            service.settings() == config,
    {
        KoraNodeService { config }
    }

    /// The configuration that the service runs with.
    pub fn config(&self) -> (config: &NodeConfig)
        ensures
            *config == self.settings(),
    {
        &self.config
    }

    /// Gives the configuration back.
    pub fn into_config(self) -> (config: NodeConfig)
        ensures
            config == self.settings(),
    {
        self.config
    }
}

} // verus!
