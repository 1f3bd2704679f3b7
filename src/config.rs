use vstd::prelude::*;

use crate::types::RuntimeConfig;

verus! {

/// The config partition: at most one current runtime configuration.
pub struct ConfigCell {
    config: Option<RuntimeConfig>,
}

impl ConfigCell {
    /// The configuration held now, if any.
    pub closed spec fn current(&self) -> Option<RuntimeConfig> {
        self.config
    }

    /// A cell that holds no configuration.
    pub fn new() -> (c: Self)
        ensures
            c.current() is None,
    {
        ConfigCell { config: None }
    }

    /// Replaces whatever the cell held with `config`.
    pub fn set_runtime_config(&mut self, config: RuntimeConfig)
        ensures
            final(self).current() == Some(config),
    {
        self.config = Some(config);
    }

    /// The configuration held now, or `None` if none was ever set.
    pub fn get_runtime_config(&self) -> (r: Option<RuntimeConfig>)
        ensures
            r == self.current(),
    {
        self.config
    }
}

} // verus!
