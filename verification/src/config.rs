//! What a project reads of the global configuration.

use vstd::prelude::*;
use crate::channel::ChannelConfig;
use crate::constraints::PinningStrategy;

verus! {

/// Whether environments live outside the project, and where.
#[derive(Debug, PartialEq, Eq)]
pub struct DetachedEnvironments {
    /// Whether the configuration switches detached environments off.
    pub is_false: bool,
    /// The directory for detached environments, where there is one.
    pub path: Option<String>,
}

/// The global configuration.
#[derive(Debug, PartialEq, Eq)]
pub struct Config {
    pub pinning_strategy: Option<PinningStrategy>,
    pub detached_environments: DetachedEnvironments,
    pub global_channel_config: ChannelConfig,
}

} // verus!
