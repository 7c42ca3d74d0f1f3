//! Configuration injected into the components that need it at
//! construction time: the control plane's own endpoints and the broker
//! management credentials.

use vstd::prelude::*;

verus! {

#[derive(Debug, Clone, PartialEq, Eq)]
pub struct Settings {
    pub core: CoreConfig,
    pub emqx: EmqxConfig,
}

#[derive(Debug, Clone, PartialEq, Eq)]
pub struct CoreConfig {
    pub endpoint: String,
    pub postgres_dsn: String,
    pub redis_dsn: String,
    pub secret: String,
}

#[derive(Debug, Clone, PartialEq, Eq)]
pub struct EmqxConfig {
    pub management_host: String,
    pub app_id: String,
    pub app_secret: String,
}

} // verus!
