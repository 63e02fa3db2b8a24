//! How the connection pool of a backend is sized and timed.

use crate::settings::Setting;
use vstd::prelude::*;
use vstd::string::StringExecFns;

verus! {

/// The number of connections of a pool that is not told otherwise.
pub const DEFAULT_MAX_CONNECTIONS: usize = 10;

/// The time, in milliseconds, that stands for a timeout that is not set.
pub const DEFAULT_TIMEOUT: u64 = 30_000;

/// What the keys under `pool.` of a backend hold. Times are in
/// milliseconds.
#[derive(Debug, Clone, Copy, PartialEq, Eq)]
pub struct PoolSettings {
    /// `pool.max-connections`
    pub max_connections: Setting<usize>,
    /// `pool.timeout.create`
    pub create_timeout: Setting<u64>,
    /// `pool.timeout.wait`
    pub wait_timeout: Setting<u64>,
    /// `pool.timeout.recycle`
    pub recycle_timeout: Setting<u64>,
}

/// The policy of a pool. Times are in milliseconds; without a time a step
/// may take as long as it takes.
#[derive(Debug, Clone, Copy, PartialEq, Eq, Structural)]
pub struct PoolConfig {
    /// The most connections that the pool holds.
    pub max_size: usize,
    /// How long setting up a connection may take.
    pub create_timeout: Option<u64>,
    /// How long a caller waits for a connection when all are in use.
    pub wait_timeout: Option<u64>,
    /// How long checking a used connection may take.
    pub recycle_timeout: Option<u64>,
}

/// The policy that the settings give. A pool holds ten connections unless
/// told otherwise. Each timeout is thirty seconds where its key is missing.
/// Where a key cannot be read, setting up a connection is still given
/// thirty seconds, while waiting and recycling go without a limit.
pub open spec fn policy_of(settings: PoolSettings) -> PoolConfig {
    PoolConfig {
        max_size: settings.max_connections.resolved(
            DEFAULT_MAX_CONNECTIONS,
            DEFAULT_MAX_CONNECTIONS,
        ),
        create_timeout: Some(settings.create_timeout.resolved(DEFAULT_TIMEOUT, DEFAULT_TIMEOUT)),
        wait_timeout: settings.wait_timeout.present(DEFAULT_TIMEOUT),
        recycle_timeout: settings.recycle_timeout.present(DEFAULT_TIMEOUT),
    }
}

/// The policy of the pool of a backend, from what its keys hold.
pub fn pool_config(settings: PoolSettings) -> (config: PoolConfig)
    ensures
        config == policy_of(settings),
{
    PoolConfig {
        max_size: settings.max_connections.or(DEFAULT_MAX_CONNECTIONS, DEFAULT_MAX_CONNECTIONS),
        create_timeout: Some(settings.create_timeout.or(DEFAULT_TIMEOUT, DEFAULT_TIMEOUT)),
        wait_timeout: settings.wait_timeout.or_missing(DEFAULT_TIMEOUT),
        recycle_timeout: settings.recycle_timeout.or_missing(DEFAULT_TIMEOUT),
    }
}

/// What is said when the pool of the backend at `prefix` could not be
/// built, given the prefix as it is to be shown and the reason.
pub open spec fn build_failure_message(prefix_shown: Seq<char>, reason: Seq<char>) -> Seq<char> {
    "Failed to build pool for "@ + prefix_shown + ": "@ + reason
}

/// Puts together what is said when a pool could not be built.
pub fn build_failure(prefix_shown: &str, reason: &str) -> (message: String)
    ensures
        message@ == build_failure_message(prefix_shown@, reason@),
{
    let mut message = "Failed to build pool for ".to_owned();
    message.append(prefix_shown);
    message.append(": ");
    message.append(reason);
    message
}

} // verus!
