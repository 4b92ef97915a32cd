//! The default settings of the consensus engine.

use vstd::prelude::*;

verus! {

/// The default mailbox size of the engine's channels.
pub const DEFAULT_MAILBOX_SIZE: usize = 1024;

/// The default size of the replay buffer: 1 MiB.
pub const DEFAULT_REPLAY_BUFFER: usize = 1_048_576;

/// The default size of the write buffer: 1 MiB.
pub const DEFAULT_WRITE_BUFFER: usize = 1_048_576;

/// The default leader timeout, in seconds.
pub const DEFAULT_LEADER_TIMEOUT_SECS: u64 = 1;

/// The default notarization timeout, in seconds.
pub const DEFAULT_NOTARIZATION_TIMEOUT_SECS: u64 = 2;

/// The default interval between nullify retries, in seconds.
pub const DEFAULT_NULLIFY_RETRY_SECS: u64 = 5;

/// The default fetch timeout, in seconds.
pub const DEFAULT_FETCH_TIMEOUT_SECS: u64 = 1;

/// The default activity timeout, in views.
pub const DEFAULT_ACTIVITY_TIMEOUT_VIEWS: u64 = 20;

/// The default skip timeout, in views.
pub const DEFAULT_SKIP_TIMEOUT_VIEWS: u64 = 10;

/// The default number of concurrent fetch requests.
pub const DEFAULT_FETCH_CONCURRENT: usize = 8;

/// The settings of the engine that do not depend on its collaborators.
#[derive(Debug, PartialEq, Eq)]
pub struct SimplexSettings {
    /// The partition of the engine's journal.
    pub partition: String,
    pub mailbox_size: usize,
    /// The epoch that the engine starts in.
    pub epoch: u64,
    pub replay_buffer: usize,
    pub write_buffer: usize,
    pub leader_timeout_secs: u64,
    pub notarization_timeout_secs: u64,
    pub nullify_retry_secs: u64,
    pub fetch_timeout_secs: u64,
    pub activity_timeout_views: u64,
    pub skip_timeout_views: u64,
    pub fetch_concurrent: usize,
}

/// Builds the default settings of the engine.
#[derive(Debug, Clone, Copy)]
pub struct DefaultConfig;

impl DefaultConfig {
    /// The default settings for an engine whose journal lives in `partition`:
    /// epoch zero, buffers of 1 MiB, a mailbox of 1024, timeouts of 1, 2, 5
    /// and 1 seconds, 20 and 10 views, and 8 concurrent fetches.
    pub fn settings(partition: &str) -> (settings: SimplexSettings)
        ensures
            settings.partition@ == partition@,
            settings.mailbox_size == 1024,
            settings.epoch == 0,
            settings.replay_buffer == 1_048_576,
            settings.write_buffer == 1_048_576,
            settings.leader_timeout_secs == 1,
            settings.notarization_timeout_secs == 2,
            settings.nullify_retry_secs == 5,
            settings.fetch_timeout_secs == 1,
            settings.activity_timeout_views == 20,
            settings.skip_timeout_views == 10,
            settings.fetch_concurrent == 8,
    {
        SimplexSettings {
            partition: partition.to_owned(),
            mailbox_size: DEFAULT_MAILBOX_SIZE,
            epoch: 0,
            replay_buffer: DEFAULT_REPLAY_BUFFER,
            write_buffer: DEFAULT_WRITE_BUFFER,
            leader_timeout_secs: DEFAULT_LEADER_TIMEOUT_SECS,
            notarization_timeout_secs: DEFAULT_NOTARIZATION_TIMEOUT_SECS,
            nullify_retry_secs: DEFAULT_NULLIFY_RETRY_SECS,
            fetch_timeout_secs: DEFAULT_FETCH_TIMEOUT_SECS,
            activity_timeout_views: DEFAULT_ACTIVITY_TIMEOUT_VIEWS,
            skip_timeout_views: DEFAULT_SKIP_TIMEOUT_VIEWS,
            fetch_concurrent: DEFAULT_FETCH_CONCURRENT,
        }
    }
}

} // verus!
