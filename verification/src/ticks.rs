//! Periodic tasks: their states, and what each kind of failure leads to.

use crate::config::ConfigError;
use crate::repos::RepoError;
use vstd::prelude::*;

verus! {

/// Where a periodic task stands.
#[derive(Clone, Copy, Debug, PartialEq, Eq, Structural)]
pub enum TickState {
    /// Waiting for the next tick.
    Sleep,
    /// In the middle of a tick.
    Work,
    /// Shut down; the task does not come back.
    Cancelled,
}

/// What happens to a periodic task.
#[derive(Clone, Copy, Debug, PartialEq, Eq, Structural)]
pub enum TickEvent {
    /// The interval is over.
    Woke,
    /// The tick came to its end, with or without an error that the task
    /// outlives.
    Finished,
    /// The orchestrator asked the task to stop.
    CancelRequested,
}

impl TickState {
    /// The state after `event`: a sleeping task that wakes goes to work, a
    /// working task that finishes goes to sleep, and a request to cancel
    /// ends the task for good. Every other event leaves the state as it is.
    pub fn next(self, event: TickEvent) -> (state: TickState)
        ensures
            state == match (self, event) {
                (TickState::Cancelled, _) => TickState::Cancelled,
                (_, TickEvent::CancelRequested) => TickState::Cancelled,
                (TickState::Sleep, TickEvent::Woke) => TickState::Work,
                (TickState::Work, TickEvent::Finished) => TickState::Sleep,
                (TickState::Sleep, TickEvent::Finished) => TickState::Sleep,
                (TickState::Work, TickEvent::Woke) => TickState::Work,
            },
    {
        match self {
            TickState::Cancelled => TickState::Cancelled,
            TickState::Sleep => match event {
                TickEvent::CancelRequested => TickState::Cancelled,
                TickEvent::Woke => TickState::Work,
                TickEvent::Finished => TickState::Sleep,
            },
            TickState::Work => match event {
                TickEvent::CancelRequested => TickState::Cancelled,
                TickEvent::Woke => TickState::Work,
                TickEvent::Finished => TickState::Sleep,
            },
        }
    }
}

/// What can go wrong while the indexer runs.
pub enum Failure {
    /// The configuration names no contract or no chain.
    ConfigInvalid(ConfigError),
    /// The store could not be reached.
    RepoNotConnected,
    /// The store failed otherwise, with its message.
    RepoUnknown(String),
    /// The provider failed in a way that may pass.
    ProviderTransient,
    /// The provider failed in a way that will not pass, such as an unknown
    /// chain.
    ProviderFatal,
    /// A log could not be decoded.
    DecodeFailed,
    /// The task was asked to stop.
    Cancelled,
}

/// What a failure leads to.
#[derive(Clone, Copy, Debug, PartialEq, Eq, Structural)]
pub enum Reaction {
    /// Startup is given up and the failure goes to the caller.
    AbortStartup,
    /// The tick ends without a trace; the next tick tries again.
    RetryNextTick,
    /// The transaction is rolled back; the next tick tries again.
    RollBack,
    /// The tick ends here; the task goes on with the next tick.
    AbortTick,
    /// The failure is logged, at most once a minute; the next tick tries
    /// again.
    LogAndRetry,
    /// The log is skipped; the rest of the batch commits.
    SkipLog,
    /// The task shuts down cleanly.
    Unwind,
}

impl Failure {
    /// The failure that an error of the store stands for.
    pub fn from_repo_error(error: RepoError) -> (failure: Self)
        ensures
            match error {
                RepoError::NotConnected => failure is RepoNotConnected,
                RepoError::Unknown(message) => failure == Failure::RepoUnknown(message),
            },
    {
        match error {
            RepoError::NotConnected => Failure::RepoNotConnected,
            RepoError::Unknown(message) => Failure::RepoUnknown(message),
        }
    }

    /// What the failure leads to. `in_transaction` says whether it came up
    /// inside a transaction of the store.
    pub open spec fn reaction(self, in_transaction: bool) -> Reaction {
        match self {
            Failure::ConfigInvalid(_) => Reaction::AbortStartup,
            Failure::RepoNotConnected => Reaction::RetryNextTick,
            Failure::RepoUnknown(_) => if in_transaction {
                Reaction::RollBack
            } else {
                Reaction::AbortTick
            },
            Failure::ProviderTransient => Reaction::RetryNextTick,
            Failure::ProviderFatal => Reaction::LogAndRetry,
            Failure::DecodeFailed => Reaction::SkipLog,
            Failure::Cancelled => Reaction::Unwind,
        }
    }

    /// What the failure leads to. An invalid configuration aborts startup.
    /// A store out of reach and a passing failure of the provider are
    /// retried at the next tick; a lasting failure of the provider too, once
    /// logged. Another failure of the store rolls back the transaction it
    /// came up in, or ends the tick where it came up outside of one. A log
    /// that cannot be decoded is skipped, and a cancelled task unwinds.
    pub fn react(&self, in_transaction: bool) -> (reaction: Reaction)
        ensures
            reaction == self.reaction(in_transaction),
    {
        match self {
            Failure::ConfigInvalid(_) => Reaction::AbortStartup,
            Failure::RepoNotConnected => Reaction::RetryNextTick,
            Failure::RepoUnknown(_) => if in_transaction {
                Reaction::RollBack
            } else {
                Reaction::AbortTick
            },
            Failure::ProviderTransient => Reaction::RetryNextTick,
            Failure::ProviderFatal => Reaction::LogAndRetry,
            Failure::DecodeFailed => Reaction::SkipLog,
            Failure::Cancelled => Reaction::Unwind,
        }
    }
}

/// Whether a lasting failure is to be logged at `now` (in seconds), given
/// when one was logged last: at most once a minute.
pub fn should_log(last_logged_at: Option<i64>, now: i64) -> (log: bool)
    ensures
        log == match last_logged_at {
            Some(last) => now - last >= 60,
            None => true,
        },
{
    match last_logged_at {
        Some(last) => (now as i128) - (last as i128) >= 60,
        None => true,
    }
}

/// How long a call to the provider may take: half the time between two
/// ingester ticks.
pub fn get_provider_timeout_ms(ingestion_rate_ms: u64) -> (timeout: u64)
    ensures
        timeout == ingestion_rate_ms / 2,
{
    ingestion_rate_ms / 2
}

} // verus!
