//! The storage worker's batching: commands are gathered into batches of at
//! most `BATCH_LIMIT`, each written in one transaction, and the outcome of the
//! write sets the storage health. The caller does the waiting and the writing;
//! `storage_step` says what comes next.
use vstd::prelude::*;

verus! {

/// The most commands written in one transaction.
pub const BATCH_LIMIT: usize = 64;

/// Where the worker stands.
#[derive(Debug, Clone, Copy, PartialEq, Eq, Structural)]
pub enum StorageState {
    /// No batch is open; the worker waits for a command.
    Idle,
    /// A batch of `len` commands is open and more queued commands are taken.
    Filling { len: usize },
    /// The batch is being written.
    Writing,
}

/// What happened since the last step.
#[derive(Debug, Clone, Copy, PartialEq, Eq, Structural)]
pub enum StorageEvent {
    /// A command arrived and was added to the batch.
    Command,
    /// No command came: the queue was empty or, when waiting, closed.
    NoCommand,
    /// The batch was written, successfully or not.
    Written { ok: bool },
}

/// What the worker does next.
#[derive(Debug, Clone, Copy, PartialEq, Eq, Structural)]
pub enum StorageAction {
    /// Wait until a command arrives, starting a new batch with it.
    WaitForCommand,
    /// Take a command that is already queued, without waiting.
    TakeQueued,
    /// Write the batch in one transaction.
    WriteBatch,
    /// The queue is closed: stop.
    Stop,
}

/// The outcome of a step: the next state, the next action, and the storage
/// health to report, if the step settles it.
#[derive(Debug, Clone, Copy, PartialEq, Eq, Structural)]
pub struct StorageStep {
    pub state: StorageState,
    pub action: StorageAction,
    pub healthy: Option<bool>,
}

/// The action that belongs to a state when an event does not move it.
pub open spec fn resting_action(state: StorageState) -> StorageAction {
    match state {
        StorageState::Idle => StorageAction::WaitForCommand,
        StorageState::Filling { len } => if len < BATCH_LIMIT {
            StorageAction::TakeQueued
        } else {
            StorageAction::WriteBatch
        },
        StorageState::Writing => StorageAction::WriteBatch,
    }
}

/// The batch after one more command, holding `len` commands: keep taking
/// queued commands while it holds fewer than `BATCH_LIMIT`, else write it.
pub open spec fn after_command(len: int) -> StorageStep {
    if len < BATCH_LIMIT {
        StorageStep {
            state: StorageState::Filling { len: len as usize },
            action: StorageAction::TakeQueued,
            healthy: None,
        }
    } else {
        StorageStep { state: StorageState::Writing, action: StorageAction::WriteBatch, healthy: None }
    }
}

/// The worker's course: a command while idle opens a batch; queued commands
/// fill it up to `BATCH_LIMIT`; an empty queue writes it; a closed queue while
/// idle stops; a finished write reports its outcome as the storage health and
/// returns to waiting. Events a state cannot receive leave it as it is.
pub open spec fn storage_transition(state: StorageState, event: StorageEvent) -> StorageStep {
    match (state, event) {
        (StorageState::Idle, StorageEvent::Command) => after_command(1),
        (StorageState::Idle, StorageEvent::NoCommand) => StorageStep {
            state: StorageState::Idle,
            action: StorageAction::Stop,
            healthy: None,
        },
        (StorageState::Filling { len }, StorageEvent::Command) => if len < BATCH_LIMIT {
            after_command(len + 1)
        } else {
            StorageStep { state, action: resting_action(state), healthy: None }
        },
        (StorageState::Filling { len: _ }, StorageEvent::NoCommand) => StorageStep {
            state: StorageState::Writing,
            action: StorageAction::WriteBatch,
            healthy: None,
        },
        (StorageState::Writing, StorageEvent::Written { ok }) => StorageStep {
            state: StorageState::Idle,
            action: StorageAction::WaitForCommand,
            healthy: Some(ok),
        },
        _ => StorageStep { state, action: resting_action(state), healthy: None },
    }
}

/// What follows `event` in `state`.
pub fn storage_step(state: StorageState, event: StorageEvent) -> (step: StorageStep)
    ensures
        step == storage_transition(state, event),
{
    match state {
        StorageState::Idle => match event {
            StorageEvent::Command => StorageStep {
                state: StorageState::Filling { len: 1 },
                action: StorageAction::TakeQueued,
                healthy: None,
            },
            StorageEvent::NoCommand => StorageStep {
                state: StorageState::Idle,
                action: StorageAction::Stop,
                healthy: None,
            },
            StorageEvent::Written { ok: _ } => StorageStep {
                state,
                action: StorageAction::WaitForCommand,
                healthy: None,
            },
        },
        StorageState::Filling { len } => match event {
            StorageEvent::Command => {
                if len < BATCH_LIMIT {
                    let next = len + 1;
                    if next < BATCH_LIMIT {
                        StorageStep {
                            state: StorageState::Filling { len: next },
                            action: StorageAction::TakeQueued,
                            healthy: None,
                        }
                    } else {
                        StorageStep {
                            state: StorageState::Writing,
                            action: StorageAction::WriteBatch,
                            healthy: None,
                        }
                    }
                } else {
                    StorageStep { state, action: StorageAction::WriteBatch, healthy: None }
                }
            },
            StorageEvent::NoCommand => StorageStep {
                state: StorageState::Writing,
                action: StorageAction::WriteBatch,
                healthy: None,
            },
            StorageEvent::Written { ok: _ } => {
                let action = if len < BATCH_LIMIT {
                    StorageAction::TakeQueued
                } else {
                    StorageAction::WriteBatch
                };
                StorageStep { state, action, healthy: None }
            },
        },
        StorageState::Writing => match event {
            StorageEvent::Written { ok } => StorageStep {
                state: StorageState::Idle,
                action: StorageAction::WaitForCommand,
                healthy: Some(ok),
            },
            _ => StorageStep { state, action: StorageAction::WriteBatch, healthy: None },
        },
    }
}

/// An open batch holds at least one and fewer than `BATCH_LIMIT` commands.
pub open spec fn storage_wf(state: StorageState) -> bool {
    match state {
        StorageState::Filling { len } => 1 <= len < BATCH_LIMIT,
        _ => true,
    }
}

/// The state after the events `events`, in order, starting from `state`.
pub open spec fn storage_run(state: StorageState, events: Seq<StorageEvent>) -> StorageState
    decreases events.len(),
{
    if events.len() == 0 {
        state
    } else {
        storage_run(storage_transition(state, events[0]).state, events.drop_first())
    }
}

/// Whatever happens, an open batch never holds `BATCH_LIMIT` commands or more,
/// and a queued command is only taken while the batch has room: no transaction
/// writes more than `BATCH_LIMIT` commands.
pub proof fn law_batches_bounded(state: StorageState, events: Seq<StorageEvent>)
    requires
        storage_wf(state),
    ensures
        storage_wf(storage_run(state, events)),
        storage_transition(state, StorageEvent::Command).action == StorageAction::TakeQueued
            ==> (storage_transition(state, StorageEvent::Command).state matches StorageState::Filling {
            len,
        } && len < BATCH_LIMIT),
    decreases events.len(),
{
    if events.len() > 0 {
        law_batches_bounded(storage_transition(state, events[0]).state, events.drop_first());
    }
}

/// After a write the worker waits for the next command and reports the
/// write's outcome as the storage health.
pub proof fn law_write_sets_health(ok: bool)
    ensures
        storage_transition(StorageState::Writing, StorageEvent::Written { ok }) == (StorageStep {
            state: StorageState::Idle,
            action: StorageAction::WaitForCommand,
            healthy: Some(ok),
        }),
{
}

/// Only a finished write settles the storage health: a step reports one
/// exactly when a batch was being written and the write came back, and then it
/// reports that write's outcome; every other step leaves the last outcome
/// standing.
pub proof fn law_only_writes_settle_health(state: StorageState, event: StorageEvent)
    ensures
        storage_transition(state, event).healthy == (match (state, event) {
            (StorageState::Writing, StorageEvent::Written { ok }) => Some(ok),
            _ => None::<bool>,
        }),
{
}

/// Drives an open batch of `len` commands against a queue holding `queued`
/// more: commands are taken while the worker asks for them, then the queue runs
/// dry or the batch fills. The step reached and the batch's final length.
pub open spec fn drain(len: nat, queued: nat) -> (StorageStep, nat)
    decreases queued,
{
    let st = StorageState::Filling { len: len as usize };
    if queued == 0 {
        (storage_transition(st, StorageEvent::NoCommand), len)
    } else {
        let s = storage_transition(st, StorageEvent::Command);
        if s.action == StorageAction::TakeQueued {
            drain(len + 1, (queued - 1) as nat)
        } else {
            (s, len + 1)
        }
    }
}

proof fn lemma_drain(len: nat, queued: nat)
    requires
        1 <= len < BATCH_LIMIT,
    ensures
        drain(len, queued).0.state == StorageState::Writing,
        drain(len, queued).0.action == StorageAction::WriteBatch,
        drain(len, queued).1 == (if len + queued < BATCH_LIMIT {
            len + queued
        } else {
            BATCH_LIMIT as nat
        }),
    decreases queued,
{
    if queued > 0 && len + 1 < BATCH_LIMIT {
        lemma_drain(len + 1, (queued - 1) as nat);
    }
}

/// A command arriving while idle opens a batch; with `queued` more commands
/// waiting behind it, the batch written holds `min(queued + 1, BATCH_LIMIT)`
/// commands, and then the worker writes it.
pub proof fn law_batch_takes_queued(queued: nat)
    ensures
        storage_transition(StorageState::Idle, StorageEvent::Command) == (StorageStep {
            state: StorageState::Filling { len: 1 },
            action: StorageAction::TakeQueued,
            healthy: None,
        }),
        drain(1, queued).0.state == StorageState::Writing,
        drain(1, queued).0.action == StorageAction::WriteBatch,
        drain(1, queued).1 == (if queued + 1 < BATCH_LIMIT {
            queued + 1
        } else {
            BATCH_LIMIT as nat
        }),
{
    lemma_drain(1, queued);
}

} // verus!
