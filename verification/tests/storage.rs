use tactical_mapper::storage::{
    storage_step, StorageAction, StorageEvent, StorageState, StorageStep, BATCH_LIMIT,
};

fn batch_size(queued: usize) -> usize {
    let first = storage_step(StorageState::Idle, StorageEvent::Command);
    let (mut state, mut action) = (first.state, first.action);
    let mut taken = 1;
    let mut left = queued;
    while action == StorageAction::TakeQueued {
        let event = if left > 0 {
            left -= 1;
            taken += 1;
            StorageEvent::Command
        } else {
            StorageEvent::NoCommand
        };
        let step = storage_step(state, event);
        state = step.state;
        action = step.action;
    }
    assert_eq!(state, StorageState::Writing);
    assert_eq!(action, StorageAction::WriteBatch);
    taken
}

#[test]
fn batches_take_queued_commands_up_to_the_limit() {
    assert_eq!(batch_size(0), 1);
    assert_eq!(batch_size(10), 11);
    assert_eq!(batch_size(BATCH_LIMIT - 1), BATCH_LIMIT);
    assert_eq!(batch_size(500), BATCH_LIMIT);
}

#[test]
fn write_outcome_sets_health_and_waits_again() {
    for ok in [true, false] {
        assert_eq!(
            storage_step(StorageState::Writing, StorageEvent::Written { ok }),
            StorageStep { state: StorageState::Idle, action: StorageAction::WaitForCommand, healthy: Some(ok) }
        );
    }
}

#[test]
fn closed_queue_stops_the_worker() {
    assert_eq!(storage_step(StorageState::Idle, StorageEvent::NoCommand).action, StorageAction::Stop);
}
