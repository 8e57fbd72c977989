use world_migration::migrate::run::{Phase, RunState};

#[test]
fn run_goes_through_the_phases_in_order() {
    let mut state = RunState::start();
    let mut seen = Vec::new();
    while let Some(phase) = state.pending() {
        seen.push(phase);
        state = state.advance(true);
    }
    assert_eq!(
        seen,
        vec![
            Phase::EnsureWorld,
            Phase::SyncResources,
            Phase::SyncPermissions,
            Phase::InitializeContracts,
        ]
    );
    assert_eq!(state, RunState::Done);
    assert_eq!(state.advance(true), RunState::Done);
    assert_eq!(state.advance(false), RunState::Done);
}

#[test]
fn failed_submission_aborts_the_remaining_phases() {
    let state = RunState::start().advance(true).advance(true);
    assert_eq!(state, RunState::Pending(Phase::SyncPermissions));
    let aborted = state.advance(false);
    assert_eq!(aborted, RunState::Aborted(Phase::SyncPermissions));
    assert_eq!(aborted.pending(), None);
    assert_eq!(aborted.advance(true), RunState::Aborted(Phase::SyncPermissions));

    assert_eq!(RunState::start().advance(false), RunState::Aborted(Phase::EnsureWorld));
}

#[test]
fn phase_labels() {
    assert_eq!(Phase::EnsureWorld.label(), "Deploying world...");
    assert_eq!(Phase::SyncResources.label(), "Syncing resources...");
    assert_eq!(Phase::SyncPermissions.label(), "Syncing permissions...");
    assert_eq!(Phase::InitializeContracts.label(), "Initializing contracts...");
}
