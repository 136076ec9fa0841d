use slot_machine::Error;
use slot_machine::StateSlot;

#[test]
fn initialize_succeeds_once_then_always_fails() {
    let mut slot = StateSlot::empty();
    assert!(!slot.is_initialized());
    assert_eq!(slot.initialize("owner.near".to_string()), Ok(()));
    assert!(slot.is_initialized());
    assert_eq!(slot.machine().owner_id().as_str(), "owner.near");

    assert_eq!(
        slot.initialize("usurper.near".to_string()),
        Err(Error::AlreadyInitialized)
    );
    assert_eq!(
        slot.initialize("owner.near".to_string()),
        Err(Error::AlreadyInitialized)
    );
    // The owner never changes after the first successful call.
    assert!(slot.is_initialized());
    assert_eq!(slot.machine().owner_id().as_str(), "owner.near");
}

#[test]
fn initialize_with_malformed_owner_leaves_the_slot_empty() {
    let mut slot = StateSlot::empty();
    assert_eq!(
        slot.initialize("UPPER".to_string()),
        Err(Error::InvalidIdentity)
    );
    assert!(!slot.is_initialized());
    // The failed attempt does not spend the one initialization.
    assert_eq!(slot.initialize("owner.near".to_string()), Ok(()));
    assert!(slot.is_initialized());
}

#[test]
fn operations_run_on_the_initialized_machine() {
    let mut slot = StateSlot::empty();
    assert_eq!(slot.initialize("owner.near".to_string()), Ok(()));
    let player = "player.near".to_string();
    assert_eq!(slot.machine().get_credits(&player), 0);
    assert_eq!(slot.machine_mut().deposit(&player, 5_000_000), Ok(()));
    assert_eq!(slot.machine_mut().play(&player, 50), Ok(50));
    assert_eq!(slot.machine().get_credits(&player), 14_000_000);
}
