use timestep_gate::counter::{generate_ids, IDManager};

#[test]
fn default_manager_starts_at_zero() {
    assert_eq!(IDManager::default().current_id(), 0);
}

#[test]
fn starting_at_keeps_the_given_id() {
    assert_eq!(IDManager::starting_at(41).current_id(), 41);
}

#[test]
fn new_increments_by_one() {
    let mut manager = IDManager::default();
    manager.new();
    assert_eq!(manager.current_id(), 1);
    manager.new();
    assert_eq!(manager.current_id(), 2);
    manager.new();
    assert_eq!(manager.current_id(), 3);
}

#[test]
fn new_wraps_from_max_to_zero() {
    let mut manager = IDManager::starting_at(usize::MAX);
    manager.new();
    assert_eq!(manager.current_id(), 0);
    manager.new();
    assert_eq!(manager.current_id(), 1);
}

#[test]
fn new_reaches_max_without_wrapping() {
    let mut manager = IDManager::starting_at(usize::MAX - 1);
    manager.new();
    assert_eq!(manager.current_id(), usize::MAX);
}

#[test]
fn generate_ids_returns_each_new_id_in_order() {
    let mut manager = IDManager::default();
    assert_eq!(generate_ids(&mut manager, 3), vec![1, 2, 3]);
    assert_eq!(manager.current_id(), 3);
    assert_eq!(generate_ids(&mut manager, 2), vec![4, 5]);
    assert_eq!(manager.current_id(), 5);
}

#[test]
fn generate_ids_with_no_fire_changes_nothing() {
    let mut manager = IDManager::starting_at(7);
    assert_eq!(generate_ids(&mut manager, 0), Vec::<usize>::new());
    assert_eq!(manager.current_id(), 7);
}

#[test]
fn generate_ids_wraps_across_the_maximum() {
    let mut manager = IDManager::starting_at(usize::MAX - 1);
    assert_eq!(generate_ids(&mut manager, 4), vec![usize::MAX, 0, 1, 2]);
    assert_eq!(manager.current_id(), 2);
}

#[test]
fn generate_ids_in_two_runs_equals_one_run() {
    let mut split = IDManager::starting_at(usize::MAX - 2);
    let mut whole = IDManager::starting_at(usize::MAX - 2);
    let mut seen = generate_ids(&mut split, 2);
    seen.extend(generate_ids(&mut split, 5));
    assert_eq!(seen, generate_ids(&mut whole, 7));
    assert_eq!(split.current_id(), whole.current_id());
    assert_eq!(split.current_id(), 4);
}
