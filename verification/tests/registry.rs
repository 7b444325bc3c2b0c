use bosminer_antminer::registry::{InsertSolutionStatus, WorkRegistry, WorkRegistryItem};
use bosminer_antminer::work::{Assignment, BackendSolution, Midstate};

#[derive(Debug, Clone)]
struct NullSolution;

impl BackendSolution for NullSolution {
    fn nonce_value(&self) -> u32 {
        0
    }

    fn nonce(&self) -> u32 {
        0
    }
}

#[derive(Debug, Clone, PartialEq)]
struct Nonce(u32);

impl BackendSolution for Nonce {
    fn nonce_value(&self) -> u32 {
        self.0
    }

    fn nonce(&self) -> u32 {
        self.0
    }
}

fn prepare(i: u64) -> Assignment {
    let midstate = Midstate {
        version: 0,
        state: [0u8; 32],
    };
    Assignment::new(i, vec![midstate], 0)
}

/// Test that it's possible to store work
#[test]
fn test_store_work() {
    let mut registry = WorkRegistry::<NullSolution>::new(4);
    let work1 = prepare(0);
    let work2 = prepare(1);

    assert_eq!(registry.store_work(work1, false), 0);
    assert_eq!(registry.store_work(work2, false), 1);
    assert!(registry.find_work(0).is_some());
    assert!(registry.find_work(1).is_some());
    assert!(registry.find_work(2).is_none());
}

/// Test that old work retires correctly and in order
#[test]
fn test_store_work_retiring() {
    const REGISTRY_SIZE: usize = 8;
    const NUM_WORK_ITEMS: usize = REGISTRY_SIZE * 2 + REGISTRY_SIZE / 2 + 1;
    let mut registry = WorkRegistry::<NullSolution>::new(REGISTRY_SIZE);

    // we store more than REGISTRY_SIZE items so it has to roll over
    for i in 0..NUM_WORK_ITEMS {
        let work = prepare(i as u64);
        assert_eq!(registry.store_work(work, false), i % REGISTRY_SIZE);
    }

    // verify that half of registry is empty, half used
    let mut num_used_slots: usize = 0;
    for i in 0..REGISTRY_SIZE {
        num_used_slots += registry.find_work(i).is_some() as usize;
    }
    assert_eq!(num_used_slots, REGISTRY_SIZE / 2);

    // verify which items are present
    for i in (NUM_WORK_ITEMS - REGISTRY_SIZE / 2)..NUM_WORK_ITEMS {
        assert!(registry.find_work(i % REGISTRY_SIZE).is_some());
    }
}

/// Test that `work_id` counter wraps around
#[test]
fn test_work_id_wrap_around() {
    const REGISTRY_SIZE: usize = 4;
    let mut registry = WorkRegistry::<NullSolution>::new(REGISTRY_SIZE);
    let work = prepare(0);
    assert_eq!(registry.store_work(work.clone(), false), 0);
    assert_eq!(registry.store_work(work.clone(), false), 1);
    assert_eq!(registry.store_work(work.clone(), false), 2);
    assert_eq!(registry.store_work(work.clone(), false), 3);
    assert_eq!(registry.store_work(work.clone(), false), 0);
}

/// Test that `initial_work` flag propagates to `WorkRegistryItem`
#[test]
fn test_initial_work() {
    let mut registry = WorkRegistry::<NullSolution>::new(4);
    let work1 = prepare(0);
    let work2 = prepare(0);

    assert_eq!(registry.store_work(work1, true), 0);
    assert_eq!(registry.store_work(work2, false), 1);
    assert_eq!(
        registry
            .find_work(0)
            .as_ref()
            .expect("work not found")
            .initial_work,
        true
    );
    assert_eq!(
        registry
            .find_work(1)
            .as_ref()
            .expect("work not found")
            .initial_work,
        false
    );
}

#[test]
fn test_new_registry_is_empty() {
    let mut registry = WorkRegistry::<NullSolution>::new(6);
    assert_eq!(registry.registry_size(), 6);
    for i in 0..6 {
        assert!(registry.find_work(i).is_none());
        assert!(!registry.is_occupied(i));
    }
}

#[test]
fn test_retirement_with_thirteen_works() {
    let mut registry = WorkRegistry::<Nonce>::new(8);
    for i in 0..13usize {
        assert_eq!(registry.store_work(prepare(i as u64), false), i % 8);
    }
    // the four works stored last are there, under the ids 1 to 4
    let occupied: Vec<bool> = (0..8).map(|i| registry.is_occupied(i)).collect();
    assert_eq!(
        occupied,
        vec![false, true, true, true, true, false, false, false]
    );
    for i in 9..13usize {
        let item = registry.find_work(i % 8).as_ref().expect("work not found");
        assert_eq!(item.assignment().job, i as u64);
    }
}

#[test]
fn test_occupancy_while_filling() {
    let mut registry = WorkRegistry::<NullSolution>::new(8);
    for k in 1..=20usize {
        registry.store_work(prepare(k as u64), false);
        let used = (0..8).filter(|&i| registry.is_occupied(i)).count();
        assert_eq!(used, k.min(4));
    }
}

#[test]
fn test_occupancy_with_odd_size() {
    let mut registry = WorkRegistry::<NullSolution>::new(5);
    for k in 1..=12usize {
        registry.store_work(prepare(k as u64), false);
        let used = (0..5).filter(|&i| registry.is_occupied(i)).count();
        assert_eq!(used, k.min(3));
    }
}

#[test]
fn test_registry_of_one_slot() {
    let mut registry = WorkRegistry::<NullSolution>::new(1);
    assert_eq!(registry.store_work(prepare(7), false), 0);
    assert_eq!(registry.store_work(prepare(8), true), 0);
    let item = registry.find_work(0).as_ref().expect("work not found");
    assert_eq!(item.assignment().job, 8);
    assert!(item.initial_work);
}

#[test]
fn test_find_work_gives_a_handle() {
    let mut registry = WorkRegistry::<Nonce>::new(4);
    registry.store_work(prepare(3), false);
    let status = registry
        .find_work(0)
        .as_mut()
        .expect("work not found")
        .insert_solution(Nonce(5));
    assert!(!status.duplicate);
    assert_eq!(
        registry
            .find_work(0)
            .as_ref()
            .expect("work not found")
            .num_solutions(),
        1
    );
    *registry.find_work(0) = None;
    assert!(!registry.is_occupied(0));
}

#[test]
fn test_insert_solution_detects_duplicates() {
    let mut item = WorkRegistryItem::<Nonce>::new(prepare(42), false);
    let first: InsertSolutionStatus<Nonce> = item.insert_solution(Nonce(0x1234));
    assert!(!first.duplicate);
    assert!(!first.mismatched_nonce);
    let solution = first.unique_solution.expect("solution missing");
    assert_eq!(solution.solution, Nonce(0x1234));
    assert_eq!(solution.work.job, 42);
    assert_eq!(item.num_solutions(), 1);

    let second = item.insert_solution(Nonce(0x9999));
    assert!(!second.duplicate);
    assert_eq!(item.num_solutions(), 2);

    let again = item.insert_solution(Nonce(0x1234));
    assert!(again.duplicate);
    assert!(!again.mismatched_nonce);
    assert_eq!(item.num_solutions(), 2);
    let solution = again.unique_solution.expect("solution missing");
    assert_eq!(solution.solution, Nonce(0x1234));
    assert_eq!(solution.work.job, 42);
    assert_eq!(solution.work.midstates.len(), 1);
    assert!(!item.is_initial_work());
}
