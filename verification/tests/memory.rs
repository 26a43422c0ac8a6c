use tale_ndjson::memory_budget::{MemoryBudget, MemoryPressure};

#[test]
fn memory_budget_allocation_works() {
    let mut budget = MemoryBudget::new(1000).expect("a budget of 1000 bytes");

    let alloc1 = budget.try_allocate(500).expect("no failure");
    assert!(alloc1.is_some());

    let alloc2 = budget.try_allocate(400).expect("no failure");
    assert!(alloc2.is_some());

    // Exceeds limit
    let alloc3 = budget.try_allocate(200).expect("no failure");
    assert!(alloc3.is_none());

    // After giving the first back, should succeed
    alloc1.expect("allocated above").deallocate(&mut budget);
    let alloc4 = budget.try_allocate(300).expect("no failure");
    assert!(alloc4.is_some());
}

#[test]
fn memory_pressure_calculation_works() {
    let mut budget = MemoryBudget::new(1000).expect("a budget of 1000 bytes");

    let _alloc1 = budget.try_allocate(500).expect("no failure");
    assert_eq!(budget.current_pressure().expect("no failure"), MemoryPressure::Low);

    let _alloc2 = budget.try_allocate(150).expect("no failure");
    assert_eq!(budget.current_pressure().expect("no failure"), MemoryPressure::Moderate);

    let _alloc3 = budget.try_allocate(200).expect("no failure");
    assert_eq!(budget.current_pressure().expect("no failure"), MemoryPressure::High);

    let _alloc4 = budget.try_allocate(100).expect("no failure");
    assert_eq!(budget.current_pressure().expect("no failure"), MemoryPressure::Critical);
}

#[test]
fn allocation_automatic_cleanup_works() {
    let mut budget = MemoryBudget::new(1000).expect("a budget of 1000 bytes");

    {
        let alloc1 = budget.try_allocate(500).expect("no failure").expect("fits");
        let alloc2 = budget.try_allocate(400).expect("no failure").expect("fits");
        let stats = budget.usage_stats().expect("no failure");
        assert_eq!(stats.current_usage, 900);
        alloc1.deallocate(&mut budget);
        alloc2.deallocate(&mut budget);
    }

    let stats = budget.usage_stats().expect("no failure");
    assert_eq!(stats.current_usage, 0);
}

#[test]
fn test_recommended_chunk_size_adaptation() {
    let mut budget = MemoryBudget::new(1000).expect("a budget of 1000 bytes");

    assert_eq!(budget.recommended_chunk_size(1000).expect("no failure"), 1000);

    let _alloc = budget.try_allocate(700).expect("no failure");
    assert_eq!(budget.recommended_chunk_size(1000).expect("no failure"), 800);

    let _alloc2 = budget.try_allocate(150).expect("no failure");
    assert_eq!(budget.recommended_chunk_size(1000).expect("no failure"), 500);

    let _alloc3 = budget.try_allocate(100).expect("no failure");
    assert_eq!(budget.recommended_chunk_size(1000).expect("no failure"), 250);
}

#[test]
fn handles_slow_io_gracefully() {
    // A slow reader is a scenario with no steps yet: nothing to check.
}

#[test]
fn budget_never_exceeds_its_limit() {
    let mut budget = MemoryBudget::new(100).expect("a budget of 100 bytes");
    let a = budget.try_allocate(60).expect("no failure");
    assert!(a.is_some());
    let b = budget.try_allocate(41).expect("no failure");
    assert!(b.is_none());
    let c = budget.try_allocate(40).expect("no failure");
    assert!(c.is_some());
    let stats = budget.usage_stats().expect("no failure");
    assert_eq!(stats.current_usage, 100);
    assert_eq!(stats.available_memory(), 0);
}

#[test]
fn memory_budget_basic_features_work() {
    let mut budget = MemoryBudget::new(10 * 1024).expect("a budget of 10KB");

    let alloc1 = budget.try_allocate(4096).expect("no failure");
    assert!(alloc1.is_some());

    let stats = budget.usage_stats().expect("no failure");
    assert_eq!(stats.current_usage, 4096);
    assert_eq!(stats.pressure, MemoryPressure::Low);

    alloc1.expect("allocated above").deallocate(&mut budget);
    let stats = budget.usage_stats().expect("no failure");
    assert_eq!(stats.current_usage, 0);
}

#[test]
fn test_memory_pressure_levels() {
    let mut budget = MemoryBudget::new(1000).expect("a budget of 1000 bytes");

    let _alloc1 = budget.try_allocate(500).expect("no failure");
    assert_eq!(budget.current_pressure().expect("no failure"), MemoryPressure::Low);

    let _alloc2 = budget.try_allocate(150).expect("no failure");
    assert_eq!(budget.current_pressure().expect("no failure"), MemoryPressure::Moderate);

    let _alloc3 = budget.try_allocate(200).expect("no failure");
    assert_eq!(budget.current_pressure().expect("no failure"), MemoryPressure::High);

    let _alloc4 = budget.try_allocate(100).expect("no failure");
    assert_eq!(budget.current_pressure().expect("no failure"), MemoryPressure::Critical);
}

#[test]
fn can_do_emergency_allocation() {
    let mut budget = MemoryBudget::new(2048).expect("a budget of 2048 bytes");

    let alloc1 = budget.try_allocate(1950).expect("no failure");
    assert!(alloc1.is_some());

    // Over budget: refused.
    let alloc2 = budget.try_allocate(100).expect("no failure");
    assert!(alloc2.is_none());

    assert_eq!(budget.current_pressure().expect("no failure"), MemoryPressure::Critical);
}

#[test]
fn can_report_memory_stats() {
    let mut budget = MemoryBudget::new(10000).expect("a budget of 10000 bytes");

    let _alloc1 = budget.try_allocate(3000).expect("no failure");
    let _alloc2 = budget.try_allocate(2000).expect("no failure");

    let stats = budget.usage_stats().expect("no failure");

    assert_eq!(stats.total_limit, 10000);
    assert_eq!(stats.current_usage, 5000);
    assert_eq!((stats.current_usage as f64 / stats.total_limit as f64) * 100.0, 50.0);
    assert_eq!(stats.available_memory(), 5000);
    assert_eq!(stats.pressure, MemoryPressure::Low);
}
