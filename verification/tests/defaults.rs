use tale_ndjson::defaults::io::{FLUSH_LINE_COUNT, INITIAL_CHUNK_SIZE, READ_BUFFER_SIZE, TAIL_FLUSH_INTERVAL};
use tale_ndjson::defaults::processing::{
    ADAPTATION_INTERVAL, ALWAYS_CHUNKED_FILE_SIZE, CHUNKED_WITH_OFFSET_FILE_SIZE, LARGE_OFFSET_THRESHOLD,
};
use tale_ndjson::defaults::{ConfigPreset, SystemDefaults};
use tale_ndjson::production_defaults::ProductionDefaults;

#[test]
fn chunk_sizes_are_block_aligned() {
    const BLOCK_SIZE: usize = 4096;

    let tiny = SystemDefaults::optimal_chunk_for_file(50_000);
    assert_eq!(tiny % BLOCK_SIZE, 0);
    assert_eq!(tiny, SystemDefaults::MIN_CHUNK_SIZE);

    let small = SystemDefaults::optimal_chunk_for_file(500_000);
    assert_eq!(small % BLOCK_SIZE, 0);
    assert_eq!(small, 8 * 1024);

    let medium = SystemDefaults::optimal_chunk_for_file(5_000_000);
    assert_eq!(medium % BLOCK_SIZE, 0);
    assert_eq!(medium, SystemDefaults::DEFAULT_CHUNK_SIZE);

    let large = SystemDefaults::optimal_chunk_for_file(50_000_000);
    assert_eq!(large % BLOCK_SIZE, 0);
    assert_eq!(large, 128 * 1024);

    let huge = SystemDefaults::optimal_chunk_for_file(2_000_000_000);
    assert_eq!(huge % BLOCK_SIZE, 0);
    assert_eq!(huge, 1024 * 1024);
}

#[test]
fn chunking_decisions_are_good() {
    // Should not chunk tiny files
    assert!(!SystemDefaults::should_chunk_by_default(100_000));

    // Should chunk files > 1MB
    assert!(SystemDefaults::should_chunk_by_default(2_000_000));
}

#[test]
fn presets_are_as_expected() {
    let low_mem = ConfigPreset::LowMemory.settings();
    assert_eq!(low_mem.memory_percentage, 5);
    assert_eq!(low_mem.strategy, "conservative");
    assert!(low_mem.force_chunked);

    let balanced = ConfigPreset::Balanced.settings();
    assert_eq!(balanced.memory_percentage, 10);
    assert_eq!(balanced.strategy, "conservative");
    assert!(!balanced.force_chunked);

    let high_perf = ConfigPreset::HighPerformance.settings();
    assert_eq!(high_perf.memory_percentage, 20);
    assert_eq!(high_perf.strategy, "adaptive");
    assert!(!high_perf.force_chunked);
}

#[test]
fn we_have_processing_constants() {
    // Verify constants are reasonable
    assert_eq!(LARGE_OFFSET_THRESHOLD, 10_000);
    assert_eq!(CHUNKED_WITH_OFFSET_FILE_SIZE, 100 * 1024 * 1024);
    assert_eq!(ALWAYS_CHUNKED_FILE_SIZE, 1024 * 1024 * 1024);
    assert_eq!(ADAPTATION_INTERVAL, 20);
}

#[test]
fn we_have_io_constants() {
    // Verify reasonable defaults (the flush interval is held in ms)
    assert_eq!(TAIL_FLUSH_INTERVAL, 250);
    assert_eq!(FLUSH_LINE_COUNT, 40);
    assert_eq!(READ_BUFFER_SIZE, 8192);
    assert_eq!(INITIAL_CHUNK_SIZE, 32 * 1024);
}

#[test]
fn test_optimal_chunk_sizes() {
    // Test that chunk sizes are block-aligned
    const BLOCK_SIZE: usize = 4096;

    let tiny = ProductionDefaults::optimal_chunk_for_file(50_000);
    assert_eq!(tiny % BLOCK_SIZE, 0);
    assert_eq!(tiny, ProductionDefaults::MIN_CHUNK_SIZE);

    let small = ProductionDefaults::optimal_chunk_for_file(500_000);
    assert_eq!(small % BLOCK_SIZE, 0);
    assert_eq!(small, 8 * 1024);

    let medium = ProductionDefaults::optimal_chunk_for_file(5_000_000);
    assert_eq!(medium % BLOCK_SIZE, 0);
    assert_eq!(medium, ProductionDefaults::DEFAULT_CHUNK_SIZE);

    let large = ProductionDefaults::optimal_chunk_for_file(50_000_000);
    assert_eq!(large % BLOCK_SIZE, 0);
    assert_eq!(large, 128 * 1024);

    let huge = ProductionDefaults::optimal_chunk_for_file(2_000_000_000);
    assert_eq!(huge % BLOCK_SIZE, 0);
    assert_eq!(huge, 1024 * 1024);
}

#[test]
fn test_chunking_decision() {
    // Should not chunk tiny files
    assert!(!ProductionDefaults::should_chunk_by_default(100_000));

    // Should chunk files > 1MB
    assert!(ProductionDefaults::should_chunk_by_default(2_000_000));
}

#[test]
fn test_preset_settings() {
    let low_mem = tale_ndjson::production_defaults::ConfigPreset::LowMemory.settings();
    assert_eq!(low_mem.memory_percentage, 5);
    assert_eq!(low_mem.strategy, "conservative");
    assert!(low_mem.force_chunked);

    let balanced = tale_ndjson::production_defaults::ConfigPreset::Balanced.settings();
    assert_eq!(balanced.memory_percentage, 10);
    assert_eq!(balanced.strategy, "conservative");
    assert!(!balanced.force_chunked);

    let high_perf = tale_ndjson::production_defaults::ConfigPreset::HighPerformance.settings();
    assert_eq!(high_perf.memory_percentage, 20);
    assert_eq!(high_perf.strategy, "adaptive");
    assert!(!high_perf.force_chunked);
}

#[test]
fn test_memory_thresholds() {
    // Verify thresholds are properly ordered (held in percent)
    assert!(ProductionDefaults::MEMORY_PRESSURE_LOW_THRESHOLD < ProductionDefaults::MEMORY_PRESSURE_MODERATE_THRESHOLD);
    assert!(ProductionDefaults::MEMORY_PRESSURE_MODERATE_THRESHOLD < ProductionDefaults::MEMORY_PRESSURE_HIGH_THRESHOLD);
    assert!(ProductionDefaults::MEMORY_PRESSURE_HIGH_THRESHOLD < 100);

    // Verify factors decrease with pressure
    assert!(ProductionDefaults::PRESSURE_FACTOR_LOW > ProductionDefaults::PRESSURE_FACTOR_MODERATE);
    assert!(ProductionDefaults::PRESSURE_FACTOR_MODERATE > ProductionDefaults::PRESSURE_FACTOR_HIGH);
    assert!(ProductionDefaults::PRESSURE_FACTOR_HIGH > ProductionDefaults::PRESSURE_FACTOR_CRITICAL);
}
