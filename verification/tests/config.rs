use tale_ndjson::config::{
    batch_window_ms, disable_chunked, force_chunked, is_glob, mode, offset, offset_unit, show_time, sticky,
    tailing, unescape_glob_pattern, ConfigOpts, InputMode, OffsetUnit,
};

#[test]
fn can_unescape_glob_pattern() {
    // Test basic unescaping
    assert_eq!(unescape_glob_pattern("\\*.log"), "*.log");
    assert_eq!(unescape_glob_pattern("test\\?.txt"), "test?.txt");
    assert_eq!(unescape_glob_pattern("\\[abc\\]"), "[abc]");

    // Test mixed patterns
    assert_eq!(unescape_glob_pattern("\\*.log\\?"), "*.log?");
    assert_eq!(unescape_glob_pattern("test\\*file\\?.log"), "test*file?.log");

    // Test non-glob backslashes (should be preserved)
    assert_eq!(unescape_glob_pattern("file\\name.txt"), "file\\name.txt");
    assert_eq!(unescape_glob_pattern("path\\to\\file"), "path\\to\\file");

    // Test already unescaped patterns (should be unchanged)
    assert_eq!(unescape_glob_pattern("*.log"), "*.log");
    assert_eq!(unescape_glob_pattern("test?.txt"), "test?.txt");

    // Test empty and edge cases
    assert_eq!(unescape_glob_pattern(""), "");
    assert_eq!(unescape_glob_pattern("\\"), "\\");
    assert_eq!(unescape_glob_pattern("file\\"), "file\\");
}

#[test]
fn is_glob_with_escaped_patterns_works() {
    // Test escaped glob patterns
    assert!(is_glob("\\*.log"));
    assert!(is_glob("test\\?.txt"));
    assert!(is_glob("\\[abc]"));

    // Test unescaped glob patterns (existing functionality)
    assert!(is_glob("*.log"));
    assert!(is_glob("test?.txt"));
    assert!(is_glob("[abc]"));

    // Test non-glob patterns
    assert!(!is_glob("file.log"));
    assert!(!is_glob("test.txt"));
    assert!(!is_glob("path/to/file"));

    // Test backslashes that don't escape glob chars
    assert!(!is_glob("file\\name.txt"));
    assert!(!is_glob("path\\to\\file"));
}

#[test]
fn can_modify_config() {
    let mut cfg = ConfigOpts {
        tailing: false,
        sticky: false,
        offset: 10,
        offset_unit: OffsetUnit::Lines,
        show_time: false,
        batch_window_ms: 250,
        mode: InputMode::Stdin,
        force_chunked: false,
        disable_chunked: false,
        ..Default::default()
    };

    // The configuration is a value handed to whoever reads it: update it.
    cfg.tailing = true;
    cfg.offset = 20;
    cfg.show_time = true;

    // Verify the changes
    assert!(tailing(&cfg));
    assert_eq!(offset(&cfg), 20);
    assert!(show_time(&cfg));
}

#[test]
fn config_accessors_work() {
    let cfg = ConfigOpts {
        tailing: true,
        sticky: true,
        offset: -100,
        offset_unit: OffsetUnit::Blocks,
        show_time: true,
        batch_window_ms: 1000,
        mode: InputMode::SingleFile { path: "test.log".to_string() },
        force_chunked: true,
        disable_chunked: false,
        ..Default::default()
    };

    assert!(tailing(&cfg));
    assert!(sticky(&cfg));
    assert_eq!(offset(&cfg), -100);
    assert!(matches!(offset_unit(&cfg), OffsetUnit::Blocks));
    assert!(show_time(&cfg));
    assert_eq!(batch_window_ms(&cfg), 1000);
    assert!(matches!(mode(&cfg), InputMode::SingleFile { .. }));
    assert!(force_chunked(&cfg));
    assert!(!disable_chunked(&cfg));
}

#[test]
fn complicated_args() {
    let args = tale_ndjson::config::Args {
        timestamps: true,
        follow: true,
        sticky: false,
        blocks: None,
        bytes: Some(-5),
        offset: None,
        verbose: false,
        quiet: false,
        window: 250,
        chunked: false,
        no_chunked: false,
        args: vec!["-4".to_string()],
        max_memory: Some(10_000_000_000),
        profile_json: false,
    };
    let system = tale_ndjson::defaults::get_system_config(None, None);
    let config = ConfigOpts::new(&args, None, &system, None).expect("Config should be valid for test");
    assert_eq!(config.offset, -5);
    assert!(matches!(config.mode, InputMode::Stdin));
}

#[test]
fn block_offsets_are_accepted_but_ignored() {
    let args = tale_ndjson::config::Args {
        timestamps: false,
        follow: false,
        sticky: false,
        blocks: Some(7),
        bytes: None,
        offset: None,
        verbose: false,
        quiet: false,
        window: 250,
        chunked: false,
        no_chunked: false,
        args: Vec::new(),
        max_memory: Some(1_000_000),
        profile_json: false,
    };
    let system = tale_ndjson::defaults::get_system_config(None, None);
    let config = ConfigOpts::new(&args, None, &system, None).expect("valid arguments");
    assert_eq!(config.offset, 0);
    assert!(matches!(config.offset_unit, OffsetUnit::Lines));
    assert!(matches!(config.mode, InputMode::Stdin));
}
