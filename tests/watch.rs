use blinc::watch::{path_extension, should_watch, HotReloadConfig};

#[test]
fn test_should_watch() {
    let config = HotReloadConfig::default();

    assert!(should_watch("src/main.junita", &config));
    assert!(should_watch("src/lib.rs", &config));
    assert!(!should_watch("target/debug/app", &config));
    assert!(!should_watch(".git/config", &config));
}

#[test]
fn test_ignore_patterns() {
    let config = HotReloadConfig {
        ignore_patterns: vec!["node_modules".to_string()],
        ..Default::default()
    };

    assert!(!should_watch("node_modules/package/index.js", &config));
    assert!(should_watch("src/main.junita", &config));
}

#[test]
fn extensions_follow_the_last_dot_of_the_last_segment() {
    assert_eq!(path_extension("a/b.tar.gz"), Some("gz"));
    assert_eq!(path_extension("a.d/readme"), None);
    assert_eq!(path_extension("src/.hidden"), None);
    assert_eq!(path_extension("x."), Some(""));
    assert_eq!(path_extension(""), None);
}

#[test]
fn ignored_paths_are_skipped_even_with_known_extension() {
    let config = HotReloadConfig::new();
    assert_eq!(config.debounce_ms, 300);
    assert!(!should_watch("target/gen/x.rs", &config));
    assert!(!should_watch("src/readme.md", &config));
}
