use duplo_core::config::Config;

#[test]
fn test_cleaning_config_hash_deterministic() {
    let config1 = Config::default();
    let config2 = Config::default();
    assert_eq!(
        config1.cleaning_config_hash(),
        config2.cleaning_config_hash()
    );
}

#[test]
fn test_cleaning_config_hash_changes_with_min_chars() {
    let mut config1 = Config::default();
    config1.min_chars = 3;

    let mut config2 = Config::default();
    config2.min_chars = 5;

    assert_ne!(
        config1.cleaning_config_hash(),
        config2.cleaning_config_hash()
    );
}

#[test]
fn test_cleaning_config_hash_unchanged_by_min_block_size() {
    let mut config1 = Config::default();
    config1.min_block_size = 4;

    let mut config2 = Config::default();
    config2.min_block_size = 10;

    // min_block_size doesn't affect cleaning, only detection
    assert_eq!(
        config1.cleaning_config_hash(),
        config2.cleaning_config_hash()
    );
}

#[test]
fn test_detection_config_hash_deterministic() {
    let config1 = Config::default();
    let config2 = Config::default();
    assert_eq!(
        config1.detection_config_hash(),
        config2.detection_config_hash()
    );
}

#[test]
fn test_detection_config_hash_changes_with_min_block_size() {
    let mut config1 = Config::default();
    config1.min_block_size = 4;

    let mut config2 = Config::default();
    config2.min_block_size = 10;

    assert_ne!(
        config1.detection_config_hash(),
        config2.detection_config_hash()
    );
}

#[test]
fn test_detection_config_hash_changes_with_threshold() {
    let mut config1 = Config::default();
    config1.block_percent_threshold = 100;

    let mut config2 = Config::default();
    config2.block_percent_threshold = 50;

    assert_ne!(
        config1.detection_config_hash(),
        config2.detection_config_hash()
    );
}

#[test]
fn default_uses_at_least_one_thread() {
    // The hardware thread count is always at least one.
    assert!(Config::default().num_threads >= 1);
}
