use alchimera::save::{SaveData, SaveError, CURRENT_SAVE_VERSION};

#[test]
fn new_save_data_has_current_version() {
    let save = SaveData::new("world.seed.demo");

    assert_eq!(save.version(), CURRENT_SAVE_VERSION);
    assert_eq!(save.world_seed_label(), "world.seed.demo");
}

#[test]
fn unsupported_version_returns_error() {
    let save = SaveData::with_version_for_testing(CURRENT_SAVE_VERSION + 1, "future.seed");

    assert_eq!(
        save.validate_version(),
        Err(SaveError::UnsupportedVersion { found: CURRENT_SAVE_VERSION + 1, supported: CURRENT_SAVE_VERSION })
    );
}

#[test]
fn current_version_validates() {
    assert_eq!(SaveData::new("world").validate_version(), Ok(()));
}
