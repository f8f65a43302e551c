use nearscreen_receiver::config::{
    user_path, Config, Place, Places, Search, SettingsError, SettingsFile, System,
};

#[test]
fn allowing_the_same_phone_twice_updates_its_name() {
    let mut config = Config::default();
    config.allow("ID", "iPhone");
    config.allow("ID", "Ira iPhone");
    assert_eq!(config.allowed_devices.len(), 1);
    assert_eq!(config.allowed_devices[0].name, "Ira iPhone");
}

#[test]
fn an_empty_id_is_never_allowed() {
    let mut config = Config::default();
    config.allow("", "nameless");
    assert!(config.allowed_devices.is_empty());
    assert!(!config.is_allowed(""));
}

fn places() -> Places {
    Places {
        has_portable: true,
        portable_exists: None,
        has_user: true,
        user_exists: None,
        portable_writable: None,
    }
}

#[test]
fn settings_are_looked_for_step_by_step() {
    let mut seen = places();
    assert_eq!(Config::path(&seen), Search::LookAt(Place::Portable));
    seen.portable_exists = Some(false);
    assert_eq!(Config::path(&seen), Search::LookAt(Place::User));
    seen.user_exists = Some(false);
    assert_eq!(Config::path(&seen), Search::Probe);
    seen.portable_writable = Some(true);
    assert_eq!(Config::path(&seen), Search::Use(Place::Portable));
    seen.portable_writable = Some(false);
    assert_eq!(Config::path(&seen), Search::Use(Place::User));
    seen.has_user = false;
    assert_eq!(Config::path(&seen), Search::Use(Place::Working));
}

#[test]
fn an_existing_file_wins() {
    let mut seen = places();
    seen.portable_exists = Some(true);
    seen.user_exists = Some(true);
    assert_eq!(Config::path(&seen), Search::Use(Place::Portable));
    seen.portable_exists = Some(false);
    assert_eq!(Config::path(&seen), Search::Use(Place::User));
    seen.has_portable = false;
    assert_eq!(Config::path(&seen), Search::Use(Place::User));
}

#[test]
fn every_system_has_its_folder() {
    assert_eq!(user_path(System::Windows, true), ("APPDATA", "Nearscreen"));
    assert_eq!(
        user_path(System::MacOs, true),
        ("HOME", "Library/Application Support/Nearscreen")
    );
    assert_eq!(
        user_path(System::Other, true),
        ("XDG_CONFIG_HOME", "nearscreen")
    );
    assert_eq!(user_path(System::Other, false), ("HOME", ".config/nearscreen"));
}

#[test]
fn a_broken_file_means_defaults() {
    assert_eq!(Config::load_from(SettingsFile::Absent), Ok(None));
    assert_eq!(
        Config::load_from(SettingsFile::Unreadable),
        Err(SettingsError::Read)
    );
    assert_eq!(
        Config::load_from(SettingsFile::Garbled),
        Err(SettingsError::Parse)
    );
    assert_eq!(SettingsError::Read.describe(), "cannot read the settings file");
    assert_eq!(
        SettingsError::Parse.describe(),
        "cannot parse the settings file"
    );
    for file in [Ok(None), Err(SettingsError::Read), Err(SettingsError::Parse)] {
        assert_eq!(Config::load(file), Config::default());
    }
    let mut stored = Config::default();
    stored.port = 19913;
    stored.allow("ID", "iPhone");
    let file = Config::load_from(SettingsFile::Holds(stored.clone()));
    assert_eq!(Config::load(file), stored);
}

#[test]
fn allowing_one_phone_lets_no_other_in() {
    let mut config = Config::default();
    config.allow("A", "a");
    config.allow("B", "b");
    config.allow("A", "aa");
    let ids: Vec<&str> = config
        .allowed_devices
        .iter()
        .map(|device| device.id.as_str())
        .collect();
    assert_eq!(ids, vec!["A", "B"]);
    assert!(config.is_allowed("A"));
    assert!(config.is_allowed("B"));
    assert!(!config.is_allowed("a"));
    assert_eq!(config.port, 9913);
}
