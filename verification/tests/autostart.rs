use nearscreen_receiver::autostart::{
    self, command, is_enabled, must_register, wide, Attempt, StartupError, StartupList, ENTRY,
};
use nearscreen_receiver::config::Config;

#[test]
fn text_for_windows_is_utf16_with_a_zero() {
    for s in ["", ENTRY, "C:\\Users\\Иры\\x.exe", "a\u{1F600}z\u{10FFFF}\u{FFFF}"] {
        let mut expected: Vec<u16> = s.encode_utf16().collect();
        expected.push(0);
        assert_eq!(wide(s), expected);
    }
}

#[test]
fn the_command_is_quoted() {
    assert_eq!(command("C:\\a b\\x.exe"), "\"C:\\a b\\x.exe\"");
}

#[test]
fn the_list_says_whether_it_is_on() {
    assert!(is_enabled(StartupList::Lists(true)));
    assert!(!is_enabled(StartupList::Lists(false)));
    assert!(!is_enabled(StartupList::Closed));
    assert!(!is_enabled(StartupList::Missing));
}

#[test]
fn removing_what_was_never_there_is_no_failure() {
    assert_eq!(autostart::set(Attempt::Changed, true), Ok(()));
    assert_eq!(autostart::set(Attempt::Changed, false), Ok(()));
    assert_eq!(autostart::set(Attempt::Refused, false), Ok(()));
    assert_eq!(autostart::set(Attempt::Refused, true), Err(StartupError::CannotChange));
    assert_eq!(autostart::set(Attempt::Closed, false), Err(StartupError::CannotOpen));
    assert_eq!(
        autostart::set(Attempt::Lost, true),
        Err(StartupError::CannotFindProgram)
    );
    assert_eq!(autostart::set(Attempt::Missing, false), Err(StartupError::NotWiredUp));
    assert_eq!(
        StartupError::NotWiredUp.describe(),
        "starting at login is not wired up on this platform yet"
    );
    assert_eq!(
        StartupError::CannotOpen.describe(),
        "cannot open the startup list"
    );
    assert_eq!(
        StartupError::CannotFindProgram.describe(),
        "cannot find this program on disk"
    );
    assert_eq!(
        StartupError::CannotChange.describe(),
        "cannot change the startup list"
    );
}

#[test]
fn settings_that_say_start_at_login_mean_it() {
    let mut config = Config::default();
    assert!(!must_register(&config, StartupList::Lists(false)));
    config.start_at_login = true;
    assert!(must_register(&config, StartupList::Lists(false)));
    assert!(must_register(&config, StartupList::Closed));
    assert!(!must_register(&config, StartupList::Lists(true)));
}
