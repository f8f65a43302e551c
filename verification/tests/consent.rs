use nearscreen_receiver::config::Config;
use nearscreen_receiver::consent::{Answer, Consent, Visit, ONCE_LASTS, PATIENCE};
use nearscreen_receiver::net::{Decision, Hello};

const SECOND: u64 = 1_000_000_000;

fn consent() -> Consent {
    Consent::new(Config::default())
}

fn hello(id: &str) -> Hello {
    Hello {
        id: id.to_string(),
        name: "Ira iPhone".to_string(),
        ..Hello::default()
    }
}

#[test]
fn a_nameless_phone_is_turned_away() {
    let mut consent = consent();
    match consent.visit(&hello("  "), 0) {
        Visit::Decided(Decision::Refuse(reason)) => {
            assert_eq!(reason, "the phone did not say who it is")
        }
        other => panic!("expected a refusal, got {other:?}"),
    }
}

#[test]
fn a_known_phone_walks_straight_in() {
    let mut settings = Config::default();
    settings.allow("KNOWN", "Ira iPhone");
    let mut consent = Consent::new(settings);
    assert!(matches!(
        consent.visit(&hello("KNOWN"), 0),
        Visit::Decided(Decision::Allow)
    ));
}

#[test]
fn an_unknown_phone_waits_for_the_person() {
    let mut consent = consent();
    match consent.visit(&hello("NEW"), 0) {
        Visit::Ask { device, id } => {
            assert_eq!(device, "Ira iPhone");
            assert_eq!(id, "NEW");
        }
        other => panic!("expected a question, got {other:?}"),
    }
    assert!(consent.heard("NEW").is_none());

    consent.record("NEW", "Ira iPhone", Answer::Allow, SECOND);
    assert!(matches!(consent.heard("NEW"), Some(Decision::Allow)));
}

#[test]
fn the_phone_that_retries_while_we_ask_is_not_asked_about_twice() {
    let mut consent = consent();
    assert!(matches!(
        consent.visit(&hello("NEW"), 0),
        Visit::Ask { .. }
    ));

    // The phone gave up waiting and came back: no second question.
    assert!(matches!(
        consent.visit(&hello(" NEW "), SECOND),
        Visit::Decided(Decision::Ignore)
    ));

    consent.record("NEW", "Ira iPhone", Answer::Allow, 2 * SECOND);
    assert!(matches!(consent.heard("NEW"), Some(Decision::Allow)));
    // And the reconnect that follows is let in without asking again.
    assert!(matches!(
        consent.visit(&hello("NEW"), 3 * SECOND),
        Visit::Decided(Decision::Allow)
    ));
}

#[test]
fn always_allow_is_remembered_in_the_settings() {
    let mut consent = consent();
    assert!(consent.record("FOREVER", "Ira iPhone", Answer::Always, 0));
    assert!(consent.settings().is_allowed("FOREVER"));
    assert!(matches!(
        consent.visit(&hello("FOREVER"), 0),
        Visit::Decided(Decision::Allow)
    ));
    // However late it is.
    assert!(matches!(
        consent.visit(&hello("FOREVER"), 10 * ONCE_LASTS),
        Visit::Decided(Decision::Allow)
    ));
}

#[test]
fn a_declined_phone_is_refused_without_asking_again() {
    let mut consent = consent();
    assert!(!consent.record("NOPE", "Ira iPhone", Answer::Decline, 0));
    match consent.visit(&hello("NOPE"), 10 * ONCE_LASTS) {
        Visit::Decided(Decision::Refuse(reason)) => assert_eq!(reason, "declined"),
        other => panic!("expected a refusal, got {other:?}"),
    }
    match consent.heard("NOPE") {
        Some(Decision::Refuse(reason)) => assert_eq!(reason, "declined"),
        other => panic!("expected a refusal, got {other:?}"),
    }
}

#[test]
fn once_lasts_two_minutes_and_no_longer() {
    let mut consent = consent();
    assert!(!consent.record("ONCE", "Ira iPhone", Answer::Allow, SECOND));
    assert!(matches!(
        consent.visit(&hello("ONCE"), SECOND + ONCE_LASTS - 1),
        Visit::Decided(Decision::Allow)
    ));
    assert!(matches!(
        consent.visit(&hello("ONCE"), SECOND + ONCE_LASTS),
        Visit::Ask { .. }
    ));
    assert!(!consent.settings().is_allowed("ONCE"));
}

#[test]
fn one_phone_is_not_another() {
    let mut consent = consent();
    consent.record("NOPE", "Ira iPhone", Answer::Decline, 0);
    assert!(matches!(
        consent.visit(&hello("OTHER"), 0),
        Visit::Ask { .. }
    ));
    assert!(consent.heard("OTHER").is_none());
}

#[test]
fn patience_runs_out() {
    assert_eq!(PATIENCE, 300 * SECOND);
    assert_eq!(Consent::patience(SECOND, SECOND), Some(PATIENCE));
    assert_eq!(Consent::patience(5, 3), Some(PATIENCE));
    assert_eq!(Consent::patience(0, PATIENCE - 1), Some(1));
    assert_eq!(Consent::patience(0, PATIENCE), None);
}

#[test]
fn the_login_switch_and_the_phones_share_one_copy() {
    let mut consent = consent();
    consent.start_at_login(true);
    assert!(consent.settings().start_at_login);
    assert!(consent.record("FOREVER", "Ira iPhone", Answer::Always, 0));
    let settings = consent.settings();
    assert!(settings.start_at_login, "a later answer keeps the switch");
    assert!(settings.is_allowed("FOREVER"));
    consent.start_at_login(false);
    assert!(!consent.settings().start_at_login);
    assert!(consent.settings().is_allowed("FOREVER"));
}
