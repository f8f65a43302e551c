use nearscreen_receiver::text::{
    chars_of, contains, decimal, is_whitespace, lowered, same_text, text_between, trimmed,
    trimmed_end, uppered,
};

#[test]
fn white_space_is_what_it_is_elsewhere() {
    for c in '\0'..=char::MAX {
        assert_eq!(is_whitespace(c), c.is_whitespace(), "{c:?}");
    }
}

#[test]
fn text_is_trimmed() {
    for s in ["", " ", " a", "a\t\n", "\u{2003}a b\u{a0}", "\u{200b}a\u{200b}"] {
        assert_eq!(trimmed(s), s.trim());
        assert_eq!(trimmed_end(s), s.trim_end());
        assert_eq!(trimmed(&trimmed(s)), s.trim());
    }
}

#[test]
fn only_ascii_letters_change_their_case() {
    let s = "aZ09-éÉßИ";
    assert_eq!(lowered(s), s.to_ascii_lowercase());
    assert_eq!(uppered(s), s.to_ascii_uppercase());
}

#[test]
fn numbers_are_written_in_decimal() {
    for n in [0, 9, 10, 99, 100, 9913, u64::MAX] {
        assert_eq!(decimal(n), n.to_string());
    }
}

#[test]
fn parts_are_found() {
    for (s, part) in [
        ("vethernet (wsl)", "wsl"),
        ("wsl", "wsl"),
        ("ws", "wsl"),
        ("", ""),
        ("abc", ""),
        ("aab", "ab"),
        ("aaab", "aab"),
        ("ethernet", "tun"),
    ] {
        assert_eq!(contains(s, part), s.contains(part), "{part:?} in {s:?}");
    }
}

#[test]
fn texts_are_compared_and_cut_by_characters() {
    assert!(same_text("Иры", "Иры"));
    assert!(!same_text("Иры", "Ира"));
    let chars = chars_of("MacBook Иры");
    assert_eq!(chars.len(), 11);
    assert_eq!(text_between(&chars, 8, 11), "Иры");
    assert_eq!(text_between(&chars, 3, 3), "");
}
