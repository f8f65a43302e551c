use nearscreen_receiver::consent::Answer;
use nearscreen_receiver::decode::Nv12Frame;
use nearscreen_receiver::net::Address;
use nearscreen_receiver::ui::paint::Canvas;
use nearscreen_receiver::ui::question::Question;
use nearscreen_receiver::ui::text::{words, wrap};
use nearscreen_receiver::ui::tray::Choice;
use nearscreen_receiver::ui::waiting::{Code, Waiting, NO_ADDRESS};
use nearscreen_receiver::ui::window::{
    idle, show, Click, Screen, UiEvent, WindowState, DOUBLE_CLICK,
};

fn waiting() -> Waiting {
    Waiting::new(
        "IRA-PC".to_string(),
        vec![
            Address::V4([192, 168, 1, 42]),
            Address::V4([10, 0, 0, 5]),
        ],
        9913,
    )
}

#[test]
fn the_qr_code_carries_a_link_the_app_understands() {
    let waiting = waiting();
    assert_eq!(
        waiting.url().unwrap(),
        "nearscreen://broadcast?host=192.168.1.42&port=9913"
    );
}

#[test]
fn a_computer_on_several_networks_can_offer_each_one() {
    let mut waiting = waiting();
    assert_eq!(waiting.address().unwrap().text(), "192.168.1.42");
    waiting.next_address();
    assert_eq!(waiting.address().unwrap().text(), "10.0.0.5");
    waiting.next_address();
    assert_eq!(waiting.address().unwrap().text(), "192.168.1.42");
}

#[test]
fn a_computer_with_no_address_offers_none() {
    let mut waiting = Waiting::new("IRA-PC".to_string(), Vec::new(), 9913);
    assert!(waiting.url().is_none());
    waiting.next_address();
    waiting.ensure_code();
    assert!(waiting.code().is_none());
    assert_eq!(waiting.address_line(), NO_ADDRESS);
    assert_eq!(waiting.name(), "IRA-PC");
}

#[test]
fn the_code_is_that_of_the_current_link() {
    let mut waiting = waiting();
    assert!(waiting.code().is_none());
    waiting.ensure_code();
    let first: Vec<bool> = {
        let code = waiting.code().unwrap();
        assert_eq!(code.url, waiting.url().unwrap());
        assert_eq!(code.dark.len(), code.size * code.size);
        // Three corners of every QR code look alike.
        for (row, column) in [(0, 0), (0, code.size - 7), (code.size - 7, 0)] {
            for i in 0..7 {
                assert!(code.is_dark(row, column + i));
                assert!(code.is_dark(row + 6, column + i));
            }
            assert!(!code.is_dark(row + 1, column + 1));
            assert!(code.is_dark(row + 3, column + 3));
        }
        let real = qrcode::QrCode::new(code.url.as_bytes()).unwrap();
        assert_eq!(real.width(), code.size);
        code.dark.clone()
    };
    waiting.ensure_code();
    assert_eq!(waiting.code().unwrap().dark, first);
    waiting.next_address();
    assert!(waiting.code().is_none());
    waiting.ensure_code();
    assert_ne!(waiting.code().unwrap().dark, first);
    assert_eq!(waiting.address_line(), "10.0.0.5 : 9913");
}

#[test]
fn a_link_no_code_can_hold_has_none() {
    assert!(Code::of("x".to_string(), None).is_none());
    let code = Code::of("x".to_string(), Some((1, vec![true]))).unwrap();
    assert!(code.is_dark(0, 0));
}

fn question() -> Question {
    Question::new(
        "iPhone “Ira”".to_string(),
        "VENDOR-ID-A1B2C3D4".to_string(),
    )
}

#[test]
fn the_identifier_is_shortened_the_way_the_phone_shows_it() {
    assert_eq!(question().short_id(), "A1B2C3D4");
}

#[test]
fn the_question_says_who_asks() {
    let question = question();
    assert_eq!(question.headline(), "iPhone “Ira” wants to show its screen");
    assert_eq!(
        question.sub_line(),
        "Device ID …A1B2C3D4 · this network only"
    );
    let labels: Vec<(&str, Answer, bool)> = Question::buttons()
        .iter()
        .map(|button| (button.label, button.answer, button.primary))
        .collect();
    assert_eq!(
        labels,
        vec![
            ("Allow", Answer::Allow, true),
            ("Always allow", Answer::Always, false),
            ("Decline", Answer::Decline, false),
        ]
    );
    let (id, device, answer) = question.send(Answer::Always);
    assert_eq!(id, "VENDOR-ID-A1B2C3D4");
    assert_eq!(device, "iPhone “Ira”");
    assert_eq!(answer, Answer::Always);
}

#[test]
fn the_menu_says_what_the_window_is_doing() {
    assert_eq!(Choice::ShowHide.label(true), "Hide window");
    assert_eq!(Choice::ShowHide.label(false), "Show window");
    assert_eq!(Choice::Borderless.label(true), "Borderless");
    assert_eq!(Choice::StartAtLogin.label(true), "Start at login");
    assert_eq!(Choice::Quit.label(false), "Quit");
}

fn streaming() -> UiEvent {
    UiEvent::Streaming {
        device: "iPhone (A1B2C3D4)".to_string(),
    }
}

#[test]
fn the_title_stays_while_a_phone_comes_and_goes() {
    let mut state = WindowState::new();
    assert_eq!(state.title, "Nearscreen");
    assert_eq!(state.overlay_name(), "iPhone");
    assert!(state.user_event(streaming()));
    let title = "Nearscreen — iPhone (A1B2C3D4)";
    assert_eq!(state.title, title);
    assert_eq!(state.overlay_name(), "iPhone (A1B2C3D4)");
    let rate = UiEvent::Rate {
        summary: "30 fps · 2.1 Mbit/s · H.264".to_string(),
    };
    for event in [UiEvent::Frame, rate, UiEvent::Idle, streaming()] {
        assert!(!state.user_event(event));
        assert_eq!(state.title, title);
    }
    let other = UiEvent::Streaming {
        device: "another".to_string(),
    };
    assert!(state.user_event(other));
    assert_eq!(state.title, "Nearscreen — another");
}

#[test]
fn the_rate_is_that_of_the_stream() {
    let mut state = WindowState::new();
    let rate = || UiEvent::Rate {
        summary: "30 fps".to_string(),
    };
    state.user_event(rate());
    assert_eq!(state.rate.as_deref(), Some("30 fps"));
    state.user_event(UiEvent::Frame);
    assert_eq!(state.rate.as_deref(), Some("30 fps"));
    state.user_event(streaming());
    assert!(state.rate.is_none());
    state.user_event(rate());
    state.user_event(UiEvent::Idle);
    assert!(state.rate.is_none());
    assert_eq!(state.device.as_deref(), Some("iPhone (A1B2C3D4)"));
}

#[test]
fn clicks_mean_different_things() {
    let mut state = WindowState::new();
    assert_eq!(state.on_click(false, true, 0), Click::NextAddress);
    assert_eq!(state.on_click(false, true, 1), Click::NextAddress);
    // The click on the waiting screen counts as the first of two.
    assert_eq!(
        state.on_click(true, true, DOUBLE_CLICK),
        Click::Fullscreen(true)
    );
    assert!(state.fullscreen);
    let later = 10 * DOUBLE_CLICK;
    assert_eq!(state.on_click(true, true, later), Click::Nothing);
    assert_eq!(
        state.on_click(true, true, later + DOUBLE_CLICK),
        Click::Nothing,
        "too late for a double click"
    );
    assert_eq!(
        state.on_click(true, false, later + DOUBLE_CLICK + 1),
        Click::Nothing,
        "there is no window to fill the screen"
    );
    assert!(state.fullscreen);
    assert!(state.last_click.is_none());
}

#[test]
fn what_is_drawn_depends_on_what_is_there() {
    let mut state = WindowState::new();
    assert_eq!(state.screen(false, true), Screen::Waiting);
    assert_eq!(state.screen(false, false), Screen::Blank);
    assert_eq!(
        state.screen(true, true),
        Screen::Picture { overlay: false }
    );
    state.hover(true);
    assert_eq!(state.screen(true, true), Screen::Picture { overlay: true });
    assert_eq!(
        state.screen(true, false),
        Screen::Picture { overlay: false }
    );
    state.hover(false);
    assert!(!state.hovering);
}

#[test]
fn the_window_goes_back_to_waiting_when_the_stream_ends() {
    let picture = || Nv12Frame {
        width: 2,
        height: 2,
        stride: 2,
        data: vec![0; 6],
        pts_us: 0,
    };
    let mut slot = None;
    let mut state = WindowState::new();
    state.user_event(streaming());
    assert_eq!(state.screen(slot.is_some(), true), Screen::Waiting);
    let event = show(&mut slot, picture());
    assert!(slot.is_some());
    state.user_event(event.clone());
    assert!(matches!(state.screen(slot.is_some(), true), Screen::Picture { .. }));

    let title = state.title.clone();
    let event = idle(&mut slot);
    assert!(slot.is_none(), "the last picture goes with its stream");
    assert!(!state.user_event(event));
    assert_eq!(state.title, title);
    assert_eq!(state.screen(slot.is_some(), true), Screen::Waiting);
    assert_eq!(state.screen(slot.is_some(), false), Screen::Blank);
    assert_eq!(
        state.on_click(slot.is_some(), true, 0),
        Click::NextAddress
    );
    state.user_event(streaming());
    assert_eq!(state.screen(slot.is_some(), true), Screen::Waiting);
    let event = show(&mut slot, picture());
    state.user_event(event);
    assert!(matches!(state.screen(slot.is_some(), true), Screen::Picture { .. }));
}

#[test]
fn wrapping_keeps_words_whole_and_within_the_width() {
    let measure = |line: &str| line.chars().count() * 8;
    let sentence = "Open Nearscreen on your iPhone and this computer will appear in the list";
    let lines = wrap(sentence, |line: &str| measure(line) <= 160);
    assert!(lines.len() > 1, "a long sentence should wrap");
    for line in &lines {
        assert!(
            measure(line) <= 160 || !line.contains(' '),
            "line too wide: {line:?}"
        );
    }
    assert_eq!(lines.join(" "), sentence, "no word may be lost or repeated");
}

#[test]
fn lines_break_no_earlier_than_they_must() {
    let lines = wrap(" a bb\tccc  dddddddd e ", |line: &str| line.len() <= 6);
    assert_eq!(lines, vec!["a bb", "ccc", "dddddddd", "e"]);
    assert!(wrap(" \n", |_: &str| true).is_empty());
    assert_eq!(wrap("one  line", |_: &str| true), vec!["one line"]);
    assert_eq!(wrap("no line", |_: &str| false), vec!["no", "line"]);
}

#[test]
fn words_are_what_stands_between_white_space() {
    for s in ["", "  ", "a", " a b ", "a\u{a0}b\u{2003}\nc", "Иры 1"] {
        let expected: Vec<&str> = s.split_whitespace().collect();
        assert_eq!(words(s), expected);
    }
}

#[test]
fn a_canvas_knows_its_pixels() {
    let mut pixels = vec![0u32; 6];
    let mut canvas = Canvas::new(&mut pixels, 3, 2);
    assert_eq!((canvas.columns(), canvas.rows()), (3, 2));
    canvas.clear(0x060D10);
    assert_eq!(canvas.spot(0, 0), Some(0));
    assert_eq!(canvas.spot(2, 1), Some(5));
    assert_eq!(canvas.spot(3, 0), None);
    assert_eq!(canvas.spot(0, 2), None);
    assert_eq!(canvas.spot(-1, 0), None);
    assert_eq!(canvas.spot(0, -1), None);
    canvas.put(4, 7);
    assert_eq!(canvas.pixel(4), 7);
    assert_eq!(
        pixels,
        vec![0x060D10, 0x060D10, 0x060D10, 0x060D10, 7, 0x060D10]
    );
}

#[test]
fn a_canvas_larger_than_its_pixels_ends_with_them() {
    let mut pixels = vec![0u32; 4];
    let canvas = Canvas::new(&mut pixels, 3, 2);
    assert_eq!(canvas.spot(0, 1), Some(3));
    assert_eq!(canvas.spot(1, 1), None);
    let mut none: Vec<u32> = Vec::new();
    let canvas = Canvas::new(&mut none, u32::MAX, 1);
    assert_eq!(canvas.columns(), -1);
    assert_eq!(canvas.spot(0, 0), None);
}
