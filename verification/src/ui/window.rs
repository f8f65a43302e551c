//! The receiver's window: the phone's screen when one is streaming, and the waiting screen when
//! none is.
//!
//! The title does not change while a phone comes and goes: a capture program keyed on the window
//! title must not lose it across a reconnect. Moments are in nanoseconds since any fixed moment.

use vstd::prelude::*;

use crate::decode::nv12::Nv12Frame;
use crate::net::address::Address;
use crate::text::same_text;

verus! {

/// What the window is called before any phone has arrived.
pub const IDLE_TITLE: &'static str = "Nearscreen";

/// Two clicks closer together than this are a double click: 400 milliseconds.
pub const DOUBLE_CLICK: u64 = 400_000_000;

/// What the window needs to know about this computer.
#[derive(Debug)]
pub struct WindowConfig {
    pub name: String,
    pub addresses: Vec<Address>,
    pub port: u16,
}

/// What the rest of the program tells the window.
#[derive(Debug)]
pub enum UiEvent {
    /// A new picture is there.
    Frame,
    /// A phone is streaming; from now on the title names it.
    Streaming { device: String },
    /// How the stream is doing, for the overlay.
    Rate { summary: String },
    /// The stream ended. The title stays as it was, on purpose.
    Idle,
}

impl Clone for UiEvent {
    fn clone(&self) -> (copy: Self)
        ensures
            copy == *self,
    {
        match self {
            UiEvent::Frame => UiEvent::Frame,
            UiEvent::Streaming { device } => UiEvent::Streaming { device: device.clone() },
            UiEvent::Rate { summary } => UiEvent::Rate { summary: summary.clone() },
            UiEvent::Idle => UiEvent::Idle,
        }
    }
}

/// Whether there is a picture to show once the window was told this: a new one comes with each
/// picture it is told of, and the last one goes with the end of its stream.
pub open spec fn next_picture(has_picture: bool, event: UiEvent) -> bool {
    match event {
        UiEvent::Frame => true,
        UiEvent::Idle => false,
        _ => has_picture,
    }
}

/// A picture was decoded: puts it where the window finds it. Returns what to tell the window.
pub fn show(slot: &mut Option<Nv12Frame>, frame: Nv12Frame) -> (event: UiEvent)
    ensures
        *final(slot) == Some(frame),
        event is Frame,
        next_picture(*old(slot) is Some, event),
{
    *slot = Some(frame);
    UiEvent::Frame
}

/// The stream ended: takes its last picture away. Returns what to tell the window.
pub fn idle(slot: &mut Option<Nv12Frame>) -> (event: UiEvent)
    ensures
        *final(slot) is None,
        event is Idle,
        !next_picture(*old(slot) is Some, event),
{
    *slot = None;
    UiEvent::Idle
}

/// The title while a phone streams, and after.
pub open spec fn title_of(device: Seq<char>) -> Seq<char> {
    IDLE_TITLE@ + " — "@ + device
}

/// What the window shows around the picture.
#[derive(Debug)]
pub struct WindowState {
    pub title: String,
    /// The phone currently streaming, for the overlay.
    pub device: Option<String>,
    /// "30 fps · 2.1 Mbit/s · H.264", refreshed while streaming.
    pub rate: Option<String>,
    pub hovering: bool,
    pub last_click: Option<u64>,
    pub fullscreen: bool,
}

/// What a click does.
#[derive(Debug, Clone, Copy, PartialEq, Eq, Structural)]
pub enum Click {
    Nothing,
    /// Go full screen, or leave it.
    Fullscreen(bool),
    /// Offer the next network address.
    NextAddress,
}

/// What is drawn.
#[derive(Debug, Clone, Copy, PartialEq, Eq, Structural)]
pub enum Screen {
    /// The phone's screen, with the strip over it or without.
    Picture { overlay: bool },
    /// The waiting screen.
    Waiting,
    /// The ground alone: there is no font to write with.
    Blank,
}

impl WindowState {
    /// Whether a click at `now` is the second of two.
    pub open spec fn is_double(self, now: u64) -> bool {
        self.last_click matches Some(previous) && now - previous < DOUBLE_CLICK
    }

    /// The title after an event: only a phone that starts streaming changes it.
    pub open spec fn next_title(title: Seq<char>, event: UiEvent) -> Seq<char> {
        match event {
            UiEvent::Streaming { device } => title_of(device@),
            _ => title,
        }
    }

    /// The phone that the strip over the picture names, after an event.
    pub open spec fn next_device(device: Option<String>, event: UiEvent) -> Option<String> {
        match event {
            UiEvent::Streaming { device } => Some(device),
            _ => device,
        }
    }

    /// How the stream is doing as far as the window knows, after an event.
    pub open spec fn next_rate(rate: Option<String>, event: UiEvent) -> Option<String> {
        match event {
            UiEvent::Frame => rate,
            UiEvent::Rate { summary } => Some(summary),
            UiEvent::Streaming { .. } | UiEvent::Idle => None,
        }
    }

    /// The window after the pointer came over it, or left it.
    pub open spec fn hovered(self, over: bool) -> WindowState {
        WindowState { hovering: over, ..self }
    }

    /// Whether this is a window that nothing has happened to yet.
    pub open spec fn is_untouched(self) -> bool {
        &&& self.title@ == IDLE_TITLE@
        &&& self.device is None
        &&& self.rate is None
        &&& !self.hovering
        &&& self.last_click is None
        &&& !self.fullscreen
    }

    /// Whether this is the window after a click at `now`, and that is what the click does.
    pub open spec fn was_clicked(
        self,
        before: WindowState,
        has_picture: bool,
        has_window: bool,
        now: u64,
        click: Click,
    ) -> bool {
        &&& self.title == before.title
        &&& self.device == before.device
        &&& self.rate == before.rate
        &&& self.hovering == before.hovering
        &&& if has_picture && before.is_double(now) {
            &&& self.last_click is None
            &&& self.fullscreen == (before.fullscreen != has_window)
            &&& click == if has_window {
                Click::Fullscreen(!before.fullscreen)
            } else {
                Click::Nothing
            }
        } else {
            &&& self.last_click == Some(now)
            &&& self.fullscreen == before.fullscreen
            &&& click == if has_picture {
                Click::Nothing
            } else {
                Click::NextAddress
            }
        }
    }

    pub fn new() -> (state: Self)
        ensures
            state.is_untouched(),
    {
        Self {
            title: IDLE_TITLE.to_owned(),
            device: None,
            rate: None,
            hovering: false,
            last_click: None,
            fullscreen: false,
        }
    }

    /// Takes a title; says whether it is a new one.
    fn set_title(&mut self, title: String) -> (changed: bool)
        ensures
            changed == (old(self).title@ != title@),
            final(self).title@ == title@,
            final(self).device == old(self).device,
            final(self).rate == old(self).rate,
            final(self).hovering == old(self).hovering,
            final(self).last_click == old(self).last_click,
            final(self).fullscreen == old(self).fullscreen,
    {
        if same_text(self.title.as_str(), title.as_str()) {
            return false;
        }
        self.title = title;
        true
    }

    /// The rest of the program told us something. Says whether the window has a new title.
    pub fn user_event(&mut self, event: UiEvent) -> (retitled: bool)
        ensures
            final(self).title@ == WindowState::next_title(old(self).title@, event),
            retitled == (final(self).title@ != old(self).title@),
            final(self).device == WindowState::next_device(old(self).device, event),
            final(self).rate == WindowState::next_rate(old(self).rate, event),
            final(self).hovering == old(self).hovering,
            final(self).last_click == old(self).last_click,
            final(self).fullscreen == old(self).fullscreen,
    {
        match event {
            UiEvent::Frame => false,
            UiEvent::Streaming { device } => {
                let mut title = IDLE_TITLE.to_owned();
                title.append(" — ");
                title.append(device.as_str());
                let retitled = self.set_title(title);
                self.device = Some(device);
                self.rate = None;
                retitled
            },
            UiEvent::Rate { summary } => {
                self.rate = Some(summary);
                false
            },
            UiEvent::Idle => {
                // The title is left alone so a capture source keeps its target.
                self.rate = None;
                false
            },
        }
    }

    /// The pointer came over the window, or left it.
    pub fn hover(&mut self, over: bool)
        ensures
            *final(self) == old(self).hovered(over),
    {
        self.hovering = over;
    }

    /// A click means different things on the two screens: while waiting it offers the next
    /// network address, while streaming the second of two goes full screen. `has_picture` says
    /// whether there is a picture, and `has_window` whether there is a window that can.
    pub fn on_click(&mut self, has_picture: bool, has_window: bool, now: u64) -> (click: Click)
        ensures
            final(self).was_clicked(*old(self), has_picture, has_window, now, click),
    {
        let double = match self.last_click {
            Some(previous) => now.saturating_sub(previous) < DOUBLE_CLICK,
            None => false,
        };
        self.last_click = Some(now);
        if has_picture {
            if double {
                let click = self.toggle_fullscreen(has_window);
                self.last_click = None;
                click
            } else {
                Click::Nothing
            }
        } else {
            Click::NextAddress
        }
    }

    fn toggle_fullscreen(&mut self, has_window: bool) -> (click: Click)
        ensures
            *final(self) == (WindowState {
                fullscreen: old(self).fullscreen != has_window,
                ..*old(self)
            }),
            click == if has_window {
                Click::Fullscreen(!old(self).fullscreen)
            } else {
                Click::Nothing
            },
    {
        if !has_window {
            return Click::Nothing;
        }
        self.fullscreen = !self.fullscreen;
        Click::Fullscreen(self.fullscreen)
    }

    /// What is drawn, given whether there is a picture and a font to write with.
    pub open spec fn drawn(self, has_picture: bool, has_font: bool) -> Screen {
        if has_picture {
            Screen::Picture { overlay: self.hovering && has_font }
        } else if has_font {
            Screen::Waiting
        } else {
            Screen::Blank
        }
    }

    /// What is drawn, given whether there is a picture and a font to write with: the phone's
    /// screen while a stream shows one, and the waiting screen otherwise.
    pub fn screen(&self, has_picture: bool, has_font: bool) -> (screen: Screen)
        ensures
            screen == self.drawn(has_picture, has_font),
    {
        if has_picture {
            Screen::Picture { overlay: self.hovering && has_font }
        } else if has_font {
            Screen::Waiting
        } else {
            Screen::Blank
        }
    }

    /// Who is streaming, as the strip over the picture says it.
    pub open spec fn who(self) -> Seq<char> {
        match self.device {
            Some(device) => device@,
            None => "iPhone"@,
        }
    }

    /// Who is streaming, as the strip over the picture says it.
    pub fn overlay_name(&self) -> (name: String)
        ensures
            name@ == self.who(),
    {
        match &self.device {
            Some(device) => device.clone(),
            None => "iPhone".to_owned(),
        }
    }
}

/// The title after a run of events.
pub open spec fn title_after(title: Seq<char>, events: Seq<UiEvent>) -> Seq<char>
    decreases events.len(),
{
    if events.len() == 0 {
        title
    } else {
        WindowState::next_title(title_after(title, events.drop_last()), events.last())
    }
}

/// Whether there is a picture to show once the window was told all this.
pub open spec fn picture_after(has_picture: bool, events: Seq<UiEvent>) -> bool
    decreases events.len(),
{
    if events.len() == 0 {
        has_picture
    } else {
        next_picture(picture_after(has_picture, events.drop_last()), events.last())
    }
}

/// When a stream ends the window goes back to the waiting screen, and stays there until the next
/// picture comes, whatever else happens.
pub proof fn the_waiting_screen_comes_back(
    has_picture: bool,
    events: Seq<UiEvent>,
    ended: int,
    state: WindowState,
    has_font: bool,
)
    requires
        0 <= ended < events.len(),
        events[ended] is Idle,
        forall|i: int| ended < i < events.len() ==> !(#[trigger] events[i] is Frame),
    ensures
        !picture_after(has_picture, events),
        state.drawn(picture_after(has_picture, events), has_font) == if has_font {
            Screen::Waiting
        } else {
            Screen::Blank
        },
    decreases events.len(),
{
    let fewer = events.drop_last();
    if ended < fewer.len() {
        assert forall|i: int| ended < i < fewer.len() implies !(#[trigger] fewer[i] is Frame) by {
            assert(fewer[i] == events[i]);
        }
        assert(fewer[ended] == events[ended]);
        the_waiting_screen_comes_back(has_picture, fewer, ended, state, has_font);
        assert(!(events[events.len() - 1] is Frame));
    }
}

/// A phone that goes and comes back finds the title it left: whatever happens in between, only
/// a phone of another name changes it.
pub proof fn a_capture_keeps_its_target(title: Seq<char>, events: Seq<UiEvent>, device: Seq<char>)
    requires
        title == title_of(device),
        forall|i: int|
            0 <= i < events.len() ==> (#[trigger] events[i] matches UiEvent::Streaming {
                device: other,
            } ==> other@ == device),
    ensures
        title_after(title, events) == title,
    decreases events.len(),
{
    if events.len() > 0 {
        let fewer = events.drop_last();
        assert forall|i: int| 0 <= i < fewer.len() implies (#[trigger] fewer[i] matches
            UiEvent::Streaming { device: other } ==> other@ == device) by {
            assert(fewer[i] == events[i]);
        }
        a_capture_keeps_its_target(title, fewer, device);
        assert(events[events.len() - 1] == events.last());
    }
}

/// A window that nothing has happened to is called "Nearscreen"; one that a phone streams to is
/// called that, a dash, and the phone.
pub proof fn titles_name_the_phone(device: Seq<char>)
    ensures
        IDLE_TITLE@ == "Nearscreen"@,
        title_of(device) == "Nearscreen"@ + " — "@ + device,
        DOUBLE_CLICK == 400_000_000,
{
}

/// Two clicks are a double click where less than 400 milliseconds lie between them.
pub proof fn double_clicks_are_quick(state: WindowState, now: u64)
    ensures
        state.is_double(now) <==> state.last_click is Some && now < state.last_click->0
            + 400_000_000,
{
}

/// What a click does. While no picture is there, each offers the next address. While one is, the
/// second of two in quick succession goes full screen or leaves it, where there is a window for
/// that, and the next click is a first one again. Nothing else changes.
pub proof fn clicks_do_as_they_should(
    before: WindowState,
    after: WindowState,
    has_picture: bool,
    has_window: bool,
    now: u64,
    click: Click,
)
    requires
        after.was_clicked(before, has_picture, has_window, now, click),
    ensures
        click == Click::NextAddress <==> !has_picture,
        click is Fullscreen <==> has_picture && has_window && before.is_double(now),
        click matches Click::Fullscreen(full) ==> full == !before.fullscreen && after.fullscreen
            == full,
        !(click is Fullscreen) ==> after.fullscreen == before.fullscreen,
        after.last_click is None <==> has_picture && before.is_double(now),
        after.last_click is Some ==> after.last_click == Some(now),
        after.title == before.title && after.device == before.device && after.rate == before.rate
            && after.hovering == before.hovering,
{
}

/// A picture is shown whenever there is one, with the strip over it while the pointer is on the
/// window and there is a font; without a picture the waiting screen is, or the ground alone where
/// there is no font.
pub proof fn pictures_win(state: WindowState, has_picture: bool, has_font: bool)
    ensures
        state.drawn(has_picture, has_font) is Picture <==> has_picture,
        has_picture ==> (state.drawn(has_picture, has_font)->overlay <==> state.hovering
            && has_font),
        state.drawn(has_picture, has_font) == Screen::Waiting <==> !has_picture && has_font,
        state.drawn(has_picture, has_font) == Screen::Blank <==> !has_picture && !has_font,
{
}

/// A picture that came is there until its stream ends, whatever else the window is told.
pub proof fn pictures_stay_until_the_end(has_picture: bool, events: Seq<UiEvent>, came: int)
    requires
        0 <= came < events.len(),
        events[came] is Frame,
        forall|i: int| came < i < events.len() ==> !(#[trigger] events[i] is Idle),
    ensures
        picture_after(has_picture, events),
    decreases events.len(),
{
    let fewer = events.drop_last();
    if came < fewer.len() {
        assert forall|i: int| came < i < fewer.len() implies !(#[trigger] fewer[i] is Idle) by {
            assert(fewer[i] == events[i]);
        }
        assert(fewer[came] == events[came]);
        pictures_stay_until_the_end(has_picture, fewer, came);
        assert(!(events[events.len() - 1] is Idle));
    }
}

/// The strip over the picture names the phone that last started, and an iPhone where none has; it
/// says how the stream is doing as last told, and nothing once a stream starts or ends.
pub proof fn the_strip_tells_of_this_stream(
    state: WindowState,
    device: Option<String>,
    rate: Option<String>,
    event: UiEvent,
)
    ensures
        event matches UiEvent::Streaming { device: new } ==> WindowState::next_device(device, event)
            == Some(new) && WindowState::next_rate(rate, event) is None,
        !(event is Streaming) ==> WindowState::next_device(device, event) == device,
        event is Idle ==> WindowState::next_rate(rate, event) is None,
        event is Frame ==> WindowState::next_rate(rate, event) == rate,
        event matches UiEvent::Rate { summary } ==> WindowState::next_rate(rate, event) == Some(
            summary,
        ),
        state.device is None ==> state.who() == "iPhone"@,
        state.device is Some ==> state.who() == state.device->0@,
{
}

/// A window begins with its plain title, nobody on it, and not on the full screen; the pointer
/// changes nothing but that it is there.
pub proof fn windows_begin_plain(state: WindowState, over: bool)
    ensures
        state.is_untouched() ==> state.title@ == "Nearscreen"@ && state.device is None && state.rate
            is None && !state.hovering && state.last_click is None && !state.fullscreen,
        state.hovered(over).hovering == over,
        state.hovered(over).title == state.title,
        state.hovered(over).device == state.device,
        state.hovered(over).rate == state.rate,
        state.hovered(over).last_click == state.last_click,
        state.hovered(over).fullscreen == state.fullscreen,
{
}

} // verus!
