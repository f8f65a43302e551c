//! Starting with the computer: off unless the person asks for it.
//!
//! On Windows this is one value under the current user's `Run` key: no installer, no service,
//! nothing left behind that the person cannot see in Task Manager's startup list.

use vstd::prelude::*;

use crate::config::Config;
use crate::text::chars_of;

verus! {

/// The name the entry appears under.
pub const ENTRY: &'static str = "Nearscreen Receiver";

/// A character in UTF-16: one unit, or two surrogates.
pub open spec fn utf16_char(c: char) -> Seq<u16> {
    let code = c as u32;
    if code < 0x1_0000 {
        seq![code as u16]
    } else {
        let above = (code - 0x1_0000) as u32;
        seq![(0xD800 + above / 0x400) as u16, (0xDC00 + above % 0x400) as u16]
    }
}

/// A text in UTF-16.
pub open spec fn utf16(text: Seq<char>) -> Seq<u16>
    decreases text.len(),
{
    if text.len() == 0 {
        Seq::empty()
    } else {
        utf16(text.drop_last()) + utf16_char(text.last())
    }
}

/// A text as Windows wants it: UTF-16 with a zero at its end.
pub open spec fn terminated(text: Seq<char>) -> Seq<u16> {
    utf16(text).push(0)
}

/// A text as Windows wants it: UTF-16 with a zero at its end.
pub fn wide(value: &str) -> (units: Vec<u16>)
    ensures
        units@ == terminated(value@),
{
    let chars = chars_of(value);
    let mut units: Vec<u16> = Vec::new();
    let mut i: usize = 0;
    assert(value@.take(0) =~= Seq::empty());
    while i < chars.len()
        invariant
            chars@ == value@,
            i <= chars@.len(),
            units@ == utf16(value@.take(i as int)),
        decreases chars@.len() - i,
    {
        let c = chars[i];
        let code: u32 = c as u32;
        proof {
            vstd::utf8::char_is_scalar(c);
        }
        if code < 0x1_0000 {
            units.push(code as u16);
        } else {
            let above: u32 = code - 0x1_0000;
            units.push((0xD800 + above / 0x400) as u16);
            units.push((0xDC00 + above % 0x400) as u16);
        }
        i += 1;
        assert(value@.take(i as int).drop_last() =~= value@.take(i - 1));
        assert(value@.take(i as int).last() == c);
        assert(units@ =~= utf16(value@.take(i as int)));
    }
    assert(value@.take(i as int) =~= value@);
    units.push(0);
    units
}

/// A text without a zero in it has none in UTF-16 either, so the zero at the end is the only one.
pub proof fn only_the_end_is_zero(text: Seq<char>)
    requires
        forall|i: int| 0 <= i < text.len() ==> #[trigger] text[i] != '\0',
    ensures
        forall|i: int| 0 <= i < utf16(text).len() ==> #[trigger] utf16(text)[i] != 0,
    decreases text.len(),
{
    if text.len() > 0 {
        let fewer = text.drop_last();
        let c = text.last();
        assert forall|i: int| 0 <= i < fewer.len() implies #[trigger] fewer[i] != '\0' by {
            assert(fewer[i] == text[i]);
        }
        only_the_end_is_zero(fewer);
        assert(text[text.len() - 1] != '\0');
        vstd::utf8::char_is_scalar(c);
        assert(c as u32 != 0) by {
            vstd::utf8::char_u32_cast(c, c as u32);
        }
        let all = utf16(text);
        assert forall|i: int| 0 <= i < all.len() implies #[trigger] all[i] != 0 by {
            if i < utf16(fewer).len() {
                assert(all[i] == utf16(fewer)[i]);
            } else {
                assert(all[i] == utf16_char(c)[i - utf16(fewer).len()]);
            }
        }
    }
}

/// The command that is run at login, given where this program is.
pub open spec fn quoted(program: Seq<char>) -> Seq<char> {
    "\""@ + program + "\""@
}

/// The command that is run at login: this very program, in quotes.
pub fn command(program: &str) -> (command: String)
    ensures
        command@ == quoted(program@),
{
    let mut command = "\"".to_owned();
    command.append(program);
    command.append("\"");
    command
}

/// What the startup list says of the receiver.
#[derive(Debug, Clone, Copy, PartialEq, Eq, Structural)]
pub enum StartupList {
    /// This platform has none.
    Missing,
    /// It cannot be opened.
    Closed,
    /// The receiver is in it, or not.
    Lists(bool),
}

impl StartupList {
    /// Whether the receiver is known to be in it.
    pub open spec fn has_receiver(self) -> bool {
        self == StartupList::Lists(true)
    }
}

/// Whether the receiver starts with the computer.
pub fn is_enabled(list: StartupList) -> (enabled: bool)
    ensures
        enabled == list.has_receiver(),
{
    match list {
        StartupList::Lists(listed) => listed,
        _ => false,
    }
}

/// What came of changing the startup list.
#[derive(Debug, Clone, Copy, PartialEq, Eq, Structural)]
pub enum Attempt {
    /// This platform has no list.
    Missing,
    /// The list cannot be opened.
    Closed,
    /// It is not known where this program is.
    Lost,
    /// The system refused the change.
    Refused,
    Changed,
}

/// Why the startup list was not changed.
#[derive(Debug, Clone, Copy, PartialEq, Eq, Structural)]
pub enum StartupError {
    NotWiredUp,
    CannotOpen,
    CannotFindProgram,
    CannotChange,
}

impl StartupError {
    pub open spec fn text(self) -> Seq<char> {
        match self {
            StartupError::NotWiredUp =>
                "starting at login is not wired up on this platform yet"@,
            StartupError::CannotOpen => "cannot open the startup list"@,
            StartupError::CannotFindProgram => "cannot find this program on disk"@,
            StartupError::CannotChange => "cannot change the startup list"@,
        }
    }

    /// What to tell a person.
    pub fn describe(self) -> (text: &'static str)
        ensures
            text@ == self.text(),
    {
        match self {
            StartupError::NotWiredUp => "starting at login is not wired up on this platform yet",
            StartupError::CannotOpen => "cannot open the startup list",
            StartupError::CannotFindProgram => "cannot find this program on disk",
            StartupError::CannotChange => "cannot change the startup list",
        }
    }
}

impl Attempt {
    /// What the attempt amounts to where the receiver was to start with the computer, or not to.
    pub open spec fn outcome(self, enabled: bool) -> Result<(), StartupError> {
        match self {
            Attempt::Missing => Err(StartupError::NotWiredUp),
            Attempt::Closed => Err(StartupError::CannotOpen),
            Attempt::Lost => Err(StartupError::CannotFindProgram),
            Attempt::Refused => if enabled {
                Err(StartupError::CannotChange)
            } else {
                Ok(())
            },
            Attempt::Changed => Ok(()),
        }
    }
}

/// Whether the list says what was asked for. Removing something that was never there is not a
/// failure.
pub fn set(attempt: Attempt, enabled: bool) -> (done: Result<(), StartupError>)
    ensures
        done == attempt.outcome(enabled),
{
    match attempt {
        Attempt::Missing => Err(StartupError::NotWiredUp),
        Attempt::Closed => Err(StartupError::CannotOpen),
        Attempt::Lost => Err(StartupError::CannotFindProgram),
        Attempt::Refused => if enabled {
            Err(StartupError::CannotChange)
        } else {
            Ok(())
        },
        Attempt::Changed => Ok(()),
    }
}

/// Whether the receiver has to be put into the startup list.
pub open spec fn is_owed(start_at_login: bool, list: StartupList) -> bool {
    start_at_login && !list.has_receiver()
}

/// Whether the receiver has to be put into the startup list: a settings file that says "start at
/// login" should mean it, even if it was copied here from another computer.
pub fn must_register(config: &Config, list: StartupList) -> (must: bool)
    ensures
        must == is_owed(config.start_at_login, list),
{
    config.start_at_login && !is_enabled(list)
}

/// A character is one unit of its own number, or a high and a low surrogate that make it up
/// together.
pub proof fn surrogates_make_up_the_character(c: char)
    ensures
        c as u32 <= 0xFFFF ==> utf16_char(c).len() == 1 && utf16_char(c)[0] == c as u32,
        c as u32 > 0xFFFF ==> {
            &&& utf16_char(c).len() == 2
            &&& 0xD800 <= utf16_char(c)[0] <= 0xDBFF
            &&& 0xDC00 <= utf16_char(c)[1] <= 0xDFFF
            &&& 0x1_0000 + (utf16_char(c)[0] - 0xD800) * 0x400 + (utf16_char(c)[1] - 0xDC00)
                == c as u32
        },
{
    vstd::utf8::char_is_scalar(c);
}

/// A text is its characters one after the other, and then a zero.
pub proof fn utf16_goes_by_character(a: Seq<char>, b: Seq<char>, c: char)
    ensures
        utf16(a + b) == utf16(a) + utf16(b),
        utf16(seq![c]) == utf16_char(c),
        terminated(a) == utf16(a) + seq![0u16],
    decreases b.len(),
{
    assert(seq![c].drop_last() =~= Seq::<char>::empty());
    assert(utf16(seq![c].drop_last()) =~= Seq::<u16>::empty());
    assert(utf16(seq![c]) =~= utf16_char(c));
    if b.len() == 0 {
        assert(a + b =~= a);
        assert(utf16(a) + utf16(b) =~= utf16(a));
    } else {
        utf16_goes_by_character(a, b.drop_last(), c);
        assert((a + b).drop_last() =~= a + b.drop_last());
        assert(utf16(a + b) =~= utf16(a) + utf16(b));
    }
}

/// The command is the program between quotation marks.
pub proof fn programs_are_quoted(program: Seq<char>)
    ensures
        quoted(program) == seq!['"'] + program + seq!['"'],
        ENTRY@ == "Nearscreen Receiver"@,
{
    reveal_strlit("\"");
    assert("\""@ =~= seq!['"']);
}

/// The receiver is put into the list just where the settings want it there and it is not known to
/// be.
pub proof fn entries_are_owed(start_at_login: bool, list: StartupList, listed: bool)
    ensures
        StartupList::Lists(listed).has_receiver() == listed,
        !StartupList::Missing.has_receiver(),
        !StartupList::Closed.has_receiver(),
        is_owed(start_at_login, list) <==> start_at_login && !list.has_receiver(),
{
}

/// A change that was made is a success, and so is a removal that the system refused; everything
/// else fails, each for its own reason.
pub proof fn attempts_fail_for_a_reason(attempt: Attempt, enabled: bool)
    ensures
        attempt.outcome(enabled) is Ok <==> attempt == Attempt::Changed || (attempt
            == Attempt::Refused && !enabled),
        attempt == Attempt::Missing ==> attempt.outcome(enabled) == Err::<(), _>(
            StartupError::NotWiredUp,
        ),
        attempt == Attempt::Closed ==> attempt.outcome(enabled) == Err::<(), _>(
            StartupError::CannotOpen,
        ),
        attempt == Attempt::Lost ==> attempt.outcome(enabled) == Err::<(), _>(
            StartupError::CannotFindProgram,
        ),
        attempt == Attempt::Refused && enabled ==> attempt.outcome(enabled) == Err::<(), _>(
            StartupError::CannotChange,
        ),
{
}

/// What a person is told of each failure.
pub proof fn failures_are_told_plainly()
    ensures
        StartupError::NotWiredUp.text()
            == "starting at login is not wired up on this platform yet"@,
        StartupError::CannotOpen.text() == "cannot open the startup list"@,
        StartupError::CannotFindProgram.text() == "cannot find this program on disk"@,
        StartupError::CannotChange.text() == "cannot change the startup list"@,
{
}

} // verus!
