//! Deciding whether a phone may show its screen here.
//!
//! Nothing is shown until a person has said yes to that phone. The rule is simple, but the timing
//! is not: while the question is on screen the phone gets no answer at all, so it gives up after
//! a few seconds and reconnects. The verdict therefore belongs to the *phone*, not to the
//! connection that happened to ask: otherwise the person answers a question whose phone has
//! already walked away, and is asked all over again.
//!
//! Moments are in nanoseconds since any fixed moment.

use vstd::hash_map::StringHashMap;
use vstd::prelude::*;

use crate::config::{allowing_admits_that_phone_only, listed, with_phone, Config};
use crate::net::protocol::{called, Hello};
use crate::net::server::Decision;
use crate::text::{is_white, only_the_space_around_goes, trim, trimmed};

verus! {

/// What the person can answer.
#[derive(Debug, Clone, Copy, PartialEq, Eq, Structural)]
pub enum Answer {
    /// Just this once.
    Allow,
    /// And every time from now on.
    Always,
    /// No, and not again until the receiver restarts.
    Decline,
}

impl Answer {
    /// Whether the settings remember the answer.
    pub open spec fn is_for_good(self) -> bool {
        self == Answer::Always
    }
}

/// How long a connection waits for an answer before giving up on this attempt: 300 seconds. The
/// phone will be back; the question stays on screen.
pub const PATIENCE: u64 = 300_000_000_000;

/// A phone allowed "just this once" may reconnect inside this window without being asked again,
/// which is exactly what it does after the wait above: 120 seconds.
pub const ONCE_LASTS: u64 = 120_000_000_000;

/// Puts the question in front of a person.
pub trait Ask {
    /// The answer comes back through [`Consent::record`], not from here: the person may take a
    /// while, and may answer after the phone has retried.
    fn ask(&self, device: &str, id: &str);
}

/// What is known of a phone.
#[derive(Debug, Clone, Copy, PartialEq, Eq, Structural)]
pub enum Verdict {
    /// The question is on screen.
    Asking,
    /// Allowed at this moment, for this session and a little longer.
    Allowed(u64),
    Declined,
}

/// The verdict an answer amounts to.
pub open spec fn verdict_of(answer: Answer, now: u64) -> Verdict {
    match answer {
        Answer::Allow | Answer::Always => Verdict::Allowed(now),
        Answer::Decline => Verdict::Declined,
    }
}

/// What becomes of a phone at the door.
#[derive(Debug, Clone, Copy, PartialEq, Eq, Structural)]
pub enum Ruling {
    /// It did not say who it is.
    Nameless,
    /// It is let in.
    Admitted,
    /// The person said no.
    Declined,
    /// Someone is already looking at the question for this phone.
    BeingAsked,
    /// The person has to be asked.
    Ask,
}

/// What the door knows: the phones the person always lets in, and the verdicts of this run.
pub struct Door {
    pub phones: Seq<(Seq<char>, Seq<char>)>,
    pub verdicts: Map<Seq<char>, Verdict>,
}

impl Door {
    /// What is known of a phone in this run.
    pub open spec fn verdict(self, id: Seq<char>) -> Option<Verdict> {
        if self.verdicts.dom().contains(id) {
            Some(self.verdicts[id])
        } else {
            None
        }
    }

    /// Whether the person always lets this phone in.
    pub open spec fn knows(self, id: Seq<char>) -> bool {
        id.len() > 0 && listed(self.phones, id)
    }

    /// What becomes of a phone of this id that comes by at `now`.
    pub open spec fn ruling(self, id: Seq<char>, now: u64) -> Ruling {
        if id.len() == 0 {
            Ruling::Nameless
        } else if self.knows(id) {
            Ruling::Admitted
        } else {
            match self.verdict(id) {
                Some(Verdict::Declined) => Ruling::Declined,
                Some(Verdict::Allowed(when)) => if now - when < ONCE_LASTS {
                    Ruling::Admitted
                } else {
                    // The one-off permission has gone stale.
                    Ruling::Ask
                },
                Some(Verdict::Asking) => Ruling::BeingAsked,
                None => Ruling::Ask,
            }
        }
    }

    /// The door after a phone of this id came by at `now`: if the person has to be asked, the
    /// question is on screen.
    pub open spec fn after_visit(self, id: Seq<char>, now: u64) -> Door {
        if self.ruling(id, now) == Ruling::Ask {
            Door { verdicts: self.verdicts.insert(id, Verdict::Asking), ..self }
        } else {
            self
        }
    }

    /// The door after the person answered at `now`.
    pub open spec fn after_answer(
        self,
        id: Seq<char>,
        name: Seq<char>,
        answer: Answer,
        now: u64,
    ) -> Door {
        Door {
            phones: if answer == Answer::Always && id.len() > 0 {
                with_phone(self.phones, id, name)
            } else {
                self.phones
            },
            verdicts: self.verdicts.insert(id, verdict_of(answer, now)),
        }
    }

    /// What a connection that waits for the answer hears.
    pub open spec fn heard(self, id: Seq<char>) -> Option<bool> {
        match self.verdict(id) {
            Some(Verdict::Allowed(_)) => Some(true),
            Some(Verdict::Declined) => Some(false),
            _ => None,
        }
    }
}

/// The door every phone passes through.
pub struct Consent {
    settings: Config,
    verdicts: StringHashMap<Verdict>,
}

impl View for Consent {
    type V = Door;

    closed spec fn view(&self) -> Door {
        Door { phones: self.settings.phones(), verdicts: self.verdicts@ }
    }
}

/// What a phone is known by: its id without the space around it.
pub open spec fn known_as(hello: Hello) -> Seq<char> {
    trim(hello.id@)
}

/// How long a connection that has waited since `since` goes on waiting; `None` where it gives up.
pub open spec fn patience_left(since: u64, now: u64) -> Option<u64> {
    if now - since >= PATIENCE {
        None
    } else if now <= since {
        Some(PATIENCE)
    } else {
        Some((PATIENCE - (now - since)) as u64)
    }
}

/// Whether this is what a waiting connection does once it heard that, or has heard nothing yet.
pub open spec fn is_told(decision: Option<Decision>, heard: Option<bool>) -> bool {
    match heard {
        Some(true) => decision matches Some(decision) && decision is Allow,
        Some(false) => decision matches Some(decision) && decision.refuses("declined"@),
        None => decision is None,
    }
}

/// What to do with a phone that came by.
#[derive(Debug)]
pub enum Visit {
    /// It is decided.
    Decided(Decision),
    /// The person is to be asked about this device; the connection waits for the answer.
    Ask { device: String, id: String },
}

impl Visit {
    /// Whether this is what a ruling on a phone amounts to.
    pub open spec fn is_of(self, ruling: Ruling, hello: Hello) -> bool {
        match ruling {
            Ruling::Nameless => self matches Visit::Decided(decision) && decision.refuses(
                "the phone did not say who it is"@,
            ),
            Ruling::Admitted => self matches Visit::Decided(decision) && decision is Allow,
            Ruling::Declined => self matches Visit::Decided(decision) && decision.refuses(
                "declined"@,
            ),
            Ruling::BeingAsked => self matches Visit::Decided(decision) && decision is Ignore,
            Ruling::Ask => self matches Visit::Ask { device, id } && device@ == called(hello.name@)
                && id@ == known_as(hello),
        }
    }
}

impl Consent {
    pub closed spec fn known_settings(self) -> Config {
        self.settings
    }

    pub fn new(settings: Config) -> (consent: Self)
        ensures
            consent@.phones == settings.phones(),
            consent@.verdicts == Map::<Seq<char>, Verdict>::empty(),
            consent.known_settings() == settings,
    {
        Consent { settings, verdicts: StringHashMap::new() }
    }

    /// The person answered. `name` is what the phone calls itself, kept alongside the id so the
    /// settings file is readable. Says whether the settings have to be saved.
    pub fn record(&mut self, id: &str, name: &str, answer: Answer, now: u64) -> (save: bool)
        ensures
            final(self)@ == old(self)@.after_answer(id@, name@, answer, now),
            save == answer.is_for_good(),
            final(self).known_settings().port == old(self).known_settings().port,
            final(self).known_settings().start_at_login == old(
                self,
            ).known_settings().start_at_login,
            final(self).known_settings().preferred_interface == old(
                self,
            ).known_settings().preferred_interface,
            final(self).known_settings().phones() == final(self)@.phones,
    {
        let verdict = match answer {
            Answer::Allow | Answer::Always => Verdict::Allowed(now),
            Answer::Decline => Verdict::Declined,
        };
        self.verdicts.insert(id.to_owned(), verdict);
        if answer == Answer::Always {
            self.settings.allow(id, name);
            true
        } else {
            false
        }
    }

    /// The phones this receiver already knows, for the settings and the tray.
    pub fn settings(&self) -> (settings: Config)
        ensures
            settings.same_as(self.known_settings()),
            settings.phones() == self@.phones,
    {
        self.settings.clone()
    }

    /// The person wants the receiver to start with the computer, or no longer does. The settings
    /// have to be saved.
    pub fn start_at_login(&mut self, enabled: bool)
        ensures
            final(self)@ == old(self)@,
            final(self).known_settings() == old(self).known_settings().starting_at_login(enabled),
    {
        self.settings.start_at_login = enabled;
    }

    /// A phone came by. Where the person has to be asked, the question is taken to be on screen
    /// from here on.
    pub fn visit(&mut self, hello: &Hello, now: u64) -> (visit: Visit)
        ensures
            visit.is_of(old(self)@.ruling(known_as(*hello), now), *hello),
            final(self)@ == old(self)@.after_visit(known_as(*hello), now),
            final(self).known_settings() == old(self).known_settings(),
    {
        let id = trimmed(hello.id.as_str());
        if id.as_str().is_empty() {
            return Visit::Decided(
                Decision::Refuse("the phone did not say who it is".to_owned()),
            );
        }
        if self.settings.is_allowed(id.as_str()) {
            return Visit::Decided(Decision::Allow);
        }
        match self.verdicts.get(id.as_str()) {
            Some(Verdict::Declined) => {
                return Visit::Decided(Decision::Refuse("declined".to_owned()));
            },
            Some(Verdict::Allowed(when)) => {
                if now.saturating_sub(*when) < ONCE_LASTS {
                    return Visit::Decided(Decision::Allow);
                }
            },
            Some(Verdict::Asking) => {
                return Visit::Decided(Decision::Ignore);
            },
            None => {},
        }
        self.verdicts.insert(id.clone(), Verdict::Asking);
        Visit::Ask { device: hello.display_name(), id }
    }

    /// How long a connection that has waited since `since` goes on waiting; `None` where it
    /// gives up on this attempt and leaves the question on screen.
    pub fn patience(since: u64, now: u64) -> (left: Option<u64>)
        ensures
            left == patience_left(since, now),
    {
        let waited: u64 = now.saturating_sub(since);
        if waited >= PATIENCE {
            None
        } else {
            Some(PATIENCE - waited)
        }
    }

    /// What the person said about a phone, if they have answered.
    pub fn heard(&self, id: &str) -> (decision: Option<Decision>)
        ensures
            is_told(decision, self@.heard(id@)),
    {
        match self.verdicts.get(id) {
            Some(Verdict::Allowed(_)) => Some(Decision::Allow),
            Some(Verdict::Declined) => Some(Decision::Refuse("declined".to_owned())),
            _ => None,
        }
    }
}

/// Nothing is shown without a yes: a phone is admitted only if the person always lets it in, or
/// allowed it less than two minutes ago.
pub proof fn nobody_gets_in_without_a_yes(door: Door, id: Seq<char>, now: u64)
    requires
        door.ruling(id, now) == Ruling::Admitted,
    ensures
        door.knows(id) || (door.verdict(id) matches Some(Verdict::Allowed(when)) && now - when
            < ONCE_LASTS),
{
}

/// Something that happens at the door.
pub enum Happening {
    /// A phone of this id comes by.
    Visit { id: Seq<char>, now: u64 },
    /// The person answers about a phone.
    Answer { id: Seq<char>, name: Seq<char>, answer: Answer, now: u64 },
}

impl Door {
    /// The door after this happened.
    pub open spec fn after(self, happening: Happening) -> Door {
        match happening {
            Happening::Visit { id, now } => self.after_visit(id, now),
            Happening::Answer { id, name, answer, now } => self.after_answer(
                id,
                name,
                answer,
                now,
            ),
        }
    }

    /// The door after all this happened, one thing after the other.
    pub open spec fn after_all(self, history: Seq<Happening>) -> Door
        decreases history.len(),
    {
        if history.len() == 0 {
            self
        } else {
            self.after_all(history.drop_last()).after(history.last())
        }
    }
}

/// Whether the person ever said yes to this phone.
pub open spec fn said_yes(history: Seq<Happening>, id: Seq<char>) -> bool {
    exists|i: int|
        0 <= i < history.len() && (#[trigger] history[i] matches Happening::Answer {
            id: who,
            answer,
            ..
        } && who == id && answer != Answer::Decline)
}

/// Nothing is shown until a person has said yes to that phone: from a start without verdicts, and
/// whatever happens, a phone gets in or hears a yes only if the settings already knew it or the
/// person said yes to it.
pub proof fn only_a_person_lets_a_phone_in(
    start: Door,
    history: Seq<Happening>,
    id: Seq<char>,
    now: u64,
)
    requires
        start.verdicts == Map::<Seq<char>, Verdict>::empty(),
    ensures
        start.after_all(history).ruling(id, now) == Ruling::Admitted ==> start.knows(id)
            || said_yes(history, id),
        start.after_all(history).heard(id) == Some(true) ==> said_yes(history, id),
        start.after_all(history).knows(id) ==> start.knows(id) || said_yes(history, id),
    decreases history.len(),
{
    if history.len() > 0 {
        let before = history.drop_last();
        only_a_person_lets_a_phone_in(start, before, id, now);
        if said_yes(before, id) {
            let i = choose|i: int|
                0 <= i < before.len() && (#[trigger] before[i] matches Happening::Answer {
                    id: who,
                    answer,
                    ..
                } && who == id && answer != Answer::Decline);
            assert(history[i] == before[i]);
            assert(said_yes(history, id));
        }
        let last = history[history.len() - 1];
        if let Happening::Answer { id: who, name, answer, now: then } = last {
            allowing_admits_that_phone_only(
                start.after_all(before).phones,
                who,
                name,
                id,
            );
        }
    }
}

/// The verdict belongs to the phone: once the person has said yes, every connection that waits
/// hears it, and a reconnect within two minutes is let in without asking again.
pub proof fn a_yes_outlives_the_connection(
    door: Door,
    id: Seq<char>,
    name: Seq<char>,
    answer: Answer,
    then: u64,
    now: u64,
)
    requires
        answer != Answer::Decline,
        id.len() > 0,
        now - then < ONCE_LASTS,
    ensures
        door.after_answer(id, name, answer, then).heard(id) == Some(true),
        door.after_answer(id, name, answer, then).ruling(id, now) == Ruling::Admitted,
{
}

/// A declined phone is refused without asking again, however long it waits, unless it is one the
/// person always lets in.
pub proof fn a_no_lasts(door: Door, id: Seq<char>, name: Seq<char>, then: u64, now: u64)
    requires
        id.len() > 0,
        !door.knows(id),
    ensures
        door.after_answer(id, name, Answer::Decline, then).heard(id) == Some(false),
        door.after_answer(id, name, Answer::Decline, then).ruling(id, now) == Ruling::Declined,
{
}

/// "Always" lets the phone in at any later moment.
pub proof fn always_lasts(door: Door, id: Seq<char>, name: Seq<char>, then: u64, now: u64)
    requires
        id.len() > 0,
    ensures
        door.after_answer(id, name, Answer::Always, then).knows(id),
        door.after_answer(id, name, Answer::Always, then).ruling(id, now) == Ruling::Admitted,
{
    allowing_admits_that_phone_only(door.phones, id, name, id);
}

/// "Just this once" goes stale: two minutes later the person is asked again.
pub proof fn once_goes_stale(door: Door, id: Seq<char>, name: Seq<char>, then: u64, now: u64)
    requires
        id.len() > 0,
        !door.knows(id),
        now - then >= ONCE_LASTS,
    ensures
        door.after_answer(id, name, Answer::Allow, then).ruling(id, now) == Ruling::Ask,
{
}

/// Only one question is asked: while it is on screen, the same phone coming back is ignored, and
/// the door stays as it is.
pub proof fn only_one_question_is_asked(door: Door, id: Seq<char>, then: u64, now: u64)
    requires
        door.ruling(id, then) == Ruling::Ask,
    ensures
        door.after_visit(id, then).ruling(id, now) == Ruling::BeingAsked,
        door.after_visit(id, then).after_visit(id, now) == door.after_visit(id, then),
{
}

/// What is asked or answered about one phone changes nothing for another.
pub proof fn phones_do_not_share_verdicts(
    door: Door,
    id: Seq<char>,
    name: Seq<char>,
    answer: Answer,
    then: u64,
    other: Seq<char>,
    now: u64,
)
    requires
        other != id,
    ensures
        door.after_visit(id, then).ruling(other, now) == door.ruling(other, now),
        door.after_answer(id, name, answer, then).ruling(other, now) == door.ruling(other, now),
{
    if answer == Answer::Always {
        allowing_admits_that_phone_only(door.phones, id, name, other);
    }
}

/// How long a yes to one session lasts, and how long a connection waits for an answer: two minutes
/// and five.
pub proof fn two_minutes_and_five()
    ensures
        ONCE_LASTS == 120_000_000_000,
        PATIENCE == 300_000_000_000,
{
}

/// What becomes of a phone. One without an id is sent away. One that is always let in is let in,
/// whatever was said of it in this run; so is one that was allowed within the last two minutes. One
/// that was declined is refused; one whose question is on screen is left without a word; and about
/// every other the person is asked.
pub proof fn what_becomes_of_a_visitor(door: Door, id: Seq<char>, now: u64)
    ensures
        ({
            let always = exists|i: int| 0 <= i < door.phones.len() && (#[trigger] door.phones[i]).0
                == id;
            let seen = door.verdicts.dom().contains(id);
            let verdict = door.verdicts[id];
            let fresh = seen && verdict is Allowed && now < verdict->Allowed_0 + 120_000_000_000;
            &&& door.ruling(id, now) == Ruling::Nameless <==> id.len() == 0
            &&& id.len() > 0 ==> {
                &&& door.ruling(id, now) == Ruling::Admitted <==> always || fresh
                &&& door.ruling(id, now) == Ruling::Declined <==> !always && seen && verdict
                    == Verdict::Declined
                &&& door.ruling(id, now) == Ruling::BeingAsked <==> !always && seen && verdict
                    == Verdict::Asking
                &&& door.ruling(id, now) == Ruling::Ask <==> !always && (!seen || (verdict
                    is Allowed && !fresh))
            }
        }),
{
}

/// A question goes on screen just where the person has to be asked; a visit changes nothing else,
/// and never what is always let in.
pub proof fn visits_only_put_up_questions(door: Door, id: Seq<char>, now: u64, other: Seq<char>)
    ensures
        door.after_visit(id, now).phones == door.phones,
        door.after_visit(id, now).verdict(other) == if other == id && door.ruling(id, now)
            == Ruling::Ask {
            Some(Verdict::Asking)
        } else {
            door.verdict(other)
        },
{
}

/// Yes is a yes from that moment on, and no is a no; only "always" is remembered for good, and only
/// of a phone that said who it is.
pub proof fn answers_mean_what_they_say(
    door: Door,
    id: Seq<char>,
    name: Seq<char>,
    answer: Answer,
    now: u64,
)
    ensures
        answer == Answer::Allow || answer == Answer::Always ==> door.after_answer(
            id,
            name,
            answer,
            now,
        ).verdict(id) == Some(Verdict::Allowed(now)),
        answer == Answer::Decline ==> door.after_answer(id, name, answer, now).verdict(id) == Some(
            Verdict::Declined,
        ),
        answer.is_for_good() <==> answer == Answer::Always,
        answer != Answer::Always || id.len() == 0 ==> door.after_answer(
            id,
            name,
            answer,
            now,
        ).phones == door.phones,
        answer == Answer::Always && id.len() > 0 ==> listed(
            door.after_answer(id, name, answer, now).phones,
            id,
        ),
{
    allowing_admits_that_phone_only(door.phones, id, name, id);
}

/// A waiting connection lets the phone in on a yes, refuses it on a no, and otherwise goes on
/// waiting.
pub proof fn waiting_connections_do_as_they_hear(
    decision: Option<Decision>,
    door: Door,
    id: Seq<char>,
)
    requires
        is_told(decision, door.heard(id)),
    ensures
        door.verdict(id) matches Some(Verdict::Allowed(_)) ==> decision is Some && decision->0
            is Allow,
        door.verdict(id) == Some(Verdict::Declined) ==> decision is Some && decision->0.refuses(
            "declined"@,
        ),
        door.verdict(id) is None || door.verdict(id) == Some(Verdict::Asking) ==> decision is None,
{
}

/// A phone is known by its id whatever space stands around it.
pub proof fn space_makes_no_other_phone(
    hello: Hello,
    before: Seq<char>,
    id: Seq<char>,
    after: Seq<char>,
)
    requires
        hello.id@ == before + id + after,
        forall|i: int| 0 <= i < before.len() ==> is_white(#[trigger] before[i]),
        forall|i: int| 0 <= i < after.len() ==> is_white(#[trigger] after[i]),
        id.len() > 0 ==> !is_white(id[0]) && !is_white(id.last()),
    ensures
        known_as(hello) == id,
{
    only_the_space_around_goes(before, id, after);
}

/// What a visitor is told: one without an id that it did not say who it is, one that was declined
/// that it was, one whose question is on screen nothing; and the person is asked about a phone by
/// its name and its id.
pub proof fn visitors_are_told_how_it_stands(visit: Visit, ruling: Ruling, hello: Hello)
    requires
        visit.is_of(ruling, hello),
    ensures
        visit is Ask <==> ruling == Ruling::Ask,
        ruling == Ruling::Nameless ==> visit->Decided_0.refuses(
            "the phone did not say who it is"@,
        ),
        ruling == Ruling::Declined ==> visit->Decided_0.refuses("declined"@),
        visit is Decided ==> (visit->Decided_0 is Allow <==> ruling == Ruling::Admitted),
        visit is Decided ==> (visit->Decided_0 is Ignore <==> ruling == Ruling::BeingAsked),
        visit is Ask ==> visit->device@ == called(hello.name@) && visit->id@ == known_as(hello),
{
}

/// A connection waits for five minutes in all: what it has waited and what it still waits make five
/// minutes, and then it gives up.
pub proof fn patience_runs_out(since: u64, now: u64)
    ensures
        patience_left(since, now) is None <==> now >= since + 300_000_000_000,
        patience_left(since, now) matches Some(left) ==> left == if now >= since {
            since + 300_000_000_000 - now
        } else {
            300_000_000_000
        },
{
}

/// A no holds until the person answers about that phone again, whatever else happens.
pub proof fn a_no_holds_until_another_answer(
    door: Door,
    id: Seq<char>,
    history: Seq<Happening>,
    now: u64,
)
    requires
        id.len() > 0,
        !door.knows(id),
        door.verdict(id) == Some(Verdict::Declined),
        forall|i: int|
            0 <= i < history.len() ==> !((#[trigger] history[i]) matches Happening::Answer {
                id: who,
                ..
            } && who == id),
    ensures
        door.after_all(history).ruling(id, now) == Ruling::Declined,
        door.after_all(history).heard(id) == Some(false),
        door.after_all(history).verdict(id) == Some(Verdict::Declined),
        !door.after_all(history).knows(id),
    decreases history.len(),
{
    if history.len() > 0 {
        let before = history.drop_last();
        assert forall|i: int| 0 <= i < before.len() implies !((
        #[trigger] before[i]) matches Happening::Answer { id: who, .. } && who == id) by {
            assert(before[i] == history[i]);
        }
        a_no_holds_until_another_answer(door, id, before, now);
        let last = history[history.len() - 1];
        if let Happening::Answer { id: who, name, .. } = last {
            allowing_admits_that_phone_only(door.after_all(before).phones, who, name, id);
        }
    }
}

/// A phone that is always let in stays so, whatever happens in this run.
pub proof fn always_is_never_lost(door: Door, id: Seq<char>, history: Seq<Happening>, now: u64)
    requires
        door.knows(id),
    ensures
        door.after_all(history).knows(id),
        door.after_all(history).ruling(id, now) == Ruling::Admitted,
    decreases history.len(),
{
    if history.len() > 0 {
        let before = history.drop_last();
        always_is_never_lost(door, id, before, now);
        let last = history[history.len() - 1];
        if let Happening::Answer { id: who, name, .. } = last {
            allowing_admits_that_phone_only(door.after_all(before).phones, who, name, id);
        }
    }
}

} // verus!
