//! One connection from its first byte to its last: what to read, what to decide, what to tell.
//!
//! The program around this reads exactly as many bytes as it is told to, and hands them over.

use vstd::prelude::*;

use super::protocol::{header_takes_sixteen_bytes, Header, Hello, CLIENT_MAGIC, HEADER_SIZE};
use super::server::{Decision, Peer, ServerEvent, ServerOptions};
use super::session::{
    a_framed_hello_is_found, a_long_record_is_refused_at_once, a_sent_record_is_found, arrival,
    describe, describe_too_long, enter, framed, hello_step, lets_in, only_a_hello_is_a_hello,
    read_hello, read_record, record_step, refusal, taken_after, too_long, Arrival, BusySlot, Entry,
    Failure, HelloStep, RecordStep, SHUTTING_DOWN,
};
use crate::bytes::be_bytes;

verus! {

/// How far a connection has come.
#[derive(Debug, Clone, Copy, PartialEq, Eq, Structural)]
pub enum Phase {
    /// The HELLO is coming in.
    Greeting,
    /// The HELLO is there and somebody has to decide.
    Admitting,
    /// The phone is let in and has to be told so.
    Replying,
    /// The phone was told, and the rest of the program has to be.
    Announcing,
    /// Records are coming in.
    Streaming,
    Over,
}

/// A connection: how far it has come, and what has come in of the message it is at.
#[derive(Debug)]
pub struct Connection {
    pub phase: Phase,
    pub bytes: Vec<u8>,
    /// Whether this is the connection whose phone streams.
    pub holds_slot: bool,
}

/// What to do next.
#[derive(Debug)]
pub enum Step {
    /// Read this many bytes.
    Read(usize),
    /// Make sense of the HELLO; this is its JSON.
    Hello(Vec<u8>),
    /// A record came in.
    Record(Arrival),
    /// Hang up: this is no usable handshake.
    HangUp,
    /// The session is over, and this is what to tell about it.
    End(ServerEvent),
}

/// Where a connection stands.
pub struct Line {
    pub phase: Phase,
    /// What has come in of the message it is at.
    pub bytes: Seq<u8>,
    pub holds_slot: bool,
}

/// Something that happens to a connection.
pub enum Turn {
    /// The bytes that were asked for came in.
    Came(Seq<u8>),
    /// The HELLO could not be made sense of.
    Garbled,
    /// It was decided what becomes of the phone, while the slot was taken or not.
    Decided { decision: Decision, taken: bool },
    /// The phone was told that it is let in, or could not be.
    Replied(bool),
    /// The rest of the program was told that a session starts, or nobody listens any more.
    Announced(bool),
    /// A record was passed on, or nobody listens any more.
    PassedOn(bool),
    /// The connection failed while bytes were waited for.
    Failed(Failure),
}

/// What the rest of the program gets to know of a connection.
pub enum News {
    /// The phone was turned away for this reason.
    Refused(Seq<char>),
    /// A session starts.
    Started,
    /// A record came in: its header and its payload.
    Arrived(Header, Seq<u8>),
    /// The session is over for this reason.
    Ended(Seq<char>),
}

impl Line {
    /// A connection nothing has come in on yet.
    pub open spec fn fresh() -> Line {
        Line { phase: Phase::Greeting, bytes: Seq::empty(), holds_slot: false }
    }

    /// How many bytes have to come before anything can be said.
    pub open spec fn wants(self) -> Option<usize> {
        match self.phase {
            Phase::Greeting => match hello_step(self.bytes) {
                HelloStep::Need(more) => Some(more),
                _ => None,
            },
            Phase::Streaming => match record_step(self.bytes) {
                RecordStep::Need(more) => Some(more),
                _ => None,
            },
            _ => None,
        }
    }

    /// Whether the connection is as it should be: where it waits for bytes, the message it is at
    /// is not all there yet; it has the slot while it streams, and not before it was let in.
    pub open spec fn sound(self) -> bool {
        match self.phase {
            Phase::Greeting => self.wants() is Some && !self.holds_slot,
            Phase::Admitting => !self.holds_slot,
            Phase::Replying | Phase::Announcing => self.holds_slot,
            Phase::Streaming => self.wants() is Some && self.holds_slot,
            Phase::Over => true,
        }
    }

    /// The connection at this phase, with nothing come in yet.
    pub open spec fn at(self, phase: Phase) -> Line {
        Line { phase, bytes: Seq::empty(), holds_slot: self.holds_slot }
    }

    /// Whether this can happen to the connection where it stands.
    pub open spec fn can_take(self, turn: Turn) -> bool {
        match turn {
            Turn::Came(more) => self.wants() matches Some(wanted) && wanted == more.len(),
            Turn::Garbled | Turn::Decided { .. } => self.phase == Phase::Admitting,
            Turn::Replied(_) => self.phase == Phase::Replying,
            Turn::Announced(_) => self.phase == Phase::Announcing,
            Turn::PassedOn(_) => self.phase == Phase::Streaming && self.bytes.len() == 0,
            Turn::Failed(_) => self.wants() is Some,
        }
    }

    /// The connection after this happened.
    pub open spec fn after(self, turn: Turn) -> Line {
        match turn {
            Turn::Came(more) => {
                let all = self.bytes + more;
                match self.phase {
                    Phase::Greeting => match hello_step(all) {
                        HelloStep::Need(_) => Line { bytes: all, ..self },
                        HelloStep::Body(_) => self.at(Phase::Admitting),
                        _ => self.at(Phase::Over),
                    },
                    _ => match record_step(all) {
                        RecordStep::Need(_) => Line { bytes: all, ..self },
                        RecordStep::Whole(_) => self.at(Phase::Streaming),
                        RecordStep::TooLong(_) => self.at(Phase::Over),
                    },
                }
            },
            Turn::Decided { decision, taken } if lets_in(taken, decision) => Line {
                holds_slot: true,
                ..self.at(Phase::Replying)
            },
            Turn::Replied(true) => self.at(Phase::Announcing),
            Turn::Announced(true) => self.at(Phase::Streaming),
            Turn::PassedOn(true) => self,
            _ => self.at(Phase::Over),
        }
    }

    /// What the rest of the program gets to know when this happens.
    pub open spec fn news(self, turn: Turn) -> Option<News> {
        match turn {
            Turn::Came(more) if self.phase == Phase::Streaming => {
                let all = self.bytes + more;
                match record_step(all) {
                    RecordStep::Need(_) => None,
                    RecordStep::Whole(header) => Some(
                        News::Arrived(header, all.skip(HEADER_SIZE as int)),
                    ),
                    RecordStep::TooLong(header) => Some(News::Ended(too_long(header))),
                }
            },
            Turn::Decided { decision, taken } => match refusal(taken, decision) {
                Some(why) => Some(News::Refused(why)),
                None => None,
            },
            Turn::Replied(true) => Some(News::Started),
            Turn::PassedOn(false) => Some(News::Ended(SHUTTING_DOWN@)),
            Turn::Failed(failure) if self.phase == Phase::Streaming => Some(
                News::Ended(failure.meaning()),
            ),
            _ => None,
        }
    }
}

impl Step {
    /// Whether this is what to do next once the bytes that were asked for came in from `peer`.
    pub open spec fn follows(self, line: Line, came: Seq<u8>, peer: Peer) -> bool {
        let all = line.bytes + came;
        match line.phase {
            Phase::Greeting => match hello_step(all) {
                HelloStep::Need(more) => self == Step::Read(more) && more > 0,
                HelloStep::Body(end) => {
                    &&& self matches Step::Hello(body) && body@ == all.subrange(8, end as int)
                    &&& end == all.len()
                },
                _ => self is HangUp,
            },
            _ => match record_step(all) {
                RecordStep::Need(more) => self == Step::Read(more) && more > 0,
                RecordStep::Whole(header) => {
                    &&& self matches Step::Record(arrived) && arrived.is_of(
                        peer,
                        header,
                        all.skip(HEADER_SIZE as int),
                    )
                    &&& all.len() == HEADER_SIZE + header.payload_len
                },
                RecordStep::TooLong(header) => self matches Step::End(told) && told.ends(
                    peer,
                    too_long(header),
                ),
            },
        }
    }
}

/// Whether an event starts the session of the phone at `peer`, which said `hello`, just where the
/// news is that it started.
pub open spec fn tells_the_start(
    told: Option<ServerEvent>,
    news: Option<News>,
    peer: Peer,
    hello: Hello,
) -> bool {
    match news {
        Some(News::Started) => told == Some(ServerEvent::SessionStarted { peer, hello }),
        _ => told is None,
    }
}

/// Whether the slot is taken once a connection is done with: whoever held it gives it back, and
/// nobody else does.
pub open spec fn taken_once_left(taken: bool, held: bool) -> bool {
    taken && !held
}

/// Whether an event ends the session of the phone at `peer` just where the news is that it ended.
pub open spec fn tells_the_end(told: Option<ServerEvent>, news: Option<News>, peer: Peer) -> bool {
    match news {
        Some(News::Ended(why)) => told matches Some(event) && event.ends(peer, why),
        _ => told is None,
    }
}

impl View for Connection {
    type V = Line;

    open spec fn view(&self) -> Line {
        Line { phase: self.phase, bytes: self.bytes@, holds_slot: self.holds_slot }
    }
}

impl Connection {
    /// A connection nothing has come in on yet, and how many bytes to read first.
    pub fn open() -> (opened: (Connection, usize))
        ensures
            opened.0@ == Line::fresh(),
            opened.0@.sound(),
            opened.1 == 4,
            opened.0@.wants() == Some(opened.1),
    {
        let connection = Connection {
            phase: Phase::Greeting,
            bytes: Vec::new(),
            holds_slot: false,
        };
        assert(connection@.bytes =~= Seq::empty());
        (connection, 4)
    }

    /// Goes on to a phase, with nothing come in yet.
    fn go_on(&mut self, phase: Phase)
        ensures
            final(self)@ == old(self)@.at(phase),
    {
        self.phase = phase;
        self.bytes = Vec::new();
        assert(self.bytes@ =~= Seq::empty());
    }

    /// The bytes that were asked for came in from `peer`.
    pub fn received(&mut self, came: Vec<u8>, peer: &Peer) -> (step: Step)
        requires
            old(self)@.sound(),
            old(self)@.wants() == Some(came.len()),
        ensures
            final(self)@ == old(self)@.after(Turn::Came(came@)),
            final(self)@.sound(),
            step.follows(old(self)@, came@, *peer),
    {
        let ghost before = self.bytes@;
        let ghost all = before + came@;
        let mut came = came;
        let ghost more_came = came@;
        self.bytes.append(&mut came);
        assert(self.bytes@ =~= all);
        match self.phase {
            Phase::Greeting => match read_hello(self.bytes.as_slice()) {
                HelloStep::Need(more) => Step::Read(more),
                HelloStep::Body(end) => {
                    proof {
                        hello_is_not_overread(before, more_came, end as int);
                    }
                    let body = vstd::slice::slice_to_vec(
                        &self.bytes.as_slice()[8..self.bytes.len()],
                    );
                    self.go_on(Phase::Admitting);
                    Step::Hello(body)
                },
                _ => {
                    self.go_on(Phase::Over);
                    Step::HangUp
                },
            },
            _ => match read_record(self.bytes.as_slice()) {
                RecordStep::Need(more) => Step::Read(more),
                RecordStep::TooLong(header) => {
                    self.go_on(Phase::Over);
                    let reason = describe_too_long(&header);
                    Step::End(ServerEvent::SessionEnded { peer: *peer, reason })
                },
                RecordStep::Whole(header) => {
                    proof {
                        record_is_not_overread(before, more_came, header);
                    }
                    let payload = vstd::slice::slice_to_vec(
                        &self.bytes.as_slice()[HEADER_SIZE..self.bytes.len()],
                    );
                    assert(payload@ =~= all.skip(HEADER_SIZE as int));
                    self.go_on(Phase::Streaming);
                    Step::Record(arrival(peer, &header, payload))
                },
            },
        }
    }

    /// The HELLO could not be made sense of.
    pub fn garbled(&mut self)
        requires
            old(self).phase == Phase::Admitting,
        ensures
            final(self)@ == old(self)@.after(Turn::Garbled),
            final(self)@.sound(),
    {
        self.go_on(Phase::Over);
    }

    /// It was decided what becomes of the phone at `peer`.
    pub fn decided(
        &mut self,
        decision: Decision,
        slot: &mut BusySlot,
        options: &ServerOptions,
        peer: &Peer,
    ) -> (entry: Entry)
        requires
            old(self).phase == Phase::Admitting,
            old(self)@.sound(),
        ensures
            final(self)@ == old(self)@.after(Turn::Decided { decision, taken: old(slot).taken }),
            final(self)@.sound(),
            final(self).holds_slot == lets_in(old(slot).taken, decision),
            final(slot).taken == taken_after(old(slot).taken, decision),
            entry.is_of(old(slot).taken, decision, *options, *peer),
    {
        let entry = enter(decision, slot, options, peer);
        match &entry {
            Entry::Stream(_) => {
                self.go_on(Phase::Replying);
                self.holds_slot = true;
            },
            _ => {
                self.go_on(Phase::Over);
            },
        }
        entry
    }

    /// The phone at `peer` was told that it is let in, or could not be told. Where it was, this is
    /// what to tell the rest of the program: a session starts, and `hello` is what the phone said.
    pub fn replied(&mut self, written: bool, peer: &Peer, hello: Hello) -> (told: Option<
        ServerEvent,
    >)
        requires
            old(self).phase == Phase::Replying,
            old(self)@.sound(),
        ensures
            final(self)@ == old(self)@.after(Turn::Replied(written)),
            final(self)@.sound(),
            told == if written {
                Some(ServerEvent::SessionStarted { peer: *peer, hello })
            } else {
                None::<ServerEvent>
            },
            tells_the_start(told, old(self)@.news(Turn::Replied(written)), *peer, hello),
    {
        if written {
            self.go_on(Phase::Announcing);
            Some(ServerEvent::SessionStarted { peer: *peer, hello })
        } else {
            self.go_on(Phase::Over);
            None
        }
    }

    /// The rest of the program was told that a session starts, or nobody listens any more. Where
    /// it was told, the records start: this many bytes are to be read first.
    pub fn announced(&mut self, listening: bool) -> (first: Option<usize>)
        requires
            old(self).phase == Phase::Announcing,
            old(self)@.sound(),
        ensures
            final(self)@ == old(self)@.after(Turn::Announced(listening)),
            final(self)@.sound(),
            first == final(self)@.wants(),
            first == if listening {
                Some(HEADER_SIZE)
            } else {
                None::<usize>
            },
    {
        if listening {
            self.go_on(Phase::Streaming);
            Some(HEADER_SIZE)
        } else {
            self.go_on(Phase::Over);
            None
        }
    }

    /// A record of the phone at `peer` was passed on, or nobody listens any more. Says how many
    /// bytes to read next, or what to tell about the end of the session.
    pub fn passed_on(&mut self, listening: bool, peer: &Peer) -> (next: Result<usize, ServerEvent>)
        requires
            old(self).phase == Phase::Streaming,
            old(self).bytes@.len() == 0,
            old(self)@.sound(),
        ensures
            final(self)@ == old(self)@.after(Turn::PassedOn(listening)),
            final(self)@.sound(),
            match next {
                Ok(more) => listening && more == HEADER_SIZE && final(self)@.wants() == Some(more),
                Err(told) => !listening && told.ends(*peer, SHUTTING_DOWN@),
            },
            tells_the_end(
                match next {
                    Ok(_) => None,
                    Err(told) => Some(told),
                },
                old(self)@.news(Turn::PassedOn(listening)),
                *peer,
            ),
    {
        if listening {
            Ok(HEADER_SIZE)
        } else {
            self.go_on(Phase::Over);
            Err(ServerEvent::SessionEnded { peer: *peer, reason: SHUTTING_DOWN.to_owned() })
        }
    }

    /// The connection to `peer` failed. Only a session that was running is told about.
    pub fn failed(&mut self, failure: Failure, peer: &Peer) -> (told: Option<ServerEvent>)
        ensures
            final(self)@ == old(self)@.after(Turn::Failed(failure)),
            final(self)@.sound(),
            tells_the_end(told, old(self)@.news(Turn::Failed(failure)), *peer),
    {
        let streaming = self.phase == Phase::Streaming;
        self.go_on(Phase::Over);
        if streaming {
            Some(ServerEvent::SessionEnded { peer: *peer, reason: describe(failure) })
        } else {
            None
        }
    }

    /// The connection is done with. Whoever held the slot gives it back, and nobody else does.
    pub fn leave(&mut self, slot: &mut BusySlot)
        ensures
            final(self).phase == Phase::Over,
            !final(self).holds_slot,
            final(slot).taken == taken_once_left(old(slot).taken, old(self).holds_slot),
    {
        self.phase = Phase::Over;
        if self.holds_slot {
            self.holds_slot = false;
            slot.release();
        }
    }
}

impl Line {
    /// The connection after all this happened, one thing after the other.
    pub open spec fn after_all(self, history: Seq<Turn>) -> Line
        decreases history.len(),
    {
        if history.len() == 0 {
            self
        } else {
            self.after_all(history.drop_last()).after(history.last())
        }
    }

    /// Whether all this can happen to the connection, one thing after the other.
    pub open spec fn can_take_all(self, history: Seq<Turn>) -> bool
        decreases history.len(),
    {
        history.len() > 0 ==> {
            &&& self.can_take_all(history.drop_last())
            &&& self.after_all(history.drop_last()).can_take(history.last())
        }
    }

    /// All that the rest of the program gets to know, in order.
    pub open spec fn all_news(self, history: Seq<Turn>) -> Seq<News>
        decreases history.len(),
    {
        if history.len() == 0 {
            Seq::empty()
        } else {
            let before = self.all_news(history.drop_last());
            match self.after_all(history.drop_last()).news(history.last()) {
                Some(news) => before.push(news),
                None => before,
            }
        }
    }
}

/// Whether this is what is told of a session that has not ended: that it started, then records.
pub open spec fn is_running_session(news: Seq<News>) -> bool {
    &&& news.len() > 0
    &&& news[0] is Started
    &&& forall|i: int| 0 < i < news.len() ==> #[trigger] news[i] is Arrived
}

/// Whether this is what is told of a whole session: that it started, then records, then that it
/// ended.
pub open spec fn is_whole_session(news: Seq<News>) -> bool {
    &&& news.len() > 1
    &&& news.last() is Ended
    &&& is_running_session(news.drop_last())
}

/// Whether it was decided about the phone at some point.
pub open spec fn was_decided(history: Seq<Turn>) -> bool {
    exists|i: int| 0 <= i < history.len() && #[trigger] history[i] is Decided
}

/// What the rest of the program gets to know of a connection, whatever happens to it. Nothing
/// before the phone is decided about. A phone that is turned away: that, with its reason, and
/// nothing else. A phone that is left without a word: nothing. A phone that is let in: first that
/// its session starts, last that it ended, and its records between; only where nobody listens to
/// the start there is nothing after it.
pub proof fn a_session_is_told_from_start_to_end(history: Seq<Turn>)
    requires
        Line::fresh().can_take_all(history),
    ensures
        ({
            let line = Line::fresh().after_all(history);
            let news = Line::fresh().all_news(history);
            &&& line.sound()
            &&& match line.phase {
                Phase::Greeting | Phase::Admitting | Phase::Replying => news.len() == 0,
                Phase::Announcing => news.len() == 1 && news[0] is Started,
                Phase::Streaming => is_running_session(news),
                Phase::Over => match history.last() {
                    Turn::Decided { decision, taken } => match refusal(taken, decision) {
                        Some(why) => news == seq![News::Refused(why)],
                        None => news.len() == 0,
                    },
                    Turn::Announced(_) => news.len() == 1 && news[0] is Started,
                    _ => news.len() == 0 || is_whole_session(news),
                },
            }
        }),
    decreases history.len(),
{
    if history.len() > 0 {
        let before = history.drop_last();
        a_session_is_told_from_start_to_end(before);
        let line = Line::fresh().after_all(before);
        let news = Line::fresh().all_news(before);
        let after = Line::fresh().all_news(history);
        if line.news(history.last()) is Some {
            assert(after.drop_last() =~= news);
        }
    }
}

/// A phone is decided about once on a connection, and not before its HELLO is there.
pub proof fn a_phone_is_decided_about_once(history: Seq<Turn>)
    requires
        Line::fresh().can_take_all(history),
    ensures
        Line::fresh().after_all(history).phase == Phase::Greeting || Line::fresh().after_all(
            history,
        ).phase == Phase::Admitting ==> !was_decided(history),
        forall|i: int, j: int|
            0 <= i < j < history.len() ==> !(#[trigger] history[i] is Decided
                && #[trigger] history[j] is Decided),
    decreases history.len(),
{
    if history.len() > 0 {
        let before = history.drop_last();
        a_phone_is_decided_about_once(before);
        assert forall|i: int, j: int| 0 <= i < j < history.len() implies !(
        #[trigger] history[i] is Decided && #[trigger] history[j] is Decided) by {
            if history[i] is Decided && history[j] is Decided {
                assert(before[i] is Decided);
                if j < before.len() {
                    assert(before[j] is Decided);
                }
            }
        }
        if was_decided(history) && !was_decided(before) {
            let i = choose|i: int| 0 <= i < history.len() && #[trigger] history[i] is Decided;
            if i < before.len() {
                assert(before[i] is Decided);
            }
        }
    }
}

/// Whether at most one of some connections holds the slot, and the slot is taken just while one
/// does.
pub open spec fn one_at_most(taken: bool, holding: Seq<bool>) -> bool {
    &&& forall|i: int, j: int|
        0 <= i < holding.len() && 0 <= j < holding.len() && #[trigger] holding[i]
            && #[trigger] holding[j] ==> i == j
    &&& taken == exists|i: int| 0 <= i < holding.len() && #[trigger] holding[i]
}

/// However many phones connect, at most one streams: whatever is decided about one that does not
/// stream yet, there is at most one afterwards.
pub proof fn deciding_leaves_one_at_most(
    taken: bool,
    holding: Seq<bool>,
    who: int,
    decision: Decision,
)
    requires
        one_at_most(taken, holding),
        0 <= who < holding.len(),
        !holding[who],
    ensures
        one_at_most(
            taken_after(taken, decision),
            holding.update(who, lets_in(taken, decision)),
        ),
{
    let after = holding.update(who, lets_in(taken, decision));
    if lets_in(taken, decision) {
        assert(after[who]);
    } else if taken {
        let holder = choose|i: int| 0 <= i < holding.len() && #[trigger] holding[i];
        assert(after[holder]);
    }
}

/// Whoever leaves, there is still at most one, and once the phone that streams is gone the next
/// one gets in.
pub proof fn leaving_leaves_one_at_most(taken: bool, holding: Seq<bool>, who: int)
    requires
        one_at_most(taken, holding),
        0 <= who < holding.len(),
    ensures
        one_at_most(taken_once_left(taken, holding[who]), holding.update(who, false)),
        holding[who] ==> lets_in(taken_once_left(taken, holding[who]), Decision::Allow),
        !holding[who] ==> taken_once_left(taken, holding[who]) == taken,
{
    let after = holding.update(who, false);
    if taken && !holding[who] {
        let holder = choose|i: int| 0 <= i < holding.len() && #[trigger] holding[i];
        assert(after[holder]);
    }
}

/// Reading exactly what a HELLO needs never reads past it.
proof fn hello_is_not_overread(before: Seq<u8>, came: Seq<u8>, end: int)
    requires
        hello_step(before) matches HelloStep::Need(more) && more == came.len(),
        hello_step(before + came) == HelloStep::Body(end as usize),
        0 <= end <= usize::MAX,
    ensures
        end == before.len() + came.len(),
        8 <= end,
{
    let all = before + came;
    if before.len() >= 8 {
        assert(all.take(4) =~= before.take(4));
        assert(all.subrange(4, 8) =~= before.subrange(4, 8));
    }
}

/// Reading exactly what a record needs never reads past it.
proof fn record_is_not_overread(before: Seq<u8>, came: Seq<u8>, header: Header)
    requires
        record_step(before) matches RecordStep::Need(more) && more == came.len(),
        record_step(before + came) == RecordStep::Whole(header),
    ensures
        before.len() + came.len() == HEADER_SIZE + header.payload_len,
{
    let all = before + came;
    if before.len() >= HEADER_SIZE {
        assert(all.subrange(4, 8) =~= before.subrange(4, 8));
        assert(all.subrange(8, 16) =~= before.subrange(8, 16));
    }
}

/// A phone's HELLO is handed over as it was framed, and then somebody has to decide: "NSC1", the
/// length of the JSON in four bytes, and the JSON, in however many pieces it came.
pub proof fn a_hello_is_handed_over(
    line: Line,
    came: Seq<u8>,
    step: Step,
    peer: Peer,
    body: Seq<u8>,
)
    requires
        line.phase == Phase::Greeting,
        1 <= body.len() <= 65_536,
        line.bytes + came == seq![0x4Eu8, 0x53, 0x43, 0x31] + be_bytes(body.len(), 4) + body,
        step.follows(line, came, peer),
    ensures
        step is Hello && step->Hello_0@ == body,
        line.after(Turn::Came(came)).phase == Phase::Admitting,
        line.news(Turn::Came(came)) is None,
{
    assert(CLIENT_MAGIC@ =~= seq![0x4Eu8, 0x53, 0x43, 0x31]);
    let nothing = Seq::<u8>::empty();
    a_framed_hello_is_found(body, nothing);
    assert(framed(CLIENT_MAGIC@, body) + nothing =~= line.bytes + came);
}

/// Whoever does not begin with "NSC1" is hung up on at once and never heard of.
pub proof fn strangers_are_hung_up_on(line: Line, came: Seq<u8>, step: Step, peer: Peer)
    requires
        line.phase == Phase::Greeting,
        (line.bytes + came).len() >= 4,
        (line.bytes + came)[0] != 0x4E || (line.bytes + came)[1] != 0x53 || (line.bytes + came)[2]
            != 0x43 || (line.bytes + came)[3] != 0x31,
        step.follows(line, came, peer),
    ensures
        step is HangUp,
        line.after(Turn::Came(came)).phase == Phase::Over,
        line.news(Turn::Came(came)) is None,
{
    only_a_hello_is_a_hello(line.bytes + came);
}

/// A record of a running session is handed over as it was sent, in however many pieces it came, and
/// the session goes on with the next one.
pub proof fn a_record_is_handed_over(
    line: Line,
    came: Seq<u8>,
    step: Step,
    peer: Peer,
    header: Header,
    payload: Seq<u8>,
)
    requires
        line.phase == Phase::Streaming,
        header.payload_len == payload.len(),
        payload.len() <= 16_777_216,
        line.bytes + came == header.wire() + payload,
        step.follows(line, came, peer),
    ensures
        step is Record && step->Record_0.is_of(peer, header, payload),
        line.news(Turn::Came(came)) == Some(News::Arrived(header, payload)),
        line.after(Turn::Came(came)).phase == Phase::Streaming,
        line.after(Turn::Came(came)).bytes.len() == 0,
        line.after(Turn::Came(came)).wants() == Some(16usize),
        line.after(Turn::Came(came)).holds_slot == line.holds_slot,
{
    let nothing = Seq::<u8>::empty();
    a_sent_record_is_found(header, payload, nothing);
    header_takes_sixteen_bytes(header);
    let all = header.wire() + payload + nothing;
    assert(all =~= line.bytes + came);
    assert(all.skip(16) =~= payload);
}

/// A record that claims more than sixteen mebibytes ends the session, and the rest of the program
/// is told so.
pub proof fn a_long_record_ends_the_session(
    line: Line,
    came: Seq<u8>,
    step: Step,
    peer: Peer,
    header: Header,
)
    requires
        line.phase == Phase::Streaming,
        header.payload_len > 16_777_216,
        line.bytes + came == header.wire(),
        step.follows(line, came, peer),
    ensures
        step is End && step->End_0.ends(peer, too_long(header)),
        line.news(Turn::Came(came)) == Some(News::Ended(too_long(header))),
        line.after(Turn::Came(came)).phase == Phase::Over,
{
    let nothing = Seq::<u8>::empty();
    a_long_record_is_refused_at_once(header, nothing);
    assert(header.wire() + nothing =~= line.bytes + came);
}

/// Where each turn leads. A phone that is let in is told so, then the rest of the program is, then
/// its records come; whatever goes wrong on the way ends it.
pub proof fn every_turn_leads_somewhere(line: Line, turn: Turn)
    requires
        !(turn is Came),
        line.can_take(turn),
        line.sound(),
    ensures
        turn matches Turn::Decided { decision, taken } ==> {
            let lets = decision is Allow && !taken;
            &&& lets ==> line.after(turn).phase == Phase::Replying
            &&& !lets ==> line.after(turn).phase == Phase::Over
            &&& line.after(turn).holds_slot == lets
        },
        turn matches Turn::Replied(done) ==> line.after(turn).phase == if done {
            Phase::Announcing
        } else {
            Phase::Over
        },
        turn matches Turn::Announced(done) ==> line.after(turn).phase == if done {
            Phase::Streaming
        } else {
            Phase::Over
        },
        turn matches Turn::PassedOn(done) ==> line.after(turn).phase == if done {
            Phase::Streaming
        } else {
            Phase::Over
        },
        turn is Garbled || turn is Failed ==> line.after(turn).phase == Phase::Over,
        line.after(turn).bytes.len() == 0,
        !(turn is Decided) ==> line.after(turn).holds_slot == line.holds_slot,
        line.after(turn).phase == Phase::Streaming ==> line.after(turn).wants() == Some(16usize),
{
}

/// What is told at each turn: why a phone was turned away, that a session started, and why it
/// ended; and nothing where there was no session.
pub proof fn every_turn_is_told(line: Line, turn: Turn)
    requires
        !(turn is Came),
        line.can_take(turn),
    ensures
        turn matches Turn::Decided { decision, taken } ==> {
            &&& decision is Ignore || (decision is Allow && !taken) ==> line.news(turn) is None
            &&& decision is Allow && taken ==> line.news(turn) == Some(News::Refused("busy"@))
            &&& decision matches Decision::Refuse(why) ==> line.news(turn) == Some(
                News::Refused(why@),
            )
        },
        turn matches Turn::Replied(done) ==> line.news(turn) == if done {
            Some(News::Started)
        } else {
            None::<News>
        },
        turn matches Turn::PassedOn(done) ==> line.news(turn) == if done {
            None::<News>
        } else {
            Some(News::Ended("the receiver is shutting down"@))
        },
        turn matches Turn::Failed(failure) ==> line.news(turn) == if line.phase
            == Phase::Streaming {
            Some(News::Ended(failure.meaning()))
        } else {
            None::<News>
        },
        turn is Garbled || turn is Announced ==> line.news(turn) is None,
{
}

/// A connection begins with nothing, waiting for the four bytes that tell a phone from anything
/// else.
pub proof fn connections_begin_with_nothing()
    ensures
        Line::fresh().phase == Phase::Greeting,
        Line::fresh().bytes.len() == 0,
        !Line::fresh().holds_slot,
        Line::fresh().wants() == Some(4usize),
{
}

/// The start and the end of a session are told of the phone they happened to.
pub proof fn sessions_are_told_of_their_phone(
    told: Option<ServerEvent>,
    peer: Peer,
    said: Hello,
    why: Seq<char>,
)
    ensures
        tells_the_start(told, Some(News::Started), peer, said) <==> told is Some && told->0
            == (ServerEvent::SessionStarted { peer, hello: said }),
        tells_the_start(told, None, peer, said) <==> told is None,
        tells_the_end(told, Some(News::Ended(why)), peer) <==> told is Some && told->0.ends(
            peer,
            why,
        ),
        tells_the_end(told, None, peer) <==> told is None,
{
}

/// What is wanted is what is missing: while a message is coming in, the connection stays where it
/// is and keeps what came.
pub proof fn what_came_is_kept(line: Line, came: Seq<u8>, step: Step, peer: Peer, more: usize)
    requires
        line.phase == Phase::Greeting || line.phase == Phase::Streaming,
        step.follows(line, came, peer),
        step == Step::Read(more),
    ensures
        line.after(Turn::Came(came)).phase == line.phase,
        line.after(Turn::Came(came)).bytes == line.bytes + came,
        line.after(Turn::Came(came)).holds_slot == line.holds_slot,
        line.after(Turn::Came(came)).wants() == Some(more),
        line.news(Turn::Came(came)) is None,
{
}

} // verus!
