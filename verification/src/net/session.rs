//! One phone, one connection: handshake, then records until it goes away.
//!
//! Nothing here reads or writes a socket. The functions say how many bytes are still missing,
//! and what the bytes that came mean.

use vstd::prelude::*;
use vstd::utf8::{decode_utf8, valid_utf8};

use super::protocol::{
    codec_names_read_back, header_fields_are_read_from_their_places, header_reads_back,
    header_takes_sixteen_bytes, record, the_lowest_flag_marks_a_keyframe, Codec, Header, HelloReply,
    StreamConfig, CLIENT_MAGIC, HEADER_SIZE, MAX_HELLO, MAX_PAYLOAD, SERVER_MAGIC,
};
use super::server::{Decision, Peer, ServerEvent, ServerOptions};
use crate::bytes::{
    be_bytes, be_bytes_len, be_value, be_value_bound, four_bytes_spell, number_survives_its_bytes,
    numbers_take_four_bytes, pow256_widths, push_be, read_be, same_bytes,
};
use crate::text::{decimal, decimal_text, trim_end, trimmed_end};

verus! {

/// Holds "a stream is running". One phone streams at a time.
#[derive(Debug, PartialEq, Eq, Structural)]
pub struct BusySlot {
    pub taken: bool,
}

impl BusySlot {
    /// A slot nobody streams in.
    pub fn new() -> (slot: Self)
        ensures
            !slot.taken,
    {
        BusySlot { taken: false }
    }

    /// `false` when another phone is already streaming.
    pub fn acquire(&mut self) -> (acquired: bool)
        ensures
            acquired == !old(self).taken,
            final(self).taken,
    {
        if self.taken {
            false
        } else {
            self.taken = true;
            true
        }
    }

    /// The stream is over.
    pub fn release(&mut self)
        ensures
            !final(self).taken,
    {
        self.taken = false;
    }
}

impl HelloReply {
    /// Whether this reply lets a phone in and tells it these options.
    pub open spec fn accepts(self, options: ServerOptions) -> bool {
        &&& self.ok
        &&& self.error is None
        &&& self.name matches Some(name) && name@ == options.name@
        &&& self.fps == Some(options.fps)
        &&& self.bitrate == Some(options.bitrate)
        &&& self.keyframe_interval_s == Some(options.keyframe_interval_s)
        &&& self.codec matches Some(codec) && codec@ == options.codec.wire_name()
        &&& self.scale == options.scale
    }
}

/// The reply that lets a phone in.
pub fn accept_reply(options: &ServerOptions) -> (reply: HelloReply)
    ensures
        reply.accepts(*options),
{
    HelloReply {
        ok: true,
        error: None,
        name: Some(options.name.clone()),
        fps: Some(options.fps),
        bitrate: Some(options.bitrate),
        keyframe_interval_s: Some(options.keyframe_interval_s),
        codec: Some(options.codec.as_str().to_owned()),
        scale: options.scale,
    }
}

/// How a handshake ends.
#[derive(Debug)]
pub enum Entry {
    /// The phone is let in with this reply. The slot is taken until the stream is over.
    Stream(HelloReply),
    /// The phone is told why it is not let in, and so is the rest of the program.
    TurnAway { reply: HelloReply, told: ServerEvent },
    /// The connection is closed without a word: the phone will retry.
    Silence,
}

/// Whether a phone is let in: it was decided so, and no other phone is streaming.
pub open spec fn lets_in(taken: bool, decision: Decision) -> bool {
    decision is Allow && !taken
}

/// Whether the slot is taken after a phone was decided about.
pub open spec fn taken_after(taken: bool, decision: Decision) -> bool {
    taken || decision is Allow
}

/// Why a phone is turned away, where it is.
pub open spec fn refusal(taken: bool, decision: Decision) -> Option<Seq<char>> {
    match decision {
        Decision::Allow => if taken {
            Some("busy"@)
        } else {
            None
        },
        Decision::Refuse(why) => Some(why@),
        Decision::Ignore => None,
    }
}

impl Entry {
    /// Whether this is how a handshake ends where that was decided about the phone at `peer`: it
    /// is let in with these options, turned away with a reason that is told everywhere, or left
    /// without a word.
    pub open spec fn is_of(
        self,
        taken: bool,
        decision: Decision,
        options: ServerOptions,
        peer: Peer,
    ) -> bool {
        if lets_in(taken, decision) {
            self matches Entry::Stream(reply) && reply.accepts(options)
        } else {
            match refusal(taken, decision) {
                Some(why) => self matches Entry::TurnAway { reply, told } && reply.refuses(why)
                    && told.turns_away(peer, why),
                None => self is Silence,
            }
        }
    }
}

/// What becomes of the phone at `peer`, given what was decided about it. One stream at a time: a
/// second phone is told so instead of being ignored.
pub fn enter(
    decision: Decision,
    slot: &mut BusySlot,
    options: &ServerOptions,
    peer: &Peer,
) -> (entry: Entry)
    ensures
        final(slot).taken == taken_after(old(slot).taken, decision),
        entry.is_of(old(slot).taken, decision, *options, *peer),
{
    match decision {
        Decision::Allow => {
            if slot.acquire() {
                Entry::Stream(accept_reply(options))
            } else {
                let told = ServerEvent::Refused { peer: *peer, reason: "busy".to_owned() };
                Entry::TurnAway { reply: HelloReply::refused("busy"), told }
            }
        },
        Decision::Refuse(reason) => {
            let reply = HelloReply::refused(reason.as_str());
            Entry::TurnAway { reply, told: ServerEvent::Refused { peer: *peer, reason } }
        },
        Decision::Ignore => Entry::Silence,
    }
}

/// One stream at a time: once a phone is let in, no other is until the slot is released, whatever
/// is decided about the phones that come by.
pub proof fn one_stream_at_a_time(taken: bool, decisions: Seq<Decision>, next: Decision)
    requires
        taken,
    ensures
        taken_after_all(taken, decisions),
        !lets_in(taken_after_all(taken, decisions), next),
    decreases decisions.len(),
{
    if decisions.len() > 0 {
        one_stream_at_a_time(taken, decisions.drop_last(), next);
    }
}

/// Whether the slot is taken after some phones were decided about, one after the other.
pub open spec fn taken_after_all(taken: bool, decisions: Seq<Decision>) -> bool
    decreases decisions.len(),
{
    if decisions.len() == 0 {
        taken
    } else {
        taken_after(taken_after_all(taken, decisions.drop_last()), decisions.last())
    }
}

/// A message of the handshake: four bytes of magic, the length of the body, the body.
pub open spec fn framed(magic: Seq<u8>, body: Seq<u8>) -> Seq<u8> {
    magic + be_bytes(body.len(), 4) + body
}

/// Where reading a HELLO has come to.
#[derive(Debug, Clone, Copy, PartialEq, Eq, Structural)]
pub enum HelloStep {
    /// This many more bytes have to come.
    Need(usize),
    /// This is no Nearscreen phone.
    BadMagic,
    /// A HELLO of this many bytes is not one.
    OutOfRange(usize),
    /// The JSON is there: everything behind the first eight bytes, up to here.
    Body(usize),
}

/// Where reading a HELLO has come to when these bytes are there.
pub open spec fn hello_step(bytes: Seq<u8>) -> HelloStep {
    if bytes.len() < 4 {
        HelloStep::Need((4 - bytes.len()) as usize)
    } else if bytes.take(4) != CLIENT_MAGIC@ {
        HelloStep::BadMagic
    } else if bytes.len() < 8 {
        HelloStep::Need((8 - bytes.len()) as usize)
    } else {
        let len = be_value(bytes.subrange(4, 8));
        if len == 0 || len > MAX_HELLO {
            HelloStep::OutOfRange(len as usize)
        } else if bytes.len() < 8 + len {
            HelloStep::Need((8 + len - bytes.len()) as usize)
        } else {
            HelloStep::Body((8 + len) as usize)
        }
    }
}

/// Where reading a HELLO has come to when these bytes are there.
pub fn read_hello(bytes: &[u8]) -> (step: HelloStep)
    ensures
        step == hello_step(bytes@),
{
    let n: usize = bytes.len();
    if n < 4 {
        return HelloStep::Need(4 - n);
    }
    if !same_bytes(&bytes[0..4], &CLIENT_MAGIC) {
        return HelloStep::BadMagic;
    }
    if n < 8 {
        return HelloStep::Need(8 - n);
    }
    proof {
        be_value_bound(bytes@.subrange(4, 8));
        pow256_widths();
    }
    let len: usize = read_be(bytes, 4, 4) as usize;
    if len == 0 || len > MAX_HELLO {
        HelloStep::OutOfRange(len)
    } else if n < 8 + len {
        HelloStep::Need(8 + len - n)
    } else {
        HelloStep::Body(8 + len)
    }
}

/// A HELLO is found in the bytes the phone frames it in, whatever follows it.
pub proof fn a_framed_hello_is_found(body: Seq<u8>, rest: Seq<u8>)
    requires
        0 < body.len() <= MAX_HELLO,
    ensures
        hello_step(framed(CLIENT_MAGIC@, body) + rest) == HelloStep::Body((8 + body.len()) as usize),
        (framed(CLIENT_MAGIC@, body) + rest).subrange(8, 8 + body.len() as int) == body,
{
    let bytes = framed(CLIENT_MAGIC@, body) + rest;
    be_bytes_len(body.len(), 4);
    pow256_widths();
    number_survives_its_bytes(body.len(), 4);
    assert(bytes.take(4) =~= CLIENT_MAGIC@);
    assert(bytes.subrange(4, 8) =~= be_bytes(body.len(), 4));
    assert(bytes.subrange(8, 8 + body.len() as int) =~= body);
}

/// While a HELLO is coming in, more bytes are waited for, and never more than it has.
pub proof fn a_hello_is_never_overread(body: Seq<u8>, came: int)
    requires
        0 < body.len() <= MAX_HELLO,
        0 <= came < framed(CLIENT_MAGIC@, body).len(),
    ensures
        hello_step(framed(CLIENT_MAGIC@, body).take(came)) matches HelloStep::Need(more) && 0 < more
            && came + more <= framed(CLIENT_MAGIC@, body).len(),
{
    let all = framed(CLIENT_MAGIC@, body);
    let bytes = all.take(came);
    be_bytes_len(body.len(), 4);
    pow256_widths();
    number_survives_its_bytes(body.len(), 4);
    if came >= 4 {
        assert(bytes.take(4) =~= CLIENT_MAGIC@);
    }
    if came >= 8 {
        assert(bytes.subrange(4, 8) =~= be_bytes(body.len(), 4));
    }
}

/// The bytes that carry a reply.
pub open spec fn reply_bytes(body: Seq<u8>) -> Seq<u8> {
    framed(SERVER_MAGIC@, body)
}

/// The bytes that carry a reply; `body` is its JSON.
pub fn write_reply(body: &[u8]) -> (bytes: Vec<u8>)
    ensures
        bytes@ == reply_bytes(body@),
{
    let mut bytes: Vec<u8> = Vec::new();
    bytes.extend_from_slice(&SERVER_MAGIC);
    push_be(&mut bytes, body.len() as u64, 4);
    bytes.extend_from_slice(body);
    assert(bytes@ =~= framed(SERVER_MAGIC@, body@));
    bytes
}

/// The phone finds the reply in its frame: our magic, its length, and the body itself.
pub proof fn a_framed_reply_reads_back(body: Seq<u8>)
    requires
        body.len() <= u32::MAX,
    ensures
        framed(SERVER_MAGIC@, body).take(4) == SERVER_MAGIC@,
        be_value(framed(SERVER_MAGIC@, body).subrange(4, 8)) == body.len(),
        framed(SERVER_MAGIC@, body).skip(8) == body,
{
    let bytes = framed(SERVER_MAGIC@, body);
    be_bytes_len(body.len(), 4);
    pow256_widths();
    number_survives_its_bytes(body.len(), 4);
    assert(bytes.take(4) =~= SERVER_MAGIC@);
    assert(bytes.subrange(4, 8) =~= be_bytes(body.len(), 4));
    assert(bytes.skip(8) =~= body);
}

/// Where reading a record has come to.
#[derive(Debug, Clone, Copy, PartialEq, Eq, Structural)]
pub enum RecordStep {
    /// This many more bytes have to come.
    Need(usize),
    /// The record claims more than we accept.
    TooLong(Header),
    /// The record is there: this header, and its payload behind it.
    Whole(Header),
}

/// Where reading a record has come to when these bytes are there.
pub open spec fn record_step(bytes: Seq<u8>) -> RecordStep {
    if bytes.len() < HEADER_SIZE {
        RecordStep::Need((HEADER_SIZE - bytes.len()) as usize)
    } else {
        let header = Header::of(bytes);
        if header.payload_len > MAX_PAYLOAD {
            RecordStep::TooLong(header)
        } else if bytes.len() < HEADER_SIZE + header.payload_len {
            RecordStep::Need((HEADER_SIZE + header.payload_len - bytes.len()) as usize)
        } else {
            RecordStep::Whole(header)
        }
    }
}

/// Where reading a record has come to when these bytes are there.
pub fn read_record(bytes: &[u8]) -> (step: RecordStep)
    ensures
        step == record_step(bytes@),
{
    let n: usize = bytes.len();
    if n < HEADER_SIZE {
        return RecordStep::Need(HEADER_SIZE - n);
    }
    let first: [u8; HEADER_SIZE] = [
        bytes[0], bytes[1], bytes[2], bytes[3], bytes[4], bytes[5], bytes[6], bytes[7],
        bytes[8], bytes[9], bytes[10], bytes[11], bytes[12], bytes[13], bytes[14], bytes[15],
    ];
    let header = Header::parse(&first);
    assert(first@ =~= bytes@.take(16));
    assert(first@.subrange(4, 8) =~= bytes@.subrange(4, 8));
    assert(first@.subrange(8, 16) =~= bytes@.subrange(8, 16));
    let len: usize = header.payload_len as usize;
    if len > MAX_PAYLOAD {
        RecordStep::TooLong(header)
    } else if n < HEADER_SIZE + len {
        RecordStep::Need(HEADER_SIZE + len - n)
    } else {
        RecordStep::Whole(header)
    }
}

/// A record is found in the bytes the phone sends it in, whatever follows it.
pub proof fn a_sent_record_is_found(header: Header, payload: Seq<u8>, rest: Seq<u8>)
    requires
        header.payload_len == payload.len(),
        payload.len() <= MAX_PAYLOAD,
    ensures
        record_step(header.wire() + payload + rest) == RecordStep::Whole(header),
        (header.wire() + payload + rest).subrange(
            HEADER_SIZE as int,
            HEADER_SIZE + header.payload_len,
        ) == payload,
{
    let bytes = header.wire() + payload + rest;
    header_takes_sixteen_bytes(header);
    header_reads_back(header, payload + rest);
    assert(bytes =~= header.wire() + (payload + rest));
    assert(bytes.subrange(HEADER_SIZE as int, HEADER_SIZE + header.payload_len) =~= payload);
}

/// While a record is coming in, more bytes are waited for, and never more than it has.
pub proof fn a_record_is_never_overread(header: Header, payload: Seq<u8>, came: int)
    requires
        header.payload_len == payload.len(),
        payload.len() <= MAX_PAYLOAD,
        0 <= came < HEADER_SIZE + payload.len(),
    ensures
        record_step((header.wire() + payload).take(came)) matches RecordStep::Need(more) && 0 < more
            && came + more <= HEADER_SIZE + payload.len(),
{
    let all = header.wire() + payload;
    let bytes = all.take(came);
    header_takes_sixteen_bytes(header);
    if came >= HEADER_SIZE {
        let behind = all.subrange(HEADER_SIZE as int, came);
        header_reads_back(header, behind);
        assert(bytes =~= header.wire() + behind);
    }
}

/// A record that claims more than we accept is refused as soon as its header is there.
pub proof fn a_long_record_is_refused_at_once(header: Header, rest: Seq<u8>)
    requires
        header.payload_len > MAX_PAYLOAD,
    ensures
        record_step(header.wire() + rest) == RecordStep::TooLong(header),
{
    header_takes_sixteen_bytes(header);
    header_reads_back(header, rest);
}

/// What we say of a record that claims more than we accept.
pub open spec fn too_long(header: Header) -> Seq<char> {
    record::name_of(header.rtype) + " record claims "@ + decimal_text(header.payload_len as nat)
        + " bytes — more than we accept"@
}

/// What we say of a record that claims more than we accept.
pub fn describe_too_long(header: &Header) -> (text: String)
    ensures
        text@ == too_long(*header),
{
    let mut text = record::name(header.rtype).to_owned();
    text.append(" record claims ");
    text.append(decimal(header.payload_len as u64).as_str());
    text.append(" bytes — more than we accept");
    text
}

/// Why a session ends when nobody listens to it any more.
pub const SHUTTING_DOWN: &'static str = "the receiver is shutting down";

/// How a connection failed.
#[derive(Debug)]
pub enum Failure {
    TimedOut,
    WouldBlock,
    UnexpectedEof,
    ConnectionReset,
    ConnectionAborted,
    BrokenPipe,
    /// Anything else, in the system's words.
    Other(String),
}

impl Failure {
    /// What a failure means to a person.
    pub open spec fn meaning(self) -> Seq<char> {
        match self {
            Failure::TimedOut | Failure::WouldBlock =>
                "no data and no heartbeat — the phone stopped broadcasting"@,
            Failure::UnexpectedEof | Failure::ConnectionReset | Failure::ConnectionAborted
            | Failure::BrokenPipe => "the phone closed the connection"@,
            Failure::Other(text) => text@,
        }
    }
}

/// Turns a failure into something worth showing a person.
pub fn describe(failure: Failure) -> (text: String)
    ensures
        text@ == failure.meaning(),
{
    match failure {
        Failure::TimedOut | Failure::WouldBlock => {
            "no data and no heartbeat — the phone stopped broadcasting".to_owned()
        },
        Failure::UnexpectedEof | Failure::ConnectionReset | Failure::ConnectionAborted
        | Failure::BrokenPipe => "the phone closed the connection".to_owned(),
        Failure::Other(text) => text,
    }
}

/// What std's lossy reading makes of some bytes.
pub uninterp spec fn lossy_text(bytes: Seq<u8>) -> Seq<char>;

/// `String::from_utf8_lossy`: the text these bytes encode, and some text of their own for bytes
/// that encode none. Which one is left open.
#[verifier::external_body]
fn from_utf8_lossy(bytes: &[u8]) -> (text: String)
    ensures
        text@ == lossy_text(bytes@),
        valid_utf8(bytes@) ==> text@ == decode_utf8(bytes@),
{
    String::from_utf8_lossy(bytes).into_owned()
}

/// What `serde_json` reads from some bytes, written out again; `None` where they are not JSON.
pub uninterp spec fn json_text(bytes: Seq<u8>) -> Option<Seq<char>>;

/// `serde_json::from_slice` into a value of any shape, which is then written as text. Which
/// bytes are JSON and how the value is written is left to that crate.
#[verifier::external_body]
fn read_json(bytes: &[u8]) -> (json: Option<String>)
    ensures
        json_text(bytes@) == match json {
            Some(text) => Some(text@),
            None => None,
        },
{
    serde_json::from_slice::<serde_json::Value>(bytes).ok().map(|value| value.to_string())
}

/// What a record is to the rest of the program.
#[derive(Debug)]
pub enum Arrival {
    /// Something to tell the rest of the program.
    Event(ServerEvent),
    /// A description of the stream, as JSON.
    Config(Vec<u8>),
    /// Nothing anyone has to know.
    Nothing,
}

/// The line for our log that a text from the phone makes.
pub fn log_line(peer: &Peer, text: &str) -> (event: ServerEvent)
    ensures
        event matches ServerEvent::Log { peer: from, text: line } && from == *peer && line@
            == trim_end(text@),
{
    ServerEvent::Log { peer: *peer, text: trimmed_end(text) }
}

/// What the phone's statistics make, given what was read from them.
pub fn statistics(peer: &Peer, json: Option<String>) -> (arrival: Arrival)
    ensures
        match json {
            Some(text) => arrival matches Arrival::Event(ServerEvent::Stats { peer: from, json: kept })
                && from == *peer && kept == text,
            None => arrival is Nothing,
        },
{
    match json {
        Some(json) => Arrival::Event(ServerEvent::Stats { peer: *peer, json }),
        None => Arrival::Nothing,
    }
}

impl Arrival {
    /// Whether this is what a record amounts to.
    pub open spec fn is_of(self, peer: Peer, header: Header, payload: Seq<u8>) -> bool {
        if header.rtype == record::VIDEO {
            self matches Arrival::Event(ServerEvent::Video { pts_us, keyframe, data }) && pts_us
                == header.pts_us && keyframe == header.marks_keyframe() && data@ == payload
        } else if header.rtype == record::CONFIG {
            self matches Arrival::Config(body) && body@ == payload
        } else if header.rtype == record::STATS {
            match json_text(payload) {
                Some(text) => self matches Arrival::Event(
                    ServerEvent::Stats { peer: from, json },
                ) && from == peer && json@ == text,
                None => self is Nothing,
            }
        } else if header.rtype == record::LOG {
            &&& self matches Arrival::Event(ServerEvent::Log { peer: from, text }) && from == peer
                && text@ == trim_end(lossy_text(payload)) && (valid_utf8(payload) ==> text@
                == trim_end(decode_utf8(payload)))
        } else {
            self is Nothing
        }
    }
}

/// What a record amounts to. Heartbeats and records of types we do not know amount to nothing.
pub fn arrival(peer: &Peer, header: &Header, payload: Vec<u8>) -> (arrival: Arrival)
    ensures
        arrival.is_of(*peer, *header, payload@),
{
    match header.rtype {
        record::VIDEO => Arrival::Event(
            ServerEvent::Video {
                pts_us: header.pts_us,
                keyframe: header.is_keyframe(),
                data: payload,
            },
        ),
        record::CONFIG => Arrival::Config(payload),
        record::STATS => statistics(peer, read_json(payload.as_slice())),
        record::LOG => Arrival::Event(
            log_line(peer, from_utf8_lossy(payload.as_slice()).as_str()),
        ),
        _ => Arrival::Nothing,
    }
}

/// Whether this tells of the description that was read, or nothing where none could be.
pub open spec fn tells_the_config(
    event: Option<ServerEvent>,
    peer: Peer,
    config: Option<StreamConfig>,
) -> bool {
    match config {
        Some(config) => event == Some(ServerEvent::StreamConfig { peer, config }),
        None => event is None,
    }
}

/// What a description of the stream makes, given what was read from it: one that could not be
/// read is passed over.
pub fn configured(peer: &Peer, config: Option<StreamConfig>) -> (event: Option<ServerEvent>)
    ensures
        tells_the_config(event, *peer, config),
{
    match config {
        Some(config) => Some(ServerEvent::StreamConfig { peer: *peer, config }),
        None => None,
    }
}

/// The number that bytes four to seven spell, the first the most significant.
pub open spec fn claimed_len(bytes: Seq<u8>) -> int {
    0x100_0000 * bytes[4] + 0x1_0000 * bytes[5] + 0x100 * bytes[6] + bytes[7]
}

/// Only what begins with "NSC1" is a HELLO, and anything else is known for that once four bytes
/// are there. Its length follows, has to be one to 65536, and is refused at once where it is not.
/// Until everything is there, exactly the bytes up to the next of these are waited for.
pub proof fn only_a_hello_is_a_hello(bytes: Seq<u8>)
    ensures
        ({
            let ours = bytes[0] == 0x4E && bytes[1] == 0x53 && bytes[2] == 0x43 && bytes[3] == 0x31;
            let len = claimed_len(bytes);
            let step = hello_step(bytes);
            &&& bytes.len() < 4 ==> step == HelloStep::Need((4 - bytes.len()) as usize)
            &&& bytes.len() >= 4 ==> (step == HelloStep::BadMagic <==> !ours)
            &&& 4 <= bytes.len() < 8 && ours ==> step == HelloStep::Need(
                (8 - bytes.len()) as usize,
            )
            &&& bytes.len() >= 8 && ours ==> {
                &&& len == 0 || len > 65536 ==> step == HelloStep::OutOfRange(len as usize)
                &&& 1 <= len <= 65536 && bytes.len() < 8 + len ==> step == HelloStep::Need(
                    (8 + len - bytes.len()) as usize,
                )
                &&& 1 <= len <= 65536 && bytes.len() >= 8 + len ==> step == HelloStep::Body(
                    (8 + len) as usize,
                )
            }
        }),
{
    if bytes.len() >= 4 {
        let magic = bytes.take(4);
        assert(magic[0] == bytes[0] && magic[1] == bytes[1]);
        assert(magic[2] == bytes[2] && magic[3] == bytes[3]);
        if bytes[0] == 0x4E && bytes[1] == 0x53 && bytes[2] == 0x43 && bytes[3] == 0x31 {
            assert(magic =~= CLIENT_MAGIC@);
        }
    }
    if bytes.len() >= 8 {
        four_bytes_spell(bytes.subrange(4, 8));
    }
}

/// A record is there once its sixteen bytes and its payload are; one that claims more than
/// 16777216 bytes is refused as soon as its header is there. Until then, exactly the bytes up to
/// the end of the header and then of the payload are waited for.
pub proof fn records_come_whole(bytes: Seq<u8>)
    ensures
        ({
            let len = claimed_len(bytes);
            let step = record_step(bytes);
            &&& bytes.len() < 16 ==> step == RecordStep::Need((16 - bytes.len()) as usize)
            &&& bytes.len() >= 16 ==> {
                &&& len > 16_777_216 ==> step == RecordStep::TooLong(Header::of(bytes))
                &&& len <= 16_777_216 && bytes.len() < 16 + len ==> step == RecordStep::Need(
                    (16 + len - bytes.len()) as usize,
                )
                &&& len <= 16_777_216 && bytes.len() >= 16 + len ==> step == RecordStep::Whole(
                    Header::of(bytes),
                )
                &&& Header::of(bytes).payload_len == len
                &&& Header::of(bytes).rtype == bytes[0]
                &&& Header::of(bytes).flags == bytes[1]
            }
        }),
{
    if bytes.len() >= 16 {
        header_fields_are_read_from_their_places(bytes);
    }
}

/// A phone that is let in is told yes, our name, and everything we ask of it; nothing of it is left
/// to the phone but a scale that we have no wish about.
pub proof fn phones_are_told_the_options(reply: HelloReply, options: ServerOptions)
    requires
        reply.accepts(options),
    ensures
        reply.ok,
        reply.error is None,
        reply.name is Some && reply.name->0@ == options.name@,
        reply.fps == Some(options.fps),
        reply.bitrate == Some(options.bitrate),
        reply.keyframe_interval_s == Some(options.keyframe_interval_s),
        reply.codec is Some && Codec::named(reply.codec->0@) == Some(options.codec),
        reply.scale == options.scale,
{
    codec_names_read_back(options.codec);
}

/// A phone that is allowed streams where no other does, and holds the slot; one that is allowed
/// while another streams is told "busy"; one that is refused is told why, whoever streams; and one
/// that is ignored hears nothing. What a phone is told when it is turned away, the rest of the
/// program is told too. A slot that is taken stays taken, and only letting a phone in takes it.
pub proof fn what_becomes_of_a_phone(
    entry: Entry,
    taken: bool,
    decision: Decision,
    options: ServerOptions,
    peer: Peer,
)
    requires
        entry.is_of(taken, decision, options, peer),
    ensures
        entry is Stream <==> decision is Allow && !taken,
        entry matches Entry::Stream(reply) ==> reply.accepts(options),
        entry is Silence <==> decision is Ignore,
        entry is TurnAway <==> decision is Refuse || (decision is Allow && taken),
        decision is Allow && taken ==> entry->reply.refuses("busy"@) && entry->told.turns_away(
            peer,
            "busy"@,
        ),
        decision matches Decision::Refuse(why) ==> entry->reply.refuses(why@)
            && entry->told.turns_away(peer, why@),
        taken_after(taken, decision) <==> taken || entry is Stream,
{
}

/// A reply begins with "NSS1" and its length, the most significant byte first, and is there as it
/// is.
pub proof fn replies_go_out_as_they_are(body: Seq<u8>)
    requires
        body.len() <= u32::MAX,
    ensures
        ({
            let bytes = reply_bytes(body);
            &&& bytes.len() == 8 + body.len()
            &&& bytes[0] == 0x4E && bytes[1] == 0x53 && bytes[2] == 0x53 && bytes[3] == 0x31
            &&& claimed_len(bytes) == body.len()
            &&& forall|i: int| 0 <= i < body.len() ==> bytes[8 + i] == #[trigger] body[i]
        }),
{
    let bytes = reply_bytes(body);
    let len = be_bytes(body.len(), 4);
    numbers_take_four_bytes(body.len());
    assert(SERVER_MAGIC@ =~= seq![0x4Eu8, 0x53, 0x53, 0x31]);
    assert(bytes[4] == len[0] && bytes[5] == len[1] && bytes[6] == len[2] && bytes[7] == len[3]);
}

/// What each type of record amounts to, by its number: 1 is an access unit with its timestamp, a
/// keyframe where the lowest flag says so; 3 is a description of the stream; 4 is the phone's
/// statistics where they are JSON; 5 is a line for the log without the white space at its end;
/// and every other is nothing.
pub proof fn records_amount_to_what_they_carry(
    arrival: Arrival,
    peer: Peer,
    header: Header,
    payload: Seq<u8>,
)
    requires
        arrival.is_of(peer, header, payload),
    ensures
        header.rtype == 1 ==> arrival is Event && {
            let event = arrival->Event_0;
            &&& event is Video
            &&& event->Video_pts_us == header.pts_us
            &&& event->Video_keyframe <==> header.flags & 0x01 == 0x01
            &&& event->Video_data@ == payload
        },
        header.rtype == 3 ==> arrival is Config && arrival->Config_0@ == payload,
        header.rtype == 4 && json_text(payload) is None ==> arrival is Nothing,
        header.rtype == 4 && json_text(payload) is Some ==> arrival is Event && {
            let event = arrival->Event_0;
            &&& event is Stats
            &&& event->Stats_peer == peer
            &&& event->json@ == json_text(payload)->0
        },
        header.rtype == 5 ==> arrival is Event && {
            let event = arrival->Event_0;
            &&& event is Log
            &&& event->Log_peer == peer
            &&& event->Log_text@ == trim_end(lossy_text(payload))
            &&& valid_utf8(payload) ==> event->Log_text@ == trim_end(decode_utf8(payload))
        },
        header.rtype != 1 && header.rtype != 3 && header.rtype != 4 && header.rtype != 5
            ==> arrival is Nothing,
{
    the_lowest_flag_marks_a_keyframe(header);
}

/// A description that could be read is told as it is, of the phone it came from; one that could not
/// is not told.
pub proof fn descriptions_are_told_as_they_are(
    event: Option<ServerEvent>,
    peer: Peer,
    config: Option<StreamConfig>,
)
    requires
        tells_the_config(event, peer, config),
    ensures
        event is Some <==> config is Some,
        event matches Some(told) ==> told is StreamConfig && told->StreamConfig_peer == peer
            && told->config == config->0,
{
}

/// Silence means that the phone stopped, and a connection that broke off that it closed; anything
/// else is shown in the system's words.
pub proof fn failures_mean_one_of_two_things(failure: Failure)
    ensures
        failure is TimedOut || failure is WouldBlock ==> failure.meaning()
            == "no data and no heartbeat — the phone stopped broadcasting"@,
        failure is UnexpectedEof || failure is ConnectionReset || failure is ConnectionAborted
            || failure is BrokenPipe ==> failure.meaning() == "the phone closed the connection"@,
        failure matches Failure::Other(text) ==> failure.meaning() == text@,
{
}

/// A record that claims too much is described by what it is and by how much it claims.
pub proof fn long_records_are_described_by_their_claim(header: Header)
    ensures
        header.rtype == 1 ==> too_long(header) == "video"@ + " record claims "@ + decimal_text(
            header.payload_len as nat,
        ) + " bytes — more than we accept"@,
        too_long(header) == record::name_of(header.rtype) + " record claims "@ + decimal_text(
            header.payload_len as nat,
        ) + " bytes — more than we accept"@,
        SHUTTING_DOWN@ == "the receiver is shutting down"@,
{
}

} // verus!
