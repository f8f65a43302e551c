//! What the server tells the phones and the rest of the program.

use vstd::prelude::*;

use super::address::Address;
use super::protocol::{
    header_fields_have_their_places, header_reads_back, header_takes_sixteen_bytes, record, Codec,
    Header, Hello, Real, StreamConfig, DEFAULT_PORT, HEADER_SIZE,
};
use crate::text::{blank_texts_vanish, is_white, trim, trimmed};

verus! {

/// Everything the phone is told at handshake time, plus how patient we are.
#[derive(Debug)]
pub struct ServerOptions {
    pub port: u16,
    /// Shown on the phone as the receiver's name.
    pub name: String,
    pub fps: Real,
    pub bitrate: i64,
    pub keyframe_interval_s: Real,
    /// The codec we ask for: we only ask for what we can decode.
    pub codec: Codec,
    /// Fraction of the native screen size to encode, `None` = leave to the phone.
    pub scale: Option<Real>,
    /// Silence longer than this ends the session; the phone heartbeats once a second.
    pub heartbeat_timeout_ms: u64,
}

impl Clone for ServerOptions {
    fn clone(&self) -> (copy: Self)
        ensures
            copy == *self,
    {
        ServerOptions {
            port: self.port,
            name: self.name.clone(),
            fps: self.fps,
            bitrate: self.bitrate,
            keyframe_interval_s: self.keyframe_interval_s,
            codec: self.codec,
            scale: self.scale,
            heartbeat_timeout_ms: self.heartbeat_timeout_ms,
        }
    }
}

/// 30 frames a second.
pub const DEFAULT_FPS_BITS: u64 = 0x403E_0000_0000_0000;

/// A keyframe every 2 seconds.
pub const DEFAULT_KEYFRAME_INTERVAL_BITS: u64 = 0x4000_0000_0000_0000;

/// 6 Mbit/s.
pub const DEFAULT_BITRATE: i64 = 6_000_000;

/// 15 seconds.
pub const DEFAULT_HEARTBEAT_TIMEOUT_MS: u64 = 15_000;

impl ServerOptions {
    /// Whether these are the options of a receiver nobody gave any, whatever it is called.
    pub open spec fn are_default(self) -> bool {
        &&& self.port == DEFAULT_PORT
        &&& self.fps.bits == DEFAULT_FPS_BITS
        &&& self.bitrate == DEFAULT_BITRATE
        &&& self.keyframe_interval_s.bits == DEFAULT_KEYFRAME_INTERVAL_BITS
        &&& self.codec == Codec::H264
        &&& self.scale is None
        &&& self.heartbeat_timeout_ms == DEFAULT_HEARTBEAT_TIMEOUT_MS
    }

    /// The options of a receiver nobody gave any, under this name.
    pub fn named(name: String) -> (options: Self)
        ensures
            options.are_default(),
            options.name == name,
    {
        Self {
            port: DEFAULT_PORT,
            name,
            fps: Real { bits: DEFAULT_FPS_BITS },
            bitrate: DEFAULT_BITRATE,
            keyframe_interval_s: Real { bits: DEFAULT_KEYFRAME_INTERVAL_BITS },
            codec: Codec::H264,
            scale: None,
            heartbeat_timeout_ms: DEFAULT_HEARTBEAT_TIMEOUT_MS,
        }
    }
}

impl Default for ServerOptions {
    fn default() -> (options: Self)
        ensures
            options.are_default(),
            trim(options.name@).len() > 0,
    {
        ServerOptions::named(hostname())
    }
}

/// A computer's name as it is, unless there is nothing to see in it.
pub open spec fn computer_name(name: Seq<char>) -> Seq<char> {
    if trim(name).len() == 0 {
        "Nearscreen receiver"@
    } else {
        name
    }
}

/// `gethostname::gethostname`: what the system calls this computer, with something readable in
/// the place of what is no text. Nothing is claimed of the name: it depends on the machine.
#[verifier::external_body]
fn system_name() -> (name: String) {
    gethostname::gethostname().to_string_lossy().to_string()
}

/// This computer's name: what the phone shows in its receiver list.
pub fn hostname() -> (shown: String)
    ensures
        trim(shown@).len() > 0,
{
    let name = system_name();
    proof {
        every_computer_has_a_name(name@);
    }
    shown_name(name.as_str())
}

/// What the phone shows in its receiver list, given what the system calls this computer.
pub fn shown_name(name: &str) -> (shown: String)
    ensures
        shown@ == computer_name(name@),
{
    if trimmed(name).as_str().is_empty() {
        "Nearscreen receiver".to_owned()
    } else {
        name.to_owned()
    }
}

/// What to do with a phone that just said HELLO.
#[derive(Debug)]
pub enum Decision {
    Allow,
    /// Answer `ok:false` with this reason and close.
    Refuse(String),
    /// Answer nothing and close: used while a consent dialog is open, so the phone's own retry is
    /// what the dialog's answer applies to.
    Ignore,
}

impl Clone for Decision {
    fn clone(&self) -> (copy: Self)
        ensures
            copy == *self,
    {
        match self {
            Decision::Allow => Decision::Allow,
            Decision::Refuse(reason) => Decision::Refuse(reason.clone()),
            Decision::Ignore => Decision::Ignore,
        }
    }
}

impl Decision {
    /// Whether this is a refusal for that reason.
    pub open spec fn refuses(self, reason: Seq<char>) -> bool {
        self matches Decision::Refuse(text) && text@ == reason
    }
}

/// The far end of a connection.
#[derive(Debug, Clone, Copy, PartialEq, Eq)]
pub struct Peer {
    pub address: Address,
    pub port: u16,
}

/// Decides whether a phone may stream. Consent lives behind this.
pub trait Admission {
    /// Whether it can be asked about this phone.
    spec fn can_decide(&self, hello: &Hello, peer: &Peer) -> bool;

    fn decide(&self, hello: &Hello, peer: &Peer) -> Decision
        requires
            self.can_decide(hello, peer),
    ;
}

/// Accepts every phone.
pub struct AllowAll;

impl Admission for AllowAll {
    open spec fn can_decide(&self, hello: &Hello, peer: &Peer) -> bool {
        true
    }

    fn decide(&self, _hello: &Hello, _peer: &Peer) -> (decision: Decision)
        ensures
            decision is Allow,
    {
        Decision::Allow
    }
}

/// Wraps a closure as an [`Admission`].
pub struct AdmissionFn<F>(pub F);

impl<F: Fn(&Hello, &Peer) -> Decision> Admission for AdmissionFn<F> {
    open spec fn can_decide(&self, hello: &Hello, peer: &Peer) -> bool {
        call_requires(self.0, (hello, peer))
    }

    fn decide(&self, hello: &Hello, peer: &Peer) -> (decision: Decision)
        ensures
            call_ensures(self.0, (hello, peer), decision),
    {
        (self.0)(hello, peer)
    }
}

/// Everything the server tells the rest of the program about.
#[derive(Debug)]
pub enum ServerEvent {
    /// A phone was admitted; the stream starts now.
    SessionStarted { peer: Peer, hello: Hello },
    /// The encoder's actual settings, before the first frame and on every change.
    StreamConfig { peer: Peer, config: StreamConfig },
    /// One Annex-B access unit.
    Video { pts_us: u64, keyframe: bool, data: Vec<u8> },
    /// A line the phone wants in our log.
    Log { peer: Peer, text: String },
    /// The phone's own statistics (reserved by the protocol), as JSON.
    Stats { peer: Peer, json: String },
    /// The session is over; `reason` is fit to show a person.
    SessionEnded { peer: Peer, reason: String },
    /// A phone was turned away before streaming.
    Refused { peer: Peer, reason: String },
}

impl ServerEvent {
    /// Whether this says that the phone at `from` was turned away for that reason.
    pub open spec fn turns_away(self, from: Peer, why: Seq<char>) -> bool {
        self matches ServerEvent::Refused { peer, reason } && peer == from && reason@ == why
    }

    /// Whether this says that the session of the phone at `from` is over for that reason.
    pub open spec fn ends(self, from: Peer, why: Seq<char>) -> bool {
        self matches ServerEvent::SessionEnded { peer, reason } && peer == from && reason@ == why
    }
}

/// The header of a record we send.
pub open spec fn outgoing_header(rtype: u8, len: nat) -> Header {
    Header { rtype, flags: 0, payload_len: (len % 0x1_0000_0000) as u32, pts_us: 0 }
}

/// A record we send: its header, then its payload.
pub open spec fn outgoing(rtype: u8, payload: Seq<u8>) -> Seq<u8> {
    outgoing_header(rtype, payload.len()).wire() + payload
}

/// The bytes of a record for the phone.
fn send(rtype: u8, payload: &[u8]) -> (bytes: Vec<u8>)
    ensures
        bytes@ == outgoing(rtype, payload@),
{
    let len: u32 = (payload.len() as u64 % 0x1_0000_0000) as u32;
    let header: [u8; HEADER_SIZE] = Header::new(rtype, 0, len, 0).encode();
    let mut bytes: Vec<u8> = Vec::new();
    bytes.extend_from_slice(&header);
    bytes.extend_from_slice(payload);
    bytes
}

/// The record that asks the phone for a keyframe.
pub open spec fn keyframe_request() -> Seq<u8> {
    outgoing(record::REQUEST_KEYFRAME, Seq::empty())
}

/// The record that asks the phone for a keyframe: after a decoder reset or a gap in the stream.
pub fn request_keyframe() -> (bytes: Vec<u8>)
    ensures
        bytes@ == keyframe_request(),
{
    let nothing: Vec<u8> = Vec::new();
    let bytes = send(record::REQUEST_KEYFRAME, nothing.as_slice());
    assert(nothing@ =~= Seq::empty());
    bytes
}

/// The record that changes encoder settings on the fly.
pub open spec fn settings_record(params: Seq<u8>) -> Seq<u8> {
    outgoing(record::SET_PARAMS, params)
}

/// The record that changes encoder settings on the fly; `params` is their JSON.
pub fn set_params(params: &[u8]) -> (bytes: Vec<u8>)
    ensures
        bytes@ == settings_record(params@),
{
    send(record::SET_PARAMS, params)
}

/// The phone reads a record back as it was sent: the header says how long the payload is, and
/// the payload follows.
pub proof fn a_sent_record_reads_back(rtype: u8, payload: Seq<u8>)
    requires
        payload.len() <= u32::MAX,
    ensures
        Header::of(outgoing(rtype, payload)) == outgoing_header(rtype, payload.len()),
        outgoing_header(rtype, payload.len()).payload_len == payload.len(),
        outgoing(rtype, payload).skip(HEADER_SIZE as int) == payload,
{
    let header = outgoing_header(rtype, payload.len());
    header_reads_back(header, payload);
    header_takes_sixteen_bytes(header);
    assert(outgoing(rtype, payload).skip(HEADER_SIZE as int) =~= payload);
}

/// A computer is never shown under a name with nothing to see in it.
pub proof fn every_computer_has_a_name(name: Seq<char>)
    ensures
        trim(computer_name(name)).len() > 0,
{
    reveal_strlit("Nearscreen receiver");
    let shown = "Nearscreen receiver"@;
    assert(shown[0] == 'N' && shown.last() == 'r');
    assert(trim(shown) == shown);
}

/// A request for a keyframe is a header of type 0x10 and nothing else: no flags, no payload, no
/// timestamp.
pub proof fn keyframe_requests_are_bare()
    ensures
        keyframe_request() == seq![0x10u8, 0, 0, 0, 0, 0, 0, 0, 0, 0, 0, 0, 0, 0, 0, 0],
{
    let header = outgoing_header(record::REQUEST_KEYFRAME, 0);
    header_fields_have_their_places(header);
    assert(keyframe_request() =~= header.wire());
}

/// New settings go out as a record of type 0x11: no flags, their length in the second four bytes
/// with the most significant first, no timestamp, and then the settings as they are.
pub proof fn settings_go_out_as_they_are(params: Seq<u8>)
    requires
        params.len() <= u32::MAX,
    ensures
        ({
            let w = settings_record(params);
            &&& w.len() == 16 + params.len()
            &&& w[0] == 0x11
            &&& w[1] == 0 && w[2] == 0 && w[3] == 0
            &&& params.len() == 0x100_0000 * w[4] + 0x1_0000 * w[5] + 0x100 * w[6] + w[7]
            &&& forall|i: int| 8 <= i < 16 ==> #[trigger] w[i] == 0
            &&& forall|i: int| 0 <= i < params.len() ==> w[16 + i] == #[trigger] params[i]
        }),
{
    let header = outgoing_header(record::SET_PARAMS, params.len());
    header_fields_have_their_places(header);
    let h = header.wire();
    let w = settings_record(params);
    assert(forall|i: int| 0 <= i < 16 ==> w[i] == #[trigger] h[i]);
    assert(h[8] == 0 && h[9] == 0 && h[10] == 0 && h[11] == 0);
    assert(h[12] == 0 && h[13] == 0 && h[14] == 0 && h[15] == 0);
    assert(w[4] == h[4] && w[5] == h[5] && w[6] == h[6] && w[7] == h[7]);
    assert(w[0] == h[0] && w[1] == h[1] && w[2] == h[2] && w[3] == h[3]);
    assert forall|i: int| 8 <= i < 16 implies #[trigger] w[i] == 0 by {
        assert(w[i] == h[i]);
    }
}

/// A computer keeps the name it has, with the space around it, as long as there is anything to see
/// in it; otherwise it is called "Nearscreen receiver".
pub proof fn computers_keep_their_names(name: Seq<char>)
    ensures
        (exists|i: int| 0 <= i < name.len() && !is_white(#[trigger] name[i])) ==> computer_name(
            name,
        ) == name,
        (forall|i: int| 0 <= i < name.len() ==> is_white(#[trigger] name[i])) ==> computer_name(
            name,
        ) == "Nearscreen receiver"@,
{
    blank_texts_vanish(name);
}

/// What a receiver asks for that nobody gave any options: port 9913, thirty frames a second, six
/// megabits a second, a keyframe every two seconds, H.264 at the phone's own size; and it waits
/// fifteen seconds for a sign of life. The numbers of frames and of seconds are given by their
/// binary64 pattern.
pub proof fn defaults_are_modest(options: ServerOptions)
    requires
        options.are_default(),
    ensures
        options.port == 9913,
        options.fps.bits == 0x403E_0000_0000_0000,
        options.bitrate == 6_000_000,
        options.keyframe_interval_s.bits == 0x4000_0000_0000_0000,
        options.codec == Codec::H264,
        options.scale is None,
        options.heartbeat_timeout_ms == 15_000,
{
}

/// Being turned away and coming to an end are told of the phone they happened to, with the reason.
pub proof fn ends_are_told_with_their_reason(event: ServerEvent, from: Peer, why: Seq<char>)
    ensures
        event.turns_away(from, why) <==> event is Refused && event->Refused_peer == from
            && event->Refused_reason@ == why,
        event.ends(from, why) <==> event is SessionEnded && event->SessionEnded_peer == from
            && event->SessionEnded_reason@ == why,
{
}

/// A refusal gives its reason.
pub proof fn refusals_give_a_reason(decision: Decision, reason: Seq<char>)
    ensures
        decision.refuses(reason) <==> decision is Refuse && decision->Refuse_0@ == reason,
{
}

} // verus!
