//! A fake phone against the receiver's side of the protocol, without a socket between them: the
//! handshake, one video record and the ways a phone can be turned away.

use nearscreen_receiver::net::address::Address;
use nearscreen_receiver::net::connection::{Connection, Phase, Step};
use nearscreen_receiver::net::protocol::{
    record, Codec, Header, Hello, HelloReply, Real, StreamConfig, FLAG_KEYFRAME, HEADER_SIZE,
    MAX_HELLO, MAX_PAYLOAD,
};
use nearscreen_receiver::net::server::{
    hostname, request_keyframe, set_params, shown_name, Admission, AdmissionFn, AllowAll, Decision, Peer,
    ServerEvent, ServerOptions,
};
use nearscreen_receiver::net::session::{
    accept_reply, arrival, configured, describe, enter, log_line, read_hello, read_record,
    statistics, write_reply, Arrival, BusySlot, Entry, Failure, HelloStep, RecordStep,
    SHUTTING_DOWN,
};

fn options() -> ServerOptions {
    ServerOptions {
        port: 0,
        name: "test-receiver".to_string(),
        heartbeat_timeout_ms: 2_000,
        ..ServerOptions::default()
    }
}

fn peer() -> Peer {
    Peer {
        address: Address::V4([192, 168, 1, 7]),
        port: 51000,
    }
}

/// The HELLO of a fake phone, as JSON.
fn hello_json(id: &str) -> Vec<u8> {
    let mut fields = serde_json::Map::new();
    for (name, value) in [("v", 1), ("w", 828), ("h", 1792)] {
        fields.insert(name.to_string(), serde_json::Value::from(value));
    }
    for (name, value) in [
        ("id", id),
        ("model", "iPhone12,1"),
        ("ios", "26.5"),
        ("name", "fake"),
        ("codec", "h264"),
        ("app", "test"),
    ] {
        fields.insert(name.to_string(), serde_json::Value::from(value));
    }
    serde_json::to_vec(&serde_json::Value::Object(fields)).unwrap()
}

/// What the program around the library makes of a HELLO that came in.
fn hello_from(json: &[u8]) -> Hello {
    let value: serde_json::Value = serde_json::from_slice(json).unwrap();
    let text = |name: &str| value[name].as_str().unwrap_or_default().to_string();
    let number = |name: &str| value[name].as_u64().unwrap_or_default() as u32;
    Hello {
        v: number("v"),
        id: text("id"),
        model: text("model"),
        ios: text("ios"),
        name: text("name"),
        w: number("w"),
        h: number("h"),
        codec: text("codec"),
        app: text("app"),
    }
}

/// The bytes a phone opens with.
fn greeting(body: &[u8]) -> Vec<u8> {
    let mut bytes = b"NSC1".to_vec();
    bytes.extend_from_slice(&(body.len() as u32).to_be_bytes());
    bytes.extend_from_slice(body);
    bytes
}

fn sent(rtype: u8, flags: u8, payload: &[u8]) -> Vec<u8> {
    let mut bytes = Header::new(rtype, flags, payload.len() as u32, 12_345)
        .encode()
        .to_vec();
    bytes.extend_from_slice(payload);
    bytes
}

/// A connection with the bytes the phone has sent and nobody has read yet.
struct Wire {
    connection: Connection,
    unread: Vec<u8>,
    next: usize,
}

impl Wire {
    fn open() -> Self {
        let (connection, next) = Connection::open();
        Wire {
            connection,
            unread: Vec::new(),
            next,
        }
    }

    fn phone_sends(&mut self, bytes: &[u8]) {
        self.unread.extend_from_slice(bytes);
    }

    /// Reads on until something happens.
    fn happens(&mut self) -> Step {
        loop {
            assert!(self.next <= self.unread.len(), "the receiver reads too much");
            let rest = self.unread.split_off(self.next);
            let came = std::mem::replace(&mut self.unread, rest);
            match self.connection.received(came, &peer()) {
                Step::Read(more) => self.next = more,
                step => return step,
            }
        }
    }

    /// Says HELLO and lets `admission` decide about it. Returns how the handshake ends, and what
    /// the rest of the program is told about that.
    fn greets(
        &mut self,
        id: &str,
        admission: &dyn Admission,
        slot: &mut BusySlot,
    ) -> (Entry, Option<ServerEvent>) {
        let body = hello_json(id);
        self.phone_sends(&greeting(&body));
        let hello = match self.happens() {
            Step::Hello(json) => hello_from(&json),
            other => panic!("expected a hello, got {other:?}"),
        };
        assert_eq!(self.connection.phase, Phase::Admitting);
        let decision = admission.decide(&hello, &peer());
        let entry = self
            .connection
            .decided(decision, slot, &options(), &peer());
        let mut told = None;
        if matches!(entry, Entry::Stream(_)) {
            told = self.connection.replied(true, &peer(), hello);
            self.next = self.connection.announced(true).unwrap();
        }
        (entry, told)
    }

    /// The record was passed on, and more can be read.
    fn goes_on(&mut self) {
        match self.connection.passed_on(true, &peer()) {
            Ok(more) => self.next = more,
            Err(told) => panic!("expected more records, got {told:?}"),
        }
    }
}

/// The reason a session ended, from what is told about it.
fn ended(told: Option<ServerEvent>) -> String {
    match told {
        Some(ServerEvent::SessionEnded { peer: from, reason }) => {
            assert_eq!(from, peer());
            reason
        }
        other => panic!("expected the session to end, got {other:?}"),
    }
}

#[test]
fn a_phone_hands_over_video_and_the_receiver_can_talk_back() {
    let mut slot = BusySlot::new();
    let mut wire = Wire::open();
    let (entry, told) = wire.greets("VENDOR-ID-A1B2C3D4", &AllowAll, &mut slot);
    match entry {
        Entry::Stream(reply) => {
            assert!(reply.ok);
            assert_eq!(reply.name.as_deref(), Some("test-receiver"));
            assert_eq!(reply.fps.map(|fps| f64::from_bits(fps.bits)), Some(30.0));
            assert_eq!(reply.codec.as_deref(), Some("h264"));
        }
        other => panic!("expected the session to start, got {other:?}"),
    }
    match told {
        Some(ServerEvent::SessionStarted { hello, peer: from }) => {
            assert_eq!(hello.short_id(), "A1B2C3D4");
            assert_eq!((hello.w, hello.h), (828, 1792));
            assert_eq!(from, peer());
        }
        other => panic!("expected the session to start, got {other:?}"),
    }

    let config = br#"{"codec":"h264","w":828,"h":1792,"fps":30,"bitrate":6000000}"#;
    wire.phone_sends(&sent(record::CONFIG, 0, config));
    match wire.happens() {
        Step::Record(Arrival::Config(body)) => {
            assert_eq!(body, config);
            let value: serde_json::Value = serde_json::from_slice(&body).unwrap();
            assert_eq!(value["w"], 828);
            assert_eq!(value["codec"], "h264");
        }
        other => panic!("expected the encoder config, got {other:?}"),
    }
    wire.goes_on();

    let access_unit = b"\x00\x00\x00\x01\x67fake sps\x00\x00\x00\x01\x65fake idr";
    wire.phone_sends(&sent(record::VIDEO, FLAG_KEYFRAME, access_unit));
    match wire.happens() {
        Step::Record(Arrival::Event(ServerEvent::Video {
            keyframe,
            data,
            pts_us,
        })) => {
            assert!(keyframe);
            assert_eq!(data, access_unit);
            assert_eq!(pts_us, 12_345);
        }
        other => panic!("expected a video access unit, got {other:?}"),
    }
    wire.goes_on();

    // Heartbeats are absorbed, log lines are passed on.
    wire.phone_sends(&sent(record::HEARTBEAT, 0, b""));
    wire.phone_sends(&sent(record::LOG, 0, b"broadcast started\n"));
    assert!(matches!(wire.happens(), Step::Record(Arrival::Nothing)));
    wire.goes_on();
    match wire.happens() {
        Step::Record(Arrival::Event(ServerEvent::Log { text, .. })) => {
            assert_eq!(text, "broadcast started")
        }
        other => panic!("expected the phone's log line, got {other:?}"),
    }

    // The one thing we ever ask the phone for.
    let asked = request_keyframe();
    assert_eq!(asked.len(), HEADER_SIZE);
    match read_record(&asked) {
        RecordStep::Whole(header) => {
            assert_eq!(header.rtype, record::REQUEST_KEYFRAME);
            assert_eq!(header.payload_len, 0);
        }
        other => panic!("expected a request, got {other:?}"),
    }

    let told = wire.connection.failed(Failure::UnexpectedEof, &peer());
    assert_eq!(ended(told), "the phone closed the connection");
    assert_eq!(wire.connection.phase, Phase::Over);
    wire.connection.leave(&mut slot);
    assert!(!slot.taken);
}

#[test]
fn a_second_phone_is_told_the_receiver_is_busy() {
    let mut slot = BusySlot::new();
    let mut first = Wire::open();
    let (entry, told) = first.greets("PHONE-ONE", &AllowAll, &mut slot);
    assert!(matches!(entry, Entry::Stream(HelloReply { ok: true, .. })));
    assert!(matches!(told, Some(ServerEvent::SessionStarted { .. })));

    let mut second = Wire::open();
    match second.greets("PHONE-TWO", &AllowAll, &mut slot).0 {
        Entry::TurnAway { reply, told } => {
            assert!(!reply.ok);
            assert_eq!(reply.error.as_deref(), Some("busy"));
            match told {
                ServerEvent::Refused { reason, peer: from } => {
                    assert_eq!(reason, "busy");
                    assert_eq!(from, peer());
                }
                other => panic!("expected a refusal, got {other:?}"),
            }
        }
        other => panic!("expected a refusal, got {other:?}"),
    }
    // Leaving does not give back what somebody else holds.
    second.connection.leave(&mut slot);
    assert!(slot.taken);

    // Once the first phone is gone, the next one gets in.
    ended(first.connection.failed(Failure::ConnectionReset, &peer()));
    first.connection.leave(&mut slot);
    let mut third = Wire::open();
    assert!(matches!(
        third.greets("PHONE-THREE", &AllowAll, &mut slot).0,
        Entry::Stream(HelloReply { ok: true, .. })
    ));
}

#[test]
fn a_refused_phone_is_told_why() {
    let admission =
        AdmissionFn(|_hello: &Hello, _peer: &Peer| Decision::Refuse("declined".to_string()));
    let mut slot = BusySlot::new();
    let mut wire = Wire::open();
    match wire.greets("NOT-WELCOME", &admission, &mut slot).0 {
        Entry::TurnAway { reply, told } => {
            assert!(!reply.ok);
            assert_eq!(reply.error.as_deref(), Some("declined"));
            match told {
                ServerEvent::Refused { reason, .. } => assert_eq!(reason, "declined"),
                other => panic!("expected a refusal, got {other:?}"),
            }
        }
        other => panic!("expected a refusal, got {other:?}"),
    }
    assert!(!slot.taken);
    assert_eq!(wire.connection.phase, Phase::Over);
}

#[test]
fn silence_ends_the_session() {
    let mut slot = BusySlot::new();
    let mut wire = Wire::open();
    let (entry, told) = wire.greets("QUIET-PHONE", &AllowAll, &mut slot);
    assert!(matches!(entry, Entry::Stream(HelloReply { ok: true, .. })));
    assert!(matches!(told, Some(ServerEvent::SessionStarted { .. })));
    // Say nothing at all: no video, no heartbeat.
    let reason = ended(wire.connection.failed(Failure::TimedOut, &peer()));
    assert!(
        reason.contains("heartbeat"),
        "the reason should name the missing heartbeat, got {reason:?}"
    );
}

#[test]
fn an_ignored_phone_hears_nothing() {
    let mut slot = BusySlot::new();
    let entry = enter(Decision::Ignore, &mut slot, &options(), &peer());
    assert!(matches!(entry, Entry::Silence));
    assert!(!slot.taken);
}

#[test]
fn a_handshake_that_never_ends_well_has_no_reason_to_tell() {
    let (mut connection, first) = Connection::open();
    assert_eq!(first, 4);
    assert!(connection.failed(Failure::TimedOut, &peer()).is_none());
    assert_eq!(connection.phase, Phase::Over);

    let (mut connection, _) = Connection::open();
    assert!(matches!(
        connection.received(b"GET ".to_vec(), &peer()),
        Step::HangUp
    ));
    assert_eq!(connection.phase, Phase::Over);
}

#[test]
fn a_session_nobody_listens_to_ends() {
    let mut slot = BusySlot::new();
    let mut wire = Wire::open();
    wire.greets("PHONE", &AllowAll, &mut slot);
    let told = wire.connection.passed_on(false, &peer()).err();
    assert_eq!(ended(told), SHUTTING_DOWN);
    wire.connection.leave(&mut slot);
    assert!(!slot.taken);

    let mut wire = Wire::open();
    wire.phone_sends(&greeting(&hello_json("PHONE")));
    assert!(matches!(wire.happens(), Step::Hello(_)));
    wire.connection
        .decided(Decision::Allow, &mut slot, &options(), &peer());
    assert!(wire
        .connection
        .replied(true, &peer(), Hello::default())
        .is_some());
    assert_eq!(wire.connection.announced(false), None);
    wire.connection.leave(&mut slot);
    assert!(!slot.taken);

    let mut wire = Wire::open();
    wire.phone_sends(&greeting(&hello_json("PHONE")));
    assert!(matches!(wire.happens(), Step::Hello(_)));
    wire.connection
        .decided(Decision::Allow, &mut slot, &options(), &peer());
    assert!(wire
        .connection
        .replied(false, &peer(), Hello::default())
        .is_none());
    assert_eq!(wire.connection.phase, Phase::Over);
    wire.connection.leave(&mut slot);
    assert!(!slot.taken);
}

#[test]
fn a_garbled_hello_ends_the_connection() {
    let mut wire = Wire::open();
    wire.phone_sends(&greeting(b"no json"));
    assert!(matches!(wire.happens(), Step::Hello(_)));
    wire.connection.garbled();
    assert_eq!(wire.connection.phase, Phase::Over);
}

#[test]
fn a_hello_is_read_piece_by_piece() {
    assert_eq!(read_hello(b""), HelloStep::Need(4));
    assert_eq!(read_hello(b"NS"), HelloStep::Need(2));
    assert_eq!(read_hello(b"NSC1"), HelloStep::Need(4));
    assert_eq!(read_hello(b"NSC1\x00\x00\x00\x03"), HelloStep::Need(3));
    assert_eq!(read_hello(b"NSC1\x00\x00\x00\x03{}\n"), HelloStep::Body(11));
    assert_eq!(read_hello(b"NSS1"), HelloStep::BadMagic);
    assert_eq!(
        read_hello(b"NSC1\x00\x00\x00\x00"),
        HelloStep::OutOfRange(0)
    );
    let mut long = b"NSC1".to_vec();
    long.extend_from_slice(&(MAX_HELLO as u32 + 1).to_be_bytes());
    assert_eq!(read_hello(&long), HelloStep::OutOfRange(MAX_HELLO + 1));
    let mut longest = b"NSC1".to_vec();
    longest.extend_from_slice(&(MAX_HELLO as u32).to_be_bytes());
    assert_eq!(read_hello(&longest), HelloStep::Need(MAX_HELLO));
}

#[test]
fn replies_are_framed_as_the_phone_expects() {
    assert_eq!(
        write_reply(br#"{"ok":true}"#),
        b"NSS1\x00\x00\x00\x0b{\"ok\":true}".to_vec()
    );
}

#[test]
fn records_are_read_piece_by_piece() {
    assert_eq!(read_record(b""), RecordStep::Need(16));
    let bytes = sent(record::VIDEO, FLAG_KEYFRAME, b"abc");
    assert_eq!(read_record(&bytes[..10]), RecordStep::Need(6));
    assert_eq!(read_record(&bytes[..16]), RecordStep::Need(3));
    assert_eq!(read_record(&bytes[..18]), RecordStep::Need(1));
    let header = Header::new(record::VIDEO, FLAG_KEYFRAME, 3, 12_345);
    assert_eq!(read_record(&bytes), RecordStep::Whole(header));
    let mut more = bytes.clone();
    more.extend_from_slice(b"the next record");
    assert_eq!(read_record(&more), RecordStep::Whole(header));
}

#[test]
fn a_record_that_claims_too_much_ends_the_session() {
    let limit = Header::new(record::VIDEO, 0, MAX_PAYLOAD as u32, 0);
    assert_eq!(read_record(&limit.encode()), RecordStep::Need(MAX_PAYLOAD));

    let mut slot = BusySlot::new();
    let mut wire = Wire::open();
    wire.greets("PHONE", &AllowAll, &mut slot);
    wire.phone_sends(&Header::new(record::LOG, 0, MAX_PAYLOAD as u32 + 1, 0).encode());
    match wire.happens() {
        Step::End(told) => assert_eq!(
            ended(Some(told)),
            "log record claims 16777217 bytes — more than we accept"
        ),
        other => panic!("expected the end, got {other:?}"),
    }
}

#[test]
fn failures_are_told_in_words() {
    let silent = "no data and no heartbeat — the phone stopped broadcasting";
    let closed = "the phone closed the connection";
    assert_eq!(describe(Failure::TimedOut), silent);
    assert_eq!(describe(Failure::WouldBlock), silent);
    assert_eq!(describe(Failure::UnexpectedEof), closed);
    assert_eq!(describe(Failure::ConnectionReset), closed);
    assert_eq!(describe(Failure::ConnectionAborted), closed);
    assert_eq!(describe(Failure::BrokenPipe), closed);
    assert_eq!(describe(Failure::Other("odd".to_string())), "odd");
}

#[test]
fn log_lines_survive_bytes_that_are_no_text() {
    let header = Header::new(record::LOG, 0, 0, 0);
    match arrival(&peer(), &header, b"caf\xc3\xa9 \xff!\t\n".to_vec()) {
        Arrival::Event(ServerEvent::Log { text, .. }) => assert_eq!(text, "café \u{FFFD}!"),
        other => panic!("expected a log line, got {other:?}"),
    }
    match log_line(&peer(), " a line \r\n") {
        ServerEvent::Log { text, peer } => {
            assert_eq!(text, " a line");
            assert_eq!(peer.port, 51000);
        }
        other => panic!("expected a log line, got {other:?}"),
    }
}

#[test]
fn statistics_are_passed_on_where_they_are_json() {
    let header = Header::new(record::STATS, 0, 0, 0);
    match arrival(&peer(), &header, br#" { "dropped" : [1, 2.5] } "#.to_vec()) {
        Arrival::Event(ServerEvent::Stats { json, .. }) => {
            assert_eq!(json, r#"{"dropped":[1,2.5]}"#)
        }
        other => panic!("expected statistics, got {other:?}"),
    }
    assert!(matches!(
        arrival(&peer(), &header, b"not json".to_vec()),
        Arrival::Nothing
    ));
    assert!(matches!(statistics(&peer(), None), Arrival::Nothing));
    assert!(matches!(
        statistics(&peer(), Some("{}".to_string())),
        Arrival::Event(ServerEvent::Stats { .. })
    ));
}

#[test]
fn records_nobody_knows_amount_to_nothing() {
    for rtype in [0x00, record::HEARTBEAT, record::REQUEST_KEYFRAME, 0x7F] {
        let header = Header::new(rtype, 0, 1, 0);
        assert!(matches!(
            arrival(&peer(), &header, vec![1]),
            Arrival::Nothing
        ));
    }
}

#[test]
fn a_config_nobody_can_read_is_passed_over() {
    assert!(configured(&peer(), None).is_none());
    let config = StreamConfig {
        codec: "hevc".to_string(),
        w: 828,
        h: 1792,
        fps: Real {
            bits: 30.0f64.to_bits(),
        },
        bitrate: 6_000_000,
    };
    match configured(&peer(), Some(config)) {
        Some(ServerEvent::StreamConfig { config, .. }) => {
            assert_eq!(Codec::parse(&config.codec), Some(Codec::Hevc));
        }
        other => panic!("expected a config, got {other:?}"),
    }
}

#[test]
fn the_default_options_are_what_the_phone_is_told() {
    let options = ServerOptions::named("Home PC".to_string());
    assert_eq!(options.port, 9913);
    assert_eq!(f64::from_bits(options.fps.bits), 30.0);
    assert_eq!(f64::from_bits(options.keyframe_interval_s.bits), 2.0);
    assert_eq!(options.heartbeat_timeout_ms, 15_000);
    let reply = accept_reply(&options);
    assert!(reply.ok);
    assert_eq!(reply.name.as_deref(), Some("Home PC"));
    assert_eq!(reply.bitrate, Some(6_000_000));
    assert_eq!(reply.codec.as_deref(), Some("h264"));
    assert!(reply.scale.is_none());
    assert!(reply.error.is_none());
}

#[test]
fn a_computer_without_a_name_is_called_something() {
    assert_eq!(shown_name(" \t"), "Nearscreen receiver");
    assert_eq!(shown_name(" IRA-PC "), " IRA-PC ");
    let name = gethostname::gethostname().to_string_lossy().to_string();
    assert_eq!(hostname(), shown_name(&name));
    assert_eq!(ServerOptions::default().name, hostname());
}

#[test]
fn settings_for_the_phone_are_one_record() {
    let body = br#"{"fps":15}"#;
    let mut expected = vec![0x11, 0, 0, 0, 0, 0, 0, 10, 0, 0, 0, 0, 0, 0, 0, 0];
    expected.extend_from_slice(body);
    assert_eq!(set_params(body), expected);
    assert_eq!(
        request_keyframe(),
        vec![0x10, 0, 0, 0, 0, 0, 0, 0, 0, 0, 0, 0, 0, 0, 0, 0]
    );
}
