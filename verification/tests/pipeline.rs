use nearscreen_receiver::decode::nv12::Nv12Frame;
use nearscreen_receiver::net::{Address, Codec, Hello, Peer, ServerEvent, StreamConfig};
use nearscreen_receiver::net::protocol::Real;
use nearscreen_receiver::pipeline::{
    save_ppm, spoken, Action, Decoded, Format, Pipeline, Reconfigured, Stats, Tally, VideoStep,
    KEYFRAME_EVERY, REPORT_EVERY,
};
use nearscreen_receiver::startup::{
    announced_interfaces, choose_codec, chosen_interface, preferred_first,
};
use nearscreen_receiver::net::Interfaces;

fn peer() -> Peer {
    Peer {
        address: Address::V4([192, 168, 1, 7]),
        port: 51000,
    }
}

fn started(codec: &str) -> ServerEvent {
    ServerEvent::SessionStarted {
        peer: peer(),
        hello: Hello {
            id: "VENDOR-ID-A1B2C3D4".to_string(),
            name: "Ira iPhone".to_string(),
            codec: codec.to_string(),
            w: 828,
            h: 1792,
            ..Hello::default()
        },
    }
}

fn config(codec: &str, w: u32) -> ServerEvent {
    ServerEvent::StreamConfig {
        peer: peer(),
        config: StreamConfig {
            codec: codec.to_string(),
            w,
            h: 1792,
            fps: Real { bits: 0 },
            bitrate: 0,
        },
    }
}

fn video(keyframe: bool, data: &[u8]) -> ServerEvent {
    ServerEvent::Video {
        pts_us: 7,
        keyframe,
        data: data.to_vec(),
    }
}

fn step(action: Action) -> VideoStep {
    match action {
        Action::Video { step, .. } => step,
        other => panic!("expected video, got {other:?}"),
    }
}

const FORMAT: Format = Format {
    codec: Codec::H264,
    width: 828,
    height: 1792,
};

#[test]
fn a_decoder_starts_with_a_keyframe() {
    let mut pipeline = Pipeline::new(false, 0);
    match pipeline.handle(started("h264"), 0) {
        Action::Streaming { device } => assert_eq!(device, "Ira iPhone (A1B2C3D4)"),
        other => panic!("expected a stream, got {other:?}"),
    }
    assert_eq!(
        step(pipeline.handle(video(false, &[1]), 1)),
        VideoStep::Drop { ask: true }
    );
    assert_eq!(
        step(pipeline.handle(video(false, &[1]), 2)),
        VideoStep::Drop { ask: false },
        "not twice in a second"
    );
    assert_eq!(
        step(pipeline.handle(video(true, &[1]), 3)),
        VideoStep::Build(FORMAT)
    );
    assert!(!pipeline.on_built(false));
    assert_eq!(
        step(pipeline.handle(video(true, &[1]), 4)),
        VideoStep::Build(FORMAT)
    );
    assert!(pipeline.on_built(true));
    assert_eq!(
        step(pipeline.handle(video(false, &[1]), 5)),
        VideoStep::Decode
    );
    assert_eq!(pipeline.stats.frames, 5);
    assert_eq!(pipeline.stats.keyframes, 2);
    assert_eq!(pipeline.stats.bytes, 5);
}

#[test]
fn a_new_shape_ends_the_decoder() {
    let mut pipeline = Pipeline::new(false, 0);
    pipeline.handle(started("h264"), 0);
    pipeline.on_built(true);
    assert!(matches!(
        pipeline.handle(config("h264", 828), 0),
        Action::Reconfigured(Reconfigured::Same)
    ));
    assert!(pipeline.decoding);
    assert!(matches!(
        pipeline.handle(config("vp9", 828), 0),
        Action::Reconfigured(Reconfigured::UnknownCodec)
    ));
    assert!(pipeline.decoding);
    match pipeline.handle(config("HEVC", 414), 0) {
        Action::Reconfigured(Reconfigured::Changed { format, ask }) => {
            assert_eq!(
                format,
                Format {
                    codec: Codec::Hevc,
                    width: 414,
                    height: 1792
                }
            );
            assert!(ask);
        }
        other => panic!("expected a change, got {other:?}"),
    }
    assert!(!pipeline.decoding);
    assert_eq!(
        step(pipeline.handle(video(false, &[]), KEYFRAME_EVERY - 1)),
        VideoStep::Drop { ask: false }
    );
    assert_eq!(
        step(pipeline.handle(video(false, &[]), KEYFRAME_EVERY)),
        VideoStep::Drop { ask: true }
    );
}

#[test]
fn a_decoder_that_gives_up_is_let_go() {
    let mut pipeline = Pipeline::new(false, 0);
    pipeline.handle(started("h264"), 0);
    pipeline.on_built(true);
    let after = pipeline.on_decoded(Decoded::Nothing, 0);
    assert!(!after.show && !after.save && !after.drop_decoder && !after.ask);
    let after = pipeline.on_decoded(Decoded::Failed, 0);
    assert!(after.drop_decoder && after.ask && !after.show);
    assert!(!pipeline.decoding);
}

#[test]
fn the_first_picture_is_kept_once() {
    let mut pipeline = Pipeline::new(true, 0);
    assert!(pipeline.on_decoded(Decoded::Picture, 0).save);
    let after = pipeline.on_decoded(Decoded::Picture, 0);
    assert!(after.show && !after.save);
    let mut careless = Pipeline::new(false, 0);
    assert!(!careless.on_decoded(Decoded::Picture, 0).save);
}

#[test]
fn a_phone_that_is_gone_is_asked_nothing() {
    let mut pipeline = Pipeline::new(false, 0);
    pipeline.handle(started("h264"), 0);
    pipeline.on_built(true);
    let ended = ServerEvent::SessionEnded {
        peer: peer(),
        reason: "gone".to_string(),
    };
    match pipeline.handle(ended, 5) {
        Action::Idle { reason } => assert_eq!(reason, "gone"),
        other => panic!("expected the end, got {other:?}"),
    }
    assert!(!pipeline.decoding);
    assert_eq!(
        step(pipeline.handle(video(false, &[]), 9)),
        VideoStep::Drop { ask: false }
    );
}

#[test]
fn a_stream_of_an_unknown_kind_is_not_decoded() {
    let mut pipeline = Pipeline::new(false, 0);
    pipeline.handle(started("vp9"), 0);
    assert_eq!(
        step(pipeline.handle(video(true, &[]), 0)),
        VideoStep::Drop { ask: false }
    );
}

#[test]
fn the_rest_is_for_the_log() {
    let mut pipeline = Pipeline::new(false, 0);
    let stats = ServerEvent::Stats {
        peer: peer(),
        json: "{}".to_string(),
    };
    assert!(matches!(
        pipeline.handle(stats, 0),
        Action::PhoneStats { .. }
    ));
    let refused = ServerEvent::Refused {
        peer: peer(),
        reason: "busy".to_string(),
    };
    assert!(matches!(
        pipeline.handle(refused, 0),
        Action::TurnedAway { .. }
    ));
    let log = ServerEvent::Log {
        peer: peer(),
        text: "x".to_string(),
    };
    assert!(matches!(pipeline.handle(log, 0), Action::Nothing));
}

#[test]
fn statistics_start_over_with_every_report() {
    let mut stats = Stats::new(100);
    assert!(!stats.due(100 + REPORT_EVERY - 1));
    assert!(stats.due(100 + REPORT_EVERY));
    assert!(!stats.due(0));
    assert_eq!(stats.report(200), None);
    stats.count(1000, true);
    stats.count(500, false);
    assert_eq!(
        stats.report(200 + REPORT_EVERY),
        Some(Tally {
            nanoseconds: REPORT_EVERY,
            frames: 2,
            keyframes: 1,
            bytes: 1500
        })
    );
    assert_eq!(stats, Stats::new(200 + REPORT_EVERY));
    stats.count(1, false);
    assert_eq!(stats.report(0), None, "no time has passed");
    stats.frames = u32::MAX;
    assert!(!stats.can_count(1));
    stats.frames = 3;
    stats.bytes = u64::MAX;
    assert!(!stats.can_count(1));
    assert!(stats.can_count(0));
}

#[test]
fn pictures_are_written_as_ppm() {
    let frame = Nv12Frame {
        width: 2,
        height: 2,
        stride: 3,
        data: vec![16, 235, 9, 126, 81, 9, 128, 128, 9],
        pts_us: 0,
    };
    let mut expected = b"P6\n2 2\n255\n".to_vec();
    expected.extend_from_slice(&[0, 0, 0, 255, 255, 255, 128, 128, 128, 0x4C, 0x4C, 0x4C]);
    assert_eq!(save_ppm(&frame), expected);
    let nothing = Nv12Frame {
        width: 0,
        height: 7,
        stride: 0,
        data: Vec::new(),
        pts_us: 0,
    };
    assert_eq!(save_ppm(&nothing), b"P6\n0 7\n255\n".to_vec());
}

#[test]
fn codecs_are_spoken_the_way_people_write_them() {
    assert_eq!(spoken(Codec::H264), "H.264");
    assert_eq!(spoken(Codec::Hevc), "HEVC");
}

#[test]
fn hevc_is_never_asked_for_in_vain() {
    assert_eq!(choose_codec(Codec::Hevc, true), Codec::Hevc);
    assert_eq!(choose_codec(Codec::Hevc, false), Codec::H264);
    assert_eq!(choose_codec(Codec::H264, true), Codec::H264);
    assert_eq!(choose_codec(Codec::H264, false), Codec::H264);
}

#[test]
fn the_command_line_wins_over_the_settings() {
    assert_eq!(chosen_interface(Some("a"), Some("b")), Some("a"));
    assert_eq!(chosen_interface(None, Some("b")), Some("b"));
    assert_eq!(chosen_interface(None, None), None);
    assert!(matches!(announced_interfaces(None, None), Interfaces::All));
    assert!(matches!(
        announced_interfaces(Some("eth0"), None),
        Interfaces::All
    ));
    assert!(matches!(
        announced_interfaces(Some("Loopback"), None),
        Interfaces::Loopback
    ));
    assert!(matches!(
        announced_interfaces(Some("10.0.0.5"), Some(Address::V4([10, 0, 0, 5]))),
        Interfaces::Only(Address::V4([10, 0, 0, 5]))
    ));
}

#[test]
fn the_preferred_address_comes_first() {
    let addresses = || {
        vec![
            Address::V4([10, 0, 0, 1]),
            Address::V4([10, 0, 0, 2]),
            Address::V4([10, 0, 0, 3]),
        ]
    };
    let texts = |addresses: Vec<Address>| -> Vec<String> {
        addresses.iter().map(|address| address.text()).collect()
    };
    assert_eq!(
        texts(preferred_first(
            addresses(),
            Some(Address::V4([10, 0, 0, 3]))
        )),
        vec!["10.0.0.3", "10.0.0.2", "10.0.0.1"]
    );
    assert_eq!(
        texts(preferred_first(
            addresses(),
            Some(Address::V4([10, 0, 0, 9]))
        )),
        texts(addresses())
    );
    assert_eq!(
        texts(preferred_first(addresses(), None)),
        texts(addresses())
    );
}
