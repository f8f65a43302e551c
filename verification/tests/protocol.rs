use nearscreen_receiver::net::protocol::{
    record, Codec, Header, Hello, HelloReply, Real, StreamConfig, FLAG_KEYFRAME, HEADER_SIZE,
};

#[test]
fn header_roundtrip() {
    let h = Header::new(record::VIDEO, FLAG_KEYFRAME, 123_456, 9_876_543_210);
    let bytes = h.encode();
    assert_eq!(bytes.len(), HEADER_SIZE);
    assert_eq!(Header::parse(&bytes), h);
    assert!(Header::parse(&bytes).is_keyframe());
}

#[test]
fn header_matches_the_wire_layout() {
    // type=1 flags=1 reserved=0 len=2 pts=3, big-endian, as the phone writes it.
    let wire: [u8; HEADER_SIZE] = [1, 1, 0, 0, 0, 0, 0, 2, 0, 0, 0, 0, 0, 0, 0, 3];
    let h = Header::parse(&wire);
    assert_eq!(h.rtype, record::VIDEO);
    assert_eq!(h.payload_len, 2);
    assert_eq!(h.pts_us, 3);
    assert_eq!(h.encode(), wire);
}

#[test]
fn reserved_bytes_are_ignored_on_read_and_zero_on_write() {
    let mut wire = [0u8; HEADER_SIZE];
    wire[2] = 0xAB;
    wire[3] = 0xCD;
    assert_eq!(Header::parse(&wire).payload_len, 0);
    assert_eq!(
        Header::new(record::HEARTBEAT, 0, 0, 0).encode()[2..4],
        [0, 0]
    );
}

#[test]
fn short_id_handles_ids_shorter_than_eight() {
    let hello = Hello {
        id: "ab12".to_string(),
        ..Hello::default()
    };
    assert_eq!(hello.short_id(), "AB12");
}


#[test]
fn hello_parses_and_tolerates_extra_fields() {
    let json = r#"{"v":1,"id":"AAAA-BBBB-1234A1B2C3D4","model":"iPhone12,1","ios":"26.5",
                   "name":"Ira iPhone","w":828,"h":1792,"codec":"h264","app":"0.1.0",
                   "future":"whatever"}"#;
    let value: serde_json::Value = serde_json::from_str(json).unwrap();
    let hello = Hello {
        v: value["v"].as_u64().unwrap() as u32,
        id: value["id"].as_str().unwrap().to_string(),
        name: value["name"].as_str().unwrap().to_string(),
        w: value["w"].as_u64().unwrap() as u32,
        h: value["h"].as_u64().unwrap() as u32,
        codec: value["codec"].as_str().unwrap().to_string(),
        ..Hello::default()
    };
    assert_eq!(hello.w, 828);
    assert_eq!(hello.short_id(), "A1B2C3D4");
    assert_eq!(hello.display_name(), "Ira iPhone");
    assert_eq!(Codec::parse(&hello.codec), Some(Codec::H264));
}

#[test]
fn config_record_parses() {
    let value: serde_json::Value =
        serde_json::from_str(r#"{"codec":"hevc","w":828,"h":1792,"fps":30,"bitrate":6000000}"#)
            .unwrap();
    let cfg = StreamConfig {
        codec: value["codec"].as_str().unwrap().to_string(),
        w: value["w"].as_u64().unwrap() as u32,
        h: value["h"].as_u64().unwrap() as u32,
        fps: Real {
            bits: value["fps"].as_f64().unwrap().to_bits(),
        },
        bitrate: value["bitrate"].as_i64().unwrap(),
    };
    assert_eq!(Codec::parse(&cfg.codec), Some(Codec::Hevc));
    assert_eq!((cfg.w, cfg.h), (828, 1792));
}

#[test]
fn reply_omits_what_it_does_not_set() {
    let reply = HelloReply::refused("busy");
    assert!(!reply.ok);
    assert_eq!(reply.error.as_deref(), Some("busy"));
    assert!(reply.name.is_none());
    assert!(reply.fps.is_none());
    assert!(reply.bitrate.is_none());
    assert!(reply.keyframe_interval_s.is_none());
    assert!(reply.codec.is_none());
    assert!(reply.scale.is_none());
}

#[test]
fn codecs_go_by_their_names_in_any_case() {
    for codec in [Codec::H264, Codec::Hevc] {
        assert_eq!(Codec::parse(codec.as_str()), Some(codec));
    }
    assert_eq!(Codec::parse("AVC"), Some(Codec::H264));
    assert_eq!(Codec::parse("H265"), Some(Codec::Hevc));
    assert_eq!(Codec::parse("HeVc"), Some(Codec::Hevc));
    assert_eq!(Codec::parse(" h264"), None);
    assert_eq!(Codec::parse("vp9"), None);
}

#[test]
fn records_have_names() {
    assert_eq!(record::name(record::VIDEO), "video");
    assert_eq!(record::name(record::HEARTBEAT), "heartbeat");
    assert_eq!(record::name(record::CONFIG), "config");
    assert_eq!(record::name(record::STATS), "stats");
    assert_eq!(record::name(record::LOG), "log");
    assert_eq!(record::name(record::REQUEST_KEYFRAME), "request_keyframe");
    assert_eq!(record::name(record::SET_PARAMS), "set_params");
    assert_eq!(record::name(0), "unknown");
}

#[test]
fn a_phone_without_a_name_is_an_iphone() {
    let hello = Hello {
        name: " \u{3000}\n".to_string(),
        ..Hello::default()
    };
    assert_eq!(hello.display_name(), "iPhone");
    assert_eq!(hello.short_id(), "");
}

#[test]
fn a_keyframe_is_marked_by_one_bit() {
    assert!(!Header::new(record::VIDEO, 0xFE, 0, 0).is_keyframe());
    assert!(Header::new(record::VIDEO, 0xFF, 0, 0).is_keyframe());
}

#[test]
fn a_header_holds_the_largest_numbers() {
    let header = Header::new(0xFF, 0x80, u32::MAX, u64::MAX);
    assert_eq!(Header::parse(&header.encode()), header);
    let header = Header::new(1, 2, 0x01020304, 0x05060708090A0B0C);
    assert_eq!(
        header.encode(),
        [1, 2, 0, 0, 1, 2, 3, 4, 5, 6, 7, 8, 9, 10, 11, 12]
    );
}
