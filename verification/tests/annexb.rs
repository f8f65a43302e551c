use nearscreen_receiver::decode::annexb::{
    is_parameter_set, kind, length_prefixed, nal_units, ParameterSets,
};
use nearscreen_receiver::net::protocol::Codec;

/// Builds an Annex-B buffer, four-byte start codes as the phone sends them.
fn annexb(units: &[&[u8]]) -> Vec<u8> {
    let mut out = Vec::new();
    for unit in units {
        out.extend_from_slice(&[0, 0, 0, 1]);
        out.extend_from_slice(unit);
    }
    out
}

#[test]
fn units_come_back_out_the_way_they_went_in() {
    let stream = annexb(&[&[0x67, 1, 2], &[0x68, 3], &[0x65, 4, 5, 6]]);
    let units: Vec<&[u8]> = nal_units(&stream).collect();
    assert_eq!(
        units,
        vec![&[0x67, 1, 2][..], &[0x68, 3][..], &[0x65, 4, 5, 6][..]]
    );
}

#[test]
fn three_byte_start_codes_are_understood_too() {
    let stream = [0, 0, 1, 0x67, 9, 0, 0, 1, 0x65, 8];
    let units: Vec<&[u8]> = nal_units(&stream).collect();
    assert_eq!(units, vec![&[0x67, 9][..], &[0x65, 8][..]]);
}

#[test]
fn trailing_zeroes_are_not_part_of_a_unit() {
    let stream = [0, 0, 0, 1, 0x65, 7, 0, 0];
    let units: Vec<&[u8]> = nal_units(&stream).collect();
    assert_eq!(units, vec![&[0x65, 7][..]]);
}

#[test]
fn rubbish_yields_nothing_rather_than_panicking() {
    assert_eq!(nal_units(&[]).count(), 0);
    assert_eq!(nal_units(&[0, 0, 0, 1]).count(), 0);
    assert_eq!(nal_units(&[1, 2, 3]).count(), 0);
}

#[test]
fn h264_parameter_sets_are_recognised() {
    let stream = annexb(&[&[0x67, 0x42], &[0x68, 0xCE], &[0x65, 0x88]]);
    let mut sets = ParameterSets::default();
    assert!(sets.take_from(&stream, Codec::H264));
    assert!(sets.complete(Codec::H264));
    assert_eq!(sets.sps.as_deref(), Some(&[0x67, 0x42][..]));
    assert_eq!(sets.pps.as_deref(), Some(&[0x68, 0xCE][..]));
    assert_eq!(sets.ordered().len(), 2, "no VPS in H.264");
    // The same sets again change nothing, so no decoder is rebuilt.
    assert!(!sets.take_from(&stream, Codec::H264));
}

#[test]
fn hevc_wants_a_vps_as_well() {
    // 32 = VPS, 33 = SPS, 34 = PPS, in the high bits of the first byte.
    let stream = annexb(&[&[32 << 1, 1], &[33 << 1, 2], &[34 << 1, 3], &[(19 << 1), 4]]);
    let mut sets = ParameterSets::default();
    assert!(sets.take_from(&stream, Codec::Hevc));
    assert!(sets.complete(Codec::Hevc));
    assert_eq!(sets.ordered().len(), 3);

    let mut without_vps = ParameterSets {
        vps: None,
        ..sets.clone()
    };
    assert!(!without_vps.complete(Codec::Hevc));
    assert!(without_vps.take_from(&stream, Codec::Hevc));
}

#[test]
fn a_new_sps_is_noticed() {
    let first = annexb(&[&[0x67, 0x42], &[0x68, 0xCE]]);
    let second = annexb(&[&[0x67, 0x4D], &[0x68, 0xCE]]);
    let mut sets = ParameterSets::default();
    assert!(sets.take_from(&first, Codec::H264));
    assert!(
        sets.take_from(&second, Codec::H264),
        "a different SPS must be noticed"
    );
    assert_eq!(sets.sps.as_deref(), Some(&[0x67, 0x4D][..]));
}

#[test]
fn length_prefixes_replace_start_codes_and_parameter_sets_are_left_out() {
    let stream = annexb(&[&[0x67, 1], &[0x68, 2], &[0x65, 3, 4, 5]]);
    let mut out = Vec::new();
    length_prefixed(&stream, Codec::H264, &mut out);
    assert_eq!(out, vec![0, 0, 0, 4, 0x65, 3, 4, 5]);
}

#[test]
fn a_frame_of_several_slices_keeps_all_of_them() {
    let stream = annexb(&[&[0x65, 1], &[0x65, 2]]);
    let mut out = Vec::new();
    length_prefixed(&stream, Codec::H264, &mut out);
    assert_eq!(out, vec![0, 0, 0, 2, 0x65, 1, 0, 0, 0, 2, 0x65, 2]);
}

#[test]
fn start_codes_of_both_lengths_may_be_mixed() {
    let stream = [0, 0, 1, 0x67, 9, 0, 0, 0, 1, 0x68, 0, 3, 0, 0, 1, 0x65, 8];
    let units: Vec<&[u8]> = nal_units(&stream).collect();
    assert_eq!(
        units,
        vec![&[0x67, 9][..], &[0x68, 0, 3][..], &[0x65, 8][..]]
    );
}

#[test]
fn what_stands_before_the_first_start_code_is_no_unit() {
    let stream = [5, 6, 7, 0, 0, 1, 0x65, 8];
    let mut units = nal_units(&stream);
    assert_eq!(units.next(), Some(&[0x65, 8][..]));
    assert_eq!(units.next(), None);
    assert_eq!(units.next(), None);
}

#[test]
fn empty_units_are_passed_over() {
    let stream = [0, 0, 1, 0, 0, 1, 0, 0, 0, 0, 1, 0x65, 8];
    let units: Vec<&[u8]> = nal_units(&stream).collect();
    assert_eq!(units, vec![&[0x65, 8][..]]);
}

#[test]
fn kinds_are_numbered_by_their_codec() {
    assert_eq!(kind(&[0x67], Codec::H264), 7);
    assert_eq!(kind(&[0xE5], Codec::H264), 5);
    assert_eq!(kind(&[33 << 1 | 1], Codec::Hevc), 33);
    assert_eq!(kind(&[0xFF], Codec::Hevc), 63);
    assert_eq!(kind(&[], Codec::H264), 0);
    assert_eq!(kind(&[], Codec::Hevc), 0);
    assert!(is_parameter_set(&[0x67], Codec::H264));
    assert!(is_parameter_set(&[0x68], Codec::H264));
    assert!(!is_parameter_set(&[0x65], Codec::H264));
    assert!(!is_parameter_set(&[32 << 1], Codec::H264));
    for kind in 30..=36u8 {
        assert_eq!(
            is_parameter_set(&[kind << 1], Codec::Hevc),
            (32..=34).contains(&kind)
        );
    }
}

#[test]
fn two_sets_for_one_slot_are_news_every_time() {
    let stream = annexb(&[&[0x67, 1], &[0x67, 2], &[0x68, 3]]);
    let mut sets = ParameterSets::default();
    assert!(sets.take_from(&stream, Codec::H264));
    let first = sets.clone();
    assert_eq!(sets.sps.as_deref(), Some(&[0x67, 2][..]));
    assert!(sets.take_from(&stream, Codec::H264));
    assert_eq!(sets, first, "but they leave what they left");
}

#[test]
fn an_access_unit_without_sets_changes_nothing() {
    let mut sets = ParameterSets::default();
    sets.take_from(&annexb(&[&[0x67, 1], &[0x68, 2]]), Codec::H264);
    let before = sets.clone();
    assert!(!sets.take_from(&annexb(&[&[0x65, 9]]), Codec::H264));
    assert_eq!(sets, before);
    assert!(sets.complete(Codec::H264));
    assert!(!sets.complete(Codec::Hevc));
    let ordered: Vec<&[u8]> = sets.ordered();
    assert_eq!(ordered, vec![&[0x67, 1][..], &[0x68, 2][..]]);
}

#[test]
fn lengths_lead_to_every_picture() {
    let stream = annexb(&[&[0x67, 1], &[0x65, 1, 2], &[0x68, 2], &[0x41]]);
    let mut out = vec![7; 3];
    length_prefixed(&stream, Codec::H264, &mut out);
    let mut found = Vec::new();
    let mut at = 0;
    while at < out.len() {
        let len = u32::from_be_bytes([out[at], out[at + 1], out[at + 2], out[at + 3]]) as usize;
        found.push(out[at + 4..at + 4 + len].to_vec());
        at += 4 + len;
    }
    assert_eq!(found, vec![vec![0x65, 1, 2], vec![0x41]]);
}

#[test]
fn buffers_laid_end_to_end_hold_the_units_of_both() {
    let firsts: [&[u8]; 5] = [
        b"",
        b"no code at all",
        b"\x00\x00\x01\x67one",
        b"\x00\x00\x00\x01\x67one\x00\x00\x01\x68two\x00\x00",
        b"\x00\x00",
    ];
    let seconds: [&[u8]; 2] = [
        b"\x00\x00\x01\x65three\x00\x00\x00\x01\x41four",
        b"\x00\x00\x00\x01\x65three",
    ];
    for a in firsts {
        for b in seconds {
            let mut both = a.to_vec();
            both.extend_from_slice(b);
            let mut expected: Vec<&[u8]> = nal_units(a).collect();
            expected.extend(nal_units(b).collect());
            let units: Vec<&[u8]> = nal_units(&both).collect();
            assert_eq!(units, expected);
        }
        let mut padded = a.to_vec();
        padded.extend_from_slice(&[0; 7]);
        let units: Vec<&[u8]> = nal_units(&padded).collect();
        let expected: Vec<&[u8]> = nal_units(a).collect();
        assert_eq!(units, expected);
    }
}
