use nearscreen_receiver::decode::media_foundation::{
    configure_output, drain_step, feed_step, frame_from, newest_of, pack_size, sample_time,
    unpack_size, visible_area, Feeding, Input, Output, OutputFormat, Told,
};
use nearscreen_receiver::decode::nv12::Nv12Frame;
use nearscreen_receiver::decode::video_toolbox::{
    self, copy_picture, is_expected_format, Plan, Plane, Toolbox,
};
use nearscreen_receiver::decode::{is_supported, preferred_codec, Support};
use nearscreen_receiver::net::protocol::Codec;

#[test]
fn h264_is_asked_for_when_hevc_cannot_be_decoded() {
    // Whatever a machine supports, the choice must be something we can actually name, and must
    // never be HEVC when HEVC is unavailable.
    for h264 in [false, true] {
        for hevc in [false, true] {
            let support = Support { h264, hevc };
            let chosen = preferred_codec(support, Some(Codec::Hevc));
            if !is_supported(support, Codec::Hevc) {
                assert_eq!(chosen, Codec::H264);
            }
        }
    }
}

#[test]
fn what_the_phone_would_send_is_asked_for_where_it_can_be_decoded() {
    let both = Support {
        h264: true,
        hevc: true,
    };
    assert_eq!(preferred_codec(both, Some(Codec::Hevc)), Codec::Hevc);
    assert_eq!(preferred_codec(both, Some(Codec::H264)), Codec::H264);
    assert_eq!(preferred_codec(both, None), Codec::H264);
}

#[test]
fn frame_sizes_pack_the_way_media_foundation_wants() {
    assert_eq!(unpack_size(pack_size(828, 1792)), (828, 1792));
    assert_eq!(pack_size(1, 2), 0x1_0000_0002);
    assert_eq!(
        unpack_size(pack_size(u32::MAX, u32::MAX)),
        (u32::MAX, u32::MAX)
    );
}

fn told() -> Told {
    Told {
        frame_size: pack_size(832, 1792),
        aperture: Some((828, 1792)),
        default_stride: Some(832),
        buffer_size: 0,
        flags: 0,
    }
}

#[test]
fn the_visible_part_of_a_padded_picture_is_shown() {
    let format = configure_output(&told(), 0x300);
    assert_eq!((format.width, format.height), (828, 1792));
    assert_eq!(format.coded_height, 1792);
    assert_eq!(format.stride, 832);
    assert_eq!(format.buffer_len, 832 * 1792 * 3 / 2);
    assert!(!format.decoder_allocates);
}

#[test]
fn a_decoder_that_tells_little_is_believed_in_the_rest() {
    assert!(told().can_fit());
    let vast = Told {
        frame_size: u64::MAX,
        aperture: None,
        default_stride: Some(0x8000_0000),
        ..told()
    };
    assert!(!vast.can_fit());
    let mut little = told();
    little.aperture = Some((0, 1792));
    little.default_stride = None;
    little.buffer_size = 9_000_000;
    little.flags = 0x200;
    let format = configure_output(&little, 0x300);
    assert_eq!((format.width, format.height), (832, 1792));
    assert_eq!(format.stride, 832);
    assert_eq!(format.buffer_len, 9_000_000);
    assert!(format.decoder_allocates);
    // Rows the other way round are as long, and never shorter than the picture.
    little.default_stride = Some((-900i32) as u32);
    assert_eq!(configure_output(&little, 0x300).stride, 900);
    little.default_stride = Some(10);
    assert_eq!(configure_output(&little, 0x300).stride, 832);
}

#[test]
fn a_size_that_is_none_says_nothing() {
    assert_eq!(visible_area(None), None);
    assert_eq!(visible_area(Some((-1, 5))), None);
    assert_eq!(visible_area(Some((5, 0))), None);
    assert_eq!(visible_area(Some((5, 6))), Some((5, 6)));
}

#[test]
fn the_planes_are_copied_past_the_padding() {
    let format = OutputFormat {
        width: 2,
        height: 2,
        coded_height: 4,
        stride: 2,
        buffer_len: 12,
        decoder_allocates: false,
    };
    let buffer = [1, 2, 3, 4, 0, 0, 0, 0, 5, 6, 7, 8];
    let frame = frame_from(&format, &buffer, Some(123_459));
    assert_eq!(frame.data, vec![1, 2, 3, 4, 5, 6]);
    assert_eq!(frame.pts_us, 12_345);
    assert_eq!((frame.width, frame.height, frame.stride), (2, 2, 2));
    // What the buffer does not hold stays zero.
    let frame = frame_from(&format, &buffer[..9], None);
    assert_eq!(frame.data, vec![1, 2, 3, 4, 5, 0]);
    assert_eq!(frame.pts_us, 0);
    let frame = frame_from(&format, &buffer[..3], Some(-50));
    assert_eq!(frame.data, vec![1, 2, 3, 0, 0, 0]);
    assert_eq!(frame.pts_us, 0);
}

#[test]
fn timestamps_are_counted_in_tenths() {
    assert_eq!(sample_time(12_345), 123_450);
    assert_eq!(sample_time(u64::MAX), -10);
}

fn picture(pts_us: u64) -> Nv12Frame {
    Nv12Frame {
        width: 0,
        height: 0,
        stride: 0,
        data: Vec::new(),
        pts_us,
    }
}

#[test]
fn the_newest_picture_is_kept() {
    let mut newest = None;
    assert!(drain_step(&mut newest, Output::Frame(picture(1))));
    assert!(drain_step(&mut newest, Output::FormatChanged));
    assert!(drain_step(&mut newest, Output::Frame(picture(2))));
    assert!(!drain_step(&mut newest, Output::NeedMoreInput));
    assert_eq!(newest.as_ref().map(|frame| frame.pts_us), Some(2));
    let shown = newest_of(None, newest);
    assert_eq!(shown.as_ref().map(|frame| frame.pts_us), Some(2));
    let shown = newest_of(Some(picture(3)), shown);
    assert_eq!(shown.map(|frame| frame.pts_us), Some(3));
}

#[test]
fn a_full_decoder_gets_one_more_chance() {
    assert_eq!(feed_step(Input::Accepted, false), Feeding::Drain);
    assert_eq!(feed_step(Input::NotAccepting, false), Feeding::DrainAndRetry);
    assert_eq!(feed_step(Input::Refused, false), Feeding::Fail);
    assert_eq!(feed_step(Input::Accepted, true), Feeding::Drain);
    assert_eq!(feed_step(Input::NotAccepting, true), Feeding::Fail);
}

#[test]
fn new_headers_start_a_new_session() {
    let headers = [0, 0, 1, 0x67, 1, 0, 0, 1, 0x68, 2];
    let keyframe = [0, 0, 1, 0x67, 1, 0, 0, 1, 0x68, 2, 0, 0, 1, 0x65, 3];
    let changed = [0, 0, 1, 0x67, 9, 0, 0, 1, 0x65, 3];
    let picture = [0, 0, 1, 0x41, 4];
    assert!(video_toolbox::is_supported(Codec::Hevc));
    let mut toolbox = Toolbox::new(Codec::H264);
    assert_eq!(toolbox.prepare(&picture), Plan::Wait);
    assert_eq!(toolbox.prepare(&headers), Plan::Start);
    toolbox.started();
    assert_eq!(toolbox.sample(&headers), None);
    assert_eq!(toolbox.prepare(&keyframe), Plan::Decode);
    assert_eq!(toolbox.sample(&keyframe), Some(vec![0, 0, 0, 2, 0x65, 3]));
    assert_eq!(toolbox.prepare(&picture), Plan::Decode);
    assert_eq!(toolbox.prepare(&changed), Plan::Start);
    assert!(!toolbox.running);
    toolbox.started();
    toolbox.flush();
    assert_eq!(toolbox.prepare(&picture), Plan::Wait);
}

#[test]
fn pictures_come_in_two_formats() {
    assert!(is_expected_format(u32::from_be_bytes(*b"420v")));
    assert!(is_expected_format(u32::from_be_bytes(*b"420f")));
    assert!(!is_expected_format(u32::from_be_bytes(*b"BGRA")));
}

#[test]
fn the_rows_of_both_planes_get_the_same_length() {
    let frame = copy_picture(
        2,
        2,
        Plane {
            bytes: &[1, 2, 3, 4],
            stride: 2,
            rows: 2,
        },
        Plane {
            bytes: &[5, 6, 7],
            stride: 3,
            rows: 1,
        },
    );
    assert_eq!(frame.stride, 3);
    assert_eq!(frame.data, vec![1, 2, 0, 3, 4, 0, 5, 6, 7]);
    assert_eq!((frame.width, frame.height, frame.pts_us), (2, 2, 0));
}

#[test]
fn what_no_plane_fills_stays_zero() {
    let frame = copy_picture(
        1,
        4,
        Plane {
            bytes: &[1, 2, 3, 4],
            stride: 1,
            rows: 4,
        },
        Plane {
            bytes: &[9],
            stride: 1,
            rows: 1,
        },
    );
    assert_eq!(frame.data, vec![1, 2, 3, 4, 9, 0]);
}
