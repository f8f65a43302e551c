//! Turning the phone's video into pictures with the decoder the operating system already has:
//! Media Foundation on Windows, VideoToolbox on macOS.

use vstd::prelude::*;

use crate::net::protocol::Codec;

pub mod annexb;
pub mod media_foundation;
pub mod nv12;
pub mod planes;
pub mod video_toolbox;

pub use nv12::Nv12Frame;

verus! {

/// What the decoders of this computer can decode.
#[derive(Debug, Clone, Copy, PartialEq, Eq, Structural)]
pub struct Support {
    pub h264: bool,
    pub hevc: bool,
}

impl Support {
    /// Whether the codec is among what can be decoded.
    pub open spec fn covers(self, codec: Codec) -> bool {
        match codec {
            Codec::H264 => self.h264,
            Codec::Hevc => self.hevc,
        }
    }
}

/// A decoder for one elementary stream: it takes Annex-B access units and gives pictures.
pub trait Decoder {
    /// Why a decoder gave up.
    type Failure;

    /// Feeds one Annex-B access unit and returns the newest picture that came out, if any. A
    /// decoder needs a keyframe before it can produce anything.
    fn decode(&mut self, access_unit: &[u8], pts_us: u64) -> Result<Option<Nv12Frame>, Self::Failure>;

    /// Throws away what is buffered: after a gap, before the next keyframe.
    fn flush(&mut self) -> Result<(), Self::Failure>;
}

/// Whether this computer can decode the codec at all. The answer decides what we ask the phone
/// to send: there is no point asking for HEVC on a Windows that never got the HEVC extension.
pub fn is_supported(support: Support, codec: Codec) -> (supported: bool)
    ensures
        supported == support.covers(codec),
{
    match codec {
        Codec::H264 => support.h264,
        Codec::Hevc => support.hevc,
    }
}

/// The codec to ask the phone for, given what it says it would send: that one if it can be
/// decoded here, and H.264 otherwise.
pub open spec fn preferred(support: Support, phone_default: Option<Codec>) -> Codec {
    match phone_default {
        Some(wanted) if support.covers(wanted) => wanted,
        _ => Codec::H264,
    }
}

/// The codec to ask the phone for, given what it says it would send: that one if it can be
/// decoded here, and H.264 otherwise.
pub fn preferred_codec(support: Support, phone_default: Option<Codec>) -> (codec: Codec)
    ensures
        codec == preferred(support, phone_default),
        codec == Codec::Hevc ==> support.hevc,
{
    let wanted = phone_default.unwrap_or(Codec::H264);
    if is_supported(support, wanted) {
        wanted
    } else {
        // Where H.264 cannot be decoded either, the first frame reports it.
        Codec::H264
    }
}

/// HEVC is asked for just where the phone would send it and it can be decoded here; in every other
/// case H.264 is.
pub proof fn hevc_takes_two(support: Support, phone_default: Option<Codec>)
    ensures
        preferred(support, phone_default) == Codec::Hevc <==> phone_default == Some(Codec::Hevc)
            && support.hevc,
        support.covers(Codec::H264) == support.h264,
        support.covers(Codec::Hevc) == support.hevc,
{
}

} // verus!
