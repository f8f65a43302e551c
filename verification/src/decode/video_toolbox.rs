//! The macOS decoder: what is decided around VideoToolbox.
//!
//! It wants the stream in a different shape than Windows does: the parameter sets describe the
//! format up front, and every access unit arrives with its lengths in front of it instead of
//! start codes.

use vstd::prelude::*;

use super::annexb::{
    any_news, differs, every_picture_is_found, latest, length_prefixed, news_is_a_set_that_differs,
    pictures, prefixed, read_prefixed, units_of, ParameterSets, Slot,
};
use super::nv12::Nv12Frame;
use super::planes::{copy_rows, rows_keep_their_bytes, widened};
use crate::net::protocol::Codec;

verus! {

/// Two-plane 8-bit 4:2:0, what a phone's encoder works in, video range: "420v".
pub const NV12_VIDEO_RANGE: u32 = 0x3432_3076;

/// The same, full range: "420f".
pub const NV12_FULL_RANGE: u32 = 0x3432_3066;

/// Every system on which the receiver can be built has VideoToolbox.
pub fn is_supported(_codec: Codec) -> (supported: bool)
    ensures
        supported,
{
    true
}

/// Where a VideoToolbox decoder stands.
#[derive(Debug)]
pub struct Toolbox {
    pub codec: Codec,
    pub parameters: ParameterSets,
    /// Whether a session is running.
    pub running: bool,
}

/// What to do with an access unit.
#[derive(Debug, Clone, Copy, PartialEq, Eq, Structural)]
pub enum Plan {
    /// Still waiting for a keyframe.
    Wait,
    /// Start a session for the parameter sets, then decode.
    Start,
    /// Decode in the session that is running.
    Decode,
}

impl Toolbox {
    /// What to do with an access unit that finds a session running or not, with or without news
    /// of the parameter sets, and with or without enough of them.
    pub open spec fn plan(running: bool, news: bool, complete: bool) -> Plan {
        if running && !news {
            Plan::Decode
        } else if complete {
            Plan::Start
        } else {
            Plan::Wait
        }
    }

    /// Whether this is a decoder for the codec that has seen nothing yet.
    pub open spec fn is_fresh(self, codec: Codec) -> bool {
        &&& self.codec == codec
        &&& self.parameters.vps is None
        &&& self.parameters.sps is None
        &&& self.parameters.pps is None
        &&& !self.running
    }

    /// Whether this is the decoder after it took the parameter sets of an access unit, and that is
    /// what to do with the access unit.
    pub open spec fn has_taken(self, access_unit: Seq<u8>, before: Toolbox, plan: Plan) -> bool {
        let units = units_of(access_unit);
        let codec = before.codec;
        let news = any_news(units, codec, before.parameters.contents());
        &&& self.codec == codec
        &&& self.running == (before.running && !news)
        &&& forall|slot: Slot| #[trigger]
            self.parameters.held(slot) == latest(units, codec, slot, before.parameters.held(slot))
        &&& plan == Toolbox::plan(before.running, news, self.parameters.describes(codec))
    }

    /// The access unit as VideoToolbox wants it.
    pub open spec fn sample_of(self, access_unit: Seq<u8>) -> Seq<u8> {
        prefixed(units_of(access_unit), self.codec)
    }

    pub fn new(codec: Codec) -> (toolbox: Self)
        ensures
            toolbox.is_fresh(codec),
    {
        Self { codec, parameters: ParameterSets::default(), running: false }
    }

    /// Takes the parameter sets of an access unit and says what to do with it. New headers end
    /// the session: it cannot decode what follows.
    pub fn prepare(&mut self, access_unit: &[u8]) -> (plan: Plan)
        ensures
            final(self).has_taken(access_unit@, *old(self), plan),
    {
        let codec = self.codec;
        if self.parameters.take_from(access_unit, codec) {
            self.running = false;
        }
        if self.running {
            return Plan::Decode;
        }
        if self.parameters.complete(codec) {
            Plan::Start
        } else {
            Plan::Wait
        }
    }

    /// A session was started.
    pub fn started(&mut self)
        ensures
            *final(self) == (Toolbox { running: true, ..*old(self) }),
    {
        self.running = true;
    }

    /// The access unit as VideoToolbox wants it; `None` where it holds parameter sets only and
    /// there is nothing to decode.
    pub fn sample(&self, access_unit: &[u8]) -> (sample: Option<Vec<u8>>)
        ensures
            match sample {
                Some(bytes) => {
                    &&& bytes@ == self.sample_of(access_unit@)
                    &&& bytes@.len() > 0
                },
                None => self.sample_of(access_unit@).len() == 0,
            },
    {
        let mut bytes: Vec<u8> = Vec::new();
        length_prefixed(access_unit, self.codec, &mut bytes);
        if bytes.len() == 0 {
            None
        } else {
            Some(bytes)
        }
    }

    /// Ending the session is the reset: the next keyframe builds a new one from the parameter
    /// sets that come with it.
    pub fn flush(&mut self)
        ensures
            final(self).is_fresh(old(self).codec),
    {
        self.running = false;
        self.parameters = ParameterSets::default();
    }
}

/// Whether a picture is in a format we can show.
pub open spec fn can_be_shown(format: u32) -> bool {
    format == NV12_VIDEO_RANGE || format == NV12_FULL_RANGE
}

/// Whether a picture is in a format we can show.
pub fn is_expected_format(format: u32) -> (expected: bool)
    ensures
        expected == can_be_shown(format),
{
    format == NV12_VIDEO_RANGE || format == NV12_FULL_RANGE
}

/// A plane of a picture in the system's buffer.
pub struct Plane<'a> {
    pub bytes: &'a [u8],
    /// Bytes per row.
    pub stride: usize,
    pub rows: usize,
}

impl Plane<'_> {
    /// Whether the memory behind the plane holds all of its rows.
    pub open spec fn whole(self) -> bool {
        self.rows * self.stride <= self.bytes@.len()
    }
}

/// Bytes per row of a picture made of two planes.
pub open spec fn common_stride(brightness: Plane, colour: Plane) -> int {
    if brightness.stride < colour.stride {
        colour.stride as int
    } else {
        brightness.stride as int
    }
}

/// Whether these are the bytes of a picture made of two planes: their rows, all of the same length,
/// and zeroes where there are none.
pub open spec fn holds_both(data: Seq<u8>, brightness: Plane, colour: Plane) -> bool {
    let stride = common_stride(brightness, colour);
    let planes = widened(
        brightness.bytes@,
        brightness.stride as int,
        stride,
        brightness.rows as int,
    ) + widened(colour.bytes@, colour.stride as int, stride, colour.rows as int);
    &&& data.len() == Nv12Frame::needed(stride, brightness.rows as int)
    &&& planes.len() <= data.len()
    &&& data.take(planes.len() as int) == planes
    &&& forall|i: int| planes.len() <= i < data.len() ==> #[trigger] data[i] == 0
}

/// Copies the decoder's picture out of the system's buffer and into one of ours, so nothing has
/// to stay locked after the call. The rows of both planes get the same length; what neither plane
/// fills stays zero.
pub fn copy_picture(width: u32, height: u32, brightness: Plane, colour: Plane) -> (frame: Nv12Frame)
    requires
        brightness.rows == height,
        brightness.whole(),
        colour.whole(),
        common_stride(brightness, colour) * height * 3 <= usize::MAX,
        colour.rows * common_stride(brightness, colour) <= common_stride(brightness, colour)
            * height / 2,
    ensures
        frame.width == width,
        frame.height == height,
        frame.stride == common_stride(brightness, colour),
        frame.pts_us == 0,
        holds_both(frame.data@, brightness, colour),
{
    let stride: usize = if brightness.stride < colour.stride {
        colour.stride
    } else {
        brightness.stride
    };
    let wanted: usize = Nv12Frame::buffer_len(stride, height);
    let mut data: Vec<u8> = Vec::new();
    copy_rows(&mut data, brightness.bytes, brightness.stride, stride, height as usize);
    copy_rows(&mut data, colour.bytes, colour.stride, stride, colour.rows);
    let ghost planes = data@;
    proof {
        assert(stride * height == height * stride) by (nonlinear_arith);
        assert(0 <= height * stride) by (nonlinear_arith);
        assert(0 <= colour.rows * stride) by (nonlinear_arith);
        assert(planes =~= widened(
            brightness.bytes@,
            brightness.stride as int,
            stride as int,
            height as int,
        ) + widened(colour.bytes@, colour.stride as int, stride as int, colour.rows as int));
        assert(planes.len() <= wanted);
    }
    while data.len() < wanted
        invariant
            planes.len() <= data@.len() <= wanted,
            data@.take(planes.len() as int) == planes,
            forall|i: int| planes.len() <= i < data@.len() ==> data@[i] == 0,
        decreases wanted - data@.len(),
    {
        data.push(0);
        assert(data@.take(planes.len() as int) =~= planes);
    }
    Nv12Frame { width, height, stride, data, pts_us: 0 }
}

/// An access unit is decoded in the session that runs unless it brings news; with news the session
/// ends. A session is started where none runs, or the one that did has ended, as soon as the
/// parameter sets are all there; until then it is waited.
pub proof fn sessions_end_with_news(running: bool, news: bool, complete: bool)
    ensures
        Toolbox::plan(running, news, complete) == Plan::Decode <==> running && !news,
        Toolbox::plan(running, news, complete) == Plan::Start <==> (!running || news) && complete,
        Toolbox::plan(running, news, complete) == Plan::Wait <==> (!running || news) && !complete,
{
}

/// A session outlives an access unit just where every parameter set in it is the one the session
/// has already; the sets that come are kept whether or not a session runs, and the codec stays.
pub proof fn new_sets_end_the_session(
    before: Toolbox,
    after: Toolbox,
    access_unit: Seq<u8>,
    plan: Plan,
)
    requires
        after.has_taken(access_unit, before, plan),
    ensures
        after.codec == before.codec,
        after.running <==> before.running && forall|i: int|
            0 <= i < units_of(access_unit).len() ==> !differs(
                #[trigger] units_of(access_unit)[i],
                before.codec,
                before.parameters.contents(),
            ),
        plan == Plan::Decode <==> after.running,
        plan == Plan::Start <==> !after.running && after.parameters.describes(before.codec),
        forall|slot: Slot| #[trigger]
            after.parameters.held(slot) == latest(
                units_of(access_unit),
                before.codec,
                slot,
                before.parameters.held(slot),
            ),
{
    news_is_a_set_that_differs(
        units_of(access_unit),
        before.codec,
        before.parameters.contents(),
    );
}

/// A sample reads back as the pieces of picture of the access unit, in their order, without the
/// parameter sets.
pub proof fn samples_hold_the_pictures(toolbox: Toolbox, access_unit: Seq<u8>)
    requires
        forall|i: int|
            0 <= i < units_of(access_unit).len() ==> (#[trigger] units_of(access_unit)[i]).len()
                <= u32::MAX,
    ensures
        read_prefixed(toolbox.sample_of(access_unit), 0) == pictures(
            units_of(access_unit),
            toolbox.codec,
        ),
{
    every_picture_is_found(units_of(access_unit), toolbox.codec);
}

/// A decoder begins, and begins again, with no session and no parameter sets.
pub proof fn fresh_decoders_know_nothing(toolbox: Toolbox, codec: Codec)
    ensures
        toolbox.is_fresh(codec) <==> toolbox.codec == codec && !toolbox.running
            && toolbox.parameters.vps is None && toolbox.parameters.sps is None
            && toolbox.parameters.pps is None,
{
}

/// The two formats that can be shown are those whose codes spell "420v" and "420f".
pub proof fn two_formats_can_be_shown(format: u32)
    ensures
        can_be_shown(format) <==> format == 0x100_0000 * ('4' as u32) + 0x1_0000 * ('2' as u32)
            + 0x100 * ('0' as u32) + ('v' as u32) || format == 0x100_0000 * ('4' as u32) + 0x1_0000
            * ('2' as u32) + 0x100 * ('0' as u32) + ('f' as u32),
{
}

/// The rows of a picture are as long as those of the wider plane.
pub proof fn rows_fit_both_planes(brightness: Plane, colour: Plane)
    ensures
        common_stride(brightness, colour) >= brightness.stride,
        common_stride(brightness, colour) >= colour.stride,
        common_stride(brightness, colour) == brightness.stride || common_stride(brightness, colour)
            == colour.stride,
        brightness.whole() <==> brightness.bytes@.len() >= brightness.rows * brightness.stride,
{
}

/// Every byte of a picture is copied from where its plane has it: the rows of brightness, then the
/// rows of colour, each from its start; what neither plane fills is zero.
pub proof fn both_planes_are_copied(
    data: Seq<u8>,
    brightness: Plane,
    colour: Plane,
    row: int,
    col: int,
)
    requires
        holds_both(data, brightness, colour),
        0 <= row,
        0 <= col < common_stride(brightness, colour),
    ensures
        ({
            let stride = common_stride(brightness, colour);
            let at = row * stride + col;
            let below = (brightness.rows + row) * stride + col;
            &&& row < brightness.rows ==> {
                &&& 0 <= at < data.len()
                &&& data[at] == if col < brightness.stride {
                    brightness.bytes@[row * brightness.stride + col]
                } else {
                    0
                }
            }
            &&& row < colour.rows ==> {
                &&& 0 <= below < data.len()
                &&& data[below] == if col < colour.stride {
                    colour.bytes@[row * colour.stride + col]
                } else {
                    0
                }
            }
            &&& row >= colour.rows && below < data.len() ==> data[below] == 0
        }),
{
    let stride = common_stride(brightness, colour);
    let first = widened(
        brightness.bytes@,
        brightness.stride as int,
        stride,
        brightness.rows as int,
    );
    let second = widened(colour.bytes@, colour.stride as int, stride, colour.rows as int);
    let planes = first + second;
    let at = row * stride + col;
    let below = (brightness.rows + row) * stride + col;
    assert(below == brightness.rows * stride + at) by (nonlinear_arith)
        requires
            at == row * stride + col,
            below == (brightness.rows + row) * stride + col,
    ;
    assert(0 <= brightness.rows * stride) by (nonlinear_arith)
        requires
            0 <= stride,
    ;
    assert(0 <= colour.rows * stride) by (nonlinear_arith)
        requires
            0 <= stride,
    ;
    assert(first.len() == brightness.rows * stride);
    assert(second.len() == colour.rows * stride);
    assert(data.take(planes.len() as int) == planes);
    if row < brightness.rows {
        rows_keep_their_bytes(
            brightness.bytes@,
            brightness.stride as int,
            stride,
            brightness.rows as int,
            row,
            col,
        );
        assert(planes[at] == first[at]);
        assert(data[at] == data.take(planes.len() as int)[at]);
    }
    if row < colour.rows {
        rows_keep_their_bytes(
            colour.bytes@,
            colour.stride as int,
            stride,
            colour.rows as int,
            row,
            col,
        );
        assert(planes[below] == second[at]);
        assert(data[below] == data.take(planes.len() as int)[below]);
    } else {
        assert(colour.rows * stride <= row * stride) by (nonlinear_arith)
            requires
                colour.rows <= row,
                0 <= stride,
        ;
    }
}

} // verus!
