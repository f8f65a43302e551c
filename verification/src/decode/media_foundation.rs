//! The Windows decoder: what is decided around Media Foundation.

use vstd::prelude::*;

use super::nv12::Nv12Frame;
use super::planes::{copy_stretch, stretch};

verus! {

/// Media Foundation counts time in 100-nanosecond units.
pub const HNS_PER_MICROSECOND: i64 = 10;

/// A frame size as Media Foundation packs it: the width above the height.
pub open spec fn packed(width: u32, height: u32) -> u64 {
    (width * 0x1_0000_0000 + height) as u64
}

/// Packs a frame size.
pub fn pack_size(width: u32, height: u32) -> (size: u64)
    ensures
        size == packed(width, height),
        size == width * 0x1_0000_0000 + height,
{
    assert(((width as u64) << 32) | height as u64 == width as u64 * 0x1_0000_0000
        + height as u64) by (bit_vector);
    ((width as u64) << 32) | height as u64
}

/// The width and the height that a packed frame size holds.
pub open spec fn unpacked(size: u64) -> (int, int) {
    ((size / 0x1_0000_0000) as int, (size % 0x1_0000_0000) as int)
}

/// Unpacks a frame size.
pub fn unpack_size(size: u64) -> (shape: (u32, u32))
    ensures
        shape.0 == unpacked(size).0,
        shape.1 == unpacked(size).1,
{
    ((size / 0x1_0000_0000) as u32, (size % 0x1_0000_0000) as u32)
}

/// A frame size comes out of its packing as it went in.
pub proof fn sizes_survive_packing(width: u32, height: u32)
    ensures
        packed(width, height) / 0x1_0000_0000 == width,
        packed(width, height) % 0x1_0000_0000 == height,
        unpacked(packed(width, height)) == (width as int, height as int),
{
}

/// The part of the decoder's output that is really the picture: `aperture` is its size as the
/// decoder tells it, where it tells one. A size that is not one says nothing.
pub fn visible_area(aperture: Option<(i32, i32)>) -> (area: Option<(u32, u32)>)
    ensures
        match area {
            Some(area) => {
                &&& aperture matches Some((cx, cy)) && cx == area.0 && cy == area.1
                &&& area.0 > 0
                &&& area.1 > 0
            },
            None => match aperture {
                Some((cx, cy)) => cx <= 0 || cy <= 0,
                None => true,
            },
        },
{
    match aperture {
        Some((cx, cy)) => if cx <= 0 || cy <= 0 {
            None
        } else {
            Some((cx as u32, cy as u32))
        },
        None => None,
    }
}

/// The shape of what comes out of the decoder.
#[derive(Debug, Clone, Copy, PartialEq, Eq, Structural)]
pub struct OutputFormat {
    /// The picture itself.
    pub width: u32,
    pub height: u32,
    /// What the decoder actually fills: the picture rounded up to whole macroblocks. The colour
    /// plane starts after *these* rows.
    pub coded_height: u32,
    /// Bytes per row: decoders pad rows, so this is usually wider than the picture.
    pub stride: usize,
    pub buffer_len: usize,
    /// Some decoders hand out their own buffers; others expect us to bring one.
    pub decoder_allocates: bool,
}

/// What a decoder tells about its output.
#[derive(Debug, Clone, Copy)]
pub struct Told {
    /// The packed size of the frames; zero where it tells none.
    pub frame_size: u64,
    pub aperture: Option<(i32, i32)>,
    /// Bytes per row, with a sign in the top bit.
    pub default_stride: Option<u32>,
    /// The least it wants a buffer to hold.
    pub buffer_size: u32,
    pub flags: u32,
}

/// How many bytes a signed number of them is, whichever way round the rows stand.
pub open spec fn magnitude(signed: u32) -> int {
    if signed <= i32::MAX {
        signed as int
    } else {
        0x1_0000_0000 - signed
    }
}

/// The larger of two.
pub open spec fn larger(a: int, b: int) -> int {
    if a < b {
        b
    } else {
        a
    }
}

impl Told {
    /// The size of the picture: the aperture where it tells one, and the whole frame otherwise.
    pub open spec fn picture(self) -> (int, int) {
        match self.aperture {
            Some((cx, cy)) if cx > 0 && cy > 0 => (cx as int, cy as int),
            _ => unpacked(self.frame_size),
        }
    }

    /// How many rows the decoder fills.
    pub open spec fn rows(self) -> int {
        unpacked(self.frame_size).1
    }

    /// Bytes per row: never less than the picture is wide.
    pub open spec fn row_len(self) -> int {
        match self.default_stride {
            Some(signed) => larger(magnitude(signed), self.picture().0),
            None => self.picture().0,
        }
    }

    /// Whether its pictures fit into the memory of this computer.
    pub open spec fn fits(self) -> bool {
        self.row_len() * self.rows() * 3 <= usize::MAX
    }

    /// The size of the picture. Decoders round it up to whole macroblocks and describe the part
    /// that is really the picture separately; without this the window would show a strip of
    /// padding.
    fn picture_size(&self) -> (size: (u32, u32))
        ensures
            size.0 == self.picture().0,
            size.1 == self.picture().1,
    {
        match visible_area(self.aperture) {
            Some(area) => area,
            None => unpack_size(self.frame_size),
        }
    }

    /// Bytes per row: never less than the picture is wide.
    fn stride(&self) -> (stride: u32)
        ensures
            stride == self.row_len(),
    {
        let (width, _): (u32, u32) = self.picture_size();
        let told: u32 = match self.default_stride {
            // A negative stride means bottom-up, which NV12 never is here.
            Some(signed) => if signed <= 0x7FFF_FFFF {
                signed
            } else {
                (0x1_0000_0000u64 - signed as u64) as u32
            },
            None => width,
        };
        if told < width {
            width
        } else {
            told
        }
    }

    /// Whether its pictures fit into the memory of this computer.
    pub fn can_fit(&self) -> (fits: bool)
        ensures
            fits == self.fits(),
    {
        let (_, rows): (u32, u32) = unpack_size(self.frame_size);
        let stride: u32 = self.stride();
        assert(0 <= stride * rows <= u32::MAX * u32::MAX) by (nonlinear_arith)
            requires
                0 <= stride <= u32::MAX,
                0 <= rows <= u32::MAX,
        ;
        stride as u128 * rows as u128 * 3 <= usize::MAX as u128
    }
}

/// The exact shape of a decoder's output, from what it tells. `provides` are the flags by which a
/// decoder says that it brings its own buffers.
pub fn configure_output(told: &Told, provides: u32) -> (format: OutputFormat)
    requires
        told.fits(),
    ensures
        format.is_told(*told, provides),
{
    let (_, coded_height): (u32, u32) = unpack_size(told.frame_size);
    let (width, height): (u32, u32) = told.picture_size();
    let stride: usize = told.stride() as usize;
    let needed: usize = Nv12Frame::buffer_len(stride, coded_height);
    let buffer_len: usize = if (told.buffer_size as usize) < needed {
        needed
    } else {
        told.buffer_size as usize
    };
    OutputFormat {
        width,
        height,
        coded_height,
        stride,
        buffer_len,
        decoder_allocates: told.flags & provides != 0,
    }
}

impl OutputFormat {
    /// Whether this is the shape that a decoder tells of.
    pub open spec fn is_told(self, told: Told, provides: u32) -> bool {
        &&& self.width == told.picture().0
        &&& self.height == told.picture().1
        &&& self.coded_height == told.rows()
        &&& self.stride == told.row_len()
        &&& self.buffer_len == larger(
            told.buffer_size as int,
            Nv12Frame::needed(told.row_len(), told.rows()),
        )
        &&& self.decoder_allocates == (told.flags & provides != 0)
    }

    /// The bytes of a picture out of the decoder's buffer: its brightness, then its colour.
    pub open spec fn picture_of(self, buffer: Seq<u8>) -> Seq<u8> {
        stretch(buffer, 0, self.luma_len() as nat) + stretch(
            buffer,
            self.colour_start(),
            (self.luma_len() / 2) as nat,
        )
    }

    /// How many bytes the brightness plane of a picture has.
    pub open spec fn luma_len(self) -> int {
        self.stride * self.height
    }

    /// Where the colour plane starts in the decoder's buffer: after the padded rows.
    pub open spec fn colour_start(self) -> int {
        self.stride * self.coded_height
    }
}

/// When a picture was taken, in microseconds, from a sample's time; zero where it has none.
pub open spec fn presented(time: Option<i64>) -> int {
    match time {
        Some(time) if time > 0 => time as int / 10,
        _ => 0,
    }
}

/// A picture out of the decoder's buffer. The two planes are copied separately: in the decoder's
/// buffer the colour plane sits after the *padded* rows, in ours after the visible ones. What the
/// buffer does not hold stays zero. `time` is the sample's time where it has one.
pub fn frame_from(format: &OutputFormat, buffer: &[u8], time: Option<i64>) -> (frame: Nv12Frame)
    requires
        format.luma_len() * 3 <= usize::MAX,
        format.colour_start() <= usize::MAX,
    ensures
        frame.width == format.width,
        frame.height == format.height,
        frame.stride == format.stride,
        frame.data@ == format.picture_of(buffer@),
        frame.pts_us == presented(time),
{
    assert(0 <= format.luma_len()) by (nonlinear_arith)
        requires
            format.luma_len() == format.stride * format.height,
    ;
    assert(0 <= format.colour_start()) by (nonlinear_arith)
        requires
            format.colour_start() == format.stride * format.coded_height,
    ;
    let luma_len: usize = format.stride * format.height as usize;
    let colour_start: usize = format.stride * format.coded_height as usize;
    let mut data: Vec<u8> = Vec::new();
    copy_stretch(&mut data, buffer, 0, luma_len);
    copy_stretch(&mut data, buffer, colour_start, luma_len / 2);
    assert(data@ =~= stretch(buffer@, 0, luma_len as nat) + stretch(
        buffer@,
        colour_start as int,
        (luma_len / 2) as nat,
    ));
    let pts_us: u64 = match time {
        Some(time) => if time > 0 {
            (time / HNS_PER_MICROSECOND) as u64
        } else {
            0
        },
        None => 0,
    };
    Nv12Frame { width: format.width, height: format.height, stride: format.stride, data, pts_us }
}

/// A picture out of the decoder's buffer has exactly the bytes a frame of its shape needs.
pub proof fn frames_have_their_size(format: OutputFormat, buffer: Seq<u8>)
    ensures
        format.picture_of(buffer).len() == format.stride * format.height * 3 / 2,
{
    assert(format.stride * format.height >= 0) by (nonlinear_arith);
}

/// A timestamp as a signed number of as many bits.
pub open spec fn signed(pts_us: u64) -> int {
    if pts_us <= i64::MAX {
        pts_us as int
    } else {
        pts_us - 0x1_0000_0000_0000_0000
    }
}

/// A timestamp in Media Foundation's units.
pub open spec fn ticks(pts_us: u64) -> int {
    signed(pts_us) * 10
}

/// A timestamp in Media Foundation's units.
pub fn sample_time(pts_us: u64) -> (time: i64)
    requires
        i64::MIN <= signed(pts_us) * 10 <= i64::MAX,
    ensures
        time == ticks(pts_us),
{
    let signed: i64 = if pts_us <= 0x7FFF_FFFF_FFFF_FFFF {
        pts_us as i64
    } else {
        -((u64::MAX - pts_us) as i64) - 1
    };
    signed * HNS_PER_MICROSECOND
}

/// A picture carries the timestamp of the access unit it was made from.
pub proof fn timestamps_survive_the_decoder(pts_us: u64, time: i64)
    requires
        0 <= signed(pts_us),
        time == ticks(pts_us),
    ensures
        presented(Some(time)) == pts_us,
{
}

/// One step of draining the decoder.
pub enum Output {
    Frame(Nv12Frame),
    NeedMoreInput,
    FormatChanged,
}

impl Output {
    /// Whether more may come out after this.
    pub open spec fn is_followed(self) -> bool {
        match self {
            Output::Frame(_) | Output::FormatChanged => true,
            Output::NeedMoreInput => false,
        }
    }
}

/// The newest picture after a step of draining.
pub open spec fn newest_after(newest: Option<Nv12Frame>, output: Output) -> Option<Nv12Frame> {
    match output {
        Output::Frame(frame) => Some(frame),
        _ => newest,
    }
}

/// Takes what the decoder hands over, keeping the newest picture: on a screen mirror, an older
/// one has no value. Says whether to go on draining.
pub fn drain_step(newest: &mut Option<Nv12Frame>, output: Output) -> (go_on: bool)
    ensures
        *final(newest) == newest_after(*old(newest), output),
        go_on == output.is_followed(),
{
    match output {
        Output::Frame(frame) => {
            *newest = Some(frame);
            true
        },
        Output::FormatChanged => true,
        Output::NeedMoreInput => false,
    }
}

/// What the decoder says to an access unit.
#[derive(Debug, Clone, Copy, PartialEq, Eq, Structural)]
pub enum Input {
    Accepted,
    /// It is full.
    NotAccepting,
    Refused,
}

/// What to do about it.
#[derive(Debug, Clone, Copy, PartialEq, Eq, Structural)]
pub enum Feeding {
    /// Take what is ready.
    Drain,
    /// Take what is ready, then it has room again: feed it once more.
    DrainAndRetry,
    /// The decoder refused the frame.
    Fail,
}

impl Feeding {
    /// What to do about what the decoder says to an access unit, which it was drained for or not.
    pub open spec fn after(input: Input, drained: bool) -> Feeding {
        match input {
            Input::Accepted => Feeding::Drain,
            Input::NotAccepting if !drained => Feeding::DrainAndRetry,
            _ => Feeding::Fail,
        }
    }
}

/// What to do about what the decoder says to an access unit. `drained` says that it was drained
/// for it already: a decoder that refuses after that is broken.
pub fn feed_step(input: Input, drained: bool) -> (step: Feeding)
    ensures
        step == Feeding::after(input, drained),
{
    match input {
        Input::Accepted => Feeding::Drain,
        Input::NotAccepting => if drained {
            Feeding::Fail
        } else {
            Feeding::DrainAndRetry
        },
        Input::Refused => Feeding::Fail,
    }
}

/// The picture to show of what came out before and after the access unit went in.
pub open spec fn newest_shown(
    later: Option<Nv12Frame>,
    earlier: Option<Nv12Frame>,
) -> Option<Nv12Frame> {
    if later is Some {
        later
    } else {
        earlier
    }
}

/// The picture to show of what came out before and after the access unit went in.
pub fn newest_of(later: Option<Nv12Frame>, earlier: Option<Nv12Frame>) -> (newest: Option<
    Nv12Frame,
>)
    ensures
        newest == newest_shown(later, earlier),
{
    match later {
        Some(frame) => Some(frame),
        None => earlier,
    }
}

/// The picture is what the decoder says is visible, where it says so with a size that is one; and
/// otherwise the whole frame.
pub proof fn the_visible_part_is_the_picture(told: Told, width: u32, height: u32)
    requires
        told.frame_size == packed(width, height),
    ensures
        told.aperture matches Some((cx, cy)) && cx > 0 && cy > 0 ==> told.picture() == (
            (told.aperture->0).0 as int,
            (told.aperture->0).1 as int,
        ),
        told.aperture is None || (told.aperture->0).0 <= 0 || (told.aperture->0).1 <= 0
            ==> told.picture() == (width as int, height as int),
        told.rows() == height,
{
}

/// Rows that stand upside down are as long as those that do not: a length and its negative are as
/// many bytes. No row is shorter than the picture is wide, and where a decoder says nothing of its
/// rows they are just that.
pub proof fn rows_are_long_enough(told: Told, len: u32)
    requires
        1 <= len <= 0x8000_0000,
    ensures
        len < 0x8000_0000 ==> magnitude(len) == len,
        magnitude((0x1_0000_0000 - len) as u32) == len,
        told.row_len() >= told.picture().0,
        told.default_stride is None ==> told.row_len() == told.picture().0,
        told.default_stride == Some((0x1_0000_0000 - len) as u32) && len >= told.picture().0
            ==> told.row_len() == len,
        told.default_stride == Some(len) && len >= told.picture().0 && len < 0x8000_0000
            ==> told.row_len() == len,
        told.row_len() > told.picture().0 ==> told.default_stride is Some && told.row_len()
            == magnitude(told.default_stride->0),
{
}

/// A buffer holds a whole frame and no less than the decoder wants, and no more than the larger of
/// the two.
pub proof fn buffers_hold_a_frame(format: OutputFormat, told: Told, provides: u32)
    requires
        format.is_told(told, provides),
        told.fits(),
    ensures
        format.width == told.picture().0,
        format.height == told.picture().1,
        format.coded_height == told.rows(),
        format.stride == told.row_len(),
        format.buffer_len >= format.stride * format.coded_height * 3 / 2,
        format.buffer_len >= told.buffer_size,
        format.buffer_len == told.buffer_size || format.buffer_len == format.stride
            * format.coded_height * 3 / 2,
        format.decoder_allocates <==> told.flags & provides != 0,
{
}

/// Every byte of a picture is copied from where the decoder put it: row by row the brightness, and
/// the rows of colour from behind the padded rows to behind the visible ones. What the decoder's
/// buffer does not hold is zero.
pub proof fn planes_are_copied_row_by_row(
    format: OutputFormat,
    buffer: Seq<u8>,
    row: int,
    col: int,
)
    requires
        0 <= row < format.height,
        0 <= col < format.stride,
    ensures
        ({
            let data = format.picture_of(buffer);
            let at = row * format.stride + col;
            let from = (format.coded_height + row) * format.stride + col;
            let to = (format.height + row) * format.stride + col;
            &&& 0 <= at < data.len()
            &&& data[at] == if at < buffer.len() {
                buffer[at]
            } else {
                0
            }
            &&& row < format.height / 2 ==> {
                &&& 0 <= to < data.len()
                &&& data[to] == if from < buffer.len() {
                    buffer[from]
                } else {
                    0
                }
            }
        }),
{
    let stride = format.stride as int;
    let height = format.height as int;
    let at = row * stride + col;
    assert(0 <= row * stride && at < stride * height) by (nonlinear_arith)
        requires
            0 <= row < height,
            0 <= col < stride,
            at == row * stride + col,
    ;
    assert((format.coded_height + row) * stride + col == stride * format.coded_height + at)
        by (nonlinear_arith)
        requires
            at == row * stride + col,
    ;
    assert((height + row) * stride + col == stride * height + at) by (nonlinear_arith)
        requires
            at == row * stride + col,
    ;
    assert(0 <= stride * format.coded_height) by (nonlinear_arith)
        requires
            0 <= stride,
    ;
    if row < height / 2 {
        assert(at < stride * height / 2) by (nonlinear_arith)
            requires
                0 <= row < height / 2,
                0 <= col < stride,
                at == row * stride + col,
        ;
    }
}

/// The time of a picture is that of its sample in whole microseconds, of ten units each; a sample
/// without a time, or from before the beginning, is at zero.
pub proof fn times_are_whole_microseconds(time: Option<i64>)
    ensures
        time matches Some(t) && t > 0 ==> 10 * presented(time) <= time->0 < 10 * presented(time)
            + 10,
        time is None || time->0 <= 0 ==> presented(time) == 0,
        HNS_PER_MICROSECOND == 10,
{
}

/// A timestamp goes in as ten times itself, as long as it fits.
pub proof fn timestamps_go_in_tenfold(pts_us: u64)
    ensures
        pts_us < 0x8000_0000_0000_0000 ==> ticks(pts_us) == 10 * pts_us,
        -0x8000_0000_0000_0000 <= signed(pts_us) < 0x8000_0000_0000_0000,
        (signed(pts_us) - pts_us) % 0x1_0000_0000_0000_0000 == 0,
{
}

/// A later picture takes the place of an earlier one, and nothing else does.
pub proof fn the_newest_picture_is_shown(
    later: Option<Nv12Frame>,
    earlier: Option<Nv12Frame>,
    frame: Nv12Frame,
)
    ensures
        newest_shown(Some(frame), earlier) == Some(frame),
        newest_shown(None, earlier) == earlier,
        newest_after(earlier, Output::Frame(frame)) == Some(frame),
        newest_after(earlier, Output::NeedMoreInput) == earlier,
        newest_after(earlier, Output::FormatChanged) == earlier,
        newest_shown(later, earlier) is None <==> later is None && earlier is None,
        Output::Frame(frame).is_followed(),
        Output::FormatChanged.is_followed(),
        !Output::NeedMoreInput.is_followed(),
{
}

/// A full decoder is drained and fed once more, but only once: one that has no room after that is
/// broken, as is one that refuses.
pub proof fn decoders_get_a_second_chance(input: Input, drained: bool)
    ensures
        Feeding::after(input, drained) == Feeding::Drain <==> input == Input::Accepted,
        Feeding::after(input, drained) == Feeding::DrainAndRetry <==> input == Input::NotAccepting
            && !drained,
        Feeding::after(input, true) != Feeding::DrainAndRetry,
        input == Input::Refused ==> Feeding::after(input, drained) == Feeding::Fail,
{
}

} // verus!
