//! Decoded pictures and how they reach the screen.
//!
//! Hardware decoders hand back NV12: an 8-bit brightness plane followed by a half-size plane of
//! interleaved colour. Rather than convert a whole frame and then scale it, the blit below
//! samples the source once per pixel it actually draws: the work is bounded by the window, not
//! by the phone's screen.

use vstd::prelude::*;

verus! {

/// One decoded picture, exactly as the decoder produced it.
pub struct Nv12Frame {
    pub width: u32,
    pub height: u32,
    /// Bytes per row, the same for both planes; usually more than `width`.
    pub stride: usize,
    /// The brightness plane, then the colour plane.
    pub data: Vec<u8>,
    /// The phone's timestamp for this picture.
    pub pts_us: u64,
}

impl Clone for Nv12Frame {
    fn clone(&self) -> (copy: Self)
        ensures
            copy.width == self.width,
            copy.height == self.height,
            copy.stride == self.stride,
            copy.data@ == self.data@,
            copy.pts_us == self.pts_us,
    {
        let data = self.data.clone();
        assert(data@ =~= self.data@);
        Nv12Frame {
            width: self.width,
            height: self.height,
            stride: self.stride,
            data,
            pts_us: self.pts_us,
        }
    }
}

/// A value brought into the range of a colour channel.
pub open spec fn clamped(value: int) -> int {
    if value < 0 {
        0
    } else if value > 255 {
        255
    } else {
        value
    }
}

/// The red, green and blue of a limited-range BT.709 colour. `/` rounds down.
pub open spec fn channels(y: u8, cb: u8, cr: u8) -> (int, int, int) {
    let c = (y - 16) * 298;
    let d = cb - 128;
    let e = cr - 128;
    (
        clamped((c + 459 * e + 128) / 256),
        clamped((c - 55 * d - 136 * e + 128) / 256),
        clamped((c + 541 * d + 128) / 256),
    )
}

/// A colour as a `0RGB` pixel.
pub open spec fn rgb(y: u8, cb: u8, cr: u8) -> int {
    let (r, g, b) = channels(y, cb, cr);
    r * 0x1_0000 + g * 0x100 + b
}

/// BT.709 limited range: what phone encoders produce.
pub fn to_rgb(y: u8, cb: u8, cr: u8) -> (pixel: u32)
    ensures
        pixel == rgb(y, cb, cr),
{
    let c: i32 = (y as i32 - 16) * 298;
    let d: i32 = cb as i32 - 128;
    let e: i32 = cr as i32 - 128;
    let r: u32 = clamp8(c + 459 * e + 128);
    let g: u32 = clamp8(c - 55 * d - 136 * e + 128);
    let b: u32 = clamp8(c + 541 * d + 128);
    assert((r << 16) | (g << 8) | b == r * 0x1_0000 + g * 0x100 + b) by (bit_vector)
        requires
            r <= 255,
            g <= 255,
            b <= 255,
    ;
    (r << 16) | (g << 8) | b
}

/// The eight bits above the fraction, brought into the range of a colour channel.
fn clamp8(scaled: i32) -> (channel: u32)
    ensures
        channel == clamped(scaled as int / 256),
{
    let value: i32 = scaled >> 8;
    assert(value == scaled as int / 256) by (bit_vector)
        requires
            value == scaled >> 8,
    ;
    if value < 0 {
        0
    } else if value > 255 {
        255
    } else {
        value as u32
    }
}

/// At least one.
pub open spec fn at_least_one(n: int) -> int {
    if n < 1 {
        1
    } else {
        n
    }
}

/// The largest size with the shape of a `sw` x `sh` picture that fits into `dw` x `dh`.
pub open spec fn fitted(dw: int, dh: int, sw: int, sh: int) -> (int, int) {
    if dw * sh <= dh * sw {
        (dw, at_least_one(dw * sh / sw))
    } else {
        (at_least_one(dh * sw / sh), dh)
    }
}

proof fn product_fits(a: int, b: int)
    by (nonlinear_arith)
    requires
        0 <= a <= u32::MAX,
        0 <= b <= u32::MAX,
    ensures
        0 <= a * b <= u32::MAX * u32::MAX,
{
}

proof fn division_undoes(a: int, b: int, c: int)
    by (nonlinear_arith)
    requires
        0 <= a <= b * c,
        c > 0,
    ensures
        0 <= a / c <= b,
{
}

proof fn scaled_stays_below(a: int, b: int, c: int)
    by (nonlinear_arith)
    requires
        0 <= a < c,
        b > 0,
    ensures
        0 <= a * b / c < b,
{
}

proof fn rows_fit(row: int, rows: int, stride: int)
    by (nonlinear_arith)
    requires
        0 <= row <= rows,
        0 <= stride,
    ensures
        0 <= row * stride <= rows * stride,
{
}

/// A picture never outgrows the window it is fitted into, nor vanishes in it.
pub proof fn fitted_fits(dw: int, dh: int, sw: int, sh: int)
    requires
        dw > 0,
        dh > 0,
        sw > 0,
        sh > 0,
    ensures
        1 <= fitted(dw, dh, sw, sh).0 <= dw,
        1 <= fitted(dw, dh, sw, sh).1 <= dh,
        fitted(dw, dh, sw, sh).0 == dw || fitted(dw, dh, sw, sh).1 == dh,
{
    rows_fit(0, dw, sh);
    rows_fit(0, dh, sw);
    if dw * sh <= dh * sw {
        division_undoes(dw * sh, dh, sw);
    } else {
        assert(dh * sw <= dw * sh);
        division_undoes(dh * sw, dw, sh);
    }
}

/// A window of the picture's own shape is filled by it.
pub proof fn same_shape_fills(dw: int, dh: int, sw: int, sh: int)
    requires
        dw > 0,
        dh > 0,
        sw > 0,
        sh > 0,
        dw * sh == dh * sw,
    ensures
        fitted(dw, dh, sw, sh) == (dw, dh),
{
    assert(dh * sw / sw == dh) by (nonlinear_arith)
        requires
            sw > 0,
    ;
}

/// In a window of the picture's own shape every pixel shows the picture: there are no bars.
pub proof fn same_shape_has_no_bars(
    frame: Nv12Frame,
    dw: int,
    dh: int,
    background: u32,
    row: int,
    col: int,
)
    requires
        frame.width > 0,
        frame.height > 0,
        dw * frame.height == dh * frame.width,
        0 <= row < dh,
        0 <= col < dw,
    ensures
        frame.pixel_at(dw, dh, background, row, col) == frame.colour_at(
            col * frame.width / dw,
            row * frame.height / dh,
        ),
{
    same_shape_fills(dw, dh, frame.width as int, frame.height as int);
}

/// Without colour the three channels agree: grey stays grey.
pub proof fn grey_stays_grey(y: u8)
    ensures
        channels(y, 128, 128).0 == channels(y, 128, 128).1,
        channels(y, 128, 128).1 == channels(y, 128, 128).2,
{
}

/// Every colour is a `0RGB` pixel: the top byte is zero, and each channel is its own byte.
pub proof fn colours_are_0rgb(y: u8, cb: u8, cr: u8)
    ensures
        0 <= rgb(y, cb, cr) <= 0xFF_FFFF,
        rgb(y, cb, cr) / 0x1_0000 == channels(y, cb, cr).0,
        rgb(y, cb, cr) / 0x100 % 256 == channels(y, cb, cr).1,
        rgb(y, cb, cr) % 256 == channels(y, cb, cr).2,
{
    let (r, g, b) = channels(y, cb, cr);
    bytes_come_apart(r, g, b);
}

proof fn bytes_come_apart(r: int, g: int, b: int)
    requires
        0 <= r <= 255,
        0 <= g <= 255,
        0 <= b <= 255,
    ensures
        0 <= r * 0x1_0000 + g * 0x100 + b <= 0xFF_FFFF,
        (r * 0x1_0000 + g * 0x100 + b) / 0x1_0000 == r,
        (r * 0x1_0000 + g * 0x100 + b) / 0x100 % 256 == g,
        (r * 0x1_0000 + g * 0x100 + b) % 256 == b,
{
}

fn sample(plane: &[u8], base: usize, at: usize, otherwise: u8) -> (byte: u8)
    ensures
        byte == if base + at < plane@.len() {
            plane@[base + at]
        } else {
            otherwise
        },
{
    if base < plane.len() && at < plane.len() - base {
        plane[base + at]
    } else {
        otherwise
    }
}

impl Nv12Frame {
    /// How many bytes the brightness plane is meant to have.
    pub open spec fn luma_len(self) -> int {
        self.height * self.stride
    }

    /// The brightness plane, as far as there is data for it.
    pub open spec fn luma_plane(self) -> Seq<u8> {
        if self.luma_len() <= self.data@.len() {
            self.data@.take(self.luma_len())
        } else {
            self.data@
        }
    }

    /// The colour plane, as far as there is data for it.
    pub open spec fn colour_plane(self) -> Seq<u8> {
        if self.luma_len() <= self.data@.len() {
            self.data@.skip(self.luma_len())
        } else {
            Seq::empty()
        }
    }

    /// The colour of the picture at `sx`, `sy`: black brightness and no colour where there is
    /// no data.
    pub open spec fn colour_at(self, sx: int, sy: int) -> int {
        let luma = byte_or(self.luma_plane(), sy * self.stride + sx, 16);
        let pair = (sy / 2) * self.stride + (sx - sx % 2);
        rgb(
            luma,
            byte_or(self.colour_plane(), pair, 128),
            byte_or(self.colour_plane(), pair + 1, 128),
        )
    }

    /// What is drawn at a row and column of a `dw` x `dh` window: the picture, scaled to fit and
    /// centred, with `background` around it.
    pub open spec fn pixel_at(self, dw: int, dh: int, background: u32, row: int, col: int) -> int {
        if self.width == 0 || self.height == 0 {
            background as int
        } else {
            let (w, h) = fitted(dw, dh, self.width as int, self.height as int);
            let x0 = (dw - w) / 2;
            let y0 = (dh - h) / 2;
            if y0 <= row < y0 + h && x0 <= col < x0 + w {
                self.colour_at((col - x0) * self.width / w, (row - y0) * self.height / h)
            } else {
                background as int
            }
        }
    }

    /// Whether `after` is `before` with the picture drawn into its first `dw * dh` pixels, row by
    /// row; too few pixels are left as they are.
    pub open spec fn is_drawn(
        self,
        before: Seq<u32>,
        after: Seq<u32>,
        dw: int,
        dh: int,
        background: u32,
    ) -> bool {
        &&& after.len() == before.len()
        &&& before.len() < dw * dh ==> after == before
        &&& before.len() >= dw * dh ==> {
            &&& forall|i: int|
                0 <= i < dw * dh ==> #[trigger] after[i] == self.pixel_at(
                    dw,
                    dh,
                    background,
                    i / dw,
                    i % dw,
                )
            &&& forall|i: int| dw * dh <= i < before.len() ==> #[trigger] after[i] == before[i]
        }
    }

    /// How many bytes a frame of this shape needs: a byte of brightness for each pixel of a row,
    /// and two of colour for each four.
    pub open spec fn needed(stride: int, height: int) -> int {
        stride * height * 3 / 2
    }

    /// How many bytes a frame of this shape needs.
    pub fn buffer_len(stride: usize, height: u32) -> (len: usize)
        requires
            stride * height * 3 <= usize::MAX,
        ensures
            len == Nv12Frame::needed(stride as int, height as int),
    {
        assert(0 <= stride * height) by (nonlinear_arith);
        stride * height as usize * 3 / 2
    }

    fn y_plane(&self) -> (plane: &[u8])
        requires
            self.luma_len() <= usize::MAX,
        ensures
            plane@ == self.luma_plane(),
    {
        assert(self.stride * self.height == self.luma_len()) by (nonlinear_arith)
            requires
                self.luma_len() == self.height * self.stride,
        ;
        let all = self.data.as_slice();
        let end: usize = self.stride * self.height as usize;
        if end <= all.len() {
            &all[0..end]
        } else {
            all
        }
    }

    fn uv_plane(&self) -> (plane: &[u8])
        requires
            self.luma_len() <= usize::MAX,
        ensures
            plane@ == self.colour_plane(),
    {
        assert(self.stride * self.height == self.luma_len()) by (nonlinear_arith)
            requires
                self.luma_len() == self.height * self.stride,
        ;
        let all = self.data.as_slice();
        let start: usize = self.stride * self.height as usize;
        let from: usize = if start <= all.len() {
            start
        } else {
            all.len()
        };
        let plane = &all[from..all.len()];
        assert(plane@ =~= self.colour_plane());
        plane
    }

    /// Draws the picture into a `dst_width` x `dst_height` buffer of `0RGB` pixels, scaled to fit
    /// and centred, with `background` around it.
    pub fn blit_fit(&self, dst: &mut [u32], dst_width: u32, dst_height: u32, background: u32)
        requires
            self.luma_len() <= usize::MAX,
        ensures
            self.is_drawn(
                old(dst)@,
                final(dst)@,
                dst_width as int,
                dst_height as int,
                background,
            ),
    {
        let dw: u64 = dst_width as u64;
        let dh: u64 = dst_height as u64;
        let ghost area = dst_width * dst_height;
        proof {
            product_fits(dst_width as int, dst_height as int);
        }
        if (dst.len() as u64) < dw * dh {
            return;
        }
        if dw == 0 || dh == 0 {
            assert(area == 0) by (nonlinear_arith)
                requires
                    area == dst_width * dst_height,
                    dst_width == 0 || dst_height == 0,
            ;
            return;
        }
        let pixels: usize = (dw * dh) as usize;
        if self.width == 0 || self.height == 0 {
            let mut i: usize = 0;
            while i < pixels
                invariant
                    i <= pixels <= dst@.len(),
                    dst@.len() == old(dst)@.len(),
                    forall|j: int| 0 <= j < i ==> dst@[j] == background,
                    forall|j: int| i <= j < dst@.len() ==> dst@[j] == old(dst)@[j],
                decreases pixels - i,
            {
                dst[i] = background;
                i += 1;
            }
            return;
        }
        let sw: u64 = self.width as u64;
        let sh: u64 = self.height as u64;
        proof {
            product_fits(dw as int, sh as int);
            product_fits(dh as int, sw as int);
            fitted_fits(dw as int, dh as int, sw as int, sh as int);
        }
        // The largest rectangle with the picture's shape that still fits.
        let (rect_w, rect_h): (u64, u64) = if dw * sh <= dh * sw {
            (dw, or_one(dw * sh / sw))
        } else {
            (or_one(dh * sw / sh), dh)
        };
        assert((rect_w as int, rect_h as int) == fitted(dw as int, dh as int, sw as int, sh as int));
        let x0: u64 = (dw - rect_w) / 2;
        let y0: u64 = (dh - rect_h) / 2;
        let y_plane = self.y_plane();
        let uv_plane = self.uv_plane();
        let mut at: usize = 0;
        let mut row: u64 = 0;
        while row < dh
            invariant
                row <= dh,
                dw == dst_width,
                dh == dst_height,
                sw == self.width,
                sh == self.height,
                0 < dw,
                0 < sw,
                0 < sh,
                1 <= rect_w <= dw,
                1 <= rect_h <= dh,
                (rect_w as int, rect_h as int) == fitted(
                    dw as int,
                    dh as int,
                    sw as int,
                    sh as int,
                ),
                x0 == (dw - rect_w) / 2,
                y0 == (dh - rect_h) / 2,
                self.luma_len() <= usize::MAX,
                y_plane@ == self.luma_plane(),
                uv_plane@ == self.colour_plane(),
                pixels == dst_width * dst_height,
                pixels <= dst@.len(),
                dst@.len() == old(dst)@.len(),
                at == row * dw,
                at <= pixels,
                forall|i: int|
                    0 <= i < at ==> #[trigger] dst@[i] == self.pixel_at(
                        dw as int,
                        dh as int,
                        background,
                        i / dw as int,
                        i % dw as int,
                    ),
                forall|i: int| at <= i < dst@.len() ==> #[trigger] dst@[i] == old(dst)@[i],
            decreases dh - row,
        {
            let shown = y0 <= row && row - y0 < rect_h;
            proof {
                if shown {
                    product_fits(row - y0, sh as int);
                    scaled_stays_below(row - y0, sh as int, rect_h as int);
                }
            }
            let sy: u64 = if shown {
                (row - y0) * sh / rect_h
            } else {
                0
            };
            proof {
                rows_fit(sy as int, self.height as int, self.stride as int);
                rows_fit(sy as int / 2, self.height as int, self.stride as int);
            }
            let y_base: usize = sy as usize * self.stride;
            let uv_base: usize = (sy / 2) as usize * self.stride;
            let ghost line = at as int;
            proof {
                assert(line + dw == (row + 1) * dw) by (nonlinear_arith)
                    requires
                        line == row * dw,
                ;
                rows_fit(row + 1, dh as int, dw as int);
                assert(dh * dw == dw * dh) by (nonlinear_arith);
            }
            let mut col: u64 = 0;
            while col < dw
                invariant
                    col <= dw,
                    row < dh,
                    dw == dst_width,
                    dh == dst_height,
                    sw == self.width,
                    sh == self.height,
                    0 < dw,
                    0 < sw,
                    0 < sh,
                    1 <= rect_w <= dw,
                    1 <= rect_h <= dh,
                    (rect_w as int, rect_h as int) == fitted(
                        dw as int,
                        dh as int,
                        sw as int,
                        sh as int,
                    ),
                    x0 == (dw - rect_w) / 2,
                    y0 == (dh - rect_h) / 2,
                    y_plane@ == self.luma_plane(),
                    uv_plane@ == self.colour_plane(),
                    shown == (y0 <= row < y0 + rect_h),
                    shown ==> sy == (row - y0) * sh / (rect_h as int),
                    y_base == sy * self.stride,
                    uv_base == (sy / 2) * self.stride,
                    line == row * dw,
                    at == line + col,
                    line + dw <= dst@.len(),
                    dst@.len() == old(dst)@.len(),
                    forall|i: int|
                        0 <= i < at ==> #[trigger] dst@[i] == self.pixel_at(
                            dw as int,
                            dh as int,
                            background,
                            i / dw as int,
                            i % dw as int,
                        ),
                    forall|i: int| at <= i < dst@.len() ==> #[trigger] dst@[i] == old(dst)@[i],
                decreases dw - col,
            {
                proof {
                    vstd::arithmetic::div_mod::lemma_fundamental_div_mod_converse(
                        at as int,
                        dw as int,
                        row as int,
                        col as int,
                    );
                }
                if shown && x0 <= col && col - x0 < rect_w {
                    proof {
                        product_fits(col - x0, sw as int);
                        scaled_stays_below(col - x0, sw as int, rect_w as int);
                    }
                    let sx: u64 = (col - x0) * sw / rect_w;
                    let pair: usize = (sx - sx % 2) as usize;
                    let luma: u8 = sample(y_plane, y_base, sx as usize, 16);
                    let cb: u8 = sample(uv_plane, uv_base, pair, 128);
                    let cr: u8 = sample(uv_plane, uv_base, pair + 1, 128);
                    dst[at] = to_rgb(luma, cb, cr);
                } else {
                    dst[at] = background;
                }
                at += 1;
                col += 1;
            }
            row += 1;
        }
        assert(row * dw == dw * dh) by (nonlinear_arith)
            requires
                row == dh,
        ;
    }
}

/// The byte at `at`, or another where there is none.
pub open spec fn byte_or(bytes: Seq<u8>, at: int, otherwise: u8) -> u8 {
    if at < bytes.len() {
        bytes[at]
    } else {
        otherwise
    }
}

fn or_one(n: u64) -> (at_least: u64)
    ensures
        at_least == at_least_one(n as int),
{
    if n < 1 {
        1
    } else {
        n
    }
}

/// A pixel of the picture is made of its own brightness and of the pair of bytes that it shares
/// with its neighbours: behind the rows of brightness, in the row of pairs for its two rows, the
/// first byte of the pair for its two columns is the blue difference and the second the red one.
/// Where the data ends before, brightness is black and there is no colour.
pub proof fn colours_come_from_their_pair(frame: Nv12Frame, sx: int, sy: int)
    requires
        0 <= sx < frame.stride,
        0 <= sy < frame.height,
    ensures
        ({
            let data = frame.data@;
            let luma = sy * frame.stride + sx;
            let blue = frame.height * frame.stride + sy / 2 * frame.stride + sx / 2 * 2;
            let y = if luma < data.len() {
                data[luma]
            } else {
                16
            };
            let cb = if blue < data.len() {
                data[blue]
            } else {
                128
            };
            let cr = if blue + 1 < data.len() {
                data[blue + 1]
            } else {
                128
            };
            frame.colour_at(sx, sy) == rgb(y, cb, cr)
        }),
{
    let stride = frame.stride as int;
    let height = frame.height as int;
    assert(0 <= sy * stride && sy * stride + sx < height * stride) by (nonlinear_arith)
        requires
            0 <= sx < stride,
            0 <= sy < height,
    ;
    assert(0 <= sy / 2 * stride) by (nonlinear_arith)
        requires
            0 <= sy,
            0 < stride,
    ;
    let pair = (sy / 2) * stride + (sx - sx % 2);
    assert(pair == sy / 2 * stride + sx / 2 * 2);
    if height * stride <= frame.data@.len() {
        if height * stride + pair < frame.data@.len() {
            assert(frame.colour_plane()[pair] == frame.data@[height * stride + pair]);
        }
        if height * stride + pair + 1 < frame.data@.len() {
            assert(frame.colour_plane()[pair + 1] == frame.data@[height * stride + pair + 1]);
        }
    }
}

/// Whether a channel is a value in 1/256 steps, rounded to the nearest and brought into range.
pub open spec fn is_nearest(channel: int, scaled: int) -> bool {
    &&& 0 <= channel <= 255
    &&& channel > 0 ==> 256 * channel - 128 <= scaled
    &&& channel < 255 ==> scaled < 256 * channel + 128
}

/// The colours are those of BT.709 in limited range, each channel rounded to the nearest: black is
/// at 16, a step of brightness is 298/256 of a step of each channel, red takes 459/256 of the red
/// difference, blue 541/256 of the blue one, and green loses 55/256 and 136/256 of them.
pub proof fn colours_are_those_of_the_standard(y: u8, cb: u8, cr: u8)
    ensures
        is_nearest(rgb(y, cb, cr) / 0x1_0000, 298 * y - 298 * 16 + 459 * cr - 459 * 128),
        is_nearest(
            rgb(y, cb, cr) / 0x100 % 0x100,
            298 * y - 298 * 16 - 55 * cb + 55 * 128 - 136 * cr + 136 * 128,
        ),
        is_nearest(rgb(y, cb, cr) % 0x100, 298 * y - 298 * 16 + 541 * cb - 541 * 128),
{
    colours_are_0rgb(y, cb, cr);
}

/// More of the red difference never makes a colour less red nor more green, and leaves its blue;
/// more of the blue difference never makes it less blue nor more green, and leaves its red; and
/// more brightness takes nothing from any channel.
pub proof fn differences_move_their_own_channel(
    y: u8,
    cb: u8,
    cr: u8,
    brighter: u8,
    bluer: u8,
    redder: u8,
)
    requires
        y <= brighter,
        cb <= bluer,
        cr <= redder,
    ensures
        rgb(y, cb, cr) / 0x1_0000 <= rgb(y, cb, redder) / 0x1_0000,
        rgb(y, cb, cr) / 0x100 % 0x100 >= rgb(y, cb, redder) / 0x100 % 0x100,
        rgb(y, cb, cr) % 0x100 == rgb(y, cb, redder) % 0x100,
        rgb(y, cb, cr) % 0x100 <= rgb(y, bluer, cr) % 0x100,
        rgb(y, cb, cr) / 0x100 % 0x100 >= rgb(y, bluer, cr) / 0x100 % 0x100,
        rgb(y, cb, cr) / 0x1_0000 == rgb(y, bluer, cr) / 0x1_0000,
        rgb(y, cb, cr) / 0x1_0000 <= rgb(brighter, cb, cr) / 0x1_0000,
        rgb(y, cb, cr) / 0x100 % 0x100 <= rgb(brighter, cb, cr) / 0x100 % 0x100,
        rgb(y, cb, cr) % 0x100 <= rgb(brighter, cb, cr) % 0x100,
{
    colours_are_0rgb(y, cb, cr);
    colours_are_0rgb(y, cb, redder);
    colours_are_0rgb(y, bluer, cr);
    colours_are_0rgb(brighter, cb, cr);
}

/// A picture that differs from another in the second byte of a pair alone, and has more there, is
/// drawn no less red at the pixels of that pair, no greener and as blue; one that has more in the
/// first byte is drawn no less blue, no greener and as red.
pub proof fn the_second_of_a_pair_is_red(frame: Nv12Frame, other: Nv12Frame, sx: int, sy: int)
    requires
        0 <= sx < frame.stride,
        0 <= sy < frame.height,
        other.stride == frame.stride,
        other.height == frame.height,
        frame.data@.len() >= frame.height * frame.stride + sy / 2 * frame.stride + sx / 2 * 2 + 2,
    ensures
        ({
            let first = frame.height * frame.stride + sy / 2 * frame.stride + sx / 2 * 2;
            let was = frame.colour_at(sx, sy);
            let is = other.colour_at(sx, sy);
            &&& other.data@ == frame.data@.update(first + 1, other.data@[first + 1])
                && other.data@[first + 1] >= frame.data@[first + 1] ==> {
                &&& is / 0x1_0000 >= was / 0x1_0000
                &&& is / 0x100 % 0x100 <= was / 0x100 % 0x100
                &&& is % 0x100 == was % 0x100
            }
            &&& other.data@ == frame.data@.update(first, other.data@[first]) && other.data@[first]
                >= frame.data@[first] ==> {
                &&& is % 0x100 >= was % 0x100
                &&& is / 0x100 % 0x100 <= was / 0x100 % 0x100
                &&& is / 0x1_0000 == was / 0x1_0000
            }
        }),
{
    let stride = frame.stride as int;
    let height = frame.height as int;
    let first = height * stride + sy / 2 * stride + sx / 2 * 2;
    let luma = sy * stride + sx;
    assert(0 <= sy * stride && sy * stride + sx < height * stride) by (nonlinear_arith)
        requires
            0 <= sx < stride,
            0 <= sy < height,
    ;
    assert(0 <= sy / 2 * stride) by (nonlinear_arith)
        requires
            0 <= sy,
            0 < stride,
    ;
    colours_come_from_their_pair(frame, sx, sy);
    colours_come_from_their_pair(other, sx, sy);
    let data = frame.data@;
    let new = other.data@;
    if new == data.update(first + 1, new[first + 1]) && new[first + 1] >= data[first + 1] {
        differences_move_their_own_channel(
            data[luma],
            data[first],
            data[first + 1],
            data[luma],
            data[first],
            new[first + 1],
        );
    }
    if new == data.update(first, new[first]) && new[first] >= data[first] {
        differences_move_their_own_channel(
            data[luma],
            data[first],
            data[first + 1],
            data[luma],
            new[first],
            data[first + 1],
        );
    }
}

/// The window is drawn row by row from its left upper corner: each row and column shows what
/// belongs there, no pixel behind the window is touched, and a buffer that is too small for the
/// window is left alone.
pub proof fn windows_are_drawn_row_by_row(
    frame: Nv12Frame,
    before: Seq<u32>,
    after: Seq<u32>,
    dw: int,
    dh: int,
    background: u32,
    row: int,
    col: int,
)
    requires
        frame.is_drawn(before, after, dw, dh, background),
        0 <= row < dh,
        0 <= col < dw,
    ensures
        after.len() == before.len(),
        before.len() < dw * dh ==> after == before,
        before.len() >= dw * dh ==> {
            &&& 0 <= row * dw + col < after.len()
            &&& after[row * dw + col] == frame.pixel_at(dw, dh, background, row, col)
        },
        forall|i: int| dw * dh <= i < before.len() ==> #[trigger] after[i] == before[i],
{
    let i = row * dw + col;
    assert(0 <= row * dw && i < dw * dh) by (nonlinear_arith)
        requires
            0 <= row < dh,
            0 <= col < dw,
            i == row * dw + col,
    ;
    vstd::arithmetic::div_mod::lemma_fundamental_div_mod_converse(i, dw, row, col);
}

/// A frame needs half as much again as its brightness does, the half rounded down.
pub proof fn colour_needs_half_as_much(stride: int, height: int)
    requires
        0 <= stride * height,
    ensures
        Nv12Frame::needed(stride, height) == stride * height + stride * height / 2,
{
}

/// An empty picture leaves nothing but background.
pub proof fn empty_pictures_show_nothing(
    frame: Nv12Frame,
    dw: int,
    dh: int,
    background: u32,
    row: int,
    col: int,
)
    requires
        frame.width == 0 || frame.height == 0,
    ensures
        frame.pixel_at(dw, dh, background, row, col) == background,
{
}

/// Whether a length is the whole part of `num / den`, but at least one.
pub open spec fn is_share(len: int, num: int, den: int) -> bool {
    &&& 1 <= len
    &&& len * den <= num || len == 1
    &&& num < (len + 1) * den
}

/// Whether a `w` x `h` rectangle at `x0`, `y0` is where a `sw` x `sh` picture belongs in a `dw` x
/// `dh` window: as wide or as high as the window, of the picture's shape in the other direction,
/// and with bars on either side that differ by a pixel at the most.
pub open spec fn is_placed(
    dw: int,
    dh: int,
    sw: int,
    sh: int,
    x0: int,
    y0: int,
    w: int,
    h: int,
) -> bool {
    &&& 0 <= dw - w - 2 * x0 <= 1
    &&& 0 <= dh - h - 2 * y0 <= 1
    &&& if dw * sh <= dh * sw {
        w == dw && is_share(h, dw * sh, sw)
    } else {
        h == dh && is_share(w, dh * sw, sh)
    }
}

proof fn share_is_quotient(len: int, num: int, den: int)
    requires
        is_share(len, num, den),
        0 <= num,
        den > 0,
    ensures
        len == at_least_one(num / den),
{
    assert((len + 1) * den == len * den + den) by (nonlinear_arith);
    if len * den <= num {
        vstd::arithmetic::div_mod::lemma_fundamental_div_mod_converse(
            num,
            den,
            len,
            num - len * den,
        );
    } else {
        assert(len * den == den) by (nonlinear_arith)
            requires
                len == 1,
        ;
        vstd::arithmetic::div_mod::lemma_fundamental_div_mod_converse(num, den, 0, num);
    }
}

/// A picture is drawn into its place: there each pixel of the window shows the pixel of the
/// picture that lies under its left upper corner, and everywhere else is background.
pub proof fn pictures_are_drawn_into_their_place(
    frame: Nv12Frame,
    dw: int,
    dh: int,
    background: u32,
    row: int,
    col: int,
    x0: int,
    y0: int,
    w: int,
    h: int,
    sx: int,
    sy: int,
)
    requires
        frame.width > 0,
        frame.height > 0,
        0 <= row < dh,
        0 <= col < dw,
        is_placed(dw, dh, frame.width as int, frame.height as int, x0, y0, w, h),
        sx * w <= (col - x0) * frame.width < (sx + 1) * w,
        sy * h <= (row - y0) * frame.height < (sy + 1) * h,
    ensures
        frame.pixel_at(dw, dh, background, row, col) == if x0 <= col < x0 + w && y0 <= row < y0
            + h {
            frame.colour_at(sx, sy)
        } else {
            background as int
        },
{
    let sw = frame.width as int;
    let sh = frame.height as int;
    assert(0 <= dw * sh && 0 <= dh * sw) by (nonlinear_arith)
        requires
            0 < dw,
            0 < dh,
            0 < sw,
            0 < sh,
    ;
    if dw * sh <= dh * sw {
        share_is_quotient(h, dw * sh, sw);
    } else {
        share_is_quotient(w, dh * sw, sh);
    }
    assert((w, h) == fitted(dw, dh, sw, sh));
    assert((sx + 1) * w == sx * w + w) by (nonlinear_arith);
    assert((sy + 1) * h == sy * h + h) by (nonlinear_arith);
    vstd::arithmetic::div_mod::lemma_fundamental_div_mod_converse(
        (col - x0) * sw,
        w,
        sx,
        (col - x0) * sw - sx * w,
    );
    vstd::arithmetic::div_mod::lemma_fundamental_div_mod_converse(
        (row - y0) * sh,
        h,
        sy,
        (row - y0) * sh - sy * h,
    );
}

} // verus!
