//! The window's pixels.

use vstd::prelude::*;

verus! {

/// A number of pixels as the canvas counts them, with a sign.
pub open spec fn signed(n: u32) -> int {
    if n <= i32::MAX {
        n as int
    } else {
        n - 0x1_0000_0000
    }
}

fn to_signed(n: u32) -> (signed_n: i32)
    ensures
        signed_n == signed(n),
{
    if n <= 0x7FFF_FFFF {
        n as i32
    } else {
        -((u32::MAX - n) as i32) - 1
    }
}

/// So many pixels of one colour.
pub open spec fn plain(len: nat, colour: u32) -> Seq<u32> {
    Seq::new(len, |i: int| colour)
}

/// The window's pixels, and where things go on them.
pub struct Canvas<'a> {
    /// Row by row.
    pub pixels: &'a mut [u32],
    pub width: i32,
    pub height: i32,
}

impl<'a> Canvas<'a> {
    /// The pixels, row by row.
    pub open spec fn contents(self) -> Seq<u32> {
        self.pixels@
    }

    /// How many pixels the canvas is wide.
    pub open spec fn wide(self) -> int {
        self.width as int
    }

    /// How many pixels the canvas is high.
    pub open spec fn high(self) -> int {
        self.height as int
    }

    /// A canvas on these pixels: what is drawn on it is drawn on them.
    pub fn new(pixels: &'a mut [u32], width: u32, height: u32) -> (canvas: Self)
        ensures
            final(canvas.pixels)@ == final(pixels)@,
            canvas.contents() == old(pixels)@,
            canvas.wide() == signed(width),
            canvas.high() == signed(height),
    {
        Self { pixels, width: to_signed(width), height: to_signed(height) }
    }

    /// How many pixels the canvas is wide.
    pub fn columns(&self) -> (columns: i32)
        ensures
            columns == self.wide(),
    {
        self.width
    }

    /// How many pixels the canvas is high.
    pub fn rows(&self) -> (rows: i32)
        ensures
            rows == self.high(),
    {
        self.height
    }

    pub fn clear(&mut self, colour: u32)
        ensures
            final(self).contents() == plain(old(self).contents().len(), colour),
            final(final(self).pixels)@ == final(old(self).pixels)@,
            final(self).wide() == old(self).wide(),
            final(self).high() == old(self).high(),
    {
        let mut i: usize = 0;
        while i < self.pixels.len()
            invariant
                i <= self.pixels@.len(),
                self.pixels@.len() == old(self).pixels@.len(),
                final(self.pixels)@ == final(old(self).pixels)@,
                self.width == old(self).width,
                self.height == old(self).height,
                forall|j: int| 0 <= j < i ==> self.pixels@[j] == colour,
            decreases self.pixels@.len() - i,
        {
            self.pixels[i] = colour;
            i += 1;
        }
        assert(self.pixels@ =~= Seq::new(old(self).pixels@.len(), |i: int| colour));
    }

    /// Where the pixel at a column and row stands, if it is on the canvas.
    pub open spec fn place(self, x: int, y: int) -> Option<int> {
        let at = y * self.wide() + x;
        if 0 <= x < self.wide() && 0 <= y < self.high() && at < self.contents().len() {
            Some(at)
        } else {
            None
        }
    }

    /// Where the pixel at a column and row stands, if it is on the canvas.
    pub fn spot(&self, x: i32, y: i32) -> (at: Option<usize>)
        ensures
            match at {
                Some(at) => self.place(x as int, y as int) == Some(at as int),
                None => self.place(x as int, y as int) is None,
            },
    {
        if x < 0 || y < 0 || x >= self.width || y >= self.height {
            return None;
        }
        proof {
            assert(0 <= y * self.width <= i32::MAX * i32::MAX) by (nonlinear_arith)
                requires
                    0 <= y <= i32::MAX,
                    0 <= self.width <= i32::MAX,
            ;
        }
        let at: i64 = y as i64 * self.width as i64 + x as i64;
        if (at as u64) < self.pixels.len() as u64 {
            Some(at as usize)
        } else {
            None
        }
    }

    /// The pixel that stands there.
    pub fn pixel(&self, at: usize) -> (colour: u32)
        requires
            at < self.contents().len(),
        ensures
            colour == self.contents()[at as int],
    {
        self.pixels[at]
    }

    /// Puts a colour on the pixel that stands there.
    pub fn put(&mut self, at: usize, colour: u32)
        requires
            at < old(self).contents().len(),
        ensures
            final(self).contents() == old(self).contents().update(at as int, colour),
            final(final(self).pixels)@ == final(old(self).pixels)@,
            final(self).wide() == old(self).wide(),
            final(self).high() == old(self).high(),
    {
        self.pixels[at] = colour;
    }
}

/// Every place on the canvas is that of one column and one row: the row is how many whole rows come
/// before it, and the column what is left.
pub proof fn places_are_told_apart(canvas: Canvas, x: int, y: int, at: int)
    requires
        canvas.place(x, y) == Some(at),
    ensures
        0 <= x < canvas.wide(),
        0 <= y < canvas.high(),
        0 <= at < canvas.contents().len(),
        at / canvas.wide() == y,
        at % canvas.wide() == x,
{
    let wide = canvas.wide();
    assert(0 <= y * wide) by (nonlinear_arith)
        requires
            0 <= y,
            0 < wide,
    ;
    vstd::arithmetic::div_mod::lemma_fundamental_div_mod_converse(at, wide, y, x);
}

/// Everything in the canvas's columns and rows that there are pixels for has a place.
pub proof fn everything_on_the_canvas_has_a_place(canvas: Canvas, x: int, y: int)
    ensures
        canvas.place(x, y) is Some <==> 0 <= x < canvas.wide() && 0 <= y < canvas.high() && y
            * canvas.wide() + x < canvas.contents().len(),
{
}

/// A number of pixels that fits is itself, and one that does not is as far below zero.
pub proof fn sizes_keep_their_bits(n: u32)
    ensures
        n < 0x8000_0000 ==> signed(n) == n,
        -0x8000_0000 <= signed(n) < 0x8000_0000,
        (signed(n) - n) % 0x1_0000_0000 == 0,
{
}

/// A cleared canvas has one colour everywhere.
pub proof fn cleared_is_of_one_colour(len: nat, colour: u32, i: int)
    requires
        0 <= i < len,
    ensures
        plain(len, colour).len() == len,
        plain(len, colour)[i] == colour,
{
}

} // verus!
