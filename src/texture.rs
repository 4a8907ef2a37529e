use vstd::prelude::*;
use vstd::arithmetic::div_mod::*;

verus! {

/// An RGBA colour.
#[derive(Clone, Copy, Debug, PartialEq, Eq, Structural)]
pub struct Color {
    pub r: u8,
    pub g: u8,
    pub b: u8,
    pub a: u8,
}

impl Color {
    pub fn new(r: u8, g: u8, b: u8, a: u8) -> (c: Color)
        ensures
            c == (Color { r, g, b, a }),
    {
        Color { r, g, b, a }
    }
}

/// A row-major rectangular pixel buffer.
#[derive(Clone, Debug)]
pub struct Texture {
    pub pixels: Vec<Color>,
    pub width: u32,
    pub height: u32,
}

/// Nearest-neighbour resampling of `column` to `target` pixels:
/// pixel `i` is source pixel `i * len / target`.
pub open spec fn resample(column: Seq<Color>, target: nat) -> Seq<Color> {
    Seq::new(target, |i: int| column[i * column.len() / (target as int)])
}

/// The pixels of the fallback texture: a 2x2 checker of violet and black.
pub open spec fn fallback_pixels() -> Seq<Color> {
    seq![
        Color { r: 135, g: 60, b: 190, a: 255 },
        Color { r: 0, g: 0, b: 0, a: 255 },
        Color { r: 0, g: 0, b: 0, a: 255 },
        Color { r: 135, g: 60, b: 190, a: 255 },
    ]
}

impl Texture {
    pub open spec fn wf(&self) -> bool {
        &&& self.width >= 1
        &&& self.height >= 1
        &&& self.pixels@.len() == self.width * self.height
    }

    /// Source column picked by the coarse offset `x` in `[0, 255]`: `floor(x / 255 * width)`,
    /// clamped to the last column.
    pub open spec fn column_index(&self, x: u8) -> int {
        let c = (x as int) * (self.width as int) / 255;
        if c < self.width { c } else { self.width - 1 }
    }

    /// Source column `col`, top to bottom.
    pub open spec fn column(&self, col: int) -> Seq<Color> {
        Seq::new(self.height as nat, |row: int| self.pixels@[row * self.width + col])
    }

    pub open spec fn line_spec(&self, x: u8, target: nat) -> Seq<Color> {
        resample(self.column(self.column_index(x)), target)
    }

    /// The fallback texture: a 2x2 checker of violet and black.
    pub fn fallback() -> (t: Texture)
        ensures
            t.wf(),
            t.width == 2,
            t.height == 2,
            t.pixels@ == fallback_pixels(),
    {
        let violet = Color::new(135, 60, 190, 255);
        let black = Color::new(0, 0, 0, 255);
        let pixels = vec![violet, black, black, violet];
        assert(pixels@ =~= seq![violet, black, black, violet]);
        Texture { pixels, width: 2, height: 2 }
    }

    /// Builds a texture from raw RGBA bytes, four per pixel, row-major.
    /// Fails when either side is zero or the byte count is not `4 * width * height`.
    pub fn from_rgba(width: u32, height: u32, raw: &Vec<u8>) -> (r: Result<Texture, ()>)
        ensures
            r is Ok <==> (width >= 1 && height >= 1 && raw@.len() == 4 * width * height),
            r matches Ok(t) ==> t.wf() && t.width == width && t.height == height
                && forall|i: int| 0 <= i < t.pixels@.len() ==> #[trigger] t.pixels@[i] == (Color {
                    r: raw@[4 * i],
                    g: raw@[4 * i + 1],
                    b: raw@[4 * i + 2],
                    a: raw@[4 * i + 3],
                }),
    {
        if width == 0 || height == 0 {
            return Err(());
        }
        proof {
            assert(4 * (width as int) * (height as int) == 4 * ((width as int) * (height as int))) by (nonlinear_arith);
        }
        proof {
            assert((width as int) * (height as int) <= u64::MAX) by (nonlinear_arith)
                requires width <= u32::MAX, height <= u32::MAX;
        }
        let count: u64 = width as u64 * height as u64;
        if raw.len() as u128 != 4 * (count as u128) {
            return Err(());
        }
        let len: usize = raw.len();
        let n: usize = len / 4;
        assert(n * 4 == raw@.len());
        let mut pixels: Vec<Color> = Vec::new();
        let mut i: usize = 0;
        while i < n
            invariant
                n * 4 == raw@.len(),
                len == raw@.len(),
                i <= n,
                pixels@.len() == i,
                forall|k: int| 0 <= k < i ==> #[trigger] pixels@[k] == (Color {
                    r: raw@[4 * k],
                    g: raw@[4 * k + 1],
                    b: raw@[4 * k + 2],
                    a: raw@[4 * k + 3],
                }),
            decreases n - i,
        {
            assert(4 * i + 3 < raw@.len());
            let c = Color::new(raw[4 * i], raw[4 * i + 1], raw[4 * i + 2], raw[4 * i + 3]);
            pixels.push(c);
            i += 1;
        }
        Ok(Texture { pixels, width, height })
    }

    /// The column of pixels at coarse offset `x`, resampled to `target` pixels.
    /// Empty when `target` is zero.
    pub fn get_line(&self, x: u8, target: u32) -> (r: Vec<Color>)
        requires
            self.wf(),
        ensures
            r@ == self.line_spec(x, target as nat),
    {
        let w: u64 = self.width as u64;
        let h: u64 = self.height as u64;
        proof {
            assert((x as int) * (w as int) <= 255 * u32::MAX) by (nonlinear_arith)
                requires x <= 255, w <= u32::MAX;
        }
        let mut col: u64 = x as u64 * w / 255;
        if col >= w {
            col = w - 1;
        }
        let ghost column = self.column(self.column_index(x));
        let mut out: Vec<Color> = Vec::new();
        let mut i: u32 = 0;
        while i < target
            invariant
                self.wf(),
                w == self.width,
                h == self.height,
                col == self.column_index(x),
                0 <= col < w,
                column == self.column(self.column_index(x)),
                i <= target,
                out@ =~= resample(column, target as nat).take(i as int),
            decreases target - i,
        {
            proof {
                assert((i as int) * (h as int) <= u32::MAX * u32::MAX) by (nonlinear_arith)
                    requires i <= u32::MAX, h <= u32::MAX;
            }
            let prod: u64 = i as u64 * h;
            proof {
                assert((i as int) * (h as int) < (target as int) * (h as int)) by (nonlinear_arith)
                    requires i < target, h >= 1;
                lemma_multiply_divide_lt((i as int) * (h as int), target as int, h as int);
            }
            let row: u64 = prod / target as u64;
            proof {
                assert(row * w + col < h * w) by (nonlinear_arith)
                    requires row < h, col < w, w >= 1;
                assert(h * w == self.pixels@.len());
                assert(row * w + col < self.pixels@.len());
            }
            proof {
                assert(h <= self.pixels@.len() && w <= self.pixels@.len()) by (nonlinear_arith)
                    requires h * w == self.pixels@.len(), h >= 1, w >= 1;
            }
            let plen: usize = self.pixels.len();
            let r_us = row as usize;
            let w_us = w as usize;
            let c_us = col as usize;
            assert(r_us * w_us + c_us < self.pixels@.len());
            let idx: usize = r_us * w_us + c_us;
            out.push(self.pixels[idx]);
            i += 1;
        }
        out
    }
}

/// Resampling to zero pixels gives nothing; resampling to the source height gives the
/// column unchanged.
pub proof fn lemma_resample_edges(column: Seq<Color>)
    requires
        column.len() >= 1,
    ensures
        resample(column, 0) == Seq::<Color>::empty(),
        resample(column, column.len()) == column,
{
    assert(resample(column, 0) =~= Seq::<Color>::empty());
    assert forall|i: int| 0 <= i < column.len() implies #[trigger] resample(column, column.len())[i] == column[i] by {
        lemma_div_multiples_vanish(i, column.len() as int);
        assert(i * column.len() == column.len() * i) by (nonlinear_arith);
    }
    assert(resample(column, column.len()) =~= column);
}

} // verus!
