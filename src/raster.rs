use vstd::prelude::*;

verus! {

/// An RGBA color, one byte per channel.
#[derive(Debug, Clone, Copy, PartialEq, Eq, Structural)]
pub struct Rgba {
    pub r: u8,
    pub g: u8,
    pub b: u8,
    pub a: u8,
}

/// A decoded raster: `width * height` pixels, row after row, four bytes
/// (R, G, B, A) each.
#[derive(Debug, Clone)]
pub struct Raster {
    pub width: u32,
    pub height: u32,
    pub data: Vec<u8>,
}

/// Channel `ch` (0 to 3: R, G, B, A) of a color.
pub open spec fn byte_of(c: Rgba, ch: int) -> u8 {
    if ch == 0 {
        c.r
    } else if ch == 1 {
        c.g
    } else if ch == 2 {
        c.b
    } else {
        c.a
    }
}

/// The number of pixels of a raster fits in 64 bits.
pub proof fn lemma_size_bound(w: u32, h: u32)
    ensures
        0 <= (w as int) * (h as int) < 0x1_0000_0000_0000_0000,
{
    assert(0 <= (w as int) * (h as int) < 0x1_0000_0000_0000_0000) by (nonlinear_arith)
        requires
            0 <= w <= u32::MAX,
            0 <= h <= u32::MAX,
    ;
}

/// The facts about a pixel's place in the buffer that indexing needs.
pub proof fn lemma_pixel_index(w: int, h: int, x: int, y: int)
    requires
        0 <= x < w,
        0 <= y < h,
    ensures
        0 <= (y * w + x) * 4,
        (y * w + x) * 4 + 3 < w * h * 4,
{
    assert(y * w + x < h * w) by (nonlinear_arith)
        requires
            0 <= x < w,
            0 <= y < h,
    ;
    assert(0 <= y * w) by (nonlinear_arith)
        requires
            0 <= x < w,
            0 <= y,
    ;
    assert(h * w == w * h) by (nonlinear_arith);
}

impl Raster {
    /// The buffer holds four bytes for each pixel.
    pub open spec fn wf(&self) -> bool {
        self.data@.len() == self.width as int * self.height as int * 4
    }

    /// Channel `ch` (0 to 3: R, G, B, A) of the pixel at column `x`, row `y`.
    pub open spec fn channel(&self, x: int, y: int, ch: int) -> int {
        self.data@[(y * self.width as int + x) * 4 + ch] as int
    }

    /// The pixel at column `x`, row `y`.
    pub open spec fn pixel(&self, x: int, y: int) -> Rgba {
        Rgba {
            r: self.channel(x, y, 0) as u8,
            g: self.channel(x, y, 1) as u8,
            b: self.channel(x, y, 2) as u8,
            a: self.channel(x, y, 3) as u8,
        }
    }

    /// Every pixel of the raster is `c`.
    pub open spec fn is_uniform(&self, c: Rgba) -> bool {
        forall|x: int, y: int|
            0 <= x < self.width && 0 <= y < self.height ==> #[trigger] self.pixel(x, y) == c
    }

    /// Wraps a buffer of RGBA bytes; `None` where its length is not four
    /// bytes per pixel.
    pub fn from_rgba(width: u32, height: u32, data: Vec<u8>) -> (r: Option<Raster>)
        ensures
            r is Some <==> data@.len() == width as int * height as int * 4,
            r matches Some(ras) ==> ras.wf() && ras.width == width && ras.height == height
                && ras.data@ == data@,
    {
        proof {
            lemma_size_bound(width, height);
        }
        let n = width as u128 * height as u128 * 4;
        if n != data.len() as u128 {
            return None;
        }
        Some(Raster { width, height, data })
    }

    /// A raster whose every pixel is `color`; `None` where the buffer's size
    /// would not fit in memory.
    pub fn from_pixel(width: u32, height: u32, color: Rgba) -> (r: Option<Raster>)
        ensures
            r is Some <==> width as int * height as int * 4 <= usize::MAX,
            r matches Some(ras) ==> ras.wf() && ras.width == width && ras.height == height
                && ras.is_uniform(color),
    {
        proof {
            lemma_size_bound(width, height);
        }
        let n = width as u128 * height as u128;
        if n * 4 > usize::MAX as u128 {
            return None;
        }
        let count = n as usize;
        let mut data: Vec<u8> = Vec::with_capacity(count * 4);
        let mut i: usize = 0;
        while i < count
            invariant
                i <= count,
                count == width as int * height as int,
                count * 4 <= usize::MAX,
                data@.len() == i * 4,
                forall|k: int| 0 <= k < data@.len() ==> #[trigger] data@[k] == byte_of(color, k % 4),
            decreases count - i,
        {
            data.push(color.r);
            data.push(color.g);
            data.push(color.b);
            data.push(color.a);
            i += 1;
        }
        let ras = Raster { width, height, data };
        assert forall|x: int, y: int|
            0 <= x < ras.width && 0 <= y < ras.height implies #[trigger] ras.pixel(x, y)
            == color by {
            lemma_pixel_index(width as int, height as int, x, y);
            let j = y * width as int + x;
            assert(data@[j * 4] == byte_of(color, (j * 4) % 4));
            assert(data@[j * 4 + 1] == byte_of(color, (j * 4 + 1) % 4));
            assert(data@[j * 4 + 2] == byte_of(color, (j * 4 + 2) % 4));
            assert(data@[j * 4 + 3] == byte_of(color, (j * 4 + 3) % 4));
        }
        Some(ras)
    }

    /// The pixel at column `x`, row `y`.
    pub fn get_pixel(&self, x: u32, y: u32) -> (c: Rgba)
        requires
            self.wf(),
            x < self.width,
            y < self.height,
        ensures
            c == self.pixel(x as int, y as int),
    {
        proof {
            lemma_pixel_index(self.width as int, self.height as int, x as int, y as int);
        }
        let len = self.data.len();
        assert((y as int * self.width as int + x as int) * 4 + 3 < len);
        let i = (y as usize * self.width as usize + x as usize) * 4;
        Rgba { r: self.data[i], g: self.data[i + 1], b: self.data[i + 2], a: self.data[i + 3] }
    }
}

} // verus!
