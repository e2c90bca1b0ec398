use vstd::prelude::*;
use crate::raster::{Raster, Rgba};

verus! {

/// Selector of `weight` that counts pixels instead of summing a channel.
pub open spec fn counting() -> int {
    4
}

/// Pixel `(x, y)` lies in the disk of radius `r` around `(cx, cy)`.
pub open spec fn in_disk(cx: int, cy: int, r: int, x: int, y: int) -> bool {
    (x - cx) * (x - cx) + (y - cy) * (y - cy) <= r * r
}

/// What a pixel adds to a total: channel `ch` (0 to 3), or 1 for `counting()`.
pub open spec fn weight(ras: Raster, ch: int, x: int, y: int) -> int {
    if ch == counting() {
        1
    } else {
        ras.channel(x, y, ch)
    }
}

/// Total of `weight` over the pixels of row `y`, columns `[x0, x1)`, that
/// lie in the disk.
pub open spec fn row_total(ras: Raster, ch: int, cx: int, cy: int, r: int, y: int, x0: int, x1: int) -> int
    decreases x1 - x0,
{
    if x1 <= x0 {
        0
    } else {
        row_total(ras, ch, cx, cy, r, y, x0, x1 - 1) + if in_disk(cx, cy, r, x1 - 1, y) {
            weight(ras, ch, x1 - 1, y)
        } else {
            0
        }
    }
}

/// Total of `weight` over the pixels of rows `[y0, y1)`, columns `[x0, x1)`,
/// that lie in the disk.
pub open spec fn box_total(
    ras: Raster,
    ch: int,
    cx: int,
    cy: int,
    r: int,
    x0: int,
    x1: int,
    y0: int,
    y1: int,
) -> int
    decreases y1 - y0,
{
    if y1 <= y0 {
        0
    } else {
        box_total(ras, ch, cx, cy, r, x0, x1, y0, y1 - 1) + row_total(ras, ch, cx, cy, r, y1 - 1, x0, x1)
    }
}

/// First index of the bounding interval `[c - r, c + r]` clamped to the raster.
pub open spec fn span_lo(c: int, r: int) -> int {
    if c >= r {
        c - r
    } else {
        0
    }
}

/// One past the last index of the bounding interval clamped to `[0, n)`.
pub open spec fn span_hi(c: int, r: int, n: int) -> int {
    if c + r < n {
        c + r + 1
    } else {
        n
    }
}

/// Total of `weight` over the pixels of the raster that lie in the disk.
pub open spec fn disk_total(ras: Raster, ch: int, cx: int, cy: int, r: int) -> int {
    box_total(
        ras,
        ch,
        cx,
        cy,
        r,
        span_lo(cx, r),
        span_hi(cx, r, ras.width as int),
        span_lo(cy, r),
        span_hi(cy, r, ras.height as int),
    )
}

/// The average color of the disk of radius `r` around `(cx, cy)`: each
/// channel's sum divided by the number of pixels, truncated; the center pixel
/// where the disk holds none.
pub open spec fn disk_average(ras: Raster, cx: int, cy: int, r: int) -> Rgba {
    let n = disk_total(ras, counting(), cx, cy, r);
    if n > 0 {
        Rgba {
            r: (disk_total(ras, 0, cx, cy, r) / n) as u8,
            g: (disk_total(ras, 1, cx, cy, r) / n) as u8,
            b: (disk_total(ras, 2, cx, cy, r) / n) as u8,
            a: (disk_total(ras, 3, cx, cy, r) / n) as u8,
        }
    } else {
        ras.pixel(cx, cy)
    }
}

/// A channel total lies between nothing and 255 for each counted pixel.
proof fn lemma_row_bounds(ras: Raster, ch: int, cx: int, cy: int, r: int, y: int, x0: int, x1: int)
    requires
        0 <= ch < 4,
    ensures
        0 <= row_total(ras, ch, cx, cy, r, y, x0, x1) <= 255 * row_total(ras, counting(), cx, cy, r, y, x0, x1),
        0 <= row_total(ras, counting(), cx, cy, r, y, x0, x1),
        x0 <= x1 ==> row_total(ras, counting(), cx, cy, r, y, x0, x1) <= x1 - x0,
    decreases x1 - x0,
{
    if x1 > x0 {
        lemma_row_bounds(ras, ch, cx, cy, r, y, x0, x1 - 1);
    }
}

/// A channel total of a box lies between nothing and 255 for each counted
/// pixel, and the count is at most the box's area.
proof fn lemma_box_bounds(
    ras: Raster,
    ch: int,
    cx: int,
    cy: int,
    r: int,
    x0: int,
    x1: int,
    y0: int,
    y1: int,
)
    requires
        0 <= ch < 4,
        x0 <= x1,
    ensures
        0 <= box_total(ras, ch, cx, cy, r, x0, x1, y0, y1) <= 255 * box_total(ras, counting(), cx, cy, r, x0, x1, y0, y1),
        0 <= box_total(ras, counting(), cx, cy, r, x0, x1, y0, y1),
        y0 <= y1 ==> box_total(ras, counting(), cx, cy, r, x0, x1, y0, y1) <= (x1 - x0) * (y1 - y0),
    decreases y1 - y0,
{
    if y1 > y0 {
        lemma_box_bounds(ras, ch, cx, cy, r, x0, x1, y0, y1 - 1);
        lemma_row_bounds(ras, ch, cx, cy, r, y1 - 1, x0, x1);
        assert((x1 - x0) * (y1 - 1 - y0) + (x1 - x0) == (x1 - x0) * (y1 - y0)) by (nonlinear_arith);
    }
}

/// Running sums of a disk's pixels.
struct DiskSums {
    r: u64,
    g: u64,
    b: u64,
    a: u64,
    n: u64,
}

/// Sums of the pixels of row `y`, columns `[x_start, x_end]`, that lie in the disk.
fn row_sums(ras: &Raster, cx: u32, cy: u32, radius: u32, y: u32, x_start: u32, x_end: u32) -> (s: DiskSums)
    requires
        ras.wf(),
        y < ras.height,
        x_start <= x_end < ras.width,
        cx as int - radius <= x_start,
        x_end <= cx as int + radius,
        cy as int - radius <= y <= cy as int + radius,
        radius <= 0x4000_0000,
    ensures
        s.r == row_total(*ras, 0, cx as int, cy as int, radius as int, y as int, x_start as int, x_end + 1),
        s.g == row_total(*ras, 1, cx as int, cy as int, radius as int, y as int, x_start as int, x_end + 1),
        s.b == row_total(*ras, 2, cx as int, cy as int, radius as int, y as int, x_start as int, x_end + 1),
        s.a == row_total(*ras, 3, cx as int, cy as int, radius as int, y as int, x_start as int, x_end + 1),
        s.n == row_total(*ras, counting(), cx as int, cy as int, radius as int, y as int, x_start as int, x_end + 1),
{
    assert((radius as int) * (radius as int) <= 0x1000_0000_0000_0000) by (nonlinear_arith)
        requires
            radius <= 0x4000_0000,
    ;
    let rr: i64 = radius as i64 * radius as i64;
    let dy: i64 = y as i64 - cy as i64;
    let mut s = DiskSums { r: 0, g: 0, b: 0, a: 0, n: 0 };
    let mut x: u32 = x_start;
    while x <= x_end
        invariant
            ras.wf(),
            y < ras.height,
            x_start <= x <= x_end + 1,
            x_end < ras.width,
            cx as int - radius <= x_start,
            x_end <= cx as int + radius,
            cy as int - radius <= y <= cy as int + radius,
            radius <= 0x4000_0000,
            rr == radius * radius,
            dy == y - cy,
            s.r == row_total(*ras, 0, cx as int, cy as int, radius as int, y as int, x_start as int, x as int),
            s.g == row_total(*ras, 1, cx as int, cy as int, radius as int, y as int, x_start as int, x as int),
            s.b == row_total(*ras, 2, cx as int, cy as int, radius as int, y as int, x_start as int, x as int),
            s.a == row_total(*ras, 3, cx as int, cy as int, radius as int, y as int, x_start as int, x as int),
            s.n == row_total(*ras, counting(), cx as int, cy as int, radius as int, y as int, x_start as int, x as int),
        decreases x_end + 1 - x,
    {
        proof {
            lemma_row_bounds(*ras, 0, cx as int, cy as int, radius as int, y as int, x_start as int, x as int);
            lemma_row_bounds(*ras, 1, cx as int, cy as int, radius as int, y as int, x_start as int, x as int);
            lemma_row_bounds(*ras, 2, cx as int, cy as int, radius as int, y as int, x_start as int, x as int);
            lemma_row_bounds(*ras, 3, cx as int, cy as int, radius as int, y as int, x_start as int, x as int);
        }
        let dx: i64 = x as i64 - cx as i64;
        assert(0 <= (dx as int) * (dx as int) <= 0x1000_0000_0000_0000) by (nonlinear_arith)
            requires
                -0x4000_0000 <= dx <= 0x4000_0000,
        ;
        assert(0 <= (dy as int) * (dy as int) <= 0x1000_0000_0000_0000) by (nonlinear_arith)
            requires
                -0x4000_0000 <= dy <= 0x4000_0000,
        ;
        if dx * dx + dy * dy <= rr {
            let p = ras.get_pixel(x, y);
            s.r = s.r + p.r as u64;
            s.g = s.g + p.g as u64;
            s.b = s.b + p.b as u64;
            s.a = s.a + p.a as u64;
            s.n = s.n + 1;
        }
        x = x + 1;
    }
    s
}

/// The area bound that keeps every running sum of `sample_area` in 64 bits.
proof fn lemma_area_bound(bw: int, k: int, radius: int)
    requires
        0 <= bw <= 2 * radius + 1,
        0 <= k <= 2 * radius + 1,
        0 <= radius <= u32::MAX as int / 2000,
    ensures
        0 <= bw * k,
        255 * (bw * k) < 0x7fff_ffff_ffff_ffff,
{
    assert(0 <= bw * k <= (2 * radius + 1) * (2 * radius + 1)) by (nonlinear_arith)
        requires
            0 <= bw <= 2 * radius + 1,
            0 <= k <= 2 * radius + 1,
    ;
    assert((2 * radius + 1) * (2 * radius + 1) <= 4_294_968 * 4_294_968) by (nonlinear_arith)
        requires
            0 <= 2 * radius + 1 <= 4_294_968,
    ;
}

/// Truncating average of a channel total fits a byte.
proof fn lemma_average_fits(total: int, n: int)
    requires
        0 <= total <= 255 * n,
        n > 0,
    ensures
        0 <= total / n <= 255,
{
    assert(0 <= total / n <= 255) by (nonlinear_arith)
        requires
            0 <= total <= 255 * n,
            n > 0,
    ;
}

/// Averages each channel over the pixels of the disk of radius `radius`
/// around `(cx, cy)`, clamped to the raster; falls back to the center pixel
/// where the disk holds none.
pub fn sample_area(ras: &Raster, cx: u32, cy: u32, radius: u32) -> (c: Rgba)
    requires
        ras.wf(),
        cx < ras.width,
        cy < ras.height,
        radius as int <= u32::MAX as int / 2000,
    ensures
        c == disk_average(*ras, cx as int, cy as int, radius as int),
{
    let x_start: u32 = if cx >= radius { cx - radius } else { 0 };
    let x_end: u32 = if (cx as u64 + radius as u64) < ras.width as u64 { cx + radius } else { ras.width - 1 };
    let y_start: u32 = if cy >= radius { cy - radius } else { 0 };
    let y_end: u32 = if (cy as u64 + radius as u64) < ras.height as u64 { cy + radius } else { ras.height - 1 };
    let ghost (cxi, cyi, ri) = (cx as int, cy as int, radius as int);
    let ghost (x0, x1) = (x_start as int, x_end + 1);
    let mut t = DiskSums { r: 0, g: 0, b: 0, a: 0, n: 0 };
    let mut y: u32 = y_start;
    while y <= y_end
        invariant
            ras.wf(),
            cx < ras.width,
            cy < ras.height,
            ri <= u32::MAX as int / 2000,
            cxi == cx && cyi == cy && ri == radius,
            x0 == x_start && x1 == x_end + 1,
            x_start == span_lo(cxi, ri),
            x_end + 1 == span_hi(cxi, ri, ras.width as int),
            y_start == span_lo(cyi, ri),
            y_end + 1 == span_hi(cyi, ri, ras.height as int),
            y_start <= y <= y_end + 1,
            t.r == box_total(*ras, 0, cxi, cyi, ri, x0, x1, y_start as int, y as int),
            t.g == box_total(*ras, 1, cxi, cyi, ri, x0, x1, y_start as int, y as int),
            t.b == box_total(*ras, 2, cxi, cyi, ri, x0, x1, y_start as int, y as int),
            t.a == box_total(*ras, 3, cxi, cyi, ri, x0, x1, y_start as int, y as int),
            t.n == box_total(*ras, counting(), cxi, cyi, ri, x0, x1, y_start as int, y as int),
        decreases y_end + 1 - y,
    {
        let s = row_sums(ras, cx, cy, radius, y, x_start, x_end);
        proof {
            let y1 = y + 1;
            lemma_box_bounds(*ras, 0, cxi, cyi, ri, x0, x1, y_start as int, y1);
            lemma_box_bounds(*ras, 1, cxi, cyi, ri, x0, x1, y_start as int, y1);
            lemma_box_bounds(*ras, 2, cxi, cyi, ri, x0, x1, y_start as int, y1);
            lemma_box_bounds(*ras, 3, cxi, cyi, ri, x0, x1, y_start as int, y1);
            lemma_row_bounds(*ras, 0, cxi, cyi, ri, y as int, x0, x1);
            lemma_row_bounds(*ras, 1, cxi, cyi, ri, y as int, x0, x1);
            lemma_row_bounds(*ras, 2, cxi, cyi, ri, y as int, x0, x1);
            lemma_row_bounds(*ras, 3, cxi, cyi, ri, y as int, x0, x1);
            lemma_area_bound(x1 - x0, y1 - y_start, ri);
        }
        t.r = t.r + s.r;
        t.g = t.g + s.g;
        t.b = t.b + s.b;
        t.a = t.a + s.a;
        t.n = t.n + s.n;
        y = y + 1;
    }
    proof {
        lemma_box_bounds(*ras, 0, cxi, cyi, ri, x0, x1, y_start as int, y as int);
        lemma_box_bounds(*ras, 1, cxi, cyi, ri, x0, x1, y_start as int, y as int);
        lemma_box_bounds(*ras, 2, cxi, cyi, ri, x0, x1, y_start as int, y as int);
        lemma_box_bounds(*ras, 3, cxi, cyi, ri, x0, x1, y_start as int, y as int);
    }
    if t.n > 0 {
        proof {
            lemma_average_fits(t.r as int, t.n as int);
            lemma_average_fits(t.g as int, t.n as int);
            lemma_average_fits(t.b as int, t.n as int);
            lemma_average_fits(t.a as int, t.n as int);
        }
        Rgba {
            r: (t.r / t.n) as u8,
            g: (t.g / t.n) as u8,
            b: (t.b / t.n) as u8,
            a: (t.a / t.n) as u8,
        }
    } else {
        ras.get_pixel(cx, cy)
    }
}

} // verus!
