//! Properties of sampling that relate the lattice, the averaged colors and
//! the dot sizes across whole runs.
use vstd::prelude::*;
use crate::config::{HalftoneStyle, PixelatorConfig, RenderMode, SampleMode};
use crate::disk::{weight, box_total, counting, disk_average, disk_total, row_total, span_hi, span_lo};
use crate::processor::{
    adjusted_brightness, dot_size_of, grid_coord, grid_cols, grid_rows, halftone_dot, hex_cols, hex_x, lattice_cols, lattice_point,
    lattice_rows, lattice_row, lemma_cols_nonneg, hex_stop, lemma_hex_x_step, luma, PixelData, rows_prefix, sample_point, sample_radius, samples, LUMA_FULL,
    MICROS,
};
use crate::raster::{byte_of, Raster, Rgba};

verus! {

/// `s` is the sample of a lattice point of one of the first `n` rows.
pub open spec fn is_lattice_sample(cfg: PixelatorConfig, ras: Raster, n: int, s: PixelData) -> bool {
    exists|row: int, col: int|
        0 <= row < n && 0 <= col < lattice_cols(cfg, ras, row) && s == #[trigger] sample_point(
            cfg,
            ras,
            lattice_point(cfg, row, col).0,
            lattice_point(cfg, row, col).1,
        )
}

/// Each sample of the first `n` rows is the sample of a lattice point of
/// one of those rows.
proof fn lemma_prefix_points(cfg: PixelatorConfig, ras: Raster, n: int)
    requires
        cfg.wf(),
    ensures
        forall|i: int|
            0 <= i < rows_prefix(cfg, ras, n).len() ==> is_lattice_sample(
                cfg,
                ras,
                n,
                #[trigger] rows_prefix(cfg, ras, n)[i],
            ),
    decreases n,
{
    if n > 0 {
        lemma_prefix_points(cfg, ras, n - 1);
        let p = rows_prefix(cfg, ras, n - 1);
        let l = lattice_row(cfg, ras, n - 1);
        assert forall|i: int| 0 <= i < rows_prefix(cfg, ras, n).len() implies is_lattice_sample(
            cfg,
            ras,
            n,
            #[trigger] rows_prefix(cfg, ras, n)[i],
        ) by {
            if i < p.len() {
                assert(rows_prefix(cfg, ras, n)[i] == p[i]);
                assert(is_lattice_sample(cfg, ras, n - 1, p[i]));
                let (row, col) = choose|row: int, col: int|
                    0 <= row < n - 1 && 0 <= col < lattice_cols(cfg, ras, row) && p[i]
                        == #[trigger] sample_point(
                        cfg,
                        ras,
                        lattice_point(cfg, row, col).0,
                        lattice_point(cfg, row, col).1,
                    );
                assert(0 <= row < n && 0 <= col < lattice_cols(cfg, ras, row));
            } else {
                let col = i - p.len();
                assert(rows_prefix(cfg, ras, n) == p + l);
                lemma_cols_nonneg(cfg, ras, n - 1);
                assert(l.len() == lattice_cols(cfg, ras, n - 1) as nat);
                assert(rows_prefix(cfg, ras, n)[i] == l[col]);
                assert(col < lattice_cols(cfg, ras, n - 1));
                assert(l[col] == sample_point(
                    cfg,
                    ras,
                    lattice_point(cfg, n - 1, col).0,
                    lattice_point(cfg, n - 1, col).1,
                ));
            }
        }
    }
}

/// A lattice point of a valid row and column lies in the first quadrant, on
/// a raster with at least one pixel.
proof fn lemma_point_in_raster(cfg: PixelatorConfig, ras: Raster, row: int, col: int)
    requires
        cfg.wf(),
        0 <= row < lattice_rows(cfg, ras),
        0 <= col < lattice_cols(cfg, ras, row),
    ensures
        ras.width > 0,
        ras.height > 0,
        lattice_point(cfg, row, col).0 >= 0,
        lattice_point(cfg, row, col).1 >= 0,
{
    let t = cfg.total_spacing() as int;
    assert(row * t >= 0 && col * t >= 0) by (nonlinear_arith)
        requires
            row >= 0,
            col >= 0,
            t >= 0,
    ;
    assert(row * t * 1000 >= 0 && col * t * 1000 >= 0 && row * t * 866_025 >= 0) by (nonlinear_arith)
        requires
            row * t >= 0,
            col * t >= 0,
    ;
    if ras.height == 0 {
        assert(lattice_rows(cfg, ras) == 0);
    }
    if ras.width == 0 {
        match cfg.sample_mode {
            SampleMode::Grid => {
                assert(grid_cols(cfg, ras) == 0);
            },
            SampleMode::Hexagonal => {
                assert(hex_x(cfg, row, 0) >= 0);
                assert(hex_cols(cfg, ras, row) == 0);
            },
        }
    }
}

/// On a uniform raster, a row total of a channel is that channel's value
/// times the number of pixels counted.
proof fn lemma_uniform_row(ras: Raster, color: Rgba, ch: int, cx: int, cy: int, r: int, y: int, x0: int, x1: int)
    requires
        ras.wf(),
        ras.is_uniform(color),
        0 <= ch < 4,
        0 <= y < ras.height,
        0 <= x0,
        x1 <= ras.width,
    ensures
        row_total(ras, ch, cx, cy, r, y, x0, x1) == byte_of(color, ch) * row_total(ras, counting(), cx, cy, r, y, x0, x1),
    decreases x1 - x0,
{
    if x1 > x0 {
        lemma_uniform_row(ras, color, ch, cx, cy, r, y, x0, x1 - 1);
        assert(ras.pixel(x1 - 1, y) == color);
        let v = byte_of(color, ch) as int;
        assert(weight(ras, ch, x1 - 1, y) == v);
        let a = row_total(ras, counting(), cx, cy, r, y, x0, x1 - 1);
        assert(v * a + v == v * (a + 1)) by (nonlinear_arith);
    }
}

/// On a uniform raster, a box total of a channel is that channel's value
/// times the number of pixels counted.
proof fn lemma_uniform_box(
    ras: Raster,
    color: Rgba,
    ch: int,
    cx: int,
    cy: int,
    r: int,
    x0: int,
    x1: int,
    y0: int,
    y1: int,
)
    requires
        ras.wf(),
        ras.is_uniform(color),
        0 <= ch < 4,
        0 <= y0,
        y1 <= ras.height,
        0 <= x0,
        x1 <= ras.width,
    ensures
        box_total(ras, ch, cx, cy, r, x0, x1, y0, y1) == byte_of(color, ch) * box_total(ras, counting(), cx, cy, r, x0, x1, y0, y1),
    decreases y1 - y0,
{
    if y1 > y0 {
        lemma_uniform_box(ras, color, ch, cx, cy, r, x0, x1, y0, y1 - 1);
        lemma_uniform_row(ras, color, ch, cx, cy, r, y1 - 1, x0, x1);
        let v = byte_of(color, ch) as int;
        let a = box_total(ras, counting(), cx, cy, r, x0, x1, y0, y1 - 1);
        let b = row_total(ras, counting(), cx, cy, r, y1 - 1, x0, x1);
        assert(v * a + v * b == v * (a + b)) by (nonlinear_arith);
    }
}

/// On a uniform raster, the average of any disk centered on the raster
/// (what `sample_area` returns) is the raster's color.
pub proof fn lemma_uniform_average(ras: Raster, color: Rgba, cx: int, cy: int, r: int)
    requires
        ras.wf(),
        ras.is_uniform(color),
        0 <= cx < ras.width,
        0 <= cy < ras.height,
        r >= 0,
    ensures
        disk_average(ras, cx, cy, r) == color,
{
    let (x0, x1) = (span_lo(cx, r), span_hi(cx, r, ras.width as int));
    let (y0, y1) = (span_lo(cy, r), span_hi(cy, r, ras.height as int));
    let n = disk_total(ras, counting(), cx, cy, r);
    lemma_uniform_box(ras, color, 0, cx, cy, r, x0, x1, y0, y1);
    lemma_uniform_box(ras, color, 1, cx, cy, r, x0, x1, y0, y1);
    lemma_uniform_box(ras, color, 2, cx, cy, r, x0, x1, y0, y1);
    lemma_uniform_box(ras, color, 3, cx, cy, r, x0, x1, y0, y1);
    if n > 0 {
        assert forall|v: int| 0 <= v <= 255 implies #[trigger] (v * n) / n == v by {
            vstd::arithmetic::div_mod::lemma_div_multiples_vanish(v, n);
            assert(v * n == n * v) by (nonlinear_arith);
        }
        assert(byte_of(color, 0) * n / n == color.r);
        assert(byte_of(color, 1) * n / n == color.g);
        assert(byte_of(color, 2) * n / n == color.b);
        assert(byte_of(color, 3) * n / n == color.a);
    } else {
        assert(ras.pixel(cx, cy) == color);
    }
}

/// Grid sampling of a raster narrower and lower than one pitch yields no
/// sample.
pub proof fn lemma_grid_small_raster_empty(cfg: PixelatorConfig, ras: Raster)
    requires
        cfg.wf(),
        ras.wf(),
        cfg.sample_mode == SampleMode::Grid,
        ras.width * 1000 < cfg.total_spacing(),
        ras.height * 1000 < cfg.total_spacing(),
    ensures
        samples(cfg, ras).len() == 0,
{
    assert(grid_rows(cfg, ras) == 0) by {
        vstd::arithmetic::div_mod::lemma_basic_div(ras.height * 1000, cfg.total_spacing() as int);
    }
}

/// The first `n` rows of the grid hold `n * cols` samples, column `c` of row
/// `r` at index `r * cols + c`.
proof fn lemma_grid_prefix(cfg: PixelatorConfig, ras: Raster, n: int)
    requires
        cfg.sample_mode == SampleMode::Grid,
        n >= 0,
        grid_cols(cfg, ras) >= 0,
    ensures
        rows_prefix(cfg, ras, n).len() == n * grid_cols(cfg, ras),
        forall|r: int, c: int|
            0 <= r < n && 0 <= c < grid_cols(cfg, ras) ==> #[trigger] rows_prefix(cfg, ras, n)[r
                * grid_cols(cfg, ras) + c] == sample_point(
                cfg,
                ras,
                grid_coord(cfg, c),
                grid_coord(cfg, r),
            ),
    decreases n,
{
    let k = grid_cols(cfg, ras);
    if n > 0 {
        lemma_grid_prefix(cfg, ras, n - 1);
        assert((n - 1) * k + k == n * k) by (nonlinear_arith);
        assert forall|r: int, c: int| 0 <= r < n && 0 <= c < k implies #[trigger] rows_prefix(
            cfg,
            ras,
            n,
        )[r * k + c] == sample_point(cfg, ras, grid_coord(cfg, c), grid_coord(cfg, r)) by {
            if r < n - 1 {
                assert(r * k + c < (n - 1) * k) by (nonlinear_arith)
                    requires
                        0 <= r < n - 1,
                        0 <= c < k,
                ;
            } else {
                assert(r * k == (n - 1) * k);
                assert(rows_prefix(cfg, ras, n)[r * k + c] == lattice_row(cfg, ras, n - 1)[c]);
            }
        }
    }
}

/// Grid sampling yields `floor(W / pitch) * floor(H / pitch)` samples in
/// row-major order: index `row * cols + col` holds the sample of column
/// `col` of row `row`.
pub proof fn lemma_grid_count_and_order(cfg: PixelatorConfig, ras: Raster)
    requires
        cfg.wf(),
        ras.wf(),
        cfg.sample_mode == SampleMode::Grid,
    ensures
        samples(cfg, ras).len() == grid_cols(cfg, ras) * grid_rows(cfg, ras),
        forall|row: int, col: int|
            0 <= row < grid_rows(cfg, ras) && 0 <= col < grid_cols(cfg, ras) ==> #[trigger] samples(
                cfg,
                ras,
            )[row * grid_cols(cfg, ras) + col] == sample_point(
                cfg,
                ras,
                grid_coord(cfg, col),
                grid_coord(cfg, row),
            ),
{
    let t = cfg.total_spacing() as int;
    vstd::arithmetic::div_mod::lemma_div_pos_is_pos(ras.width * 1000, t);
    vstd::arithmetic::div_mod::lemma_div_pos_is_pos(ras.height * 1000, t);
    lemma_grid_prefix(cfg, ras, grid_rows(cfg, ras));
    assert(grid_rows(cfg, ras) * grid_cols(cfg, ras) == grid_cols(cfg, ras) * grid_rows(cfg, ras))
        by (nonlinear_arith);
}

/// On a raster of one color, the sample of a lattice point is that color.
proof fn lemma_uniform_sample(cfg: PixelatorConfig, ras: Raster, color: Rgba, s: PixelData)
    requires
        cfg.wf(),
        ras.wf(),
        ras.is_uniform(color),
        is_lattice_sample(cfg, ras, lattice_rows(cfg, ras), s),
    ensures
        s.color == color,
        s.brightness == luma(color),
{
    let n = lattice_rows(cfg, ras);
    let (row, col) = choose|row: int, col: int|
        0 <= row < n && 0 <= col < lattice_cols(cfg, ras, row) && s == #[trigger] sample_point(
            cfg,
            ras,
            lattice_point(cfg, row, col).0,
            lattice_point(cfg, row, col).1,
        );
    lemma_point_in_raster(cfg, ras, row, col);
    let (x, y) = lattice_point(cfg, row, col);
    let sx = if x / MICROS as int <= ras.width - 1 { x / MICROS as int } else { ras.width - 1 };
    let sy = if y / MICROS as int <= ras.height - 1 { y / MICROS as int } else { ras.height - 1 };
    lemma_uniform_average(ras, color, sx, sy, sample_radius(cfg));
}

/// On a raster of one color, every sample's average is that color and its
/// brightness is that color's luma.
pub proof fn lemma_uniform_samples(cfg: PixelatorConfig, ras: Raster, color: Rgba)
    requires
        cfg.wf(),
        ras.wf(),
        ras.is_uniform(color),
    ensures
        forall|i: int|
            0 <= i < samples(cfg, ras).len() ==> #[trigger] samples(cfg, ras)[i].color == color
                && samples(cfg, ras)[i].brightness == luma(color),
{
    let n = lattice_rows(cfg, ras);
    lemma_prefix_points(cfg, ras, n);
    assert forall|i: int| 0 <= i < samples(cfg, ras).len() implies #[trigger] samples(cfg, ras)[i].color
        == color && samples(cfg, ras)[i].brightness == luma(color) by {
        lemma_uniform_sample(cfg, ras, color, rows_prefix(cfg, ras, n)[i]);
    }
}

/// The halftone dot size never decreases as the adjusted brightness grows,
/// and stays within the configured range.
pub proof fn lemma_halftone_monotonic(cfg: PixelatorConfig, a1: int, a2: int)
    requires
        cfg.wf(),
        0 <= a1 <= a2 <= LUMA_FULL,
    ensures
        halftone_dot(cfg.min_dot_size as int, cfg.max_dot_size as int, a1) <= halftone_dot(
            cfg.min_dot_size as int,
            cfg.max_dot_size as int,
            a2,
        ),
        cfg.min_dot_size * LUMA_FULL <= halftone_dot(cfg.min_dot_size as int, cfg.max_dot_size as int, a1),
        halftone_dot(cfg.min_dot_size as int, cfg.max_dot_size as int, a2) <= cfg.max_dot_size * LUMA_FULL,
{
    let d = cfg.max_dot_size - cfg.min_dot_size;
    assert(0 <= d * a1 <= d * a2 <= d * LUMA_FULL) by (nonlinear_arith)
        requires
            d >= 0,
            0 <= a1 <= a2 <= LUMA_FULL,
    ;
}

/// A halftone sample's dot size lies within the configured range, and the
/// other style gives the complementary size.
proof fn lemma_swap_point(c1: PixelatorConfig, c2: PixelatorConfig, ras: Raster, x: int, y: int)
    requires
        c1.wf(),
        c1.render_mode == RenderMode::Halftone(HalftoneStyle::BlackOnWhite),
        c2 == (PixelatorConfig { render_mode: RenderMode::Halftone(HalftoneStyle::WhiteOnBlack), ..c1 }),
    ensures
        sample_point(c1, ras, x, y).x == sample_point(c2, ras, x, y).x,
        sample_point(c1, ras, x, y).y == sample_point(c2, ras, x, y).y,
        sample_point(c1, ras, x, y).color == sample_point(c2, ras, x, y).color,
        sample_point(c1, ras, x, y).brightness == sample_point(c2, ras, x, y).brightness,
        sample_point(c1, ras, x, y).dot_size + sample_point(c2, ras, x, y).dot_size == (
        c1.min_dot_size + c1.max_dot_size) * LUMA_FULL,
        c1.min_dot_size * LUMA_FULL <= sample_point(c1, ras, x, y).dot_size <= c1.max_dot_size
            * LUMA_FULL,
        c1.min_dot_size * LUMA_FULL <= sample_point(c2, ras, x, y).dot_size <= c1.max_dot_size
            * LUMA_FULL,
{
    let c = sample_point(c1, ras, x, y).color;
    let l = luma(c);
    let (lo, hi) = (c1.min_dot_size as int, c1.max_dot_size as int);
    lemma_halftone_monotonic(c1, LUMA_FULL - l, LUMA_FULL - l);
    lemma_halftone_monotonic(c1, l, l);
    assert((hi - lo) * (LUMA_FULL - l) + (hi - lo) * l == (hi - lo) * LUMA_FULL) by (nonlinear_arith);
    assert(hi * LUMA_FULL < 0x1_0000_0000_0000_0000) by (nonlinear_arith)
        requires
            0 <= hi <= u32::MAX,
    ;
}

/// `hex_stop` depends on the pitch and the diameter alone.
proof fn lemma_hex_stop_same(c1: PixelatorConfig, c2: PixelatorConfig, ras: Raster, row: int, col: int)
    requires
        c1.total_spacing() > 0,
        c1.total_spacing() == c2.total_spacing(),
        c1.circle_diameter == c2.circle_diameter,
        col >= 0,
    ensures
        hex_stop(c1, ras, row, col) == hex_stop(c2, ras, row, col),
    decreases ras.width * MICROS + c1.total_spacing() * 1000 - hex_x(c1, row, col),
{
    if hex_x(c1, row, col) < ras.width * MICROS {
        lemma_hex_x_step(c1, row, col);
        lemma_hex_stop_same(c1, c2, ras, row, col + 1);
    }
}

/// The first `n` rows of two runs that differ in halftone style alone hold
/// the same points and colors, with complementary dot sizes.
proof fn lemma_swap_prefix(c1: PixelatorConfig, c2: PixelatorConfig, ras: Raster, n: int)
    requires
        c1.wf(),
        c1.render_mode == RenderMode::Halftone(HalftoneStyle::BlackOnWhite),
        c2 == (PixelatorConfig { render_mode: RenderMode::Halftone(HalftoneStyle::WhiteOnBlack), ..c1 }),
    ensures
        rows_prefix(c1, ras, n).len() == rows_prefix(c2, ras, n).len(),
        forall|i: int|
            0 <= i < rows_prefix(c1, ras, n).len() ==> swapped(
                c1,
                #[trigger] rows_prefix(c1, ras, n)[i],
                rows_prefix(c2, ras, n)[i],
            ),
    decreases n,
{
    if n > 0 {
        lemma_swap_prefix(c1, c2, ras, n - 1);
        lemma_hex_stop_same(c1, c2, ras, n - 1, 0);
        let (p1, p2) = (rows_prefix(c1, ras, n - 1), rows_prefix(c2, ras, n - 1));
        let (l1, l2) = (lattice_row(c1, ras, n - 1), lattice_row(c2, ras, n - 1));
        assert(l1.len() == l2.len());
        assert forall|i: int| 0 <= i < rows_prefix(c1, ras, n).len() implies swapped(
            c1,
            #[trigger] rows_prefix(c1, ras, n)[i],
            rows_prefix(c2, ras, n)[i],
        ) by {
            if i < p1.len() {
                assert(rows_prefix(c1, ras, n)[i] == p1[i]);
                assert(rows_prefix(c2, ras, n)[i] == p2[i]);
            } else {
                let col = i - p1.len();
                assert(rows_prefix(c1, ras, n)[i] == l1[col]);
                assert(rows_prefix(c2, ras, n)[i] == l2[col]);
                let (x, y) = lattice_point(c1, n - 1, col);
                lemma_swap_point(c1, c2, ras, x, y);
            }
        }
    }
}

/// `s1` and `s2` sample the same point with the same color and brightness,
/// and their dot sizes add up to the sum of the range's ends.
pub open spec fn swapped(cfg: PixelatorConfig, s1: PixelData, s2: PixelData) -> bool {
    &&& s1.x == s2.x
    &&& s1.y == s2.y
    &&& s1.color == s2.color
    &&& s1.brightness == s2.brightness
    &&& s1.dot_size + s2.dot_size == (cfg.min_dot_size + cfg.max_dot_size) * LUMA_FULL
    &&& cfg.min_dot_size * LUMA_FULL <= s1.dot_size <= cfg.max_dot_size * LUMA_FULL
    &&& cfg.min_dot_size * LUMA_FULL <= s2.dot_size <= cfg.max_dot_size * LUMA_FULL
}

/// Swapping black-on-white for white-on-black maps each sample's dot size
/// to `min + max - size`, and leaves positions, colors and brightness as
/// they were; every dot size lies within `[min, max]`.
pub proof fn lemma_style_swap(cfg: PixelatorConfig, ras: Raster)
    requires
        cfg.wf(),
        ras.wf(),
        cfg.render_mode == RenderMode::Halftone(HalftoneStyle::BlackOnWhite),
    ensures
        ({
            let other = PixelatorConfig {
                render_mode: RenderMode::Halftone(HalftoneStyle::WhiteOnBlack),
                ..cfg
            };
            &&& samples(cfg, ras).len() == samples(other, ras).len()
            &&& forall|i: int|
                0 <= i < samples(cfg, ras).len() ==> swapped(
                    cfg,
                    #[trigger] samples(cfg, ras)[i],
                    samples(other, ras)[i],
                )
        }),
{
    let other = PixelatorConfig { render_mode: RenderMode::Halftone(HalftoneStyle::WhiteOnBlack), ..cfg };
    assert(lattice_rows(cfg, ras) == lattice_rows(other, ras));
    lemma_swap_prefix(cfg, other, ras, lattice_rows(cfg, ras));
}

/// The dot size of a halftone run never decreases as the adjusted
/// brightness grows, and stays within the configured range.
pub proof fn lemma_dot_size_monotonic(cfg: PixelatorConfig, style: HalftoneStyle, b1: int, b2: int)
    requires
        cfg.wf(),
        cfg.render_mode == RenderMode::Halftone(style),
        0 <= b1 <= LUMA_FULL,
        0 <= b2 <= LUMA_FULL,
        adjusted_brightness(style, b1) <= adjusted_brightness(style, b2),
    ensures
        dot_size_of(cfg, b1) <= dot_size_of(cfg, b2),
        cfg.min_dot_size * LUMA_FULL <= dot_size_of(cfg, b1),
        dot_size_of(cfg, b2) <= cfg.max_dot_size * LUMA_FULL,
{
    lemma_halftone_monotonic(cfg, adjusted_brightness(style, b1), adjusted_brightness(style, b2));
}

/// For one brightness, the dot sizes of the two halftone styles add up to
/// the sum of the range's ends.
pub proof fn lemma_dot_size_complement(cfg: PixelatorConfig, b: int)
    requires
        cfg.wf(),
        cfg.render_mode == RenderMode::Halftone(HalftoneStyle::BlackOnWhite),
        0 <= b <= LUMA_FULL,
    ensures
        dot_size_of(cfg, b) + dot_size_of(
            PixelatorConfig { render_mode: RenderMode::Halftone(HalftoneStyle::WhiteOnBlack), ..cfg },
            b,
        ) == (cfg.min_dot_size + cfg.max_dot_size) * LUMA_FULL,
{
    let d = cfg.max_dot_size - cfg.min_dot_size;
    assert(d * (LUMA_FULL - b) + d * b == d * LUMA_FULL) by (nonlinear_arith);
}

} // verus!
