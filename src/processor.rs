use vstd::prelude::*;
use crate::config::{HalftoneStyle, PixelatorConfig, RenderMode, SampleMode};
use crate::disk::{disk_average, sample_area};
use crate::error::Result;
use crate::raster::{lemma_size_bound, Raster, Rgba};
use image::DynamicImage;

verus! {

/// Row height of the hexagonal lattice, as millionths of the pitch (the
/// square root of 3, halved).
pub const HEXAGONAL_ROW_HEIGHT_FACTOR: u64 = 866_025;

/// The brightness of white. Brightness is the BT.709 luma on this scale:
/// `2126 R + 7152 G + 722 B`, whose largest value is `10000 * 255`.
pub const LUMA_FULL: u64 = 2_550_000;

/// Millionths of a pixel in a pixel: the unit of sample positions.
pub const MICROS: u64 = 1_000_000;

/// One sample of the image.
///
/// `x` and `y` are in millionths of a pixel. `brightness` is on the scale of
/// `LUMA_FULL`. `dot_size` is in thousandths of a pixel times `LUMA_FULL`,
/// which keeps the halftone interpolation exact.
#[derive(Debug, Clone, Copy, PartialEq, Eq, Structural)]
pub struct PixelData {
    pub x: u64,
    pub y: u64,
    pub color: Rgba,
    pub brightness: u32,
    pub dot_size: u64,
}

/// BT.709 luma of a color, on the scale of `LUMA_FULL`.
pub open spec fn luma(c: Rgba) -> int {
    2126 * c.r + 7152 * c.g + 722 * c.b
}

/// Brightness as it drives the dot size of a halftone style.
pub open spec fn adjusted_brightness(style: HalftoneStyle, lum: int) -> int {
    match style {
        HalftoneStyle::BlackOnWhite => LUMA_FULL - lum,
        HalftoneStyle::WhiteOnBlack => lum,
    }
}

/// Linear map of an adjusted brightness onto the dot size range `[min, max]`.
pub open spec fn halftone_dot(min: int, max: int, adjusted: int) -> int {
    min * LUMA_FULL + (max - min) * adjusted
}

/// Dot size of a sample of luma `lum` (see `PixelData` for the unit).
pub open spec fn dot_size_of(cfg: PixelatorConfig, lum: int) -> int {
    match cfg.render_mode {
        RenderMode::Color => cfg.circle_diameter * LUMA_FULL,
        RenderMode::Halftone(style) => halftone_dot(
            cfg.min_dot_size as int,
            cfg.max_dot_size as int,
            adjusted_brightness(style, lum),
        ),
    }
}

/// Radius of the averaged disk in whole pixels: half the diameter, rounded down.
pub open spec fn sample_radius(cfg: PixelatorConfig) -> int {
    cfg.circle_diameter as int / 2000
}

/// Columns of the grid lattice.
pub open spec fn grid_cols(cfg: PixelatorConfig, ras: Raster) -> int {
    ras.width * 1000 / cfg.total_spacing() as int
}

/// Rows of the grid lattice.
pub open spec fn grid_rows(cfg: PixelatorConfig, ras: Raster) -> int {
    ras.height * 1000 / cfg.total_spacing() as int
}

/// Center coordinate of grid index `i`, in millionths of a pixel.
pub open spec fn grid_coord(cfg: PixelatorConfig, i: int) -> int {
    i * cfg.total_spacing() * 1000 + cfg.circle_diameter * 500
}

/// Rows of the hexagonal lattice.
pub open spec fn hex_rows(cfg: PixelatorConfig, ras: Raster) -> int {
    ras.height * MICROS * 1000 / (cfg.total_spacing() * HEXAGONAL_ROW_HEIGHT_FACTOR)
}

/// Center `y` of hexagonal row `row`, in millionths of a pixel (the row
/// offset rounded down to a millionth).
pub open spec fn hex_y(cfg: PixelatorConfig, row: int) -> int {
    row * cfg.total_spacing() * HEXAGONAL_ROW_HEIGHT_FACTOR / 1000 + cfg.circle_diameter * 500
}

/// Center `x` of column `col` in hexagonal row `row`: odd rows are shifted
/// by half the pitch.
pub open spec fn hex_x(cfg: PixelatorConfig, row: int, col: int) -> int {
    col * cfg.total_spacing() * 1000 + (if row % 2 == 0 {
        0
    } else {
        cfg.total_spacing() * 500
    }) + cfg.circle_diameter * 500
}

/// The first column, from `col` on, whose center lies at or past the right edge.
pub open spec fn hex_stop(cfg: PixelatorConfig, ras: Raster, row: int, col: int) -> int
    decreases ras.width * MICROS + cfg.total_spacing() * 1000 - hex_x(cfg, row, col),
    when cfg.total_spacing() > 0 && col >= 0
    via hex_stop_decreases
{
    if hex_x(cfg, row, col) >= ras.width * MICROS {
        col
    } else {
        hex_stop(cfg, ras, row, col + 1)
    }
}

/// Consecutive hexagonal centers of a row lie one pitch apart.
pub proof fn lemma_hex_x_step(cfg: PixelatorConfig, row: int, col: int)
    ensures
        hex_x(cfg, row, col + 1) == hex_x(cfg, row, col) + cfg.total_spacing() * 1000,
{
    let t = cfg.total_spacing() as int;
    assert((col + 1) * t * 1000 == col * t * 1000 + t * 1000) by (nonlinear_arith);
}

#[via_fn]
proof fn hex_stop_decreases(cfg: PixelatorConfig, ras: Raster, row: int, col: int) {
    lemma_hex_x_step(cfg, row, col);
}

/// Columns of hexagonal row `row`: centers are taken from the left until one
/// lies at or past the right edge.
pub open spec fn hex_cols(cfg: PixelatorConfig, ras: Raster, row: int) -> int {
    hex_stop(cfg, ras, row, 0)
}

/// The sample whose lattice point is `(x, y)` (millionths of a pixel): the
/// disk around the pixel under the point, clamped to the raster, averaged.
pub open spec fn sample_point(cfg: PixelatorConfig, ras: Raster, x: int, y: int) -> PixelData {
    let sx = if x / MICROS as int <= ras.width - 1 { x / MICROS as int } else { ras.width - 1 };
    let sy = if y / MICROS as int <= ras.height - 1 { y / MICROS as int } else { ras.height - 1 };
    let c = disk_average(ras, sx, sy, sample_radius(cfg));
    PixelData {
        x: x as u64,
        y: y as u64,
        color: c,
        brightness: luma(c) as u32,
        dot_size: dot_size_of(cfg, luma(c)) as u64,
    }
}

/// Number of rows of the configured lattice.
pub open spec fn lattice_rows(cfg: PixelatorConfig, ras: Raster) -> int {
    match cfg.sample_mode {
        SampleMode::Grid => grid_rows(cfg, ras),
        SampleMode::Hexagonal => hex_rows(cfg, ras),
    }
}

/// Number of points in row `row` of the configured lattice.
pub open spec fn lattice_cols(cfg: PixelatorConfig, ras: Raster, row: int) -> int {
    match cfg.sample_mode {
        SampleMode::Grid => grid_cols(cfg, ras),
        SampleMode::Hexagonal => hex_cols(cfg, ras, row),
    }
}

/// Lattice point `col` of row `row`, as `(x, y)` in millionths of a pixel.
pub open spec fn lattice_point(cfg: PixelatorConfig, row: int, col: int) -> (int, int) {
    match cfg.sample_mode {
        SampleMode::Grid => (grid_coord(cfg, col), grid_coord(cfg, row)),
        SampleMode::Hexagonal => (hex_x(cfg, row, col), hex_y(cfg, row)),
    }
}

/// The samples of row `row`, left to right.
pub open spec fn lattice_row(cfg: PixelatorConfig, ras: Raster, row: int) -> Seq<PixelData> {
    Seq::new(
        lattice_cols(cfg, ras, row) as nat,
        |col: int|
            sample_point(cfg, ras, lattice_point(cfg, row, col).0, lattice_point(cfg, row, col).1),
    )
}

/// The samples of the first `n` rows, row after row.
pub open spec fn rows_prefix(cfg: PixelatorConfig, ras: Raster, n: int) -> Seq<PixelData>
    decreases n,
{
    if n <= 0 {
        Seq::empty()
    } else {
        rows_prefix(cfg, ras, n - 1) + lattice_row(cfg, ras, n - 1)
    }
}

/// Every sample of the raster under the configuration, in lattice order.
pub open spec fn samples(cfg: PixelatorConfig, ras: Raster) -> Seq<PixelData> {
    rows_prefix(cfg, ras, lattice_rows(cfg, ras))
}

/// `q` at most `a / b` implies `q * b` at most `a`.
proof fn lemma_floor_mul(a: int, b: int, q: int)
    requires
        a >= 0,
        b > 0,
        0 <= q <= a / b,
    ensures
        0 <= q * b <= a,
{
    vstd::arithmetic::div_mod::lemma_fundamental_div_mod(a, b);
    assert(0 <= q * b <= a) by (nonlinear_arith)
        requires
            a == b * (a / b) + a % b,
            0 <= a % b,
            b > 0,
            0 <= q <= a / b,
    ;
}

/// `hex_stop` never goes back.
pub proof fn lemma_hex_stop_ge(cfg: PixelatorConfig, ras: Raster, row: int, col: int)
    requires
        cfg.total_spacing() > 0,
        col >= 0,
    ensures
        hex_stop(cfg, ras, row, col) >= col,
    decreases ras.width * MICROS + cfg.total_spacing() * 1000 - hex_x(cfg, row, col),
{
    if hex_x(cfg, row, col) < ras.width * MICROS {
        lemma_hex_x_step(cfg, row, col);
        lemma_hex_stop_ge(cfg, ras, row, col + 1);
    }
}

/// Every lattice row has a nonnegative number of points.
pub proof fn lemma_cols_nonneg(cfg: PixelatorConfig, ras: Raster, row: int)
    requires
        cfg.wf(),
    ensures
        lattice_cols(cfg, ras, row) >= 0,
{
    vstd::arithmetic::div_mod::lemma_div_pos_is_pos(ras.width * 1000, cfg.total_spacing() as int);
    lemma_hex_stop_ge(cfg, ras, row, 0);
}

/// Samples an image on the lattice of a configuration.
pub struct ImageProcessor<'a> {
    pub config: &'a PixelatorConfig,
}

impl<'a> ImageProcessor<'a> {
    /// Creates an image processor with the given configuration.
    pub fn new(config: &'a PixelatorConfig) -> (r: Self)
        ensures
            r.config == config,
    {
        ImageProcessor { config }
    }

    /// Brightness of a color: BT.709 luma on the scale of `LUMA_FULL`
    /// (0 is black, `LUMA_FULL` is white).
    pub fn calculate_brightness(color: &Rgba) -> (b: u32)
        ensures
            b == luma(*color),
            b <= LUMA_FULL,
    {
        2126 * color.r as u32 + 7152 * color.g as u32 + 722 * color.b as u32
    }

    /// Dot size of a sample of the given brightness: the diameter in color
    /// mode, the halftone interpolation otherwise.
    pub fn calculate_dot_size(&self, brightness: u32) -> (d: u64)
        requires
            self.config.wf(),
            brightness <= LUMA_FULL,
        ensures
            d == dot_size_of(*self.config, brightness as int),
    {
        let cfg = self.config;
        match cfg.render_mode {
            RenderMode::Color => cfg.circle_diameter as u64 * LUMA_FULL,
            RenderMode::Halftone(style) => {
                let adjusted: u64 = match style {
                    HalftoneStyle::BlackOnWhite => LUMA_FULL - brightness as u64,
                    HalftoneStyle::WhiteOnBlack => brightness as u64,
                };
                let min = cfg.min_dot_size as u64;
                let max = cfg.max_dot_size as u64;
                assert((max - min) * adjusted <= (max - min) * LUMA_FULL) by (nonlinear_arith)
                    requires
                        min <= max,
                        adjusted <= LUMA_FULL,
                ;
                min * LUMA_FULL + (max - min) * adjusted
            },
        }
    }

    /// The sample at lattice point `(x, y)`, in millionths of a pixel.
    fn sample_at(&self, ras: &Raster, x: u64, y: u64) -> (p: PixelData)
        requires
            self.config.wf(),
            ras.wf(),
            ras.width > 0,
            ras.height > 0,
        ensures
            p == sample_point(*self.config, *ras, x as int, y as int),
    {
        let sx: u64 = x / MICROS;
        let sx: u32 = if sx <= ras.width as u64 - 1 { sx as u32 } else { ras.width - 1 };
        let sy: u64 = y / MICROS;
        let sy: u32 = if sy <= ras.height as u64 - 1 { sy as u32 } else { ras.height - 1 };
        let color = sample_area(ras, sx, sy, self.config.circle_diameter / 2000);
        let brightness = Self::calculate_brightness(&color);
        let dot_size = self.calculate_dot_size(brightness);
        PixelData { x, y, color, brightness, dot_size }
    }

    /// The samples of lattice row `row`, left to right.
    fn sample_row(&self, ras: &Raster, row: u64) -> (r: Vec<PixelData>)
        requires
            self.config.wf(),
            ras.wf(),
            row < lattice_rows(*self.config, *ras),
        ensures
            r@ == lattice_row(*self.config, *ras, row as int),
    {
        let cfg = self.config;
        let ghost c = *cfg;
        let ts = cfg.get_total_spacing();
        let half = cfg.circle_diameter as u64 * 500;
        let mut out: Vec<PixelData> = Vec::new();
        match cfg.sample_mode {
            SampleMode::Grid => {
                let cols = ras.width as u64 * 1000 / ts;
                proof {
                    lemma_floor_mul(ras.height * 1000, ts as int, row + 1);
                    lemma_floor_mul(ras.height * 1000, ts as int, row as int);
                }
                let y = row * ts * 1000 + half;
                let mut col: u64 = 0;
                while col < cols
                    invariant
                        c == *cfg,
                        c == *self.config,
                        c.wf(),
                        ras.wf(),
                        c.sample_mode == SampleMode::Grid,
                        ras.height > 0,
                        ts == c.total_spacing(),
                        half == c.circle_diameter * 500,
                        cols == grid_cols(c, *ras),
                        y == grid_coord(c, row as int),
                        col <= cols,
                        out@ == lattice_row(c, *ras, row as int).take(col as int),
                    decreases cols - col,
                {
                    proof {
                        lemma_floor_mul(ras.width * 1000, ts as int, col + 1);
                        lemma_floor_mul(ras.width * 1000, ts as int, col as int);
                    }
                    let x = col * ts * 1000 + half;
                    let p = self.sample_at(ras, x, y);
                    out.push(p);
                    proof {
                        assert(out@ =~= lattice_row(c, *ras, row as int).take(col + 1));
                    }
                    col = col + 1;
                }
                proof {
                    assert(out@ =~= lattice_row(c, *ras, row as int));
                }
                out
            },
            SampleMode::Hexagonal => {
                let rh = ts * HEXAGONAL_ROW_HEIGHT_FACTOR;
                proof {
                    lemma_floor_mul(ras.height * MICROS * 1000, rh as int, row + 1);
                    lemma_floor_mul(ras.height * MICROS * 1000, rh as int, row as int);
                    assert(row * rh == row * ts * HEXAGONAL_ROW_HEIGHT_FACTOR) by (nonlinear_arith)
                        requires
                            rh == ts * HEXAGONAL_ROW_HEIGHT_FACTOR,
                    ;
                }
                let y = row * rh / 1000 + half;
                let offset: u64 = if row % 2 == 0 { 0 } else { ts * 500 };
                let step = ts * 1000;
                let limit = ras.width as u64 * MICROS;
                let mut col: u64 = 0;
                proof {
                    lemma_hex_stop_ge(c, *ras, row as int, 0);
                }
                loop
                    invariant
                        c == *cfg,
                        c == *self.config,
                        c.wf(),
                        ras.wf(),
                        c.sample_mode == SampleMode::Hexagonal,
                        ras.height > 0,
                        ts == c.total_spacing(),
                        half == c.circle_diameter * 500,
                        step == ts * 1000,
                        limit == ras.width * MICROS,
                        offset == (if row % 2 == 0 { 0 } else { ts * 500 }),
                        y == hex_y(c, row as int),
                        col * step + offset + half == hex_x(c, row as int, col as int),
                        hex_x(c, row as int, col as int) <= limit + step,
                        hex_stop(c, *ras, row as int, col as int) == hex_cols(c, *ras, row as int),
                        col <= hex_cols(c, *ras, row as int),
                        out@ == lattice_row(c, *ras, row as int).take(col as int),
                    ensures
                        out@ == lattice_row(c, *ras, row as int),
                    decreases limit + step - hex_x(c, row as int, col as int),
                {
                    let x = col * step + offset + half;
                    if x >= limit {
                        proof {
                            assert(out@ =~= lattice_row(c, *ras, row as int));
                        }
                        break;
                    }
                    let p = self.sample_at(ras, x, y);
                    out.push(p);
                    proof {
                        lemma_hex_x_step(c, row as int, col as int);
                        lemma_hex_stop_ge(c, *ras, row as int, col + 1);
                        assert(out@ =~= lattice_row(c, *ras, row as int).take(col + 1));
                        assert((col + 1) * step == col * step + step) by (nonlinear_arith);
                        assert(col <= col * step) by (nonlinear_arith)
                            requires
                                step >= 1,
                        ;
                    }
                    col = col + 1;
                }
                out
            },
        }
    }

    /// Samples a decoded raster: every lattice point, row after row, left to
    /// right within a row.
    pub fn sample_raster(&self, ras: &Raster) -> (r: Vec<PixelData>)
        requires
            self.config.wf(),
            ras.wf(),
        ensures
            r@ == samples(*self.config, *ras),
    {
        let cfg = self.config;
        let ts = cfg.get_total_spacing();
        let rows: u64 = match cfg.sample_mode {
            SampleMode::Grid => ras.height as u64 * 1000 / ts,
            SampleMode::Hexagonal => ras.height as u64 * MICROS * 1000 / (ts * HEXAGONAL_ROW_HEIGHT_FACTOR),
        };
        let mut out: Vec<PixelData> = Vec::new();
        let mut row: u64 = 0;
        while row < rows
            invariant
                self.config.wf(),
                ras.wf(),
                rows == lattice_rows(*self.config, *ras),
                row <= rows,
                out@ == rows_prefix(*self.config, *ras, row as int),
            decreases rows - row,
        {
            let mut line = self.sample_row(ras, row);
            out.append(&mut line);
            row = row + 1;
        }
        out
    }

    /// Samples a decoded image: the samples of its RGBA raster. Never fails.
    pub fn sample_image(&self, image: &DynamicImage) -> (r: Result<Vec<PixelData>>)
        requires
            self.config.wf(),
        ensures
            r is Ok,
            r matches Ok(v) ==> exists|ras: Raster| ras.wf() && v@ == samples(*self.config, ras),
    {
        let ras = raster_of(image);
        Ok(self.sample_raster(&ras))
    }
}

/// The RGBA raster of a decoded image: its first `width * height` pixels,
/// four bytes each.
pub(crate) fn raster_of(image: &DynamicImage) -> (r: Raster)
    ensures
        r.wf(),
{
    let (width, height, mut data) = rgba_bytes(image);
    proof {
        lemma_size_bound(width, height);
    }
    let n = width as u128 * height as u128 * 4;
    data.truncate(n as usize);
    Raster { width, height, data }
}

/// Relies on `image::DynamicImage::to_rgba8` (conversion to 8-bit RGBA) and
/// on `ImageBuffer::width`, `height` and `into_raw`, which hand out its size
/// and its buffer. An `ImageBuffer` holds at least `width * height` pixels
/// of four bytes.
#[verifier::external_body]
pub(crate) fn rgba_bytes(image: &DynamicImage) -> (r: (u32, u32, Vec<u8>))
    ensures
        r.2@.len() >= r.0 as int * r.1 as int * 4,
{
    let rgba = image.to_rgba8();
    (rgba.width(), rgba.height(), rgba.into_raw())
}

/// An image decoded by the `image` crate.
#[verifier::external_type_specification]
#[verifier::external_body]
pub struct ExDynamicImage(DynamicImage);

} // verus!
