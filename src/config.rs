use vstd::prelude::*;
use vstd::string::StringExecFns;
use crate::error::{PixelatorError, Result};

verus! {

/// Lattice on which the image is sampled.
#[derive(Debug, Clone, Copy, PartialEq, Eq, Structural)]
pub enum SampleMode {
    /// Regular grid pattern
    Grid,
    /// Hexagonal/honeycomb pattern
    Hexagonal,
}

/// Rendering style for the output.
#[derive(Debug, Clone, Copy, PartialEq, Eq, Structural)]
pub enum RenderMode {
    /// Full color circles
    Color,
    /// Halftone effect with variable dot sizes
    Halftone(HalftoneStyle),
}

/// Halftone rendering style options.
#[derive(Debug, Clone, Copy, PartialEq, Eq, Structural)]
pub enum HalftoneStyle {
    /// Black dots on white background
    BlackOnWhite,
    /// White dots on black background
    WhiteOnBlack,
}

/// Configuration of a conversion.
///
/// Lengths in pixels are held in thousandths of a pixel, output dimensions in
/// thousandths of a millimetre.
#[derive(Debug, Clone)]
pub struct PixelatorConfig {
    pub circle_diameter: u32,
    pub circle_spacing: u32,
    pub output_width_mm: Option<u32>,
    pub output_height_mm: Option<u32>,
    pub background_color: Option<String>,
    pub sample_mode: SampleMode,
    pub render_mode: RenderMode,
    /// Maximum dot size for halftone mode
    pub max_dot_size: u32,
    /// Minimum dot size for halftone mode
    pub min_dot_size: u32,
}

impl Default for PixelatorConfig {
    /// A configuration with a diameter of 10 px and a spacing of 2 px.
    fn default() -> (r: Self)
        ensures
            r.wf(),
            r.circle_diameter == 10_000,
            r.circle_spacing == 2_000,
            r.output_width_mm is None,
            r.output_height_mm is None,
            r.background_color is None,
            r.sample_mode == SampleMode::Grid,
            r.render_mode == RenderMode::Color,
            r.max_dot_size == 10_000,
            r.min_dot_size == 1_000,
    {
        PixelatorConfig {
            circle_diameter: 10_000,
            circle_spacing: 2_000,
            output_width_mm: None,
            output_height_mm: None,
            background_color: None,
            sample_mode: SampleMode::Grid,
            render_mode: RenderMode::Color,
            max_dot_size: 10_000,
            min_dot_size: 1_000,
        }
    }
}

impl PixelatorConfig {
    /// The configuration's invariant: a positive diameter, positive and
    /// ordered dot sizes, and output dimensions that are both set and
    /// positive or both unset.
    pub open spec fn wf(&self) -> bool {
        &&& self.circle_diameter > 0
        &&& self.min_dot_size > 0
        &&& self.min_dot_size <= self.max_dot_size
        &&& match (self.output_width_mm, self.output_height_mm) {
            (Some(w), Some(h)) => w > 0 && h > 0,
            (None, None) => true,
            _ => false,
        }
    }

    /// Center-to-center pitch of the lattice, in thousandths of a pixel.
    pub open spec fn total_spacing(&self) -> nat {
        (self.circle_diameter + self.circle_spacing) as nat
    }

    /// Creates a configuration with the given diameter and spacing (in
    /// thousandths of a pixel). The halftone range runs from a tenth of the
    /// diameter (rounded up to a whole thousandth) to the diameter.
    pub fn new(circle_diameter: i32, circle_spacing: i32) -> (r: Result<Self>)
        ensures
            (circle_diameter <= 0) ==> (r matches Err(PixelatorError::InvalidConfig(m))
                && m@ == "Circle diameter must be positive"@),
            (circle_diameter > 0 && circle_spacing < 0) ==> (r matches Err(
                PixelatorError::InvalidConfig(m),
            ) && m@ == "Circle spacing cannot be negative"@),
            (circle_diameter > 0 && circle_spacing >= 0) <==> r is Ok,
            r matches Ok(c) ==> {
                &&& c.wf()
                &&& c.circle_diameter == circle_diameter
                &&& c.circle_spacing == circle_spacing
                &&& c.output_width_mm is None
                &&& c.output_height_mm is None
                &&& c.background_color is None
                &&& c.sample_mode == SampleMode::Grid
                &&& c.render_mode == RenderMode::Color
                &&& c.max_dot_size == circle_diameter
                &&& c.min_dot_size == (circle_diameter + 9) / 10
            },
    {
        if circle_diameter <= 0 {
            return Err(
                PixelatorError::InvalidConfig(String::from_str("Circle diameter must be positive")),
            );
        }
        if circle_spacing < 0 {
            return Err(
                PixelatorError::InvalidConfig(String::from_str("Circle spacing cannot be negative")),
            );
        }
        let d = circle_diameter as u32;
        Ok(PixelatorConfig {
            circle_diameter: d,
            circle_spacing: circle_spacing as u32,
            output_width_mm: None,
            output_height_mm: None,
            background_color: None,
            sample_mode: SampleMode::Grid,
            render_mode: RenderMode::Color,
            max_dot_size: d,
            min_dot_size: d / 10 + if d % 10 == 0 { 0 } else { 1 },
        })
    }

    /// Sets the physical output size, in thousandths of a millimetre.
    pub fn with_output_dimensions(self, width_mm: i32, height_mm: i32) -> (r: Result<Self>)
        requires
            self.wf(),
        ensures
            (width_mm > 0 && height_mm > 0) <==> r is Ok,
            !(width_mm > 0 && height_mm > 0) ==> (r matches Err(PixelatorError::InvalidConfig(m))
                && m@ == "Output dimensions must be positive"@),
            r matches Ok(c) ==> (c.wf() && c == (PixelatorConfig {
                output_width_mm: Some(width_mm as u32),
                output_height_mm: Some(height_mm as u32),
                ..self
            })),
    {
        if width_mm <= 0 || height_mm <= 0 {
            return Err(
                PixelatorError::InvalidConfig(String::from_str("Output dimensions must be positive")),
            );
        }
        Ok(PixelatorConfig {
            output_width_mm: Some(width_mm as u32),
            output_height_mm: Some(height_mm as u32),
            ..self
        })
    }

    /// Sets the background color of the document (used in color mode).
    pub fn with_background_color(self, color: String) -> (r: Self)
        requires
            self.wf(),
        ensures
            r.wf(),
            r == (PixelatorConfig { background_color: Some(color), ..self }),
    {
        PixelatorConfig { background_color: Some(color), ..self }
    }

    /// Sets the sampling mode.
    pub fn with_sample_mode(self, mode: SampleMode) -> (r: Self)
        requires
            self.wf(),
        ensures
            r.wf(),
            r == (PixelatorConfig { sample_mode: mode, ..self }),
    {
        PixelatorConfig { sample_mode: mode, ..self }
    }

    /// Sets the rendering mode.
    pub fn with_render_mode(self, mode: RenderMode) -> (r: Self)
        requires
            self.wf(),
        ensures
            r.wf(),
            r == (PixelatorConfig { render_mode: mode, ..self }),
    {
        PixelatorConfig { render_mode: mode, ..self }
    }

    /// Returns the total spacing between circle centers, in thousandths of a pixel.
    pub fn get_total_spacing(&self) -> (r: u64)
        ensures
            r == self.total_spacing(),
    {
        self.circle_diameter as u64 + self.circle_spacing as u64
    }

    /// Sets the halftone dot size range, in thousandths of a pixel.
    pub fn with_halftone_range(self, min_size: i32, max_size: i32) -> (r: Result<Self>)
        requires
            self.wf(),
        ensures
            (min_size > 0 && max_size > 0 && min_size <= max_size) <==> r is Ok,
            (min_size <= 0 || max_size <= 0) ==> (r matches Err(PixelatorError::InvalidConfig(m))
                && m@ == "Dot sizes must be positive"@),
            (min_size > 0 && max_size > 0 && min_size > max_size) ==> (r matches Err(
                PixelatorError::InvalidConfig(m),
            ) && m@ == "Minimum dot size must be less than maximum"@),
            r matches Ok(c) ==> (c.wf() && c == (PixelatorConfig {
                min_dot_size: min_size as u32,
                max_dot_size: max_size as u32,
                ..self
            })),
    {
        if min_size <= 0 || max_size <= 0 {
            return Err(PixelatorError::InvalidConfig(String::from_str("Dot sizes must be positive")));
        }
        if min_size > max_size {
            return Err(
                PixelatorError::InvalidConfig(
                    String::from_str("Minimum dot size must be less than maximum"),
                ),
            );
        }
        Ok(PixelatorConfig { min_dot_size: min_size as u32, max_dot_size: max_size as u32, ..self })
    }
}

} // verus!
