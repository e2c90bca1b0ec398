//! Converts a raster image into circle art: the image is sampled on a grid or
//! hexagonal lattice, each sample averages a disk of pixels, and the samples
//! become circles of a vector document.
//!
//! Lengths are fixed-point integers: configuration lengths in thousandths of a
//! pixel (or of a millimetre), sample positions in millionths of a pixel.
use vstd::prelude::*;
use image::DynamicImage;

pub mod config;
pub mod error;
pub mod raster;
pub mod disk;
pub mod processor;
pub mod laws;
pub mod decimal;
pub mod svg_generator;

pub use config::PixelatorConfig;
pub use error::{PixelatorError, Result};
pub use processor::ImageProcessor;
pub use raster::{Raster, Rgba};
pub use svg_generator::SvgGenerator;

use processor::{raster_of, samples};
use svg_generator::document_text;

verus! {

/// Converts images to vector circle art under one configuration.
pub struct Pixelator {
    pub config: PixelatorConfig,
}

impl Pixelator {
    /// Creates a converter with the given configuration.
    pub fn new(config: PixelatorConfig) -> (r: Self)
        ensures
            r.config == config,
    {
        Pixelator { config }
    }

    /// The document for a decoded raster: its samples drawn on a canvas of
    /// its size.
    pub fn process_raster(&self, ras: &Raster) -> (r: String)
        requires
            self.config.wf(),
            ras.wf(),
        ensures
            r@ == document_text(self.config, samples(self.config, *ras), ras.width, ras.height),
    {
        let processor = ImageProcessor::new(&self.config);
        let sampled = processor.sample_raster(ras);
        let generator = SvgGenerator::new(&self.config);
        generator.generate_svg(sampled.as_slice(), ras.width, ras.height).unwrap()
    }

    /// The document for a decoded image: that of its RGBA raster. Never fails.
    pub fn process_image(&self, image: &DynamicImage) -> (r: Result<String>)
        requires
            self.config.wf(),
        ensures
            r is Ok,
            r matches Ok(t) ==> exists|ras: Raster|
                ras.wf() && t@ == document_text(self.config, samples(self.config, ras), ras.width, ras.height),
    {
        let ras = raster_of(image);
        Ok(self.process_raster(&ras))
    }
}

} // verus!
