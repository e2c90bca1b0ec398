use pixelator::config::SampleMode;
use pixelator::processor::{ImageProcessor, PixelData, HEXAGONAL_ROW_HEIGHT_FACTOR};
use pixelator::svg_generator::SvgGenerator;
use pixelator::{Pixelator, PixelatorConfig, Raster, Rgba};

fn gray() -> Rgba {
    Rgba { r: 128, g: 128, b: 128, a: 255 }
}

fn gray_raster(w: u32, h: u32) -> Raster {
    Raster::from_pixel(w, h, gray()).unwrap()
}

fn sample(config: &PixelatorConfig, raster: &Raster) -> Vec<PixelData> {
    ImageProcessor::new(config).sample_raster(raster)
}

fn pixel(x: u64, y: u64, color: Rgba) -> PixelData {
    PixelData { x, y, color, brightness: ImageProcessor::calculate_brightness(&color), dot_size: 0 }
}

#[test]
fn test_config_validation() {
    assert!(PixelatorConfig::new(-1000, 2000).is_err());
    assert!(PixelatorConfig::new(0, 2000).is_err());
    assert!(PixelatorConfig::new(10_000, -1000).is_err());
    assert!(PixelatorConfig::new(10_000, 2000).is_ok());
    assert!(PixelatorConfig::new(10_000, 0).is_ok());
}

#[test]
fn test_config_default() {
    let config = PixelatorConfig::default();
    assert_eq!(config.circle_diameter, 10_000);
    assert_eq!(config.circle_spacing, 2_000);
    assert!(config.output_width_mm.is_none());
    assert!(config.output_height_mm.is_none());
    assert!(config.background_color.is_none());
    assert!(matches!(config.sample_mode, SampleMode::Grid));
}

#[test]
fn test_config_builder_pattern() {
    let config = PixelatorConfig::new(15_000, 3_000)
        .unwrap()
        .with_output_dimensions(100_000, 150_000)
        .unwrap()
        .with_background_color("white".to_string())
        .with_sample_mode(SampleMode::Hexagonal);

    assert_eq!(config.circle_diameter, 15_000);
    assert_eq!(config.circle_spacing, 3_000);
    assert_eq!(config.output_width_mm, Some(100_000));
    assert_eq!(config.output_height_mm, Some(150_000));
    assert_eq!(config.background_color, Some("white".to_string()));
    assert!(matches!(config.sample_mode, SampleMode::Hexagonal));
}

#[test]
fn test_output_dimensions_validation() {
    let config = PixelatorConfig::new(10_000, 2_000).unwrap();

    assert!(config.clone().with_output_dimensions(-10_000, 100_000).is_err());
    assert!(config.clone().with_output_dimensions(100_000, -10_000).is_err());
    assert!(config.clone().with_output_dimensions(0, 100_000).is_err());
    assert!(config.clone().with_output_dimensions(100_000, 0).is_err());

    assert!(config.with_output_dimensions(100_000, 150_000).is_ok());
}

#[test]
fn test_total_spacing_calculation() {
    let config = PixelatorConfig::new(10_000, 5_000).unwrap();
    assert_eq!(config.get_total_spacing(), 15_000);

    let config = PixelatorConfig::new(20_000, 0).unwrap();
    assert_eq!(config.get_total_spacing(), 20_000);
}

#[test]
fn test_pixel_data_creation() {
    let pixel = pixel(10_000_000, 20_000_000, Rgba { r: 255, g: 128, b: 64, a: 255 });

    assert_eq!(pixel.x, 10_000_000);
    assert_eq!(pixel.y, 20_000_000);
    assert_eq!(pixel.color.r, 255);
    assert_eq!(pixel.color.g, 128);
    assert_eq!(pixel.color.b, 64);
    assert_eq!(pixel.color.a, 255);
}

#[test]
fn test_image_processor_creation() {
    let config = PixelatorConfig::new(10_000, 2_000).unwrap();
    let _processor = ImageProcessor::new(&config);
}

#[test]
fn test_sample_mode_grid_vs_hexagonal() {
    let raster = gray_raster(100, 100);

    let config_grid = PixelatorConfig::new(10_000, 5_000).unwrap().with_sample_mode(SampleMode::Grid);
    let pixels_grid = sample(&config_grid, &raster);

    let config_hex = PixelatorConfig::new(10_000, 5_000).unwrap().with_sample_mode(SampleMode::Hexagonal);
    let pixels_hex = sample(&config_hex, &raster);

    assert!(!pixels_grid.is_empty());
    assert!(!pixels_hex.is_empty());
}

#[test]
fn test_svg_generator_creation() {
    let config = PixelatorConfig::new(10_000, 2_000).unwrap();
    let _generator = SvgGenerator::new(&config);
}

#[test]
fn test_svg_generation_with_empty_pixels() {
    let config = PixelatorConfig::new(10_000, 2_000).unwrap();
    let generator = SvgGenerator::new(&config);

    let pixels: Vec<PixelData> = vec![];
    let svg = generator.generate_svg(&pixels, 100, 100).unwrap();

    assert!(svg.contains("svg"));
    assert!(!svg.is_empty());
}

#[test]
fn test_svg_generation_with_pixels() {
    let config = PixelatorConfig::new(10_000, 2_000).unwrap();
    let generator = SvgGenerator::new(&config);

    let pixels = vec![
        pixel(10_000_000, 10_000_000, Rgba { r: 255, g: 0, b: 0, a: 255 }),
        pixel(30_000_000, 30_000_000, Rgba { r: 0, g: 255, b: 0, a: 255 }),
    ];

    let svg = generator.generate_svg(&pixels, 100, 100).unwrap();

    assert!(svg.contains("<circle"));
    assert!(svg.contains("rgb(255,0,0)"));
    assert!(svg.contains("rgb(0,255,0)"));
}

#[test]
fn test_pixelator_creation() {
    let config = PixelatorConfig::new(10_000, 2_000).unwrap();
    let _pixelator = Pixelator::new(config);
}

#[test]
fn test_color_caching_optimization() {
    let config = PixelatorConfig::new(10_000, 2_000).unwrap();
    let generator = SvgGenerator::new(&config);

    let mut pixels = Vec::new();
    for i in 0..100u64 {
        pixels.push(pixel(i * 10_000_000, 10_000_000, gray()));
    }

    let svg = generator.generate_svg(&pixels, 1000, 100).unwrap();

    assert!(svg.contains("rgb(128,128,128)"));
    assert_eq!(svg.matches("<circle").count(), 100);
}

#[test]
fn test_hexagonal_constant() {
    let expected = (3.0_f32).sqrt() / 2.0;
    let factor = HEXAGONAL_ROW_HEIGHT_FACTOR as f32 / 1_000_000.0;
    assert!((factor - expected).abs() < 0.001);
}
