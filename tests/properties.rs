use pixelator::config::{HalftoneStyle, RenderMode, SampleMode};
use pixelator::decimal::micro_string;
use pixelator::disk::sample_area;
use pixelator::processor::{ImageProcessor, PixelData, LUMA_FULL};
use pixelator::svg_generator::SvgGenerator;
use pixelator::{Pixelator, PixelatorConfig, PixelatorError, Raster, Rgba};

fn gray() -> Rgba {
    Rgba { r: 128, g: 128, b: 128, a: 255 }
}

fn config_10_5() -> PixelatorConfig {
    PixelatorConfig::new(10_000, 5_000).unwrap()
}

fn sample(config: &PixelatorConfig, raster: &Raster) -> Vec<PixelData> {
    ImageProcessor::new(config).sample_raster(raster)
}

/// A raster whose red and green channels grow to the right and downwards.
fn gradient(w: u32, h: u32) -> Raster {
    let mut data = Vec::new();
    for y in 0..h {
        for x in 0..w {
            data.push((x * 255 / w) as u8);
            data.push((y * 255 / h) as u8);
            data.push(((x + y) % 256) as u8);
            data.push(255);
        }
    }
    Raster::from_rgba(w, h, data).unwrap()
}

#[test]
fn grid_on_raster_smaller_than_pitch_is_empty() {
    let config = config_10_5();
    assert!(sample(&config, &Raster::from_pixel(14, 14, gray()).unwrap()).is_empty());
    assert!(sample(&config, &Raster::from_pixel(1, 1, gray()).unwrap()).is_empty());
    assert!(sample(&config, &Raster::from_pixel(0, 0, gray()).unwrap()).is_empty());
    assert_eq!(sample(&config, &Raster::from_pixel(15, 15, gray()).unwrap()).len(), 1);
}

#[test]
fn grid_count_and_row_major_order() {
    let config = config_10_5();
    let samples = sample(&config, &Raster::from_pixel(100, 50, gray()).unwrap());
    assert_eq!(samples.len(), 6 * 3);
    // index 7 is column 1 of row 1
    assert_eq!(samples[7].x, 20_000_000);
    assert_eq!(samples[7].y, 20_000_000);
    assert_eq!(samples[5].x, 80_000_000);
    assert_eq!(samples[5].y, 5_000_000);
    assert_eq!(samples[6].x, 5_000_000);
    assert_eq!(samples[6].y, 20_000_000);
}

#[test]
fn uniform_raster_samples_keep_the_color() {
    let c = Rgba { r: 10, g: 200, b: 30, a: 77 };
    let raster = Raster::from_pixel(64, 48, c).unwrap();
    for mode in [SampleMode::Grid, SampleMode::Hexagonal] {
        let config = PixelatorConfig::new(7_000, 1_500).unwrap().with_sample_mode(mode);
        let samples = sample(&config, &raster);
        assert!(!samples.is_empty());
        for s in &samples {
            assert_eq!(s.color, c);
            assert_eq!(s.brightness, 2126 * 10 + 7152 * 200 + 722 * 30);
        }
    }
}

#[test]
fn brightness_formula() {
    assert_eq!(ImageProcessor::calculate_brightness(&Rgba { r: 255, g: 255, b: 255, a: 0 }) as u64, LUMA_FULL);
    assert_eq!(ImageProcessor::calculate_brightness(&Rgba { r: 0, g: 0, b: 0, a: 255 }), 0);
    assert_eq!(ImageProcessor::calculate_brightness(&gray()), 1_280_000);
    assert_eq!(ImageProcessor::calculate_brightness(&Rgba { r: 1, g: 2, b: 3, a: 4 }), 2126 + 14304 + 2166);
}

#[test]
fn halftone_dot_size_is_monotonic_and_bounded() {
    let bw = config_10_5()
        .with_render_mode(RenderMode::Halftone(HalftoneStyle::BlackOnWhite))
        .with_halftone_range(1_000, 10_000)
        .unwrap();
    let p = ImageProcessor::new(&bw);
    let levels = [0u32, 1, 1_000_000, 1_275_000, 2_549_999, 2_550_000];
    let mut last = u64::MAX;
    for b in levels {
        let d = p.calculate_dot_size(b);
        assert!(d <= last);
        assert!(d >= 1_000 * LUMA_FULL && d <= 10_000 * LUMA_FULL);
        last = d;
    }
    assert_eq!(p.calculate_dot_size(0), 10_000 * LUMA_FULL);
    assert_eq!(p.calculate_dot_size(2_550_000), 1_000 * LUMA_FULL);

    let wb = bw.clone().with_render_mode(RenderMode::Halftone(HalftoneStyle::WhiteOnBlack));
    let q = ImageProcessor::new(&wb);
    let mut last = 0u64;
    for b in levels {
        let d = q.calculate_dot_size(b);
        assert!(d >= last);
        last = d;
    }
    let color_config = config_10_5();
    let color = ImageProcessor::new(&color_config);
    assert_eq!(color.calculate_dot_size(12_345), 10_000 * LUMA_FULL);
}

#[test]
fn swapping_styles_complements_dot_sizes() {
    let raster = gradient(90, 70);
    let bw = config_10_5()
        .with_render_mode(RenderMode::Halftone(HalftoneStyle::BlackOnWhite))
        .with_halftone_range(2_000, 9_000)
        .unwrap();
    let wb = bw.clone().with_render_mode(RenderMode::Halftone(HalftoneStyle::WhiteOnBlack));
    let a = sample(&bw, &raster);
    let b = sample(&wb, &raster);
    assert_eq!(a.len(), b.len());
    assert!(!a.is_empty());
    for (s, t) in a.iter().zip(b.iter()) {
        assert_eq!(s.x, t.x);
        assert_eq!(s.color, t.color);
        assert_eq!(s.dot_size + t.dot_size, (2_000 + 9_000) * LUMA_FULL);
    }
}

#[test]
fn empty_samples_give_document_without_circles() {
    let config = PixelatorConfig::default();
    let svg = SvgGenerator::new(&config).generate_svg(&[], 100, 80).unwrap();
    assert!(!svg.contains("<circle"));
    assert!(svg.contains("width=\"100\""));
    assert!(svg.contains("height=\"80\""));
    assert!(svg.contains("viewBox=\"0 0 100 80\""));
    assert!(svg.contains("xmlns=\"http://www.w3.org/2000/svg\""));
    assert!(!svg.contains("style="));
}

#[test]
fn shared_color_gives_one_fill_text() {
    let config = PixelatorConfig::default();
    let c = Rgba { r: 1, g: 22, b: 255, a: 128 };
    let pixels: Vec<PixelData> = (0..7u64)
        .map(|i| PixelData { x: i * 3_000_000, y: 500_000, color: c, brightness: 0, dot_size: 0 })
        .collect();
    let svg = SvgGenerator::new(&config).generate_svg(&pixels, 30, 30).unwrap();
    assert_eq!(svg.matches("<circle").count(), 7);
    assert_eq!(svg.matches("fill=\"rgb(1,22,255)\"").count(), 7);
    assert_eq!(svg.matches("fill-opacity=\"0.501960\"").count(), 0);
    assert_eq!(svg.matches("fill-opacity=\"0.50196\"").count(), 7);
    assert!(svg.contains("cx=\"3\""));
    assert!(svg.contains("cy=\"0.5\""));
}

#[test]
fn gray_grid_color_scenario() {
    let pixelator = Pixelator::new(config_10_5());
    let svg = pixelator.process_raster(&Raster::from_pixel(100, 100, gray()).unwrap());
    assert_eq!(svg.matches("<circle").count(), 36);
    assert_eq!(svg.matches("r=\"5\"").count(), 36);
    assert_eq!(svg.matches("fill=\"rgb(128,128,128)\"").count(), 36);
    assert_eq!(svg.matches("fill-opacity=\"1\"").count(), 36);
    assert!(svg.contains("width=\"100\""));
    assert!(svg.contains("height=\"100\""));
    assert!(svg.contains("viewBox=\"0 0 100 100\""));
    assert!(svg.contains("<circle cx=\"5\" cy=\"5\" fill=\"rgb(128,128,128)\" fill-opacity=\"1\" r=\"5\"/>"));
}

#[test]
fn gray_grid_halftone_scenario() {
    let config = config_10_5()
        .with_background_color("red".to_string())
        .with_render_mode(RenderMode::Halftone(HalftoneStyle::BlackOnWhite))
        .with_halftone_range(1_000, 10_000)
        .unwrap();
    let raster = Raster::from_pixel(100, 100, gray()).unwrap();
    let samples = sample(&config, &raster);
    assert_eq!(samples.len(), 36);
    let expected = 1_000 * LUMA_FULL + 9_000 * (LUMA_FULL - 1_280_000);
    for s in &samples {
        assert_eq!(s.dot_size, expected);
    }
    let svg = Pixelator::new(config).process_raster(&raster);
    assert_eq!(svg.matches("<circle").count(), 36);
    assert_eq!(svg.matches("r=\"2.741176\"").count(), 36);
    assert_eq!(svg.matches("fill=\"black\"").count(), 36);
    assert!(svg.contains("style=\"background-color: white\""));
    assert!(!svg.contains("red"));
    assert!(!svg.contains("fill-opacity"));
}

#[test]
fn white_on_black_background_and_ink() {
    let config = config_10_5()
        .with_render_mode(RenderMode::Halftone(HalftoneStyle::WhiteOnBlack))
        .with_halftone_range(1_000, 10_000)
        .unwrap();
    let svg = Pixelator::new(config).process_raster(&Raster::from_pixel(30, 30, gray()).unwrap());
    assert!(svg.contains("style=\"background-color: black\""));
    assert_eq!(svg.matches("fill=\"white\"").count(), 4);
}

#[test]
fn small_halftone_dots_are_skipped() {
    let config = config_10_5()
        .with_render_mode(RenderMode::Halftone(HalftoneStyle::BlackOnWhite))
        .with_halftone_range(100, 400)
        .unwrap();
    let svg = Pixelator::new(config).process_raster(&Raster::from_pixel(100, 100, gray()).unwrap());
    assert_eq!(svg.matches("<circle").count(), 0);
    let at_threshold = PixelData { x: 0, y: 0, color: gray(), brightness: 0, dot_size: 500 * LUMA_FULL };
    let below = PixelData { dot_size: 500 * LUMA_FULL - 1, ..at_threshold };
    let config = config_10_5().with_render_mode(RenderMode::Halftone(HalftoneStyle::BlackOnWhite));
    let svg = SvgGenerator::new(&config).generate_svg(&[at_threshold, below], 10, 10).unwrap();
    assert_eq!(svg.matches("<circle").count(), 1);
    assert!(svg.contains("r=\"0.25\""));
}

#[test]
fn color_background_is_configured_one() {
    let config = PixelatorConfig::default().with_background_color("#FFFFFF".to_string());
    let svg = SvgGenerator::new(&config).generate_svg(&[], 10, 10).unwrap();
    assert!(svg.contains("style=\"background-color: #FFFFFF\""));
}

#[test]
fn physical_size_in_millimetres() {
    let config = PixelatorConfig::default().with_output_dimensions(210_000, 297_500).unwrap();
    let svg = SvgGenerator::new(&config).generate_svg(&[], 640, 480).unwrap();
    assert!(svg.contains("width=\"210mm\""));
    assert!(svg.contains("height=\"297.5mm\""));
    assert!(svg.contains("viewBox=\"0 0 640 480\""));
}

#[test]
fn hexagonal_differs_from_grid() {
    let raster = Raster::from_pixel(100, 100, gray()).unwrap();
    let grid = sample(&config_10_5(), &raster);
    let hex = sample(&config_10_5().with_sample_mode(SampleMode::Hexagonal), &raster);
    assert_eq!(grid.len(), 36);
    assert_eq!(hex.len(), 7 + 6 + 7 + 6 + 7 + 6 + 7);
    assert_ne!(hex.len(), grid.len());
    assert_eq!(hex[7].x, 12_500_000);
    assert_eq!(hex[7].y, 12_990_375 + 5_000_000);
}

#[test]
fn disk_average_of_a_center_dot() {
    let mut data = vec![0u8; 3 * 3 * 4];
    for i in 0..9 {
        data[i * 4 + 3] = 255;
    }
    data[4 * 4] = 255;
    let raster = Raster::from_rgba(3, 3, data).unwrap();
    let c = sample_area(&raster, 1, 1, 1);
    assert_eq!(c, Rgba { r: 51, g: 0, b: 0, a: 255 });
    let c = sample_area(&raster, 0, 0, 1);
    assert_eq!(c, Rgba { r: 0, g: 0, b: 0, a: 255 });
    let c = sample_area(&raster, 1, 1, 0);
    assert_eq!(c, Rgba { r: 255, g: 0, b: 0, a: 255 });
    let c = sample_area(&raster, 1, 1, 2);
    assert_eq!(c, Rgba { r: 28, g: 0, b: 0, a: 255 });
}

#[test]
fn raster_rejects_wrong_buffer() {
    assert!(Raster::from_rgba(2, 2, vec![0u8; 15]).is_none());
    assert!(Raster::from_rgba(2, 2, vec![0u8; 16]).is_some());
}

#[test]
fn invalid_halftone_range() {
    let config = PixelatorConfig::default();
    assert!(matches!(config.clone().with_halftone_range(0, 5_000), Err(PixelatorError::InvalidConfig(_))));
    assert!(matches!(config.clone().with_halftone_range(5_000, -1), Err(PixelatorError::InvalidConfig(_))));
    assert!(matches!(config.clone().with_halftone_range(6_000, 5_000), Err(PixelatorError::InvalidConfig(_))));
    let ok = config.with_halftone_range(5_000, 5_000).unwrap();
    assert_eq!((ok.min_dot_size, ok.max_dot_size), (5_000, 5_000));
}

#[test]
fn new_sets_halftone_range_from_diameter() {
    let config = PixelatorConfig::new(10_000, 2_000).unwrap();
    assert_eq!((config.min_dot_size, config.max_dot_size), (1_000, 10_000));
    let config = PixelatorConfig::new(15, 0).unwrap();
    assert_eq!((config.min_dot_size, config.max_dot_size), (2, 15));
}

#[test]
fn micro_text_values() {
    assert_eq!(micro_string(7_500_000), "7.5");
    assert_eq!(micro_string(5_000_000), "5");
    assert_eq!(micro_string(0), "0");
    assert_eq!(micro_string(250_000), "0.25");
    assert_eq!(micro_string(1_000_001), "1.000001");
    assert_eq!(micro_string(123_456_789_000_000), "123456789");
}

#[test]
fn decoded_image_goes_through_the_pipeline() {
    let img = image::RgbaImage::from_pixel(30, 30, image::Rgba([200, 100, 50, 255]));
    let dynamic = image::DynamicImage::ImageRgba8(img);
    let config = config_10_5();
    let svg = Pixelator::new(config.clone()).process_image(&dynamic).unwrap();
    assert_eq!(svg.matches("fill=\"rgb(200,100,50)\"").count(), 4);
    assert!(svg.contains("viewBox=\"0 0 30 30\""));
    let samples = ImageProcessor::new(&config).sample_image(&dynamic).unwrap();
    assert_eq!(samples.len(), 4);
    assert_eq!(samples[0].color, Rgba { r: 200, g: 100, b: 50, a: 255 });
}

#[test]
fn gray_image_color_scenario_through_process_image() {
    let img = image::RgbaImage::from_pixel(100, 100, image::Rgba([128, 128, 128, 255]));
    let dynamic = image::DynamicImage::ImageRgba8(img);
    let svg = Pixelator::new(config_10_5()).process_image(&dynamic).unwrap();
    assert_eq!(svg.matches("<circle").count(), 36);
    assert!(svg.contains("width=\"100\""));
    assert!(svg.contains("height=\"100\""));
    assert!(svg.contains("viewBox=\"0 0 100 100\""));
}

#[test]
fn oversized_image_buffer_is_sampled() {
    let mut data = vec![9u8; 2 * 2 * 4 + 4];
    data[0] = 200;
    let img = image::RgbaImage::from_raw(2, 2, data).unwrap();
    let dynamic = image::DynamicImage::ImageRgba8(img);
    let config = PixelatorConfig::new(1_000, 0).unwrap();
    let samples = ImageProcessor::new(&config).sample_image(&dynamic).unwrap();
    assert_eq!(samples.len(), 4);
    assert_eq!(samples[0].color, Rgba { r: 200, g: 9, b: 9, a: 9 });
    assert_eq!(samples[3].color, Rgba { r: 9, g: 9, b: 9, a: 9 });
}

#[test]
fn config_error_messages() {
    let msg = |r: Result<PixelatorConfig, PixelatorError>| match r {
        Err(PixelatorError::InvalidConfig(m)) => m,
        _ => panic!("expected an invalid configuration"),
    };
    assert_eq!(msg(PixelatorConfig::new(0, -1)), "Circle diameter must be positive");
    assert_eq!(msg(PixelatorConfig::new(1, -1)), "Circle spacing cannot be negative");
    let c = PixelatorConfig::default();
    assert_eq!(msg(c.clone().with_output_dimensions(0, 5)), "Output dimensions must be positive");
    assert_eq!(msg(c.clone().with_halftone_range(-1, 0)), "Dot sizes must be positive");
    assert_eq!(msg(c.with_halftone_range(9, 8)), "Minimum dot size must be less than maximum");
}
