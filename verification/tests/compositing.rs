use cgex::compositor::background_and_foreground;
use cgex::compositor::background_to_transparent;
use cgex::compositor::choose_format;
use cgex::compositor::combine_background;
use cgex::compositor::prepare_upscale;
use cgex::compositor::process_image;
use cgex::compositor::OutputFormat;
use cgex::compositor::ProcessStage;
use cgex::raster::bucket_fill;
use cgex::raster::Raster;

const WHITE: [u8; 3] = [255, 255, 255];

fn two_pixel_image() -> Raster {
    // one white (color-key) pixel, one red pixel with a translucent alpha
    Raster {
        width: 2,
        height: 1,
        pixels: vec![255, 255, 255, 255, 200, 10, 20, 77],
    }
}

#[test]
fn format_table_covers_all_four_combinations() {
    assert_eq!(choose_format(false, false), OutputFormat::OriginalRaster);
    assert_eq!(choose_format(false, true), OutputFormat::CompressedRaster);
    assert_eq!(choose_format(true, false), OutputFormat::LosslessUpscaled);
    assert_eq!(choose_format(true, true), OutputFormat::CompressedUpscaled);
}

#[test]
fn format_extensions() {
    assert_eq!(OutputFormat::OriginalRaster.extension(), "bmp");
    assert_eq!(OutputFormat::CompressedRaster.extension(), "webp");
    assert_eq!(OutputFormat::LosslessUpscaled.extension(), "png");
    assert_eq!(OutputFormat::CompressedUpscaled.extension(), "webp");
}

#[test]
fn mask_marks_key_pixels_and_blackens_the_rest() {
    let img = two_pixel_image();
    let mask = background_and_foreground(&img, WHITE);
    assert_eq!(mask.pixels, vec![255, 255, 255, 255, 0, 0, 0, 255]);
}

#[test]
fn transparent_key_image_clears_key_pixels_only() {
    let img = two_pixel_image();
    let t = background_to_transparent(&img, WHITE);
    assert_eq!(t.pixels, vec![0, 0, 0, 0, 200, 10, 20, 77]);
}

#[test]
fn combine_takes_color_from_foreground_and_alpha_from_mask_red() {
    let fg = Raster {
        width: 2,
        height: 1,
        pixels: vec![1, 2, 3, 255, 4, 5, 6, 255],
    };
    let bg = Raster {
        width: 2,
        height: 1,
        pixels: vec![255, 255, 255, 255, 40, 0, 0, 255],
    };
    let out = combine_background(&fg, &bg);
    assert_eq!(out.pixels, vec![1, 2, 3, 0, 4, 5, 6, 215]);
}

#[test]
fn process_without_upscale_keeps_pixels_untouched() {
    let img = two_pixel_image();
    let expected = img.pixels.clone();
    let outcome = process_image(img, false, false, WHITE);
    assert_eq!(outcome.format, OutputFormat::OriginalRaster);
    match outcome.stage {
        ProcessStage::Direct(d) => {
            assert_eq!(d.width, 2);
            assert_eq!(d.height, 1);
            assert_eq!(d.pixels, expected);
        }
        ProcessStage::NeedsInference(_) => panic!("no inference expected without upscale"),
    }
}

#[test]
fn process_with_compression_only_changes_the_container() {
    let img = two_pixel_image();
    let expected = img.pixels.clone();
    let outcome = process_image(img, true, false, WHITE);
    assert_eq!(outcome.format, OutputFormat::CompressedRaster);
    match outcome.stage {
        ProcessStage::Direct(d) => assert_eq!(d.pixels, expected),
        ProcessStage::NeedsInference(_) => panic!("no inference expected without upscale"),
    }
}

#[test]
fn upscale_stages_mask_at_three_times_the_size() {
    let img = two_pixel_image();
    let outcome = process_image(img, false, true, WHITE);
    assert_eq!(outcome.format, OutputFormat::LosslessUpscaled);
    match outcome.stage {
        ProcessStage::Direct(_) => panic!("the upscale path must stage inference"),
        ProcessStage::NeedsInference(job) => {
            assert_eq!(job.mask_upscaled.width, 6);
            assert_eq!(job.mask_upscaled.height, 3);
            assert_eq!(job.mask_upscaled.pixels.len(), 4 * 6 * 3);
            assert_eq!(job.transparent.width, 2);
            assert_eq!(job.transparent.height, 1);
            assert_eq!(job.transparent.pixels[3], 0);
            assert_eq!(job.transparent.pixels[4..8], [200, 10, 20, 77]);
        }
    }
}

#[test]
fn solid_key_image_upscales_to_fully_transparent() {
    // a uniform color-key source has no edges, so the resized mask stays
    // saturated and every composited pixel must come out with alpha 0
    let img = Raster::new_solid(4, 4, [255, 255, 255, 255]);
    let job = prepare_upscale(&img, WHITE);
    assert_eq!(job.mask_upscaled.width, 12);
    assert_eq!(job.mask_upscaled.height, 12);
    let prediction = Raster::new_solid(12, 12, [120, 130, 140, 255]);
    let out = combine_background(&prediction, &job.mask_upscaled);
    assert_eq!(out.width, 12);
    assert_eq!(out.height, 12);
    for y in 0..12u32 {
        for x in 0..12u32 {
            let p = out.get_pixel(x, y);
            assert_eq!(p[3], 0, "alpha not cleared at {},{}", x, y);
        }
    }
}

#[test]
fn solid_non_key_image_upscales_to_fully_opaque() {
    let img = Raster::new_solid(4, 4, [10, 20, 30, 255]);
    let job = prepare_upscale(&img, WHITE);
    let prediction = Raster::new_solid(12, 12, [120, 130, 140, 255]);
    let out = combine_background(&prediction, &job.mask_upscaled);
    for y in 0..12u32 {
        for x in 0..12u32 {
            let p = out.get_pixel(x, y);
            assert_eq!(p[3], 255, "alpha not opaque at {},{}", x, y);
        }
    }
}

#[test]
fn bucket_fill_paints_the_connected_region() {
    let mut img = Raster::new_solid(2, 2, [9, 9, 9, 255]);
    bucket_fill(&mut img, 0, 0, [1, 2, 3, 4]);
    for y in 0..2u32 {
        for x in 0..2u32 {
            assert_eq!(img.get_pixel(x, y), [1, 2, 3, 4]);
        }
    }
}

#[test]
fn bucket_fill_leaves_other_colors_alone() {
    let mut img = Raster::new_solid(2, 1, [9, 9, 9, 255]);
    img.put_pixel(1, 0, [7, 7, 7, 255]);
    bucket_fill(&mut img, 0, 0, [1, 2, 3, 255]);
    assert_eq!(img.get_pixel(0, 0), [1, 2, 3, 255]);
    assert_eq!(img.get_pixel(1, 0), [7, 7, 7, 255]);
}

#[test]
fn bucket_fill_with_matching_fill_color_is_a_no_op() {
    let mut img = Raster::new_solid(2, 1, [5, 5, 5, 5]);
    bucket_fill(&mut img, 0, 0, [5, 5, 5, 5]);
    assert_eq!(img.pixels, vec![5, 5, 5, 5, 5, 5, 5, 5]);
}
