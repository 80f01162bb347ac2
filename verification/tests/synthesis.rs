use raster_synth::raster::{Pixel, Raster, SynthError};
use raster_synth::synth::{fractal_pixel, synthesize_fractal, synthesize_solid};

fn raster_pixel(r: &Raster, x: u32, y: u32) -> Pixel {
    r.pixels[(y as usize) * (r.width as usize) + (x as usize)]
}

#[test]
fn fractal_has_one_pixel_per_cell() {
    let r = synthesize_fractal(5, 3).unwrap();
    assert_eq!(r.width, 5);
    assert_eq!(r.height, 3);
    assert_eq!(r.pixels.len(), 15);
}

#[test]
fn fractal_matches_per_pixel_computation() {
    let r = synthesize_fractal(32, 32).unwrap();
    for y in 0..32u32 {
        for x in 0..32u32 {
            assert_eq!(raster_pixel(&r, x, y), fractal_pixel(x, y, 32, 32));
        }
    }
}

#[test]
fn pixel_at_reads_row_major_cells() {
    let r = synthesize_fractal(7, 4).unwrap();
    for y in 0..4u32 {
        for x in 0..7u32 {
            assert_eq!(r.pixel_at(x, y), raster_pixel(&r, x, y));
        }
    }
}

#[test]
fn fractal_is_deterministic() {
    let a = synthesize_fractal(16, 16).unwrap();
    let b = synthesize_fractal(16, 16).unwrap();
    assert_eq!(a.pixels, b.pixels);
}

#[test]
fn single_pixel_raster() {
    let r = synthesize_fractal(1, 1).unwrap();
    assert_eq!(r.pixels.len(), 1);
    // the sample point is (-1.5, -1.5), whose magnitude already exceeds
    // 2.0, so the iteration stops before its first step
    assert_eq!(
        raster_pixel(&r, 0, 0),
        Pixel { red: 0, green: 0, blue: 0 }
    );
}

#[test]
fn golden_origin_of_800_square() {
    let p = fractal_pixel(0, 0, 800, 800);
    // sample point (-1.5, -1.5): escaped before the first step
    assert_eq!(p, Pixel { red: 0, green: 0, blue: 0 });
}

#[test]
fn golden_edge_of_800_square() {
    let p = fractal_pixel(799, 0, 800, 800);
    assert_eq!(p.red, 239);
    assert_eq!(p.blue, 0);
}

#[test]
fn escape_after_two_steps() {
    // the sample point of column 400, row 0 is (-1.5, 0.0); it leaves the
    // escape disc after exactly two iteration steps
    let p = fractal_pixel(400, 0, 800, 800);
    assert_eq!(p, Pixel { red: 120, green: 2, blue: 0 });
}

#[test]
fn full_800_square_golden_pixels() {
    let r = synthesize_fractal(800, 800).unwrap();
    assert_eq!(r.pixels.len(), 640_000);
    assert_eq!(raster_pixel(&r, 0, 0), Pixel { red: 0, green: 0, blue: 0 });
    assert_eq!(raster_pixel(&r, 799, 0).red, 239);
    assert_eq!(raster_pixel(&r, 799, 0).blue, 0);
    assert_eq!(raster_pixel(&r, 400, 0), Pixel { red: 120, green: 2, blue: 0 });
}

#[test]
fn gradient_wraps_past_255() {
    // 0.3 * 853 truncates to 255; one column further the 8-bit value
    // wraps to 0 rather than saturating
    assert_eq!(fractal_pixel(853, 0, 1000, 1000).red, 255);
    assert_eq!(fractal_pixel(854, 0, 1000, 1000).red, 0);
    assert_eq!(fractal_pixel(0, 854, 1000, 1000).blue, 0);
}

#[test]
fn zero_width_is_invalid() {
    assert_eq!(synthesize_fractal(0, 800), Err(SynthError::InvalidDimensions));
}

#[test]
fn zero_height_is_invalid() {
    assert_eq!(synthesize_fractal(800, 0), Err(SynthError::InvalidDimensions));
    assert_eq!(synthesize_fractal(0, 0), Err(SynthError::InvalidDimensions));
}

#[test]
fn solid_fills_every_cell() {
    let color = Pixel { red: 10, green: 20, blue: 30 };
    let r = synthesize_solid(4, 4, color).unwrap();
    assert_eq!(r.pixels.len(), 16);
    for p in &r.pixels {
        assert_eq!(*p, color);
    }
}

#[test]
fn solid_rejects_zero_dimension() {
    let color = Pixel { red: 1, green: 2, blue: 3 };
    assert_eq!(synthesize_solid(0, 4, color), Err(SynthError::InvalidDimensions));
    assert_eq!(synthesize_solid(4, 0, color), Err(SynthError::InvalidDimensions));
}
