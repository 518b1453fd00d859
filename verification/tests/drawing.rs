use raytracer::drawing::ColorMatrix;

fn to_byte(number: f64) -> u8 {
    if number >= 1.0 {
        255
    } else if number <= 0.0 {
        0
    } else {
        (number * 255.0) as u8
    }
}

fn to_rgb(c: (f64, f64, f64)) -> (u8, u8, u8) {
    (to_byte(c.0), to_byte(c.1), to_byte(c.2))
}

#[test]
fn a_frame_needs_both_dimensions() {
    assert!(ColorMatrix::new(0, 0, 0u8).is_none());
    assert!(ColorMatrix::new(0, 5, 0u8).is_none());
    assert!(ColorMatrix::new(5, 0, 0u8).is_none());
    assert!(ColorMatrix::new(1, 1, 0u8).is_some());
}

#[test]
fn a_new_frame_is_filled() {
    let m = ColorMatrix::new(4, 3, (0.0, 0.0, 0.0)).unwrap();
    assert_eq!(m.width(), 4);
    assert_eq!(m.height(), 3);
    for y in 0..3 {
        for x in 0..4 {
            assert_eq!(m.get(x, y), (0.0, 0.0, 0.0));
        }
    }
}

#[test]
fn set_changes_one_pixel() {
    let mut m = ColorMatrix::new(3, 2, 0u32).unwrap();
    m.set(2, 1, 77);
    m.set(0, 0, 5);
    for y in 0..2 {
        for x in 0..3 {
            let expected = if (x, y) == (2, 1) {
                77
            } else if (x, y) == (0, 0) {
                5
            } else {
                0
            };
            assert_eq!(m.get(x, y), expected);
        }
    }
    m.set(2, 1, 78);
    assert_eq!(m.get(2, 1), 78);
    assert_eq!(m.width(), 3);
    assert_eq!(m.height(), 2);
}

#[test]
fn composite_places_the_rows_of_a_band() {
    let mut m = ColorMatrix::new(2, 4, 1u32).unwrap();
    let mut band = ColorMatrix::new(2, 4, 0u32).unwrap();
    for y in 0..4 {
        for x in 0..2 {
            band.set(x, y, (10 * y + x) as u32);
        }
    }
    m.composite(&band, 1, 3);
    let rows: Vec<Vec<u32>> = (0..4).map(|y| (0..2).map(|x| m.get(x, y)).collect()).collect();
    assert_eq!(rows, vec![vec![1, 1], vec![10, 11], vec![20, 21], vec![1, 1]]);
    m.composite(&band, 2, 2);
    let rows: Vec<Vec<u32>> = (0..4).map(|y| (0..2).map(|x| m.get(x, y)).collect()).collect();
    assert_eq!(rows, vec![vec![1, 1], vec![10, 11], vec![20, 21], vec![1, 1]]);
    m.composite(&band, 0, 4);
    let rows: Vec<Vec<u32>> = (0..4).map(|y| (0..2).map(|x| m.get(x, y)).collect()).collect();
    assert_eq!(rows, vec![vec![0, 1], vec![10, 11], vec![20, 21], vec![30, 31]]);
}

#[test]
fn add_iteration_blends_every_pixel() {
    let mut m = ColorMatrix::new(2, 2, 100i64).unwrap();
    let mut sample = ColorMatrix::new(2, 2, 0i64).unwrap();
    sample.set(0, 0, 1);
    sample.set(1, 0, 2);
    sample.set(0, 1, 3);
    sample.set(1, 1, 4);
    m.add_iteration(&sample, 7, &|a: i64, b: i64, n: usize| a + 10 * b + 1000 * n as i64);
    assert_eq!(m.get(0, 0), 7110);
    assert_eq!(m.get(1, 0), 7120);
    assert_eq!(m.get(0, 1), 7130);
    assert_eq!(m.get(1, 1), 7140);
}

#[test]
fn running_average_of_two_samples() {
    let average = |a: f64, b: f64, n: usize| a + (b - a) / (n as f64 + 1.0);
    let mut m = ColorMatrix::new(1, 1, 0.0f64).unwrap();
    let first = ColorMatrix::new(1, 1, 1.0f64).unwrap();
    let second = ColorMatrix::new(1, 1, 0.5f64).unwrap();
    m.add_iteration(&first, 0, &average);
    assert_eq!(m.get(0, 0), 1.0);
    m.add_iteration(&second, 1, &average);
    assert_eq!(m.get(0, 0), 0.75);
    m.add_iteration(&second, 2, &average);
    assert_eq!(m.get(0, 0), 0.75 + (0.5 - 0.75) / 3.0);
}

#[test]
fn to_image_converts_every_pixel() {
    let mut m = ColorMatrix::new(3, 2, (0.0, 0.0, 0.0)).unwrap();
    m.set(0, 0, (1.0, 0.5, 0.0));
    m.set(1, 0, (2.0, -1.0, 0.25));
    m.set(2, 0, (0.999, 0.001, 1.0));
    m.set(0, 1, (0.2, 0.4, 0.6));
    m.set(2, 1, (1.0, 1.0, 1.0));
    let bytes = m.to_image(&to_rgb).into_raw();
    assert_eq!(
        bytes,
        vec![
            255, 127, 0, 255, 0, 63, 254, 0, 255, //
            51, 102, 153, 0, 0, 0, 255, 255, 255,
        ]
    );
}

#[test]
fn to_image_puts_pixel_x_y_at_its_offset() {
    let mut m = ColorMatrix::new(5, 4, (0u8, 0u8, 0u8)).unwrap();
    for y in 0..4 {
        for x in 0..5 {
            m.set(x, y, (x as u8, y as u8, (10 * y + x) as u8));
        }
    }
    let bytes = m.to_image(&|c: (u8, u8, u8)| c).into_raw();
    assert_eq!(bytes.len(), 3 * 5 * 4);
    for y in 0..4 {
        for x in 0..5 {
            let at = (y * 5 + x) * 3;
            assert_eq!((bytes[at], bytes[at + 1], bytes[at + 2]), (x as u8, y as u8, (10 * y + x) as u8));
        }
    }
}

#[test]
fn to_image_gives_what_the_image_crate_reads() {
    let mut m = ColorMatrix::new(2, 3, (0u8, 0u8, 0u8)).unwrap();
    m.set(1, 2, (9, 8, 7));
    m.set(0, 1, (1, 2, 3));
    let bytes = m.to_image(&|c: (u8, u8, u8)| c).into_raw();
    let image = image::RgbImage::from_raw(2, 3, bytes).unwrap();
    assert_eq!(image.dimensions(), (2, 3));
    assert_eq!(image.get_pixel(1, 2), &image::Rgb([9, 8, 7]));
    assert_eq!(image.get_pixel(0, 1), &image::Rgb([1, 2, 3]));
    assert_eq!(image.get_pixel(0, 0), &image::Rgb([0, 0, 0]));
    assert_eq!(image.get_pixel(1, 0), &image::Rgb([0, 0, 0]));
}

#[test]
fn channels_are_clamped_before_scaling() {
    let m = ColorMatrix::new(1, 1, (10.0, -10.0, 1.0)).unwrap();
    assert_eq!(m.to_image(&to_rgb).into_raw(), vec![255, 0, 255]);
    let m = ColorMatrix::new(1, 1, (0.0, 0.5, 0.99999)).unwrap();
    assert_eq!(m.to_image(&to_rgb).into_raw(), vec![0, 127, 254]);
}
