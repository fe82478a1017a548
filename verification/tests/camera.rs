use raytracing::ordinal::from_bits;
use raytracing::{Bounce, Camera, Path, Pixel};

fn ordinal(x: f64) -> Option<i64> {
    from_bits(x.to_bits())
}

/// A camera for an image of the given width whose width divided by its
/// aspect ratio is the whole number `quotient`.
fn camera(image_width: u32, quotient: u32, samples_per_pixel: u32, max_depth: u32) -> Camera {
    Camera::setup(image_width, ordinal(f64::from(quotient)), samples_per_pixel, max_depth)
}


fn after(mut path: Path, bounces: &[Bounce]) -> Path {
    for bounce in bounces {
        path = path.advance(*bounce);
    }
    path
}

#[test]
fn setup_keeps_the_configuration() {
    let cam = camera(400, 225, 10, 50);
    assert_eq!(cam.image_width(), 400);
    assert_eq!(cam.image_height(), 225);
    assert_eq!(cam.samples_per_pixel(), 10);
    assert_eq!(cam.max_depth(), 50);
}

#[test]
fn image_has_at_least_one_row() {
    assert_eq!(camera(3, 0, 1, 1).image_height(), 1);
    assert_eq!(camera(3, 1, 1, 1).image_height(), 1);
    assert_eq!(camera(3, 2, 1, 1).image_height(), 2);
    assert_eq!(camera(0, 0, 0, 0).image_height(), 1);
    assert_eq!(camera(1, u32::MAX, 1, 1).image_height(), u32::MAX);
}

#[test]
fn setup_twice_gives_the_same_camera() {
    let a = camera(400, 225, 10, 50);
    let b = camera(400, 225, 10, 50);
    assert_eq!(a, b);
    assert_ne!(a, camera(400, 225, 10, 49));
    assert_eq!(camera(7, 0, 2, 3), camera(7, 1, 2, 3));
}

#[test]
fn pixel_count_is_width_times_height() {
    assert_eq!(camera(400, 225, 10, 50).pixel_count(), 90_000);
    assert_eq!(camera(0, 225, 10, 50).pixel_count(), 0);
    assert_eq!(camera(5, 0, 10, 50).pixel_count(), 5);
    assert_eq!(
        camera(u32::MAX, u32::MAX, 1, 1).pixel_count(),
        u64::from(u32::MAX) * u64::from(u32::MAX)
    );
}

#[test]
fn pixels_come_row_by_row_from_the_top_left() {
    let cam = camera(3, 2, 1, 1);
    let order: Vec<Option<Pixel>> = (0..7).map(|k| cam.pixel(k)).collect();
    assert_eq!(
        order,
        vec![
            Some(Pixel { column: 0, row: 0 }),
            Some(Pixel { column: 1, row: 0 }),
            Some(Pixel { column: 2, row: 0 }),
            Some(Pixel { column: 0, row: 1 }),
            Some(Pixel { column: 1, row: 1 }),
            Some(Pixel { column: 2, row: 1 }),
            None,
        ]
    );
}

#[test]
fn pixel_order_matches_nested_loops() {
    let cam = camera(7, 5, 1, 1);
    let mut k = 0;
    for row in 0..cam.image_height() {
        for column in 0..cam.image_width() {
            assert_eq!(cam.pixel(k), Some(Pixel { column, row }));
            k += 1;
        }
    }
    assert_eq!(k, cam.pixel_count());
    assert_eq!(cam.pixel(k), None);
    assert_eq!(cam.pixel(u64::MAX), None);
}

#[test]
fn image_without_columns_has_no_pixel() {
    let cam = camera(0, 4, 1, 1);
    assert_eq!(cam.pixel(0), None);
}

#[test]
fn last_pixel_of_the_largest_image() {
    let cam = camera(u32::MAX, u32::MAX, 1, 1);
    let last = cam.pixel_count() - 1;
    assert_eq!(cam.pixel(last), Some(Pixel { column: u32::MAX - 1, row: u32::MAX - 1 }));
    assert_eq!(cam.pixel(last + 1), None);
}

#[test]
fn path_without_budget_is_exhausted_at_once() {
    let path = Path::start(0);
    assert_eq!(path, Path::Exhausted);
    assert!(path.is_over());
}

#[test]
fn path_with_budget_starts_tracing() {
    assert_eq!(Path::start(1), Path::Tracing { remaining: 0 });
    assert_eq!(Path::start(50), Path::Tracing { remaining: 49 });
    assert_eq!(Path::start(u32::MAX), Path::Tracing { remaining: u32::MAX - 1 });
    assert!(!Path::start(1).is_over());
}

#[test]
fn miss_ends_the_path_in_the_sky() {
    assert_eq!(Path::start(50).advance(Bounce::Miss), Path::Escaped);
    assert!(Path::Escaped.is_over());
}

#[test]
fn absorption_ends_the_path_in_black() {
    assert_eq!(Path::start(50).advance(Bounce::Absorbed), Path::Absorbed);
    assert!(Path::Absorbed.is_over());
}

#[test]
fn scattering_spends_one_leg() {
    assert_eq!(Path::start(50).advance(Bounce::Scattered), Path::Tracing { remaining: 48 });
    assert_eq!(Path::start(2).advance(Bounce::Scattered), Path::Tracing { remaining: 0 });
    assert_eq!(Path::start(1).advance(Bounce::Scattered), Path::Exhausted);
}

#[test]
fn budget_of_one_takes_the_direct_term_only() {
    assert_eq!(Path::start(1).advance(Bounce::Miss), Path::Escaped);
    assert_eq!(Path::start(1).advance(Bounce::Absorbed), Path::Absorbed);
    let bounced = Path::start(1).advance(Bounce::Scattered);
    assert_eq!(bounced, Path::Exhausted);
    assert!(bounced.is_over());
    assert_eq!(bounced.advance(Bounce::Miss), Path::Exhausted);
}

#[test]
fn ended_path_stays_as_it_is() {
    for end in [Path::Exhausted, Path::Absorbed, Path::Escaped] {
        for bounce in [Bounce::Miss, Bounce::Absorbed, Bounce::Scattered] {
            assert_eq!(end.advance(bounce), end);
        }
    }
}

#[test]
fn path_ends_within_its_budget() {
    for depth in 0..6u32 {
        let scattered = vec![Bounce::Scattered; depth as usize];
        assert_eq!(after(Path::start(depth), &scattered), Path::Exhausted);
        if depth > 0 {
            let short = &scattered[..depth as usize - 1];
            assert!(!after(Path::start(depth), short).is_over());
        }
    }
}

#[test]
fn path_escapes_after_some_bounces() {
    let bounces = [Bounce::Scattered, Bounce::Scattered, Bounce::Miss, Bounce::Scattered];
    assert_eq!(after(Path::start(5), &bounces), Path::Escaped);
    assert_eq!(after(Path::start(3), &bounces), Path::Escaped);
    assert_eq!(after(Path::start(2), &bounces), Path::Exhausted);
}

#[test]
fn camera_budget_starts_the_path() {
    let cam = camera(4, 4, 1, 3);
    assert_eq!(Path::start(cam.max_depth()), Path::Tracing { remaining: 2 });
}

#[test]
fn height_is_the_quotient_floored() {
    assert_eq!(Camera::setup(400, ordinal(400.0 / (16.0 / 9.0)), 1, 1).image_height(), 225);
    assert_eq!(Camera::setup(400, ordinal(225.999), 1, 1).image_height(), 225);
    assert_eq!(Camera::setup(400, ordinal(224.000_001), 1, 1).image_height(), 224);
    assert_eq!(Camera::setup(100, ordinal(100.0 / 1.5), 1, 1).image_height(), 66);
    assert_eq!(Camera::setup(7, ordinal(7.0 / (21.0 / 9.0)), 1, 1).image_height(), 3);
    assert_eq!(Camera::setup(3, ordinal(1.0), 1, 1).image_height(), 1);
    assert_eq!(Camera::setup(3, ordinal(1.999_999), 1, 1).image_height(), 1);
    assert_eq!(Camera::setup(3, ordinal(2.0), 1, 1).image_height(), 2);
}

#[test]
fn height_of_a_flat_quotient_is_one() {
    assert_eq!(Camera::setup(3, ordinal(0.999), 1, 1).image_height(), 1);
    assert_eq!(Camera::setup(3, ordinal(0.0), 1, 1).image_height(), 1);
    assert_eq!(Camera::setup(3, ordinal(1.0e-300), 1, 1).image_height(), 1);
    assert_eq!(Camera::setup(3, ordinal(-0.0), 1, 1).image_height(), 1);
    assert_eq!(Camera::setup(3, ordinal(-5.0), 1, 1).image_height(), 1);
    assert_eq!(Camera::setup(3, ordinal(f64::NEG_INFINITY), 1, 1).image_height(), 1);
}

#[test]
fn height_of_a_quotient_that_is_nan_is_one() {
    assert_eq!(Camera::setup(0, ordinal(0.0 / 0.0), 1, 1).image_height(), 1);
    assert_eq!(Camera::setup(3, None, 1, 1).image_height(), 1);
}

#[test]
fn height_of_a_huge_quotient_is_the_largest() {
    assert_eq!(Camera::setup(3, ordinal(4_294_967_295.0), 1, 1).image_height(), u32::MAX);
    assert_eq!(Camera::setup(3, ordinal(4_294_967_295.5), 1, 1).image_height(), u32::MAX);
    assert_eq!(Camera::setup(3, ordinal(4_294_967_296.0), 1, 1).image_height(), u32::MAX);
    assert_eq!(Camera::setup(3, ordinal(4_294_967_294.9), 1, 1).image_height(), u32::MAX - 1);
    assert_eq!(Camera::setup(3, ordinal(1.0e300), 1, 1).image_height(), u32::MAX);
    assert_eq!(Camera::setup(3, ordinal(3.0 / 0.0), 1, 1).image_height(), u32::MAX);
}

#[test]
fn height_agrees_with_the_cast_of_the_quotient() {
    for width in [1u32, 7, 100, 400, 1920, 65_535, u32::MAX] {
        for ratio in [16.0 / 9.0, 4.0 / 3.0, 21.0 / 9.0, 1.0, 0.5, 2.35, 1.0e-3, 1.0e12, 0.0, -2.0]
        {
            let quotient = f64::from(width) / ratio;
            let expected = (quotient as u32).max(1);
            assert_eq!(Camera::setup(width, ordinal(quotient), 1, 1).image_height(), expected);
        }
    }
}
