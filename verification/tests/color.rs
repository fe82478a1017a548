use raytracing::thresholds::BRIGHTEST;
use raytracing::ordinal::from_bits;
use raytracing::{
    channel_byte, intensity, linear_to_gamma, to_decimal, write_color, Camera, Interval,
};

fn ordinal(x: f64) -> Option<i64> {
    from_bits(x.to_bits())
}

fn camera(image_width: u32, quotient: u32, samples_per_pixel: u32, max_depth: u32) -> Camera {
    Camera::setup(image_width, ordinal(f64::from(quotient)), samples_per_pixel, max_depth)
}

/// The byte of a linear channel: gamma, clamp, scale, cut.
fn byte(linear: f64) -> u8 {
    channel_byte(linear_to_gamma(ordinal(linear), ordinal(linear.sqrt())))
}

/// The byte of a level, worked out on scalars.
fn scaled(level: f64) -> u8 {
    let clamped = if level < 0.0 {
        0.0
    } else if level > 0.999 {
        0.999
    } else {
        level
    };
    (256.0 * clamped) as u64 as u8
}

#[test]
fn intensity_runs_from_zero_to_the_brightest_level() {
    assert_eq!(ordinal(0.999), Some(BRIGHTEST));
    assert_eq!(intensity(), Interval::new(0, BRIGHTEST));
    assert_eq!(Some(intensity().clamp(ordinal(1.7).unwrap())), ordinal(0.999));
    assert_eq!(Some(intensity().clamp(ordinal(-0.2).unwrap())), ordinal(0.0));
    assert_eq!(Some(intensity().clamp(ordinal(0.25).unwrap())), ordinal(0.25));
}

#[test]
fn gamma_takes_the_root_of_a_channel_above_zero() {
    assert_eq!(linear_to_gamma(ordinal(0.25), ordinal(0.5)), ordinal(0.5));
    assert_eq!(linear_to_gamma(ordinal(4.0), ordinal(2.0)), ordinal(2.0));
    assert_eq!(linear_to_gamma(ordinal(1.0e-300), ordinal(1.0e-150)), ordinal(1.0e-150));
}

#[test]
fn gamma_of_a_channel_not_above_zero_is_zero() {
    assert_eq!(linear_to_gamma(ordinal(0.0), ordinal(0.0)), Some(0));
    assert_eq!(linear_to_gamma(ordinal(-0.0), ordinal(-0.0)), Some(0));
    assert_eq!(linear_to_gamma(ordinal(-4.0), ordinal(f64::NAN)), Some(0));
    assert_eq!(linear_to_gamma(ordinal(-4.0), ordinal(2.0)), Some(0));
}

#[test]
fn gamma_of_nan_is_zero() {
    assert_eq!(linear_to_gamma(ordinal(f64::NAN), ordinal(f64::NAN)), Some(0));
    assert_eq!(linear_to_gamma(None, Some(5)), Some(0));
}

#[test]
fn byte_is_the_whole_part_of_256_times_the_level() {
    assert_eq!(channel_byte(ordinal(0.0)), 0);
    assert_eq!(channel_byte(ordinal(0.5)), 128);
    assert_eq!(channel_byte(ordinal(0.25)), 64);
    assert_eq!(channel_byte(ordinal(0.999)), 255);
    assert_eq!(channel_byte(ordinal(1.0 / 256.0)), 1);
    assert_eq!(channel_byte(ordinal(2.0 / 256.0)), 2);
    assert_eq!(channel_byte(ordinal(0.1)), 25);
    assert_eq!(channel_byte(ordinal(0.7)), 179);
}

#[test]
fn byte_is_cut_not_rounded() {
    assert_eq!(channel_byte(ordinal(0.003_906_249)), 0);
    assert_eq!(channel_byte(ordinal(0.003_906_25)), 1);
    assert_eq!(channel_byte(ordinal(0.007_812_499)), 1);
    assert_eq!(channel_byte(ordinal(0.996_093_749)), 254);
    assert_eq!(channel_byte(ordinal(0.996_093_75)), 255);
    assert_eq!(channel_byte(ordinal(127.999 / 256.0)), 127);
}

#[test]
fn byte_of_a_level_out_of_range_is_clamped() {
    assert_eq!(channel_byte(ordinal(-0.5)), 0);
    assert_eq!(channel_byte(ordinal(-0.0)), 0);
    assert_eq!(channel_byte(ordinal(f64::NEG_INFINITY)), 0);
    assert_eq!(channel_byte(ordinal(1.0)), 255);
    assert_eq!(channel_byte(ordinal(7.0)), 255);
    assert_eq!(channel_byte(ordinal(f64::INFINITY)), 255);
}

#[test]
fn byte_of_nan_is_zero() {
    assert_eq!(channel_byte(ordinal(f64::NAN)), 0);
    assert_eq!(channel_byte(None), 0);
}

#[test]
fn byte_of_the_smallest_levels_is_zero() {
    assert_eq!(channel_byte(ordinal(f64::from_bits(1))), 0);
    assert_eq!(channel_byte(ordinal(f64::MIN_POSITIVE)), 0);
    assert_eq!(channel_byte(ordinal(1.0e-300)), 0);
    assert_eq!(channel_byte(ordinal(1.0e-3)), 0);
}

#[test]
fn byte_agrees_with_scaling_on_scalars() {
    for k in 0..=4096u32 {
        let level = f64::from(k) / 4096.0;
        assert_eq!(channel_byte(ordinal(level)), scaled(level));
    }
    for k in 1..256u32 {
        let edge = f64::from(k) / 256.0;
        let below = f64::from_bits(edge.to_bits() - 1);
        let above = f64::from_bits(edge.to_bits() + 1);
        assert_eq!(channel_byte(ordinal(edge)), scaled(edge));
        assert_eq!(channel_byte(ordinal(below)), scaled(below));
        assert_eq!(channel_byte(ordinal(above)), scaled(above));
        assert_eq!(channel_byte(ordinal(below)), (k - 1) as u8);
    }
    let mut bits = 0x3F00_0000_0000_0000u64;
    while bits < 0x3FF8_0000_0000_0000 {
        let level = f64::from_bits(bits);
        assert_eq!(channel_byte(ordinal(level)), scaled(level));
        bits += 0x0000_0123_4567_89AB;
    }
}

#[test]
fn channel_bytes_run_from_0_to_255() {
    assert_eq!(byte(0.0), 0);
    assert_eq!(byte(-1.0), 0);
    assert_eq!(byte(0.25), 128);
    assert_eq!(byte(1.0), 255);
    assert_eq!(byte(0.999 * 0.999), 255);
    assert_eq!(byte(50.0), 255);
    assert_eq!(byte(f64::INFINITY), 255);
    assert_eq!(byte(f64::NAN), 0);
    assert_eq!(byte(0.0625), 64);
}


#[test]
fn single_digits_are_written() {
    let digits = ["0", "1", "2", "3", "4", "5", "6", "7", "8", "9"];
    for (n, text) in digits.iter().enumerate() {
        assert_eq!(to_decimal(n as u64), *text);
    }
}

#[test]
fn numbers_are_written_without_leading_zeros() {
    assert_eq!(to_decimal(10), "10");
    assert_eq!(to_decimal(99), "99");
    assert_eq!(to_decimal(100), "100");
    assert_eq!(to_decimal(255), "255");
    assert_eq!(to_decimal(1_000_000), "1000000");
    assert_eq!(to_decimal(1_234_567_890), "1234567890");
}

#[test]
fn largest_number_is_written() {
    assert_eq!(to_decimal(u64::MAX), "18446744073709551615");
    assert_eq!(to_decimal(u64::from(u32::MAX)), "4294967295");
}

#[test]
fn decimal_agrees_with_std_and_reads_back() {
    for n in [0u64, 7, 10, 42, 255, 256, 999, 1000, 65_535, 90_000, u64::MAX - 1] {
        let text = to_decimal(n);
        assert_eq!(text, n.to_string());
        assert_eq!(text.parse::<u64>(), Ok(n));
    }
}

#[test]
fn pixel_line_has_three_channels_and_a_line_feed() {
    assert_eq!(write_color(255, 0, 128), "255 0 128\n");
    assert_eq!(write_color(0, 0, 0), "0 0 0\n");
    assert_eq!(write_color(255, 255, 255), "255 255 255\n");
    assert_eq!(write_color(1, 20, 200), "1 20 200\n");
}

#[test]
fn pixel_line_keeps_the_channel_order() {
    assert_eq!(write_color(1, 2, 3), "1 2 3\n");
    assert_ne!(write_color(1, 2, 3), write_color(3, 2, 1));
}

#[test]
fn header_names_format_size_and_depth() {
    assert_eq!(camera(400, 225, 10, 50).header(), "P3\n400 225\n255\n");
    assert_eq!(camera(3, 2, 1, 1).header(), "P3\n3 2\n255\n");
}

#[test]
fn header_of_a_flat_image_has_one_row() {
    assert_eq!(camera(0, 0, 1, 1).header(), "P3\n0 1\n255\n");
    assert_eq!(camera(1, 0, 1, 1).header(), "P3\n1 1\n255\n");
}

#[test]
fn image_text_is_header_then_pixels_in_order() {
    let cam = camera(2, 2, 1, 1);
    let mut text = cam.header();
    for k in 0..cam.pixel_count() {
        let pixel = cam.pixel(k).unwrap();
        text.push_str(&write_color(pixel.column as u8, pixel.row as u8, 9));
    }
    assert_eq!(text, "P3\n2 2\n255\n0 0 9\n1 0 9\n0 1 9\n1 1 9\n");
}
