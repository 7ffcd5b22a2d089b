use graphing_engine::geometry::{
    polynomial_equation as evaluate, sample_points, sample_step, Circle, Color, Line, MAX_SAMPLES,
    SEGMENTS, UNIT,
};

/// The value of a polynomial in floating point.
fn polynomial_equation(x: f32, coeffs: &[f32]) -> f32 {
    evaluate(x, coeffs, 0.0, |coeff, x, i| coeff * x.powi(i as i32), |sum, term| sum + term)
}

#[test]
fn geometry_test_polynomial_equation() {
    let coeffs = &[];
    assert_eq!(polynomial_equation(2.0, coeffs), 0.0);
    let coeffs = &[-1.0, 3.0, 4.0, 1.0];
    assert_eq!(polynomial_equation(2.0, coeffs), 29.0);
    let coeffs = &[0.0, 1.0];
    assert_eq!(polynomial_equation(2.0, coeffs), 2.0);
}

#[test]
fn polynomial_without_coefficients_is_zero_everywhere() {
    for x in [0.0_f32, 1.0, -2.5, 1e30, f32::INFINITY, f32::NAN] {
        assert_eq!(polynomial_equation(x, &[]).to_bits(), 0);
    }
    let plus = |a: i64, b: i64| a + b;
    let times = |c: i64, x: i64, i: usize| c * x.pow(i as u32);
    assert_eq!(evaluate(5, &[], 0, times, plus), 0);
    assert_eq!(evaluate(5, &[], 17, times, plus), 17);
}

#[test]
fn polynomial_in_whole_numbers() {
    let plus = |a: i64, b: i64| a + b;
    let times = |c: i64, x: i64, i: usize| c * x.pow(i as u32);
    assert_eq!(evaluate(2, &[-1, 3, 4, 1], 0, times, plus), 29);
    assert_eq!(evaluate(-3, &[7], 0, times, plus), 7);
    assert_eq!(evaluate(10, &[1, 2, 3], 0, times, plus), 321);
    // the terms are taken in from the lowest power up
    let order = evaluate(
        0_usize,
        &[10_usize, 20, 30],
        0,
        |c: usize, _x: usize, i: usize| c + i,
        |a: usize, b: usize| a * 100 + b,
    );
    assert_eq!(order, 10_21_32);
}

#[test]
fn identity_line_gives_x_back() {
    for x in [0.0_f32, 1.0, 2.0, -2.5, 0.1, 1e-40, 3.4e38, f32::INFINITY, f32::NEG_INFINITY] {
        assert_eq!(polynomial_equation(x, &[0.0, 1.0]), x);
    }
    // the two zeros are equal as numbers, though not bit for bit
    assert_eq!(polynomial_equation(-0.0, &[0.0, 1.0]), -0.0);
    assert_eq!(polynomial_equation(-0.0, &[0.0, 1.0]).to_bits(), 0);
    assert!(polynomial_equation(f32::NAN, &[0.0, 1.0]).is_nan());
    // every kind of number: subnormal, normal, huge, of either sign
    let mut bits: u32 = 0x2545_F491;
    let mut seen = 0;
    for _ in 0..20_000 {
        bits = bits.wrapping_mul(1_664_525).wrapping_add(1_013_904_223);
        let x = f32::from_bits(bits);
        if !x.is_nan() {
            assert_eq!(polynomial_equation(x, &[0.0, 1.0]), x, "{bits:#x}");
            seen += 1;
        }
    }
    assert!(seen > 19_000);
    for bits in (0..0x7F80_0001_u32).step_by(65_521) {
        for x in [f32::from_bits(bits), f32::from_bits(bits | 0x8000_0000)] {
            assert_eq!(polynomial_equation(x, &[0.0, 1.0]), x, "{bits:#x}");
        }
    }
    let plus = |a: i64, b: i64| a + b;
    let times = |c: i64, x: i64, i: usize| c * x.pow(i as u32);
    for x in [-7_i64, 0, 1, 123_456] {
        assert_eq!(evaluate(x, &[0, 1], 0, times, plus), x);
    }
}

#[test]
fn color_to_raw_keeps_the_order() {
    let color = Color { r: 1, g: 2, b: 3, a: 4 };
    assert_eq!(color.to_raw(), [1, 2, 3, 4]);
    let color = Color { r: 0.25_f32, g: 0.5, b: 0.75, a: 1.0 };
    assert_eq!(color.to_raw(), [0.25, 0.5, 0.75, 1.0]);
}

#[test]
fn step_is_a_fortieth_of_the_span_rounded_up() {
    assert_eq!(UNIT, 20);
    assert_eq!(SEGMENTS, 40);
    assert_eq!(sample_step(0, 0), 0);
    assert_eq!(sample_step(-6, 6), 1);
    assert_eq!(sample_step(0, 1), 1);
    assert_eq!(sample_step(-20, 20), 1);
    assert_eq!(sample_step(-20, 21), 2);
    assert_eq!(sample_step(-100, 100), 5);
    assert_eq!(sample_step(-100, 101), 6);
    assert_eq!(sample_step(100, 300), 10);
    assert_eq!(sample_step(-300, -100), 10);
    assert_eq!(sample_step(i32::MIN, i32::MAX), 53_687_092);
    assert_eq!(sample_step(i32::MIN, 0), 53_687_092);
    assert_eq!(sample_step(0, i32::MIN), 53_687_092);
}

#[test]
fn step_agrees_with_the_rounding_of_small_spans() {
    for x_min in (-3000_i32..3000).step_by(37) {
        for x_max in (-3000_i32..3000).step_by(41) {
            let span = x_max.abs().saturating_add(x_min.saturating_abs());
            let expected = (span as f32 / 40.0).ceil() as i32;
            assert_eq!(sample_step(x_min, x_max), expected, "{x_min} {x_max}");
        }
    }
}

#[test]
fn samples_of_the_starting_view() {
    // the view of a camera at height 4: from -6 to 6
    let samples = sample_points(-6, 6);
    assert_eq!(samples.len(), 240);
    for (i, num) in samples.iter().enumerate() {
        assert_eq!(*num, -120 + i as i32);
    }
}

#[test]
fn samples_step_wider_over_wider_ranges() {
    let samples = sample_points(-100, 100);
    assert_eq!(samples.len(), 800);
    assert_eq!(samples[0], -2000);
    assert_eq!(samples[1], -1995);
    assert_eq!(samples[799], 1995);

    let samples = sample_points(-100, 101);
    // 4020 sample positions, six apart
    assert_eq!(samples.len(), 670);
    assert_eq!(samples[669], -2000 + 669 * 6);

    let samples = sample_points(100, 300);
    assert_eq!(samples.len(), 400);
    assert_eq!(samples[0], 2000);
    assert_eq!(samples[399], 5990);
}

#[test]
fn samples_agree_with_a_stepped_range() {
    for (x_min, x_max) in [
        (-6, 6),
        (0, 1),
        (-1, 0),
        (-17, 230),
        (-1000, -999),
        (5, 5000),
        (-123456, 654321),
        (i32::MIN, i32::MAX),
        (i32::MIN, 0),
        (0, i32::MAX),
        (i32::MAX - 1, i32::MAX),
        (100_000_000, 200_000_000),
    ] {
        let step = sample_step(x_min, x_max) as usize;
        let expected: Vec<i32> =
            (x_min.saturating_mul(20)..x_max.saturating_mul(20)).step_by(step).collect();
        assert_eq!(sample_points(x_min, x_max), expected, "{x_min} {x_max}");
        assert!(expected.len() <= MAX_SAMPLES);
    }
}

#[test]
fn empty_and_backward_ranges_have_no_samples() {
    assert!(sample_points(0, 0).is_empty());
    assert!(sample_points(3, 3).is_empty());
    assert!(sample_points(6, -6).is_empty());
    assert!(sample_points(0, i32::MIN).is_empty());
    assert!(sample_points(i32::MAX, i32::MIN).is_empty());
    // both ends are cut to the largest sample
    assert!(sample_points(200_000_000, 300_000_000).is_empty());
}

#[test]
fn at_most_eight_hundred_samples() {
    assert_eq!(MAX_SAMPLES, 800);
    let mut most = 0;
    for x_min in (-4000_i32..4000).step_by(97) {
        for x_max in (-4000_i32..4000).step_by(89) {
            most = most.max(sample_points(x_min, x_max).len());
        }
    }
    assert!(most <= 800);
    assert_eq!(sample_points(-20, 20).len(), 800);
}

#[test]
fn new_line_has_no_mesh() {
    let line: Line<i64, (i32, bool, u8)> = Line::new(vec![0, 1], 25);
    assert_eq!(line.coeffs, vec![0, 1]);
    assert_eq!(line.width, 25);
    assert!(line.vertices.is_empty());
    assert!(line.indices.is_empty());
}

#[test]
fn ribbon_has_a_cap_and_a_pair_per_sample() {
    // vertices record what they were asked for: the sample, cap or not, and the side
    let mut line: Line<i64, (i32, bool, u8)> = Line::new(vec![0, 1], 25);
    line.make_polynomial(0, 1, |_coeffs, _width, num, initial| ((num, initial, 0), (num, initial, 1)));
    assert_eq!(line.vertices.len(), 42);
    assert_eq!(line.vertices[0], (0, true, 0));
    assert_eq!(line.vertices[1], (0, true, 1));
    for i in 0..20 {
        assert_eq!(line.vertices[2 * i + 2], (i as i32, false, 0));
        assert_eq!(line.vertices[2 * i + 3], (i as i32, false, 1));
    }
    assert_eq!(line.indices.len(), 120);
    assert_eq!(&line.indices[0..6], &[0, 1, 3, 2, 0, 3]);
    assert_eq!(&line.indices[6..12], &[2, 3, 5, 4, 2, 5]);
    assert_eq!(&line.indices[114..120], &[38, 39, 41, 40, 38, 41]);
    assert!(line.indices.iter().all(|i| (*i as usize) < line.vertices.len()));
    assert_eq!(line.coeffs, vec![0, 1]);
    assert_eq!(line.width, 25);
}

#[test]
fn ribbon_is_handed_the_lines_own_numbers() {
    let mut line: Line<i64, i64> = Line::new(vec![3, 4, 5], 7);
    line.make_polynomial(-1, 1, |coeffs, width, num, initial| {
        let sum: i64 = coeffs.iter().sum();
        let left = sum * 1000 + *width * 100 + num as i64;
        (left, if initial { -left } else { left + 1 })
    });
    assert_eq!(line.vertices.len(), 82);
    assert_eq!(line.vertices[0], 12_700 - 20);
    assert_eq!(line.vertices[1], -(12_700 - 20));
    assert_eq!(line.vertices[2], 12_700 - 20);
    assert_eq!(line.vertices[3], 12_700 - 19);
    assert_eq!(line.vertices[81], 12_700 + 20);
}

#[test]
fn ribbon_is_rebuilt_from_scratch() {
    let mut line: Line<u8, i32> = Line::new(vec![], 0);
    line.make_polynomial(-6, 6, |_, _, num, _| (num, num));
    assert_eq!(line.vertices.len(), 482);
    assert_eq!(line.indices.len(), 1440);
    line.make_polynomial(0, 1, |_, _, num, _| (num, -num));
    assert_eq!(line.vertices.len(), 42);
    assert_eq!(line.indices.len(), 120);
    line.make_polynomial(0, 0, |_, _, num, _| (num, num));
    assert!(line.vertices.is_empty());
    assert!(line.indices.is_empty());
}

#[test]
fn widest_ribbon_keeps_its_indices_in_range() {
    let mut line: Line<u8, i32> = Line::new(vec![], 0);
    line.make_polynomial(-20, 20, |_, _, num, _| (num, num));
    assert_eq!(line.vertices.len(), 1602);
    assert_eq!(line.indices.len(), 4800);
    assert_eq!(&line.indices[4794..4800], &[1598, 1599, 1601, 1600, 1598, 1601]);
}

#[test]
fn straight_line_samples_lie_on_the_line() {
    // y = x: evaluated where the samples are, y is x itself
    let evaluate = |x: f32, coeffs: &Vec<f32>| -> f32 { polynomial_equation(x, coeffs) };
    let mut line: Line<f32, [f32; 2]> = Line::new(vec![0.0, 1.0], 0.025);
    line.make_polynomial(-6, 6, |coeffs, _width, num, initial| {
        let x1 = num as f32 / UNIT as f32;
        let x2 = (num as f32 + 1.0) / UNIT as f32;
        if initial {
            ([x1, evaluate(x1, coeffs)], [x1, evaluate(x1, coeffs)])
        } else {
            ([x2, evaluate(x2, coeffs)], [x2, evaluate(x2, coeffs)])
        }
    });
    assert_eq!(line.vertices.len(), 482);
    for vertex in &line.vertices {
        assert_eq!(vertex[0], vertex[1]);
    }
}

fn rim(radius: &f32, s: u16, segments: u16) -> [f32; 3] {
    let current_seg = (2.0 * std::f32::consts::PI) * (s as f32 / segments as f32);
    [radius * current_seg.cos(), radius * current_seg.sin(), 0.0]
}

fn relative_eq(a: f32, b: f32) -> bool {
    if a == b {
        return true;
    }
    let diff = (a - b).abs();
    diff <= f32::EPSILON || diff <= a.abs().max(b.abs()) * f32::EPSILON
}

#[test]
fn circle_vertices_on_circle() {
    let radius: f32 = 1.0;
    let circle = Circle::new(radius, 32, [0.0, 0.0, 0.0], rim);

    for vertex in circle.vertices {
        if vertex != [0.0, 0.0, 0.0] {
            let x_squared = vertex[0].powf(2.0);
            let y_squared = vertex[1].powf(2.0);
            let r_squared = radius.powf(2.0);

            assert!(relative_eq(x_squared + y_squared, r_squared));
        }
    }
}

#[test]
fn are_circle_vertices_on_circle() {
    let radius: f32 = 1.0;
    let circle = Circle::new(radius, 32, [0.0, 0.0, 0.0], rim);
    assert_eq!(circle.vertices.len(), 33);

    for vertex in circle.vertices {
        if vertex != [0.0, 0.0, 0.0] {
            let x_squared = vertex[0].powf(2.0);
            let y_squared = vertex[1].powf(2.0);
            let r_squared = radius.powf(2.0);

            assert!(relative_eq(x_squared + y_squared, r_squared));
        }
    }
}

#[test]
fn circle_is_a_fan_around_its_centre() {
    let circle = Circle::new(5, 4, (0, 0), |radius: &i32, s: u16, segments: u16| {
        (*radius * s as i32, segments)
    });
    assert_eq!(circle.radius, 5);
    assert_eq!(circle.segments, 4);
    assert_eq!(circle.vertices, vec![(0, 0), (0, 4), (5, 4), (10, 4), (15, 4)]);
    assert_eq!(circle.indices, vec![0, 4, 1, 0, 1, 2, 0, 2, 3, 0, 3, 4]);
}

#[test]
fn circle_of_few_segments() {
    let circle = Circle::new(1, 1, 'c', |_: &i32, _: u16, _: u16| 'r');
    assert_eq!(circle.vertices, vec!['c', 'r']);
    assert_eq!(circle.indices, vec![0, 1, 1]);
    let circle = Circle::new(1, 0, 'c', |_: &i32, _: u16, _: u16| 'r');
    assert_eq!(circle.vertices, vec!['c']);
    assert_eq!(circle.indices, vec![0, 0, 1]);
    let circle = Circle::new(1, 2, 'c', |_: &i32, _: u16, _: u16| 'r');
    assert_eq!(circle.vertices, vec!['c', 'r', 'r']);
    assert_eq!(circle.indices, vec![0, 2, 1, 0, 1, 2]);
}

#[test]
fn circle_of_the_most_segments() {
    let circle = Circle::new(1, u16::MAX, 0_u16, |_: &i32, s: u16, _: u16| s);
    assert_eq!(circle.vertices.len(), 65_536);
    assert_eq!(circle.indices.len(), 3 * 65_535);
    assert_eq!(&circle.indices[circle.indices.len() - 3..], &[0, 65_534, 65_535]);
}
