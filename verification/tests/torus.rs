use donut::{render_frame, Config, Sample};

struct Geometry {
    r1: f64,
    r2: f64,
    k1: f64,
    k2: f64,
    theta_step: f64,
    phi_step: f64,
}

fn usual() -> Geometry {
    Geometry { r1: 1.0, r2: 2.0, k1: 30.0, k2: 5.0, theta_step: 0.07, phi_step: 0.02 }
}

fn depth_key(ooz: f64) -> u64 {
    if ooz > 0.0 {
        ooz.to_bits()
    } else {
        0
    }
}

fn torus(cfg: &Config, g: &Geometry, a: f64, b: f64) -> Vec<Sample> {
    let (sin_a, cos_a) = (a.sin(), a.cos());
    let (sin_b, cos_b) = (b.sin(), b.cos());
    let mut samples = Vec::new();
    let mut theta = 0.0;
    while theta < std::f64::consts::TAU {
        let (theta_sin, theta_cos) = (theta.sin(), theta.cos());
        let circle_x = g.r2 + g.r1 * theta_cos;
        let circle_y = g.r1 * theta_sin;
        let mut phi = 0.0;
        while phi < std::f64::consts::TAU {
            let (phi_sin, phi_cos) = (phi.sin(), phi.cos());
            let x = circle_x * phi_cos;
            let y = circle_x * phi_sin;
            let z = circle_y;
            let y1 = y * cos_a - z * sin_a;
            let z1 = y * sin_a + z * cos_a;
            let x2 = x * cos_b - y1 * sin_b;
            let y2 = x * sin_b + y1 * cos_b;
            let ooz = 1.0 / (z1 + g.k2);
            let luminance = phi_cos * theta_cos * sin_b - cos_a * theta_cos * phi_sin
                - sin_a * theta_sin
                + cos_b * (cos_a * theta_sin - theta_cos * sin_a * phi_sin);
            samples.push(Sample {
                column: (cfg.width as f64 / 2.0 + g.k1 * ooz * x2) as isize,
                row: (cfg.height as f64 / 2.0 - (g.k1 * 0.5) * ooz * y2) as isize,
                lit: luminance > 0.0,
                level: (luminance * 8.0).round() as isize,
                depth: depth_key(ooz),
            });
            phi += g.phi_step;
        }
        theta += g.theta_step;
    }
    samples
}

fn drawn(text: &str) -> usize {
    text.chars().filter(|c| *c != ' ' && *c != '\n').count()
}

#[test]
fn depth_keys_order_as_the_depths_do() {
    let depths = [0.1, 0.125, 0.2, 0.25, 1.0, 3.5, f64::MAX, f64::INFINITY];
    for pair in depths.windows(2) {
        assert!(depth_key(pair[0]) < depth_key(pair[1]));
    }
    for never in [0.0, -0.0, -1.0, f64::NEG_INFINITY, f64::NAN] {
        assert_eq!(depth_key(never), 0);
    }
    assert!(depth_key(f64::MIN_POSITIVE) > 0);
}

#[test]
fn torus_seen_straight_on_is_not_blank() {
    let cfg = Config::default();
    let text = render_frame(&cfg, &torus(&cfg, &usual(), 0.0, 0.0));
    assert!(drawn(&text) > 0);
    assert_eq!(text.lines().count(), 22);
    for line in text.lines() {
        assert_eq!(line.chars().count(), 80);
    }
    for c in text.chars() {
        assert!(c == '\n' || c == ' ' || cfg.shading.contains(&c));
    }
}

#[test]
fn torus_seen_straight_on_is_mirrored() {
    let cfg = Config::default();
    let text = render_frame(&cfg, &torus(&cfg, &usual(), 0.0, 0.0));
    let mut rows_with_glyphs = 0;
    for line in text.lines() {
        let cells: Vec<char> = line.chars().collect();
        let left = cells.iter().position(|c| *c != ' ');
        let right = cells.iter().rposition(|c| *c != ' ');
        if let (Some(left), Some(right)) = (left, right) {
            rows_with_glyphs += 1;
            let sum = (left + right) as isize;
            assert!((sum - 79).abs() <= 2, "row spans {} to {}", left, right);
        }
    }
    assert!(rows_with_glyphs > 0);
}

#[test]
fn torus_frame_is_the_same_each_time() {
    let cfg = Config::default();
    let first = render_frame(&cfg, &torus(&cfg, &usual(), 0.4, 0.2));
    let second = render_frame(&cfg, &torus(&cfg, &usual(), 0.4, 0.2));
    assert_eq!(first, second);
}

#[test]
fn coarser_sweep_covers_no_more() {
    let cfg = Config::default();
    let fine = usual();
    let coarse = Geometry { theta_step: 0.28, phi_step: 0.08, ..usual() };
    for (a, b) in [(0.0, 0.0), (0.4, 0.2), (1.0, 2.5)] {
        let from_fine = drawn(&render_frame(&cfg, &torus(&cfg, &fine, a, b)));
        let from_coarse = drawn(&render_frame(&cfg, &torus(&cfg, &coarse, a, b)));
        assert!(from_coarse <= from_fine);
    }
}

#[test]
fn every_other_sample_covers_no_more() {
    let cfg = Config::default();
    let all = torus(&cfg, &usual(), 0.7, 0.3);
    let half: Vec<Sample> = all.iter().step_by(2).copied().collect();
    let from_all = render_frame(&cfg, &all);
    let from_half = render_frame(&cfg, &half);
    assert!(drawn(&from_half) <= drawn(&from_all));
    for (h, a) in from_half.chars().zip(from_all.chars()) {
        assert!(h == ' ' || h == '\n' || a != ' ');
    }
}

#[test]
fn camera_inside_the_surface_drops_points_without_failing() {
    let cfg = Config::default();
    let g = Geometry { k2: 0.0, ..usual() };
    let text = render_frame(&cfg, &torus(&cfg, &g, 0.0, 0.0));
    assert_eq!(text.lines().count(), 22);
}
