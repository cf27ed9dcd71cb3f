use donut::{render_frame, Config, FrameBuffer, Sample};

fn ramp() -> Vec<char> {
    ".,-~:;=!*#$@".chars().collect()
}

fn small(width: usize, height: usize) -> Config {
    Config { width, height, shading: ramp(), benchmark: false, frames: 1 }
}

fn at(column: isize, row: isize, level: isize, depth: u64) -> Sample {
    Sample { column, row, lit: true, level, depth }
}

#[test]
fn blank_picture_is_rows_of_spaces() {
    let text = render_frame(&small(3, 2), &Vec::new());
    assert_eq!(text, "   \n   \n");
}

#[test]
fn samples_land_row_major() {
    let samples = vec![at(1, 0, 3, 10), at(3, 1, 11, 1), at(0, 1, 0, 4)];
    let text = render_frame(&small(4, 2), &samples);
    assert_eq!(text, " ~  \n.  @\n");
}

#[test]
fn nearer_sample_wins_whatever_the_order() {
    let cfg = small(2, 1);
    let near_first = vec![at(0, 0, 5, 9), at(0, 0, 1, 3)];
    let near_last = vec![at(0, 0, 1, 3), at(0, 0, 5, 9)];
    assert_eq!(render_frame(&cfg, &near_first), "; \n");
    assert_eq!(render_frame(&cfg, &near_last), "; \n");
}

#[test]
fn first_of_equally_near_samples_wins() {
    let samples = vec![at(1, 0, 2, 7), at(1, 0, 8, 7)];
    assert_eq!(render_frame(&small(2, 1), &samples), " -\n");
}

#[test]
fn depth_zero_is_never_drawn() {
    let samples = vec![at(0, 0, 4, 0)];
    assert_eq!(render_frame(&small(2, 1), &samples), "  \n");
}

#[test]
fn unlit_sample_is_dropped() {
    let samples = vec![Sample { column: 0, row: 0, lit: false, level: 4, depth: 9 }];
    assert_eq!(render_frame(&small(2, 1), &samples), "  \n");
}

#[test]
fn samples_off_the_picture_are_dropped() {
    let samples = vec![
        at(-1, 0, 4, 9),
        at(0, -1, 4, 9),
        at(3, 0, 4, 9),
        at(0, 2, 4, 9),
        at(isize::MAX, 0, 4, 9),
        at(isize::MIN, isize::MIN, 4, 9),
    ];
    assert_eq!(render_frame(&small(3, 2), &samples), "   \n   \n");
}

#[test]
fn level_is_fitted_to_the_ramp() {
    let samples = vec![
        at(0, 0, -3, 1),
        at(1, 0, 0, 1),
        at(2, 0, 11, 1),
        at(3, 0, 12, 1),
        at(4, 0, isize::MAX, 1),
        at(5, 0, isize::MIN, 1),
    ];
    assert_eq!(render_frame(&small(6, 1), &samples), "..@@@.\n");
}

#[test]
fn ramp_of_one_glyph_takes_every_level() {
    let cfg = Config { width: 3, height: 1, shading: vec!['#'], benchmark: false, frames: 1 };
    let samples = vec![at(0, 0, -1, 1), at(2, 0, 7, 1)];
    assert_eq!(render_frame(&cfg, &samples), "# #\n");
}

#[test]
fn rendering_twice_gives_the_same_text() {
    let cfg = small(5, 3);
    let samples = vec![at(1, 1, 3, 10), at(4, 2, 8, 2), at(1, 1, 6, 11), at(0, 0, 0, 1)];
    let first = render_frame(&cfg, &samples);
    let second = render_frame(&cfg, &samples);
    assert_eq!(first, second);
    assert_eq!(first, ".    \n =   \n    *\n");
}

#[test]
fn text_has_height_lines_of_width_characters() {
    for (width, height) in [(1usize, 1usize), (7, 3), (80, 22), (2, 9)] {
        let samples = vec![at(0, 0, 3, 5), at(1, 0, 9, 5), at(6, 2, 1, 5)];
        let text = render_frame(&small(width, height), &samples);
        assert!(text.ends_with('\n'));
        let lines: Vec<&str> = text.lines().collect();
        assert_eq!(lines.len(), height);
        for line in lines {
            assert_eq!(line.chars().count(), width);
        }
    }
}

#[test]
fn zero_width_gives_empty_lines() {
    assert_eq!(render_frame(&small(0, 3), &vec![at(0, 0, 1, 1)]), "\n\n\n");
}

#[test]
fn zero_height_gives_empty_text() {
    assert_eq!(render_frame(&small(5, 0), &vec![at(0, 0, 1, 1)]), "");
}

#[test]
fn glyphs_are_background_or_ramp() {
    let cfg = Config { width: 4, height: 2, shading: vec!['a', 'b', 'c'], benchmark: false, frames: 1 };
    let samples = vec![at(0, 0, 0, 1), at(1, 0, 1, 1), at(2, 1, 2, 1), at(3, 1, 50, 1)];
    let text = render_frame(&cfg, &samples);
    assert_eq!(text, "ab  \n  cc\n");
    for c in text.chars() {
        assert!(c == '\n' || c == ' ' || cfg.shading.contains(&c));
    }
}

#[test]
fn fewer_samples_cover_no_more_pixels() {
    let cfg = small(6, 2);
    let many = vec![at(0, 0, 1, 1), at(1, 0, 1, 2), at(1, 0, 1, 3), at(5, 1, 1, 1), at(2, 1, 1, 0)];
    let few = vec![many[1], many[3]];
    let drawn = |text: &str| text.chars().filter(|c| *c != ' ' && *c != '\n').count();
    let from_many = render_frame(&cfg, &many);
    let from_few = render_frame(&cfg, &few);
    assert_eq!(drawn(&from_many), 3);
    assert_eq!(drawn(&from_few), 2);
    for (a, b) in from_few.chars().zip(from_many.chars()) {
        assert!(a == ' ' || a == '\n' || b != ' ');
    }
}

#[test]
fn buffer_starts_blank_and_takes_a_sample() {
    let mut buffer = FrameBuffer::new(3, 2);
    assert_eq!(buffer.width(), 3);
    assert_eq!(buffer.height(), 2);
    assert_eq!(buffer.glyph(2, 1), ' ');
    buffer.plot(&ramp(), at(2, 1, 9, 4));
    assert_eq!(buffer.glyph(2, 1), '#');
    assert_eq!(buffer.glyph(1, 1), ' ');
    buffer.plot(&ramp(), at(2, 1, 0, 4));
    assert_eq!(buffer.glyph(2, 1), '#');
    buffer.plot(&ramp(), at(2, 1, 0, 5));
    assert_eq!(buffer.glyph(2, 1), '.');
    assert_eq!(buffer.to_text(), "   \n  .\n");
}

#[test]
fn default_configuration() {
    let cfg = Config::default();
    assert_eq!(cfg.width, 80);
    assert_eq!(cfg.height, 22);
    assert_eq!(cfg.shading, ramp());
    assert!(!cfg.benchmark);
    assert_eq!(cfg.frames, 500);
    assert!(cfg.is_drawable());
}

#[test]
fn drawable_needs_a_glyph_and_a_text_that_fits() {
    let mut cfg = small(4, 4);
    assert!(cfg.is_drawable());
    cfg.shading = Vec::new();
    assert!(!cfg.is_drawable());
    cfg.shading = vec!['x'];
    cfg.width = usize::MAX;
    assert!(!cfg.is_drawable());
    cfg.height = 0;
    assert!(cfg.is_drawable());
    cfg.height = 2;
    cfg.width = usize::MAX / 2;
    assert!(!cfg.is_drawable());
    cfg.width = usize::MAX / 2 - 1;
    assert!(cfg.is_drawable());
}
