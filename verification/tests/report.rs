use donut::benchmark_report;

#[test]
fn report_of_a_usual_run() {
    let text = benchmark_report(500, 1_234_560_000);
    assert_eq!(
        text,
        "Language: Rust\nFrames: 500\nTotal Time: 1.2346s\nAvg Frame Time: 2.47ms\nFPS: 405.00\n"
    );
}

#[test]
fn report_has_five_lines() {
    let text = benchmark_report(3, 1_000_000_000);
    let lines: Vec<&str> = text.lines().collect();
    assert_eq!(
        lines,
        vec![
            "Language: Rust",
            "Frames: 3",
            "Total Time: 1.0000s",
            "Avg Frame Time: 333.33ms",
            "FPS: 3.00",
        ]
    );
}

#[test]
fn report_of_no_frames_divides_nothing_by_zero() {
    let text = benchmark_report(0, 1_500);
    assert_eq!(
        text,
        "Language: Rust\nFrames: 0\nTotal Time: 0.0000s\nAvg Frame Time: 0.00ms\nFPS: 0.00\n"
    );
}

#[test]
fn report_of_no_time() {
    let text = benchmark_report(4, 0);
    assert_eq!(
        text,
        "Language: Rust\nFrames: 4\nTotal Time: 0.0000s\nAvg Frame Time: 0.00ms\nFPS: 0.00\n"
    );
    assert_eq!(
        benchmark_report(0, 0),
        "Language: Rust\nFrames: 0\nTotal Time: 0.0000s\nAvg Frame Time: 0.00ms\nFPS: 0.00\n"
    );
}

#[test]
fn report_rounds_to_the_nearest_with_halves_up() {
    let text = benchmark_report(1, 49_999);
    assert_eq!(
        text,
        "Language: Rust\nFrames: 1\nTotal Time: 0.0000s\nAvg Frame Time: 0.05ms\nFPS: 20000.40\n"
    );
    let half = benchmark_report(1, 50_000);
    assert_eq!(
        half,
        "Language: Rust\nFrames: 1\nTotal Time: 0.0001s\nAvg Frame Time: 0.05ms\nFPS: 20000.00\n"
    );
    let under = benchmark_report(2, 29_999);
    assert_eq!(benchmark_report(2, 349_999).lines().nth(2), Some("Total Time: 0.0003s"));
    assert_eq!(
        under,
        "Language: Rust\nFrames: 2\nTotal Time: 0.0000s\nAvg Frame Time: 0.01ms\nFPS: 66668.89\n"
    );
}

#[test]
fn report_of_the_largest_inputs() {
    let text = benchmark_report(usize::MAX, u64::MAX);
    let lines: Vec<&str> = text.lines().collect();
    assert_eq!(lines.len(), 5);
    assert_eq!(lines[1], format!("Frames: {}", usize::MAX));
    assert_eq!(lines[2], "Total Time: 18446744073.7096s");
    assert_eq!(lines[3], "Avg Frame Time: 0.00ms");
}

#[test]
fn report_agrees_with_floating_point_on_plain_values() {
    for (frames, nanos) in [(500usize, 2_000_000_000u64), (10, 250_000_000), (7, 7_000_000)] {
        let total = nanos as f64 / 1e9;
        let expected = format!(
            "Language: Rust\nFrames: {}\nTotal Time: {:.4}s\nAvg Frame Time: {:.2}ms\nFPS: {:.2}\n",
            frames,
            total,
            total / frames as f64 * 1000.0,
            frames as f64 / total
        );
        assert_eq!(benchmark_report(frames, nanos), expected);
    }
}
