use experiment_tracker::export::csv;
use experiment_tracker::export::latex;
use experiment_tracker::export::markdown;
use experiment_tracker::export::{export_base_dir, sanitize_filename, write_export_at};
use experiment_tracker::models::{HyperParam, KeyBand, Metric, MetricValue, Run, RunStatus, Timestamp};

/// The order key of a number: equal for equal numbers, ordered as they are.
fn order_key(x: f64) -> i64 {
    if x == 0.0 {
        0
    } else {
        let b = x.to_bits() as i64;
        if b < 0 { b ^ i64::MAX } else { b }
    }
}

/// The number with a given order key.
fn from_key(k: i64) -> f64 {
    let b = if k < 0 { k ^ i64::MAX } else { k };
    f64::from_bits(b as u64)
}

/// The keys of the numbers `b` with `(x - b).abs() < tol`, found by
/// bisection on each side of `x` (empty for NaN and the infinities).
fn key_band(x: f64, tol: f64) -> KeyBand {
    if !x.is_finite() {
        return KeyBand { lo: 1, hi: 0 };
    }
    let near = |k: i128| (x - from_key(k as i64)).abs() < tol;
    let k = order_key(x) as i128;
    let (mut out, mut inn) = (order_key(f64::NEG_INFINITY) as i128, k);
    while inn - out > 1 {
        let mid = out + (inn - out) / 2;
        if near(mid) { inn = mid } else { out = mid }
    }
    let lo = inn;
    let (mut inn, mut out) = (k, order_key(f64::INFINITY) as i128);
    while out - inn > 1 {
        let mid = inn + (out - inn) / 2;
        if near(mid) { inn = mid } else { out = mid }
    }
    KeyBand { lo: lo as i64, hi: inn as i64 }
}

fn mv(x: f64) -> MetricValue {
    MetricValue {
        order: if x.is_nan() { None } else { Some(order_key(x)) },
        tiny_band: key_band(x, 1e-30),
        small_band: key_band(x, 1e-10),
        text: format!("{}", x),
        fixed4: format!("{:.4}", x),
        fixed6: format!("{:.6}", x),
    }
}

fn ts(h: u32, m: u32, s: u32) -> Timestamp {
    Timestamp { year: 2024, month: 1, day: 18, hour: h, minute: m, second: s }
}

fn metric(id: i64, run_id: i64, name: &str, epoch: Option<i64>, step: Option<i64>, value: f64) -> Metric {
    Metric {
        id,
        run_id,
        name: name.to_string(),
        epoch,
        step,
        value: mv(value),
        recorded_at: ts(14, 30, 22),
    }
}

struct Fixture {
    run: Run,
    metrics: Vec<Metric>,
    hyperparams: Vec<HyperParam>,
    latest: Vec<(String, MetricValue)>,
}

fn setup_test_data() -> Fixture {
    let run = Run {
        id: 1,
        name: "test-run".to_string(),
        status: RunStatus::Completed,
        log_path: "/tmp/test.jsonl".to_string(),
        created_at: ts(10, 0, 0),
        updated_at: ts(11, 0, 0),
        notes: "Test notes for export".to_string(),
    };
    let hyperparams = vec![
        HyperParam { id: 1, run_id: 1, key: "lr".to_string(), value: "0.001".to_string() },
        HyperParam { id: 2, run_id: 1, key: "batch_size".to_string(), value: "64".to_string() },
    ];
    let mut metrics = Vec::new();
    let mut id = 1;
    for epoch in 0..5i64 {
        let loss = 1.0 - (epoch as f64 * 0.15);
        let acc = 0.5 + (epoch as f64 * 0.1);
        metrics.push(metric(id, 1, "loss", Some(epoch), Some(epoch * 100), loss));
        id += 1;
        metrics.push(metric(id, 1, "accuracy", Some(epoch), Some(epoch * 100), acc));
        id += 1;
    }
    let latest = vec![
        ("accuracy".to_string(), mv(0.5 + 4.0 * 0.1)),
        ("loss".to_string(), mv(1.0 - 4.0 * 0.15)),
    ];
    Fixture { run, metrics, hyperparams, latest }
}

#[test]
fn test_markdown_export_contains_run_name() {
    let f = setup_test_data();
    let tags = vec!["baseline".to_string(), "test".to_string()];

    let md = markdown::export_run_markdown(&f.run, &f.metrics, &f.hyperparams, &tags, &f.latest);

    assert!(md.contains("# test-run"));
    assert!(md.contains("completed"));
    assert!(md.contains("`baseline`"));
    assert!(md.contains("Test notes for export"));
    assert!(md.contains("lr"));
    assert!(md.contains("0.001"));
    assert!(md.contains("loss"));
    assert!(md.contains("accuracy"));
}

#[test]
fn test_markdown_compare_highlights_best() {
    let f = setup_test_data();
    let metrics1 = f.metrics;

    let mut metrics2 = Vec::new();
    let mut id = 100;
    for epoch in 0..5i64 {
        let loss = 2.0 - (epoch as f64 * 0.1);
        let acc = 0.3 + (epoch as f64 * 0.05);
        metrics2.push(metric(id, 2, "loss", Some(epoch), Some(epoch * 100), loss));
        id += 1;
        metrics2.push(metric(id, 2, "accuracy", Some(epoch), Some(epoch * 100), acc));
        id += 1;
    }

    let runs_data = vec![("test-run".to_string(), metrics1), ("worse-run".to_string(), metrics2)];

    let md = markdown::export_compare_markdown(&runs_data);

    assert!(md.contains("# Experiment Comparison"));
    assert!(md.contains("test-run"));
    assert!(md.contains("worse-run"));
    assert!(md.contains("**"));
}

#[test]
fn test_csv_export_has_header() {
    let f = setup_test_data();

    let csv_output = csv::export_run_csv("test-run", &f.metrics);

    let lines: Vec<&str> = csv_output.lines().collect();
    assert_eq!(lines[0], "run,epoch,step,metric,value,recorded_at");
    assert!(lines.len() > 1);
    assert!(lines[1].starts_with("test-run,"));
}

#[test]
fn test_csv_export_correct_row_count() {
    let f = setup_test_data();

    let csv_output = csv::export_run_csv("test-run", &f.metrics);

    let lines: Vec<&str> = csv_output.lines().collect();
    assert_eq!(lines.len(), 11);
}

#[test]
fn test_csv_summary_pivots_correctly() {
    let f = setup_test_data();

    let runs_data = vec![("test-run".to_string(), f.metrics)];

    let csv_output = csv::export_summary_csv(&runs_data);

    let lines: Vec<&str> = csv_output.lines().collect();
    assert!(lines[0].contains("run"));
    assert!(lines[0].contains("loss") || lines[0].contains("accuracy"));
    assert_eq!(lines.len(), 2);
}

#[test]
fn test_latex_export_has_tabular() {
    let f = setup_test_data();

    let tex = latex::export_run_latex("test-run", &f.hyperparams, &f.latest);

    assert!(tex.contains("\\begin{tabular}"));
    assert!(tex.contains("\\end{tabular}"));
    assert!(tex.contains("\\toprule"));
    assert!(tex.contains("\\bottomrule"));
    assert!(tex.contains("lr"));
    assert!(tex.contains("0.001"));
}

#[test]
fn test_latex_escapes_special_chars() {
    let latest = vec![("loss".to_string(), mv(0.5))];

    let tex = latex::export_run_latex("test_run #1 & friends", &[], &latest);

    assert!(tex.contains("test\\_run \\#1 \\& friends"));
    assert!(!tex.contains("test_run #1 & friends"));
}

#[test]
fn test_latex_compare_bolds_best() {
    let f = setup_test_data();
    let metrics1 = f.metrics;
    let metrics2 = vec![
        metric(200, 2, "loss", Some(1), None, 0.9),
        metric(201, 2, "accuracy", Some(1), None, 0.6),
    ];

    let runs_data = vec![("test-run".to_string(), metrics1), ("run2".to_string(), metrics2)];

    let tex = latex::export_compare_latex(&runs_data);

    assert!(tex.contains("\\textbf{"));
    assert!(tex.contains("\\begin{tabular}"));
}

#[test]
fn csv_field_quotes_only_when_needed() {
    assert_eq!(csv::escape_csv("plain"), "plain");
    assert_eq!(csv::escape_csv("a,b"), "\"a,b\"");
    assert_eq!(csv::escape_csv("say \"hi\""), "\"say \"\"hi\"\"\"");
    assert_eq!(csv::escape_csv("two\nlines"), "\"two\nlines\"");
}

#[test]
fn csv_row_exact_text() {
    let ms = vec![metric(1, 1, "loss", Some(2), None, 0.25)];
    let out = csv::export_run_csv("r,1", &ms);
    assert_eq!(out, "run,epoch,step,metric,value,recorded_at\n\"r,1\",2,,loss,0.25,2024-01-18 14:30:22\n");
}

#[test]
fn latex_escape_and_slug() {
    assert_eq!(latex::escape_latex("a_b%c$d#e&f{g}"), "a\\_b\\%c\\$d\\#e\\&f\\{g\\}");
    assert_eq!(latex::escape_latex("\\"), "\\textbackslash{}");
    assert_eq!(latex::escape_latex("a\\b"), "a\\textbackslash{}b");
    assert_eq!(latex::escape_latex("~x^"), "\\textasciitilde{}x\\textasciicircum{}");
    assert_eq!(latex::slug("My Run  #2"), "my-run--2");
}

#[test]
fn export_file_name_and_place() {
    let now = Timestamp { year: 2024, month: 1, day: 18, hour: 14, minute: 30, second: 22 };
    let f = write_export_at("./experiments", "my run/1", "md", "content", &now);
    assert_eq!(f.dir, "./experiments/exports");
    assert_eq!(f.path, "./experiments/exports/my_run_1_20240118_143022.md");
    assert_eq!(f.content, "content");
    assert_eq!(sanitize_filename("a b.c-d_e/f"), "a_b.c-d_e_f");
    assert_eq!(sanitize_filename("données"), "données");
    assert_eq!(export_base_dir(&[]), ".");
    assert_eq!(export_base_dir(&["/w".to_string(), "/x".to_string()]), "/w");
}

#[test]
fn markdown_compare_marks_lower_loss_best() {
    let runs_data = vec![
        ("a".to_string(), vec![metric(1, 1, "loss", Some(1), None, 0.5)]),
        ("b".to_string(), vec![metric(2, 2, "loss", Some(1), None, 0.7)]),
    ];
    let md = markdown::export_compare_markdown(&runs_data);
    assert!(md.contains("**0.500000**"));
    assert!(!md.contains("**0.700000**"));
}

#[test]
fn best_marks_follow_each_format_tolerance() {
    let runs_data = vec![
        ("a".to_string(), vec![metric(1, 1, "acc", Some(1), None, 0.5)]),
        ("b".to_string(), vec![metric(2, 2, "acc", Some(1), None, 0.5 - 1e-12)]),
        ("c".to_string(), vec![metric(3, 3, "acc", Some(1), None, 0.4)]),
    ];
    let tex = latex::export_compare_latex(&runs_data);
    assert_eq!(tex.matches("\\textbf{0.5000}").count(), 2);
    assert!(!tex.contains("\\textbf{0.4000}"));
    let md = markdown::export_compare_markdown(&runs_data);
    assert_eq!(md.matches("**0.500000**").count(), 1);
    let tiny = vec![
        ("a".to_string(), vec![metric(1, 1, "acc", Some(1), None, 3e-31)]),
        ("b".to_string(), vec![metric(2, 2, "acc", Some(1), None, 1e-31)]),
    ];
    let md = markdown::export_compare_markdown(&tiny);
    assert_eq!(md.matches("**0.000000**").count(), 2);
    let inf = vec![
        ("a".to_string(), vec![metric(1, 1, "acc", Some(1), None, f64::INFINITY)]),
        ("b".to_string(), vec![metric(2, 2, "acc", Some(1), None, 1.0)]),
    ];
    let md = markdown::export_compare_markdown(&inf);
    assert!(md.contains(" inf |") && !md.contains("**inf**"));
    assert!(!md.contains("**1.000000**"));
}

#[test]
fn key_bands_match_the_float_test() {
    for &x in &[0.5, -2.0, 0.0, 1e-31, 1e300, 123.456] {
        for &tol in &[1e-30, 1e-10] {
            let band = key_band(x, tol);
            let k = order_key(x);
            assert!(band.lo <= k && k <= band.hi);
            assert!((x - from_key(band.lo)).abs() < tol && (x - from_key(band.hi)).abs() < tol);
            assert!(!((x - from_key(band.lo - 1)).abs() < tol));
            assert!(!((x - from_key(band.hi + 1)).abs() < tol));
        }
    }
}
