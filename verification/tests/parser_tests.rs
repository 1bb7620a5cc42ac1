use experiment_tracker::config::AppConfig;
use experiment_tracker::parser::{
    choose_format, detect_format, is_log_file, jsonl_candidates, parse_csv, parse_jsonl, parse_log_file, truncate,
    LogFormat, ParseError,
};

fn cfg() -> experiment_tracker::config::ParserConfig {
    AppConfig::default_config().parser
}


#[test]
fn csv_records_with_epoch_and_step() {
    let log = parse_csv("epoch,step,loss,accuracy\n1,100,0.542,0.73\n2,200,0.431,0.81\n", &cfg()).unwrap();
    assert_eq!(log.records.len(), 2);
    assert_eq!(log.records[0].epoch, Some(1));
    assert_eq!(log.records[0].step, Some(100));
    assert_eq!(
        log.records[0].metrics,
        vec![("loss".to_string(), "0.542".to_string()), ("accuracy".to_string(), "0.73".to_string())]
    );
    assert_eq!(log.records[1].metrics[1].1, "0.81");
    assert!(log.skipped.is_empty());
    assert!(log.hyperparams.is_empty());
}

#[test]
fn csv_skips_short_lines_and_non_numbers() {
    let log = parse_csv("epoch,loss,note\n1,0.5,ok\n2,0.4\n\n3,abc,x\n", &cfg()).unwrap();
    assert_eq!(log.records.len(), 1);
    assert_eq!(log.records[0].metrics, vec![("loss".to_string(), "0.5".to_string())]);
    assert_eq!(log.skipped.len(), 1);
    assert_eq!(log.skipped[0].line, 3);
    assert_eq!(log.skipped[0].found, 2);
    assert_eq!(log.skipped[0].expected, 3);
}

#[test]
fn csv_empty_text_is_refused() {
    assert!(matches!(parse_csv("", &cfg()), Err(ParseError::EmptyCsv)));
}

#[test]
fn jsonl_lines_and_hyperparams() {
    let content = "{\"epoch\": 1, \"step\": 100, \"loss\": 0.542}\n\n{\"hyperparams\": {\"lr\": 0.001}}\n";
    let cs = jsonl_candidates(content);
    assert_eq!(cs.len(), 2);
    assert_eq!(cs[0].0, 1);
    assert_eq!(cs[1].0, 3);
    let log = parse_jsonl(content, &cfg()).unwrap();
    assert_eq!(log.records.len(), 1);
    assert_eq!(log.records[0].epoch, Some(1));
    assert_eq!(log.records[0].step, Some(100));
    assert_eq!(log.records[0].metrics, vec![("loss".to_string(), "0.542".to_string())]);
    assert_eq!(log.hyperparams, vec![("lr".to_string(), "0.001".to_string())]);
}

#[test]
fn jsonl_invalid_line_refuses_the_log() {
    let content = "{\"loss\": 1}\nnot json at all\n";
    match parse_jsonl(content, &cfg()) {
        Err(ParseError::InvalidJson { line, snippet }) => {
            assert_eq!(line, 2);
            assert_eq!(snippet, "not json at all");
        }
        _ => panic!("expected the log to be refused"),
    }
}

#[test]
fn truncate_cuts_at_bytes() {
    assert_eq!(truncate("short", 50), "short");
    assert_eq!(truncate("abcdef", 3), "abc...");
}

#[test]
fn formats_by_extension_and_content() {
    assert!(matches!(detect_format("a/b.jsonl", None), Some(LogFormat::JsonLines)));
    assert!(matches!(detect_format("a/b.ndjson", None), Some(LogFormat::JsonLines)));
    assert!(matches!(detect_format("a/b.csv", None), Some(LogFormat::Csv)));
    assert!(matches!(detect_format("a/b.json", Some("  {\"a\": 1}\n")), Some(LogFormat::JsonLines)));
    assert!(matches!(detect_format("a/b.log", Some("{\"a\": 1}\n")), Some(LogFormat::JsonLines)));
    assert!(detect_format("a/b.log", Some("{not json\n")).is_none());
    assert!(matches!(detect_format("a/b.txt", Some("x,y\n1,2\n")), Some(LogFormat::Csv)));
    assert!(detect_format("a/b.txt", None).is_none());
    assert!(is_log_file("/x/metrics.jsonl"));
    assert!(is_log_file("/x/m.log"));
    assert!(!is_log_file("/x/m.txt"));
    assert!(!is_log_file("/x/.csv"));
}

#[test]
fn configured_format_wins() {
    let mut c = cfg();
    c.default_format = "csv".to_string();
    assert!(matches!(choose_format(&c, "a.jsonl", None), Ok(LogFormat::Csv)));
    let c = cfg();
    match choose_format(&c, "a.txt", None) {
        Err(ParseError::UnknownFormat(p)) => assert_eq!(p, "a.txt"),
        _ => panic!("expected an unknown format"),
    }
}

#[test]
fn jsonl_values_skip_non_numbers_and_read_config() {
    let content = "{\"config\": {\"model\": \"vit\", \"layers\": [1, 2], \"dropout\": null}}\n\
                   {\"epoch\": \"3\", \"acc\": 0.5, \"tag\": \"x\", \"time\": 12}\n[1, 2]\n";
    let log = parse_jsonl(content, &cfg()).unwrap();
    assert_eq!(log.records.len(), 1);
    assert_eq!(log.records[0].epoch, Some(3));
    assert_eq!(log.records[0].metrics, vec![("acc".to_string(), "0.5".to_string())]);
    let mut hp = log.hyperparams.clone();
    hp.sort();
    assert_eq!(
        hp,
        vec![
            ("dropout".to_string(), "null".to_string()),
            ("layers".to_string(), "[1,2]".to_string()),
            ("model".to_string(), "vit".to_string()),
        ]
    );
}

#[test]
fn log_files_by_format() {
    let c = cfg();
    match parse_log_file("a/m.csv", Some("epoch,loss\n1,0.5\n"), &c) {
        Some(Ok(log)) => assert_eq!(log.records.len(), 1),
        _ => panic!("expected a CSV log"),
    }
    match parse_log_file("a/m.jsonl", Some("{\"loss\": 0.5}\n"), &c) {
        Some(Ok(log)) => assert_eq!(log.records[0].metrics, vec![("loss".to_string(), "0.5".to_string())]),
        _ => panic!("expected a JSON-lines log"),
    }
    match parse_log_file("a/m.jsonl", None, &c) {
        Some(Err(ParseError::ReadFailed(p))) => assert_eq!(p, "a/m.jsonl"),
        _ => panic!("expected a read failure"),
    }
    match parse_log_file("a/m.txt", None, &c) {
        Some(Err(ParseError::UnknownFormat(p))) => assert_eq!(p, "a/m.txt"),
        _ => panic!("expected an unknown format"),
    }
    match parse_log_file("a/m.log", Some("{\"loss\": 1}\n"), &c) {
        Some(Ok(log)) => assert_eq!(log.records.len(), 1),
        _ => panic!("expected a JSON-lines log detected by content"),
    }
    assert!(matches!(parse_log_file("a/m.log", Some("{not json, x\n"), &c), Some(Err(ParseError::UnknownFormat(_)))));
}

#[test]
fn invalid_line_cut_inside_a_character() {
    let c = cfg();
    let bad = format!("{}é and more text", "x".repeat(49));
    let content = format!("{{\"loss\": 1}}\n{}\n", bad);
    assert!(parse_log_file("m.jsonl", Some(&content), &c).is_none());
    let later_bad = format!("oops\n{}\n", bad);
    match parse_log_file("m.jsonl", Some(&later_bad), &c) {
        Some(Err(ParseError::InvalidJson { line, snippet })) => {
            assert_eq!(line, 1);
            assert_eq!(snippet, "oops");
        }
        _ => panic!("expected the first invalid line to refuse the log"),
    }
}
