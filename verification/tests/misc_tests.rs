use experiment_tracker::paths::same_path;
use experiment_tracker::text::char_is_ws;
use experiment_tracker::config::{expand_tilde, AppConfig, ConfigError};
use experiment_tracker::control::state::InputMode;
use experiment_tracker::control::view::View;
use experiment_tracker::display::{format_size, key_hints, menu_items, temp_level, truncate_name, version_string, Level};
use experiment_tracker::models::{HyperParamDiff, RunStatus, Timestamp};
use experiment_tracker::paths::join_path;
use experiment_tracker::platform::{
    config_dir, data_dir, default_config_path, default_db_path, detect_os, expand_path, supports_unicode, to_docker_path, OsType,
};
use experiment_tracker::time::{age_from_seconds, format_duration_secs, relative_time_at};
use experiment_tracker::watcher::{events_for, sort_newest_first, Debouncer, EventKind, WatchEvent};

fn t(year: i32, month: u32, day: u32, hour: u32, minute: u32, second: u32) -> Timestamp {
    Timestamp { year, month, day, hour, minute, second }
}

#[test]
fn durations() {
    assert_eq!(format_duration_secs(5025), "1h 23m 45s");
    assert_eq!(format_duration_secs(3600), "1h 0m 0s");
    assert_eq!(format_duration_secs(303), "5m 3s");
    assert_eq!(format_duration_secs(42), "42s");
    assert_eq!(format_duration_secs(0), "0s");
    assert_eq!(format_duration_secs(-75), "-15s");
}

#[test]
fn ages() {
    let dt = t(2024, 1, 18, 12, 0, 0);
    assert_eq!(age_from_seconds(59, &dt), "just now");
    assert_eq!(age_from_seconds(-300, &dt), "just now");
    assert_eq!(age_from_seconds(60, &dt), "1m ago");
    assert_eq!(age_from_seconds(3599, &dt), "59m ago");
    assert_eq!(age_from_seconds(7200, &dt), "2h ago");
    assert_eq!(age_from_seconds(86400 * 3, &dt), "3d ago");
    assert_eq!(age_from_seconds(86400 * 30, &dt), "2024-01-18");
    assert_eq!(relative_time_at(&dt, &t(2024, 1, 18, 12, 5, 30)), "5m ago");
    assert_eq!(relative_time_at(&t(2024, 2, 28, 23, 0, 0), &t(2024, 3, 1, 1, 0, 0)), "1d ago");
    assert_eq!(relative_time_at(&dt, &t(2024, 3, 1, 0, 0, 0)), "2024-01-18");
}

#[test]
fn display_texts() {
    assert_eq!(version_string(), "ML Experiment Tracker v0.1.0");
    assert_eq!(truncate_name("short", 10), "short");
    assert_eq!(truncate_name("python3-train", 8), "python3…");
    assert_eq!(format_size(340), "340 B");
    assert_eq!(format_size(512), "512 B");
    assert_eq!(format_size(348160), "340 KB");
    assert_eq!(format_size(1280), "1 KB");
    assert_eq!(format_size(1536), "2 KB");
    assert_eq!(format_size(2560), "2 KB");
    assert_eq!(format_size(1331), "1 KB");
    assert_eq!(format_size(1258291), "1.2 MB");
    assert_eq!(temp_level(90, 70, 85), Level::Critical);
    assert_eq!(temp_level(71, 70, 85), Level::Warning);
    assert_eq!(temp_level(70, 70, 85), Level::Normal);
    assert_eq!(key_hints(View::Settings, InputMode::Normal), " Esc:back  ?:help  q:quit ");
    assert_eq!(key_hints(View::Dashboard, InputMode::Search), " Esc:exit  Enter:confirm ");
}

#[test]
fn menu_contexts() {
    let items = menu_items(5, true, Some(("RTX 3050 — ", 42)), 0);
    assert_eq!(items.len(), 6);
    assert_eq!(items[0].label, "Dashboard");
    assert_eq!(items[0].context, "(5 experiments)");
    assert_eq!(items[1].context, "(Docker)");
    assert_eq!(items[2].context, "(RTX 3050 — 42C)");
    assert_eq!(items[3].context, "");
    assert_eq!(items[5].shortcut, "q");
    let items = menu_items(0, false, None, 2);
    assert_eq!(items[1].context, "(unavailable)");
    assert_eq!(items[2].context, "(not detected)");
    assert_eq!(items[3].context, "(2 selected)");
}

#[test]
fn config_checks() {
    let c = AppConfig::default_config();
    assert!(c.validate().is_ok());
    let d: AppConfig = Default::default();
    assert_eq!(d.general.watch_dirs, vec!["./experiments".to_string()]);
    let mut bad = AppConfig::default_config();
    bad.general.refresh_rate_ms = 10;
    match bad.validate() {
        Err(e) => {
            assert_eq!(e, ConfigError::RefreshRateTooLow(10));
            assert_eq!(e.message(), "Config error: refresh_rate_ms must be >= 50 (got 10)");
        }
        Ok(()) => panic!("expected a refusal"),
    }
    let mut bad = AppConfig::default_config();
    bad.general.watch_dirs.clear();
    bad.general.refresh_rate_ms = 10;
    assert_eq!(bad.validate(), Err(ConfigError::EmptyWatchDirs));
    let mut bad = AppConfig::default_config();
    if let Some(g) = bad.gpu.as_mut() {
        g.temp_warning = 95;
    }
    assert_eq!(bad.validate(), Err(ConfigError::TempThresholds(95, 90)));
    assert_eq!(ConfigError::ZeroChartPoints.message(), "Config error: ui.max_chart_points must be > 0");
    assert_eq!(c.resolved_db_path(Some("/home/u")), "/home/u/.local/share/experiment-tracker/tracker.db");
    assert_eq!(expand_tilde("~/x", Some("/h")), "/h/x");
    assert_eq!(expand_tilde("~/x", None), "~/x");
    assert_eq!(
        AppConfig::default_config_path(None, Some("/home/u")),
        "/home/u/.config/experiment-tracker/config.toml"
    );
}

#[test]
fn platform_paths() {
    assert_eq!(detect_os("linux"), OsType::Linux);
    assert_eq!(detect_os("windows"), OsType::Windows);
    assert_eq!(detect_os("freebsd"), OsType::Unknown);
    assert_eq!(expand_path("~/exp", "/home/u"), "/home/u/exp");
    assert_eq!(expand_path("~", "/home/u"), "/home/u");
    assert_eq!(expand_path("/abs", "/home/u"), "/abs");
    assert_eq!(to_docker_path("C:\\Users\\me\\exp", OsType::Windows), "/c/Users/me/exp");
    assert_eq!(to_docker_path("/data/exp", OsType::Linux), "/data/exp");
    assert_eq!(default_db_path(OsType::Linux, "/d"), "/d/tracker.db");
    assert_eq!(default_config_path(OsType::Linux, "/c"), "/c/config.toml");
    assert_eq!(default_db_path(OsType::Windows, "C:\\d"), "C:\\d\\tracker.db");
    assert_eq!(default_db_path(OsType::Windows, "C:\\d\\"), "C:\\d\\tracker.db");
    assert_eq!(default_db_path(OsType::Windows, "C:"), "C:tracker.db");
    assert_eq!(
        data_dir(OsType::Windows, None, None, "C:\\Users\\me"),
        "C:\\Users\\me\\AppData\\Local\\experiment-tracker"
    );
    assert_eq!(config_dir(OsType::Windows, Some("D:\\Local"), None, "C:\\u"), "D:\\Local\\experiment-tracker");
    assert_eq!(data_dir(OsType::Linux, None, None, "/home/u"), "/home/u/.local/share/experiment-tracker");
    assert!(supports_unicode(OsType::Linux, false, false));
    assert!(!supports_unicode(OsType::Windows, false, false));
    assert!(supports_unicode(OsType::Windows, true, false));
    assert_eq!(join_path("a/", "b"), "a/b");
    assert_eq!(join_path("a", "/b"), "/b");
}

#[test]
fn run_status_names() {
    for s in [RunStatus::Running, RunStatus::Completed, RunStatus::Failed, RunStatus::Stopped] {
        assert_eq!(RunStatus::parse(s.as_str()), s);
        assert_eq!(RunStatus::from(s.as_str()), s);
    }
    assert_eq!(RunStatus::parse("weird"), RunStatus::Running);
    assert_eq!(RunStatus::Failed.symbol(), "✗");
    assert_eq!(RunStatus::Completed.to_text(), "completed");
    let d = HyperParamDiff { key: "lr".to_string(), left: Some("0.1".to_string()), right: None };
    assert!(d.is_different());
    let d = HyperParamDiff { key: "lr".to_string(), left: Some("0.1".to_string()), right: Some("0.1".to_string()) };
    assert!(!d.is_different());
}

#[test]
fn debounced_changes() {
    let mut d = Debouncer::new();
    assert!(d.should_emit("/e/a.jsonl", 1000));
    assert!(!d.should_emit("/e/a.jsonl", 1100));
    assert!(!d.should_emit("/e/a.jsonl", 900));
    assert!(d.should_emit("/e/b.jsonl", 1100));
    assert!(d.should_emit("/e/a.jsonl", 1200));
}

#[test]
fn watcher_events() {
    let mut d = Debouncer::new();
    let paths = vec!["/e/a.jsonl".to_string(), "/e/notes.txt".to_string(), "/e/a.jsonl".to_string()];
    let evs = events_for(EventKind::Modify, &paths, &mut d, 5000);
    assert_eq!(evs.len(), 1);
    assert!(matches!(&evs[0], WatchEvent::FileChanged(p) if p == "/e/a.jsonl"));
    let evs = events_for(EventKind::Remove, &paths, &mut d, 5010);
    assert_eq!(evs.len(), 2);
    assert!(matches!(&evs[1], WatchEvent::FileRemoved(p) if p == "/e/a.jsonl"));
    assert!(events_for(EventKind::Other, &paths, &mut d, 9000).is_empty());
}

#[test]
fn scan_order_newest_first() {
    let files = vec![("a".to_string(), 5u128), ("b".to_string(), 9), ("c".to_string(), 5), ("d".to_string(), 0)];
    let out = sort_newest_first(files);
    let names: Vec<&str> = out.iter().map(|(n, _)| n.as_str()).collect();
    assert_eq!(names, vec!["b", "a", "c", "d"]);
}


#[test]
fn config_file_lookup_order() {
    assert_eq!(AppConfig::config_file_to_read(Some("my.toml"), true, None, Some("/h")), "my.toml");
    assert_eq!(AppConfig::config_file_to_read(None, true, None, Some("/h")), "config.toml");
    assert_eq!(
        AppConfig::config_file_to_read(None, false, None, Some("/h")),
        "/h/.config/experiment-tracker/config.toml"
    );
    assert_eq!(
        AppConfig::config_file_to_read(None, false, Some("/x"), Some("/h")),
        "/x/experiment-tracker/config.toml"
    );
}

#[test]
fn debouncing_treats_equal_paths_as_one_file() {
    assert!(same_path("a/b/", "a/b"));
    assert!(same_path("a//./b", "a/b"));
    assert!(!same_path("./a", "a"));
    assert!(!same_path("/a", "a"));
    let mut d = Debouncer::new();
    assert!(d.should_emit("exp/run/metrics.jsonl", 1000));
    assert!(!d.should_emit("exp//run/./metrics.jsonl", 1100));
    assert!(d.should_emit("/exp/run/metrics.jsonl", 1100));
    assert!(d.should_emit("exp/run/metrics.jsonl", 1200));
}

#[test]
fn white_space_matches_std() {
    for n in 0u32..=0x10FFFF {
        if let Some(c) = char::from_u32(n) {
            assert_eq!(char_is_ws(c), c.is_whitespace(), "U+{:04X}", n);
        }
    }
}
