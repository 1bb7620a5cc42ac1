use experiment_tracker::config::AppConfig;
use experiment_tracker::control::actions::{Action, KeyCode, KeyPress};
use experiment_tracker::control::handler::{execute_action, handle_key_event, new_metric_rows, Effect, ExportFormat, StopOutcome};
use experiment_tracker::control::state::{derive_run_name, filter_by, App, DetailSubView, InputMode, RunDetail, RunDialogState};
use experiment_tracker::control::view::View;
use experiment_tracker::models::{KeyBand, MetricValue, Run, RunStatus, Timestamp};
use experiment_tracker::parser::ParsedRecord;

fn ts() -> Timestamp {
    Timestamp { year: 2024, month: 3, day: 1, hour: 12, minute: 0, second: 0 }
}

fn run(id: i64, name: &str, status: RunStatus, notes: &str) -> Run {
    Run {
        id,
        name: name.to_string(),
        status,
        log_path: format!("/tmp/{}.jsonl", name),
        created_at: ts(),
        updated_at: ts(),
        notes: notes.to_string(),
    }
}

fn sample_runs() -> Vec<Run> {
    vec![
        run(1, "baseline", RunStatus::Completed, ""),
        run(2, "optuna-trial", RunStatus::Running, "hpo sweep"),
        run(3, "bci-motor", RunStatus::Failed, "OOM at epoch 15"),
    ]
}

fn key(c: char) -> KeyPress {
    KeyPress { code: KeyCode::Char(c), ctrl: false }
}

fn code(k: KeyCode) -> KeyPress {
    KeyPress { code: k, ctrl: false }
}

fn press(app: &mut App, k: KeyPress, docker: bool) -> Effect {
    let a = handle_key_event(app, k);
    execute_action(app, a, docker, &AppConfig::default_config())
}

fn app_on(view: View) -> App {
    let mut app = App::new(sample_runs());
    app.current_view = view;
    app
}

#[test]
fn starts_on_splash_and_any_key_leads_to_menu() {
    let mut app = App::new(sample_runs());
    assert_eq!(app.current_view, View::Splash);
    assert_eq!(app.status_message, "Ready");
    assert_eq!(handle_key_event(&app, key('q')), Action::SplashDismiss);
    press(&mut app, key('x'), false);
    assert_eq!(app.current_view, View::Menu);
    assert!(!app.should_quit);
}

#[test]
fn splash_times_out_after_two_seconds() {
    let mut app = App::new(sample_runs());
    app.tick_splash(1999);
    assert_eq!(app.current_view, View::Splash);
    app.tick_splash(2000);
    assert_eq!(app.current_view, View::Menu);
}

#[test]
fn ctrl_c_quits_from_any_popup() {
    let mut app = app_on(View::Dashboard);
    app.input_mode = InputMode::Search;
    let eff = press(&mut app, KeyPress { code: KeyCode::Char('c'), ctrl: true }, false);
    assert!(app.should_quit);
    assert!(matches!(eff, Effect::StopAllContainers));
}

#[test]
fn menu_cursor_wraps_both_ways() {
    let mut app = app_on(View::Menu);
    press(&mut app, key('k'), false);
    assert_eq!(app.menu_selected, 5);
    press(&mut app, code(KeyCode::Down), false);
    assert_eq!(app.menu_selected, 0);
    for _ in 0..6 {
        press(&mut app, key('j'), false);
    }
    assert_eq!(app.menu_selected, 0);
}

#[test]
fn menu_items_select_their_views() {
    let mut app = app_on(View::Menu);
    press(&mut app, key('1'), false);
    assert_eq!(app.current_view, View::Dashboard);
    assert_eq!(app.menu_selected, 0);

    let mut app = app_on(View::Menu);
    press(&mut app, key('3'), false);
    assert_eq!(app.current_view, View::GpuMonitor);

    let mut app = app_on(View::Menu);
    press(&mut app, key('5'), false);
    assert_eq!(app.current_view, View::Settings);

    let mut app = app_on(View::Menu);
    app.menu_selected = 5;
    press(&mut app, code(KeyCode::Enter), false);
    assert!(app.should_quit);

    let mut app = app_on(View::Menu);
    press(&mut app, key('q'), false);
    assert!(app.should_quit);
}

#[test]
fn menu_run_experiment_needs_docker() {
    let mut app = app_on(View::Menu);
    press(&mut app, key('2'), false);
    assert_eq!(app.status_message, "Docker not available");
    assert!(app.run_dialog.is_none());

    let mut app = app_on(View::Menu);
    press(&mut app, key('2'), true);
    assert_eq!(app.input_mode, InputMode::RunDialog);
    let d = app.run_dialog.as_ref().unwrap();
    assert_eq!(d.image, "thesis-training:latest");
    assert_eq!(d.command, "python train.py");
    assert_eq!(d.output_dir, "./experiments/run_004");
    assert!(d.use_gpu);
    assert_eq!(d.active_field, 1);
    assert_eq!(app.current_view, View::Menu);
}

#[test]
fn menu_compare_needs_marked_runs() {
    let mut app = app_on(View::Menu);
    let eff = press(&mut app, key('4'), false);
    assert!(matches!(eff, Effect::Nothing));
    assert_eq!(app.status_message, "No runs selected. Go to Dashboard and press Space to mark runs.");

    let mut app = app_on(View::Menu);
    app.toggle_compare(2);
    let eff = press(&mut app, key('4'), false);
    match eff {
        Effect::LoadCompare { run_ids } => assert_eq!(run_ids, vec![2]),
        _ => panic!("expected the comparison to be loaded"),
    }
    app.finish_compare(Some(vec![("optuna-trial".to_string(), vec![])]));
    assert_eq!(app.current_view, View::Compare);
    assert_eq!(app.status_message, "Comparing 1 runs");
}

#[test]
fn escape_goes_back_to_menu_or_dashboard() {
    for v in [View::Dashboard, View::GpuMonitor, View::Compare, View::Settings] {
        let mut app = app_on(v);
        press(&mut app, code(KeyCode::Esc), false);
        assert_eq!(app.current_view, View::Menu);
        assert_eq!(app.status_message, "Ready");
    }
    let mut app = app_on(View::RunDetail);
    press(&mut app, code(KeyCode::Esc), false);
    assert_eq!(app.current_view, View::Dashboard);
    let mut app = app_on(View::GpuMonitor);
    press(&mut app, key('g'), false);
    assert_eq!(app.current_view, View::Menu);
}

#[test]
fn help_toggles_back_to_the_same_view() {
    let mut app = app_on(View::Compare);
    press(&mut app, key('?'), false);
    assert_eq!(app.current_view, View::Help);
    assert!(app.show_help);
    press(&mut app, key('?'), false);
    assert_eq!(app.current_view, View::Compare);
    assert!(!app.show_help);
}

#[test]
fn dashboard_cursor_stays_in_range() {
    let mut app = app_on(View::Dashboard);
    press(&mut app, key('k'), false);
    assert_eq!(app.selected_run_index, 0);
    press(&mut app, key('j'), false);
    press(&mut app, key('j'), false);
    press(&mut app, key('j'), false);
    assert_eq!(app.selected_run_index, 2);
    let eff = press(&mut app, code(KeyCode::Enter), false);
    match eff {
        Effect::LoadRunDetail { run_id, name } => {
            assert_eq!(run_id, 3);
            assert_eq!(name, "bci-motor");
        }
        _ => panic!("expected the run detail to be loaded"),
    }
}

#[test]
fn select_shows_detail_or_reports_failure() {
    let mut app = app_on(View::Dashboard);
    app.finish_select("baseline", None);
    assert_eq!(app.status_message, "Failed to load run details");
    assert_eq!(app.current_view, View::Dashboard);
    let detail = RunDetail {
        run: run(1, "baseline", RunStatus::Completed, ""),
        metrics: vec![],
        metric_names: vec!["accuracy".to_string(), "loss".to_string()],
        latest_metrics: vec![],
        hyperparams: vec![],
        tags: vec!["a".to_string()],
    };
    app.finish_select("baseline", Some(detail));
    assert_eq!(app.current_view, View::RunDetail);
    assert_eq!(app.status_message, "Viewing: baseline");
    assert_eq!(app.detail_sub_view, DetailSubView::Chart);
    press(&mut app, key('j'), false);
    assert_eq!(app.selected_metric_index, 1);
    press(&mut app, key('j'), false);
    assert_eq!(app.selected_metric_index, 0);
    press(&mut app, key('k'), false);
    assert_eq!(app.selected_metric_index, 1);
}

#[test]
fn tab_cycles_detail_panels_and_asks_for_logs() {
    let mut app = app_on(View::RunDetail);
    app.current_run = Some(run(7, "r", RunStatus::Running, ""));
    let e1 = press(&mut app, code(KeyCode::Tab), false);
    assert_eq!(app.detail_sub_view, DetailSubView::Hyperparams);
    assert!(matches!(e1, Effect::Nothing));
    let e2 = press(&mut app, code(KeyCode::Tab), false);
    assert_eq!(app.detail_sub_view, DetailSubView::Logs);
    assert!(matches!(e2, Effect::RefreshLogs { run_id: 7 }));
    press(&mut app, code(KeyCode::Tab), false);
    assert_eq!(app.detail_sub_view, DetailSubView::Chart);
}

#[test]
fn search_filters_case_insensitively() {
    let mut app = app_on(View::Dashboard);
    press(&mut app, key('/'), false);
    assert_eq!(app.input_mode, InputMode::Search);
    assert_eq!(app.status_message, "Search: type to filter");
    for c in "OOM".chars() {
        press(&mut app, key(c), false);
    }
    assert_eq!(app.search_query, "OOM");
    assert_eq!(app.visible_runs().len(), 1);
    assert_eq!(app.visible_runs()[0].name, "bci-motor");
    press(&mut app, code(KeyCode::Backspace), false);
    assert_eq!(app.search_query, "OO");
    press(&mut app, code(KeyCode::Enter), false);
    assert_eq!(app.input_mode, InputMode::Normal);
    let mut app = app_on(View::Dashboard);
    app.update_search("RUNNING".to_string());
    assert_eq!(app.visible_runs().len(), 1);
    assert_eq!(app.visible_runs()[0].id, 2);
}

#[test]
fn compare_marks_at_most_five() {
    let mut app = app_on(View::Dashboard);
    for id in 1..=5 {
        app.toggle_compare(id);
    }
    assert_eq!(app.compare_run_ids, vec![1, 2, 3, 4, 5]);
    assert_eq!(app.status_message, "5 run(s) selected for comparison");
    app.toggle_compare(6);
    assert_eq!(app.compare_run_ids.len(), 5);
    assert_eq!(app.status_message, "Maximum 5 runs for comparison");
    app.toggle_compare(3);
    assert_eq!(app.compare_run_ids, vec![1, 2, 4, 5]);
    assert!(!app.is_selected_for_compare(3));
    app.toggle_compare(3);
    assert_eq!(app.compare_run_ids, vec![1, 2, 4, 5, 3]);
}

#[test]
fn toggling_twice_restores_the_marks() {
    let mut app = app_on(View::Dashboard);
    app.toggle_compare(1);
    let before = app.compare_run_ids.clone();
    app.toggle_compare(9);
    app.toggle_compare(9);
    assert_eq!(app.compare_run_ids, before);
}

#[test]
fn space_marks_the_run_under_the_cursor() {
    let mut app = app_on(View::Dashboard);
    press(&mut app, key('j'), false);
    press(&mut app, key(' '), false);
    assert_eq!(app.compare_run_ids, vec![2]);
    assert_eq!(app.status_message, "1 run(s) selected for comparison");
    press(&mut app, key('c'), false);
}

#[test]
fn delete_asks_then_removes() {
    let mut app = app_on(View::Dashboard);
    app.toggle_compare(1);
    press(&mut app, key('d'), false);
    assert_eq!(app.input_mode, InputMode::DeleteConfirm);
    let eff = press(&mut app, key('y'), false);
    assert_eq!(app.input_mode, InputMode::Normal);
    match eff {
        Effect::DeleteRun { run_id, name } => {
            assert_eq!(run_id, 1);
            assert_eq!(name, "baseline");
            let rest = vec![run(2, "optuna-trial", RunStatus::Running, ""), run(3, "bci-motor", RunStatus::Failed, "")];
            app.finish_delete(run_id, &name, true, Some(rest));
        }
        _ => panic!("expected a deletion"),
    }
    assert_eq!(app.runs.len(), 2);
    assert!(app.compare_run_ids.is_empty());
    assert_eq!(app.status_message, "Deleted: baseline");

    press(&mut app, key('d'), false);
    press(&mut app, key('n'), false);
    assert_eq!(app.input_mode, InputMode::Normal);
    assert_eq!(app.status_message, "Delete cancelled");
}

#[test]
fn tags_are_added_sorted_and_removed() {
    let mut app = app_on(View::RunDetail);
    app.current_run = Some(run(4, "r", RunStatus::Running, ""));
    app.current_tags = vec!["zeta".to_string()];
    press(&mut app, key('t'), false);
    assert_eq!(app.input_mode, InputMode::TagList);
    press(&mut app, key('a'), false);
    assert_eq!(app.input_mode, InputMode::TagInput);
    for c in "alpha".chars() {
        press(&mut app, key(c), false);
    }
    let eff = press(&mut app, code(KeyCode::Enter), false);
    assert_eq!(app.input_mode, InputMode::TagList);
    assert_eq!(app.input_buffer, "");
    match eff {
        Effect::AddTag { run_id, tag } => {
            assert_eq!(run_id, 4);
            assert_eq!(tag, "alpha");
            app.finish_add_tag(tag, true);
        }
        _ => panic!("expected a tag"),
    }
    assert_eq!(app.current_tags, vec!["alpha".to_string(), "zeta".to_string()]);
    assert_eq!(app.status_message, "Added tag: alpha");
    press(&mut app, key('j'), false);
    assert_eq!(app.tag_list_selected, 1);
    let eff = press(&mut app, key('d'), false);
    match eff {
        Effect::RemoveTag { tag, .. } => {
            assert_eq!(tag, "zeta");
            app.finish_remove_tag(&tag, true);
        }
        _ => panic!("expected a tag removal"),
    }
    assert_eq!(app.current_tags, vec!["alpha".to_string()]);
    assert_eq!(app.tag_list_selected, 0);
    assert_eq!(app.status_message, "Removed tag: zeta");
}

#[test]
fn notes_are_saved() {
    let mut app = app_on(View::RunDetail);
    app.current_run = Some(run(4, "r", RunStatus::Running, "old"));
    press(&mut app, key('n'), false);
    for c in "new".chars() {
        press(&mut app, key(c), false);
    }
    let eff = press(&mut app, code(KeyCode::Enter), false);
    match eff {
        Effect::SaveNotes { notes, .. } => app.finish_save_notes(notes, true),
        _ => panic!("expected notes"),
    }
    assert_eq!(app.current_run.as_ref().unwrap().notes, "new");
    assert_eq!(app.status_message, "Notes saved");
    assert_eq!(app.input_mode, InputMode::Normal);
}

#[test]
fn status_toggle_cycles() {
    let mut app = app_on(View::RunDetail);
    app.current_run = Some(run(4, "r", RunStatus::Failed, ""));
    let eff = press(&mut app, key('s'), false);
    match eff {
        Effect::SetRunStatus { run_id, status } => {
            assert_eq!(run_id, 4);
            assert_eq!(status, RunStatus::Running);
            app.finish_status_change(status, true, None);
        }
        _ => panic!("expected a status change"),
    }
    assert_eq!(app.status_message, "Status -> running");
}

#[test]
fn stop_container_outcomes() {
    let mut app = app_on(View::RunDetail);
    app.current_run = Some(run(4, "r", RunStatus::Running, ""));
    let eff = press(&mut app, key('K'), false);
    assert!(matches!(eff, Effect::StopContainer { run_id: 4 }));
    app.finish_stop_container(StopOutcome::NotRunning);
    assert_eq!(app.status_message, "No running container for this run");
    app.finish_stop_container(StopOutcome::Stopped(None));
    assert_eq!(app.status_message, "Container stopped");
}

#[test]
fn exports_from_detail_and_compare() {
    let mut app = app_on(View::RunDetail);
    assert!(matches!(press(&mut app, key('x'), false), Effect::ExportRun(ExportFormat::Latex)));
    let mut app = app_on(View::Compare);
    assert!(matches!(press(&mut app, key('m'), false), Effect::ExportCompare(ExportFormat::Markdown)));
    assert!(matches!(press(&mut app, key('e'), false), Effect::ExportCompare(ExportFormat::Csv)));
    app.finish_export(Ok("/x/a.md".to_string()));
    assert_eq!(app.status_message, "Exported to /x/a.md");
    app.finish_export(Err("disk full".to_string()));
    assert_eq!(app.status_message, "Export failed: disk full");
    let app = app_on(View::Dashboard);
    let now = Timestamp { year: 2024, month: 1, day: 18, hour: 14, minute: 30, second: 22 };
    assert_eq!(app.export_current_run_markdown(&[], &now).unwrap_err(), "No run selected");
    let f = app.export_compare_csv(&["/w".to_string()], &now);
    assert_eq!(f.path, "/w/exports/comparison_20240118_143022.csv");
}

#[test]
fn run_dialog_edits_fields() {
    let config = AppConfig::default_config();
    let mut d = RunDialogState::new(&config, 7);
    assert_eq!(d.output_dir, "./experiments/run_007");
    if let Some(v) = d.active_value_mut() {
        v.push_str(" --fast");
    }
    assert_eq!(d.command, "python train.py --fast");
    for _ in 0..4 {
        d.next_field();
    }
    assert_eq!(d.active_field, 1);
    d.toggle_gpu();
    assert!(!d.use_gpu);

    let mut app = app_on(View::Dashboard);
    press(&mut app, key('R'), true);
    press(&mut app, code(KeyCode::Backspace), true);
    press(&mut app, key('!'), true);
    assert_eq!(app.run_dialog.as_ref().unwrap().command, "python train.p!");
    press(&mut app, code(KeyCode::Tab), true);
    press(&mut app, code(KeyCode::Tab), true);
    assert_eq!(app.run_dialog.as_ref().unwrap().active_field, 3);
    assert_eq!(handle_key_event(&app, key(' ')), Action::RunDialogToggleGpu);
    press(&mut app, key(' '), true);
    assert!(!app.run_dialog.as_ref().unwrap().use_gpu);
    let eff = press(&mut app, code(KeyCode::Enter), true);
    assert!(matches!(eff, Effect::StartRun(_)));
    app.finish_run_start(Err("Docker daemon is not running".to_string()), None);
    assert_eq!(app.run_dialog.as_ref().unwrap().error_message, "Docker daemon is not running");
    app.finish_run_start(Ok(("0123456789abcdef".to_string(), "run_004".to_string())), None);
    assert_eq!(app.status_message, "Started container 0123456789ab for run_004");
    assert!(app.run_dialog.is_none());
    assert_eq!(app.input_mode, InputMode::Normal);
}

#[test]
fn cancel_closes_the_dialog() {
    let mut app = app_on(View::Dashboard);
    press(&mut app, key('R'), true);
    press(&mut app, code(KeyCode::Esc), true);
    assert!(app.run_dialog.is_none());
    assert_eq!(app.input_mode, InputMode::Normal);
    assert_eq!(app.status_message, "Cancelled");
}

#[test]
fn tabs_cycle() {
    let mut app = app_on(View::Dashboard);
    press(&mut app, code(KeyCode::BackTab), false);
    assert_eq!(app.selected_tab, 3);
    press(&mut app, code(KeyCode::Tab), false);
    assert_eq!(app.selected_tab, 0);
}

#[test]
fn run_names_from_paths() {
    assert_eq!(derive_run_name("/exp/run_001/metrics.jsonl"), "run_001");
    assert_eq!(derive_run_name("/exp/run_001/Train.csv"), "run_001");
    assert_eq!(derive_run_name("/exp/resnet50-lr3.jsonl"), "resnet50-lr3");
    assert_eq!(derive_run_name("metrics.jsonl"), "metrics");
    assert_eq!(derive_run_name("/"), "unknown");
}

#[test]
fn import_rows_skip_known_records() {
    let recs = vec![
        ParsedRecord { epoch: Some(1), step: None, metrics: vec![("loss".to_string(), "0.5".to_string())] },
        ParsedRecord {
            epoch: Some(2),
            step: Some(20),
            metrics: vec![("loss".to_string(), "0.4".to_string()), ("acc".to_string(), "0.9".to_string())],
        },
    ];
    let rows = new_metric_rows(&recs, 1);
    assert_eq!(rows.len(), 2);
    assert_eq!(rows[0], ("loss".to_string(), Some(2), Some(20), "0.4".to_string()));
    assert_eq!(rows[1].0, "acc");
    assert_eq!(new_metric_rows(&recs, 2), vec![("acc".to_string(), Some(2), Some(20), "0.9".to_string())]);
    assert!(new_metric_rows(&recs, 3).is_empty());
    assert_eq!(new_metric_rows(&recs, 0).len(), 3);
    let mut app = app_on(View::Dashboard);
    app.finish_import("run_001", 2, sample_runs());
    assert_eq!(app.status_message, "Imported 2 metrics from run_001");
    app.finish_import_scan(3);
    assert_eq!(app.status_message, "Imported 3 existing log files");
}

#[test]
fn refresh_clamps_the_cursor() {
    let mut app = app_on(View::Dashboard);
    app.selected_run_index = 2;
    app.finish_refresh(Some(vec![run(1, "only", RunStatus::Running, "")]));
    assert_eq!(app.selected_run_index, 0);
    assert_eq!(app.status_message, "Refreshed");
    let _ = MetricValue { order: None, tiny_band: KeyBand { lo: 1, hi: 0 }, small_band: KeyBand { lo: 1, hi: 0 }, text: String::new(), fixed4: String::new(), fixed6: String::new() };
}

#[test]
fn search_ignores_unicode_case() {
    let runs = vec![run(1, "ÄBC-sweep", RunStatus::Running, ""), run(2, "other", RunStatus::Running, "")];
    let found = filter_by(&runs, "äb");
    assert_eq!(found.len(), 1);
    assert_eq!(found[0].id, 1);
    assert_eq!(filter_by(&runs, "ÄBC").len(), 1);
    assert_eq!(filter_by(&runs, "xyz").len(), 0);
}

#[test]
fn appended_records_are_imported_once() {
    let rec = |e: i64, l: &str, a: &str| ParsedRecord {
        epoch: Some(e),
        step: None,
        metrics: vec![("loss".to_string(), l.to_string()), ("acc".to_string(), a.to_string())],
    };
    let first = vec![rec(1, "0.9", "0.1"), rec(2, "0.8", "0.2")];
    let stored = new_metric_rows(&first, 0);
    assert_eq!(stored.len(), 4);
    let mut grown = first.clone();
    grown.push(rec(3, "0.7", "0.3"));
    let rows = new_metric_rows(&grown, stored.len());
    assert_eq!(
        rows,
        vec![
            ("loss".to_string(), Some(3), None, "0.7".to_string()),
            ("acc".to_string(), Some(3), None, "0.3".to_string()),
        ]
    );
    assert!(new_metric_rows(&grown, stored.len() + rows.len()).is_empty());
}
