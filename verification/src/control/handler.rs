//! From key presses to actions, and from actions to the new state plus
//! the outside work (database, Docker, files) that the caller performs.
use vstd::prelude::*;
use crate::config::AppConfig;
use crate::control::actions::{Action, KeyCode, KeyPress};
use crate::control::state::{
    back_target, clamp_index, dialog_gpu, dialog_image, filter_runs, next_sub_view, run_dir_text,
    without_id, App, DetailSubView, InputMode, RunDetail, RunDialogState,
};
use crate::models::Metric;
use crate::export::table::compare_names;
use crate::order::{sort_texts, sorted_texts};
use crate::text::{nat_digits, push_u64};
use crate::control::view;
use crate::models::{status_text, Run, RunStatus};
use crate::text::{drop_last_char, owned, pop_char, push_char, push_str, views};

verus! {

/// The action of a key while searching.
pub open spec fn search_key(code: KeyCode) -> Action {
    match code {
        KeyCode::Esc | KeyCode::Enter => Action::ExitSearchMode,
        KeyCode::Backspace => Action::SearchBackspace,
        KeyCode::Char(c) => Action::SearchInput(c),
        _ => Action::NoOp,
    }
}

/// The action of a key while a tag or the notes are typed.
pub open spec fn input_key(code: KeyCode) -> Action {
    match code {
        KeyCode::Esc => Action::InputCancel,
        KeyCode::Enter => Action::InputConfirm,
        KeyCode::Backspace => Action::InputBackspace,
        KeyCode::Char(c) => Action::InputChar(c),
        _ => Action::NoOp,
    }
}

/// The action of a key in the Docker run dialog; Space toggles the GPU
/// only while the GPU field (field 3) is active, and is typed otherwise.
pub open spec fn dialog_key(code: KeyCode, gpu_field: bool) -> Action {
    match code {
        KeyCode::Esc => Action::InputCancel,
        KeyCode::Enter => Action::ConfirmRunDialog,
        KeyCode::Tab => Action::RunDialogNextField,
        KeyCode::Backspace => Action::InputBackspace,
        KeyCode::Char(c) => if c == ' ' && gpu_field {
            Action::RunDialogToggleGpu
        } else {
            Action::InputChar(c)
        },
        _ => Action::NoOp,
    }
}

/// The action of a key in the tag list.
pub open spec fn tag_list_key(code: KeyCode) -> Action {
    match code {
        KeyCode::Esc => Action::InputCancel,
        KeyCode::Up | KeyCode::Char('k') => Action::MoveUp,
        KeyCode::Down | KeyCode::Char('j') => Action::MoveDown,
        KeyCode::Char('a') => Action::OpenTagInput,
        KeyCode::Char('d') | KeyCode::Delete => Action::RemoveSelectedTag,
        _ => Action::NoOp,
    }
}

/// The action of a key while a deletion waits for confirmation.
pub open spec fn delete_confirm_key(code: KeyCode) -> Action {
    match code {
        KeyCode::Char('y') | KeyCode::Char('Y') => Action::ConfirmDelete,
        KeyCode::Char('n') | KeyCode::Char('N') | KeyCode::Esc => Action::CancelDelete,
        _ => Action::NoOp,
    }
}

/// The action of a key in the menu: j/k and the arrows move, Enter picks
/// the item under the cursor, 1 to 5 pick an item directly.
pub open spec fn menu_key(code: KeyCode, selected: usize) -> Action {
    match code {
        KeyCode::Up | KeyCode::Char('k') => Action::MoveUp,
        KeyCode::Down | KeyCode::Char('j') => Action::MoveDown,
        KeyCode::Enter => Action::MenuSelect(selected),
        KeyCode::Char(c) => if '1' <= c && c <= '5' {
            Action::MenuSelect(((c as u32) - ('1' as u32)) as usize)
        } else {
            Action::NoOp
        },
        _ => Action::NoOp,
    }
}

/// The action of a key on the dashboard.
pub open spec fn dashboard_key(code: KeyCode) -> Action {
    match code {
        KeyCode::Up | KeyCode::Char('k') => Action::MoveUp,
        KeyCode::Down | KeyCode::Char('j') => Action::MoveDown,
        KeyCode::Enter | KeyCode::Char('l') => Action::Select,
        KeyCode::Tab => Action::NextTab,
        KeyCode::BackTab => Action::PrevTab,
        KeyCode::Esc => Action::Back,
        KeyCode::Char('/') => Action::EnterSearchMode,
        KeyCode::Char('d') => Action::DeleteRun,
        KeyCode::Char('r') => Action::Refresh,
        KeyCode::Char('?') => Action::ToggleHelp,
        KeyCode::Char(' ') => Action::ToggleCompareSelection,
        KeyCode::Char('c') => Action::GoToCompare,
        KeyCode::Char('g') => Action::GoToGpuMonitor,
        KeyCode::Char('R') => Action::OpenRunDialog,
        _ => Action::NoOp,
    }
}

/// The action of a key in the run detail.
pub open spec fn run_detail_key(code: KeyCode) -> Action {
    match code {
        KeyCode::Esc | KeyCode::Char('h') | KeyCode::Backspace => Action::Back,
        KeyCode::Tab => Action::CycleDetailSubView,
        KeyCode::Up | KeyCode::Char('k') => Action::MoveUp,
        KeyCode::Down | KeyCode::Char('j') => Action::MoveDown,
        KeyCode::Char('s') => Action::ToggleRunStatus,
        KeyCode::Char('t') => Action::OpenTagList,
        KeyCode::Char('n') => Action::OpenNotesEditor,
        KeyCode::Char('r') => Action::Refresh,
        KeyCode::Char('g') => Action::GoToGpuMonitor,
        KeyCode::Char('?') => Action::ToggleHelp,
        KeyCode::Char('K') => Action::StopContainer,
        KeyCode::Char('m') => Action::ExportMarkdown,
        KeyCode::Char('e') => Action::ExportCsv,
        KeyCode::Char('x') => Action::ExportLatex,
        _ => Action::NoOp,
    }
}

/// The action of a key in the comparison view.
pub open spec fn compare_key(code: KeyCode) -> Action {
    match code {
        KeyCode::Esc | KeyCode::Backspace => Action::Back,
        KeyCode::Tab => Action::CycleCompareMetric,
        KeyCode::Char('m') => Action::ExportMarkdown,
        KeyCode::Char('e') => Action::ExportCsv,
        KeyCode::Char('x') => Action::ExportLatex,
        KeyCode::Char('g') => Action::GoToGpuMonitor,
        KeyCode::Char('?') => Action::ToggleHelp,
        _ => Action::NoOp,
    }
}

/// The action of a key in the GPU monitor.
pub open spec fn gpu_key(code: KeyCode) -> Action {
    match code {
        KeyCode::Esc | KeyCode::Backspace | KeyCode::Char('g') => Action::Back,
        KeyCode::Char('?') => Action::ToggleHelp,
        _ => Action::NoOp,
    }
}

/// The action of a key in the settings view.
pub open spec fn settings_key(code: KeyCode) -> Action {
    match code {
        KeyCode::Esc | KeyCode::Backspace => Action::Back,
        KeyCode::Char('?') => Action::ToggleHelp,
        _ => Action::NoOp,
    }
}

/// The action of a key on the help screen.
pub open spec fn help_key(code: KeyCode) -> Action {
    match code {
        KeyCode::Esc | KeyCode::Char('?') => Action::ToggleHelp,
        _ => Action::NoOp,
    }
}

/// The action of a key when no popup takes the keys: on the splash screen
/// any key moves on; elsewhere 'q' quits, and the view decides the rest.
pub open spec fn normal_key(v: view::View, code: KeyCode, menu_selected: usize) -> Action {
    match v {
        view::View::Splash => Action::SplashDismiss,
        _ => if code == KeyCode::Char('q') {
            Action::Quit
        } else {
            match v {
                view::View::Menu => menu_key(code, menu_selected),
                view::View::Dashboard => dashboard_key(code),
                view::View::RunDetail => run_detail_key(code),
                view::View::Compare => compare_key(code),
                view::View::GpuMonitor => gpu_key(code),
                view::View::Settings => settings_key(code),
                _ => help_key(code),
            }
        },
    }
}

/// Whether the run dialog is open with its GPU field active.
pub open spec fn gpu_field_active(app: App) -> bool {
    match app.run_dialog {
        Some(d) => d.active_field == 3,
        None => false,
    }
}

/// The action of a key press: Ctrl+C always quits; otherwise an open
/// popup (search, text input, run dialog, tag list, delete confirmation)
/// takes the key before the view does.
pub open spec fn key_action(app: App, key: KeyPress) -> Action {
    if key.ctrl && key.code == KeyCode::Char('c') {
        Action::Quit
    } else {
        match app.input_mode {
            InputMode::Search => search_key(key.code),
            InputMode::TagInput | InputMode::NotesInput => input_key(key.code),
            InputMode::RunDialog => dialog_key(key.code, gpu_field_active(app)),
            InputMode::TagList => tag_list_key(key.code),
            InputMode::DeleteConfirm => delete_confirm_key(key.code),
            InputMode::Normal => normal_key(app.current_view, key.code, app.menu_selected),
        }
    }
}

/// The action a key press stands for in the current state (see `key_action`).
pub fn handle_key_event(app: &App, key: KeyPress) -> (a: Action)
    ensures
        a == key_action(*app, key),
{
    if key.ctrl && key.code == KeyCode::Char('c') {
        return Action::Quit;
    }
    match app.input_mode {
        InputMode::Search => match key.code {
            KeyCode::Esc | KeyCode::Enter => Action::ExitSearchMode,
            KeyCode::Backspace => Action::SearchBackspace,
            KeyCode::Char(c) => Action::SearchInput(c),
            _ => Action::NoOp,
        },
        InputMode::TagInput | InputMode::NotesInput => handle_input_keys(key.code),
        InputMode::RunDialog => {
            let gpu_field = match &app.run_dialog {
                Some(d) => d.active_field == 3,
                None => false,
            };
            match key.code {
                KeyCode::Esc => Action::InputCancel,
                KeyCode::Enter => Action::ConfirmRunDialog,
                KeyCode::Tab => Action::RunDialogNextField,
                KeyCode::Backspace => Action::InputBackspace,
                KeyCode::Char(c) => if c == ' ' && gpu_field {
                    Action::RunDialogToggleGpu
                } else {
                    Action::InputChar(c)
                },
                _ => Action::NoOp,
            }
        },
        InputMode::TagList => match key.code {
            KeyCode::Esc => Action::InputCancel,
            KeyCode::Up | KeyCode::Char('k') => Action::MoveUp,
            KeyCode::Down | KeyCode::Char('j') => Action::MoveDown,
            KeyCode::Char('a') => Action::OpenTagInput,
            KeyCode::Char('d') | KeyCode::Delete => Action::RemoveSelectedTag,
            _ => Action::NoOp,
        },
        InputMode::DeleteConfirm => match key.code {
            KeyCode::Char('y') | KeyCode::Char('Y') => Action::ConfirmDelete,
            KeyCode::Char('n') | KeyCode::Char('N') | KeyCode::Esc => Action::CancelDelete,
            _ => Action::NoOp,
        },
        InputMode::Normal => {
            if app.current_view == view::View::Splash {
                return Action::SplashDismiss;
            }
            if key.code == KeyCode::Char('q') {
                return Action::Quit;
            }
            match app.current_view {
                view::View::Menu => handle_menu_keys(key.code, app.menu_selected),
                view::View::Dashboard => handle_dashboard_keys(key.code),
                view::View::RunDetail => handle_run_detail_keys(key.code),
                view::View::Compare => match key.code {
                    KeyCode::Esc | KeyCode::Backspace => Action::Back,
                    KeyCode::Tab => Action::CycleCompareMetric,
                    KeyCode::Char('m') => Action::ExportMarkdown,
                    KeyCode::Char('e') => Action::ExportCsv,
                    KeyCode::Char('x') => Action::ExportLatex,
                    KeyCode::Char('g') => Action::GoToGpuMonitor,
                    KeyCode::Char('?') => Action::ToggleHelp,
                    _ => Action::NoOp,
                },
                view::View::GpuMonitor => match key.code {
                    KeyCode::Esc | KeyCode::Backspace | KeyCode::Char('g') => Action::Back,
                    KeyCode::Char('?') => Action::ToggleHelp,
                    _ => Action::NoOp,
                },
                view::View::Settings => match key.code {
                    KeyCode::Esc | KeyCode::Backspace => Action::Back,
                    KeyCode::Char('?') => Action::ToggleHelp,
                    _ => Action::NoOp,
                },
                _ => match key.code {
                    KeyCode::Esc | KeyCode::Char('?') => Action::ToggleHelp,
                    _ => Action::NoOp,
                },
            }
        },
    }
}

fn handle_input_keys(code: KeyCode) -> (a: Action)
    ensures
        a == input_key(code),
{
    match code {
        KeyCode::Esc => Action::InputCancel,
        KeyCode::Enter => Action::InputConfirm,
        KeyCode::Backspace => Action::InputBackspace,
        KeyCode::Char(c) => Action::InputChar(c),
        _ => Action::NoOp,
    }
}

fn handle_menu_keys(code: KeyCode, selected: usize) -> (a: Action)
    ensures
        a == menu_key(code, selected),
{
    match code {
        KeyCode::Up | KeyCode::Char('k') => Action::MoveUp,
        KeyCode::Down | KeyCode::Char('j') => Action::MoveDown,
        KeyCode::Enter => Action::MenuSelect(selected),
        KeyCode::Char(c) => if '1' <= c && c <= '5' {
            Action::MenuSelect(((c as u32) - ('1' as u32)) as usize)
        } else {
            Action::NoOp
        },
        _ => Action::NoOp,
    }
}

fn handle_dashboard_keys(code: KeyCode) -> (a: Action)
    ensures
        a == dashboard_key(code),
{
    match code {
        KeyCode::Up | KeyCode::Char('k') => Action::MoveUp,
        KeyCode::Down | KeyCode::Char('j') => Action::MoveDown,
        KeyCode::Enter | KeyCode::Char('l') => Action::Select,
        KeyCode::Tab => Action::NextTab,
        KeyCode::BackTab => Action::PrevTab,
        KeyCode::Esc => Action::Back,
        KeyCode::Char('/') => Action::EnterSearchMode,
        KeyCode::Char('d') => Action::DeleteRun,
        KeyCode::Char('r') => Action::Refresh,
        KeyCode::Char('?') => Action::ToggleHelp,
        KeyCode::Char(' ') => Action::ToggleCompareSelection,
        KeyCode::Char('c') => Action::GoToCompare,
        KeyCode::Char('g') => Action::GoToGpuMonitor,
        KeyCode::Char('R') => Action::OpenRunDialog,
        _ => Action::NoOp,
    }
}

fn handle_run_detail_keys(code: KeyCode) -> (a: Action)
    ensures
        a == run_detail_key(code),
{
    match code {
        KeyCode::Esc | KeyCode::Char('h') | KeyCode::Backspace => Action::Back,
        KeyCode::Tab => Action::CycleDetailSubView,
        KeyCode::Up | KeyCode::Char('k') => Action::MoveUp,
        KeyCode::Down | KeyCode::Char('j') => Action::MoveDown,
        KeyCode::Char('s') => Action::ToggleRunStatus,
        KeyCode::Char('t') => Action::OpenTagList,
        KeyCode::Char('n') => Action::OpenNotesEditor,
        KeyCode::Char('r') => Action::Refresh,
        KeyCode::Char('g') => Action::GoToGpuMonitor,
        KeyCode::Char('?') => Action::ToggleHelp,
        KeyCode::Char('K') => Action::StopContainer,
        KeyCode::Char('m') => Action::ExportMarkdown,
        KeyCode::Char('e') => Action::ExportCsv,
        KeyCode::Char('x') => Action::ExportLatex,
        _ => Action::NoOp,
    }
}


/// The format of an export.
#[derive(Debug, Clone, Copy, PartialEq, Eq, Structural)]
pub enum ExportFormat {
    Markdown,
    Csv,
    Latex,
}

/// The outside work an action asks for. The caller performs it (reading
/// or writing the database, talking to Docker, writing files) and hands
/// the outcome back through the matching `finish_` method of `App`.
#[derive(Debug, Clone)]
pub enum Effect {
    Nothing,
    StopAllContainers,
    LoadRunDetail { run_id: i64, name: String },
    LoadCompare { run_ids: Vec<i64> },
    DeleteRun { run_id: i64, name: String },
    AddTag { run_id: i64, tag: String },
    RemoveTag { run_id: i64, tag: String },
    SaveNotes { run_id: i64, notes: String },
    SetRunStatus { run_id: i64, status: RunStatus },
    StopContainer { run_id: i64 },
    RefreshRuns,
    RefreshLogs { run_id: i64 },
    ExportRun(ExportFormat),
    ExportCompare(ExportFormat),
    StartRun(RunDialogState),
}

/// The menu item above `m`; above the first comes the last (of six).
pub open spec fn menu_up(m: usize) -> usize {
    if m == 0 {
        5
    } else {
        (m - 1) as usize
    }
}

/// The menu item below `m`; below the last (of six) comes the first.
pub open spec fn menu_down(m: usize) -> usize {
    ((m + 1) % 6) as usize
}

/// The status a run is switched to: running to completed, completed to
/// stopped, stopped and failed to running.
pub open spec fn next_status(s: RunStatus) -> RunStatus {
    match s {
        RunStatus::Running => RunStatus::Completed,
        RunStatus::Completed => RunStatus::Stopped,
        RunStatus::Stopped => RunStatus::Running,
        RunStatus::Failed => RunStatus::Running,
    }
}

/// A text after one key of editing: a typed character is appended,
/// a backspace (`None`) removes the last character.
pub open spec fn edit_text(s: Seq<char>, typed: Option<char>) -> Seq<char> {
    match typed {
        Some(c) => s.push(c),
        None => drop_last_char(s),
    }
}

/// The dialog `n` is `d` with its active text field edited by one key;
/// with the GPU toggle active nothing changes.
pub open spec fn dialog_edited(d: RunDialogState, n: RunDialogState, typed: Option<char>) -> bool {
    &&& n.use_gpu == d.use_gpu
    &&& n.active_field == d.active_field
    &&& n.error_message == d.error_message
    &&& n.image@ == (if d.active_field == 0 { edit_text(d.image@, typed) } else { d.image@ })
    &&& n.command@ == (if d.active_field == 1 { edit_text(d.command@, typed) } else { d.command@ })
    &&& n.output_dir@ == (if d.active_field == 2 {
        edit_text(d.output_dir@, typed)
    } else {
        d.output_dir@
    })
}

/// `n` is `o` with only the status message changed, to `msg`.
pub open spec fn status_only(o: App, n: App, msg: Seq<char>) -> bool {
    n == (App { status_message: n.status_message, ..o }) && n.status_message@ == msg
}

/// The run under the dashboard cursor, if any.
pub open spec fn cursor_run(o: App) -> Option<Run> {
    if o.selected_run_index < o.visible().len() {
        Some(o.visible()[o.selected_run_index as int])
    } else {
        None
    }
}

/// The state after a key typed (`Some`) or a backspace (`None`) outside
/// the search: the run dialog's active field is edited when the dialog is
/// open, else the input buffer.
pub open spec fn typed_post(o: App, n: App, typed: Option<char>) -> bool {
    if o.input_mode == InputMode::RunDialog && o.run_dialog is Some {
        &&& n == (App { run_dialog: n.run_dialog, ..o })
        &&& n.run_dialog matches Some(nd) && dialog_edited(o.run_dialog->0, nd, typed)
    } else {
        &&& n == (App { input_buffer: n.input_buffer, ..o })
        &&& n.input_buffer@ == edit_text(o.input_buffer@, typed)
    }
}

/// What each action does to the state, and which outside work it asks for.
pub open spec fn step_post(o: App, n: App, action: Action, docker: bool, config: AppConfig, eff: Effect) -> bool {
    match action {
        Action::Quit => n == (App { should_quit: true, ..o }) && eff is StopAllContainers,
        Action::MoveUp => eff is Nothing && if o.input_mode == InputMode::TagList {
            n == (App {
                tag_list_selected: if o.tag_list_selected > 0 {
                    (o.tag_list_selected - 1) as usize
                } else {
                    0
                },
                ..o
            })
        } else if o.current_view == view::View::Menu {
            n == (App { menu_selected: menu_up(o.menu_selected), ..o })
        } else if o.current_view == view::View::RunDetail {
            n == (App {
                selected_metric_index: if o.current_metric_names@.len() == 0 {
                    o.selected_metric_index
                } else if o.selected_metric_index == 0 {
                    (o.current_metric_names@.len() - 1) as usize
                } else {
                    (o.selected_metric_index - 1) as usize
                },
                ..o
            })
        } else {
            n == (App {
                selected_run_index: if o.selected_run_index > 0 {
                    (o.selected_run_index - 1) as usize
                } else {
                    0
                },
                ..o
            })
        },
        Action::MoveDown => eff is Nothing && if o.input_mode == InputMode::TagList {
            n == (App {
                tag_list_selected: if o.tag_list_selected + 1 < o.current_tags@.len() {
                    (o.tag_list_selected + 1) as usize
                } else {
                    o.tag_list_selected
                },
                ..o
            })
        } else if o.current_view == view::View::Menu {
            n == (App { menu_selected: menu_down(o.menu_selected), ..o })
        } else if o.current_view == view::View::RunDetail {
            n == (App {
                selected_metric_index: if o.current_metric_names@.len() > 0 {
                    ((o.selected_metric_index + 1) % (o.current_metric_names@.len() as int)) as usize
                } else {
                    o.selected_metric_index
                },
                ..o
            })
        } else {
            n == (App {
                selected_run_index: if o.selected_run_index + 1 < o.visible().len() {
                    (o.selected_run_index + 1) as usize
                } else {
                    o.selected_run_index
                },
                ..o
            })
        },
        Action::Select => n == o && match cursor_run(o) {
            Some(r) => eff matches Effect::LoadRunDetail { run_id, name } && run_id == r.id && name
                == r.name,
            None => eff is Nothing,
        },
        Action::Back => eff is Nothing && n == (App {
            current_view: back_target(o.current_view, o.previous_view),
            previous_view: None,
            status_message: n.status_message,
            ..o
        }) && n.status_message@ == "Ready"@,
        Action::GoToDashboard => eff is Nothing && n == (App {
            current_view: view::View::Dashboard,
            previous_view: Some(o.current_view),
            status_message: n.status_message,
            ..o
        }) && n.status_message@ == "Ready"@,
        Action::GoToCompare => if o.compare_run_ids@.len() == 0 {
            eff is Nothing && status_only(o, n, "No runs selected. Press Space to mark runs first."@)
        } else {
            n == o && (eff matches Effect::LoadCompare { run_ids } && run_ids@ == o.compare_run_ids@)
        },
        Action::GoToGpuMonitor => eff is Nothing && n == (App {
            current_view: view::View::GpuMonitor,
            previous_view: Some(o.current_view),
            status_message: n.status_message,
            ..o
        }) && n.status_message@ == "GPU Monitor"@,
        Action::NextTab => eff is Nothing && n == (App {
            selected_tab: ((o.selected_tab + 1) % (o.tab_titles@.len() as int)) as usize,
            ..o
        }),
        Action::PrevTab => eff is Nothing && n == (App {
            selected_tab: if o.selected_tab == 0 {
                (o.tab_titles@.len() - 1) as usize
            } else {
                (o.selected_tab - 1) as usize
            },
            ..o
        }),
        Action::CycleMetric => eff is Nothing && {
            let idx = if o.current_metric_names@.len() > 0 {
                ((o.selected_metric_index + 1) % (o.current_metric_names@.len() as int)) as usize
            } else {
                o.selected_metric_index
            };
            &&& n == (App { selected_metric_index: idx, status_message: n.status_message, ..o })
            &&& n.status_message@ == (if idx < o.current_metric_names@.len() {
                "Metric: "@ + o.current_metric_names@[idx as int]@
            } else {
                o.status_message@
            })
        },
        Action::CycleCompareMetric => eff is Nothing && {
            let idx = if o.compare_metric_names@.len() > 0 {
                ((o.compare_selected_metric + 1) % (o.compare_metric_names@.len() as int)) as usize
            } else {
                o.compare_selected_metric
            };
            &&& n == (App { compare_selected_metric: idx, status_message: n.status_message, ..o })
            &&& n.status_message@ == (if idx < o.compare_metric_names@.len() {
                "Compare metric: "@ + o.compare_metric_names@[idx as int]@
            } else {
                o.status_message@
            })
        },
        Action::CycleDetailSubView => {
            &&& n == (App { detail_sub_view: next_sub_view(o.detail_sub_view), ..o })
            &&& if next_sub_view(o.detail_sub_view) == DetailSubView::Logs && o.current_run is Some {
                eff matches Effect::RefreshLogs { run_id } && run_id == o.current_run->0.id
            } else {
                eff is Nothing
            }
        },
        Action::EnterSearchMode => eff is Nothing && n == (App {
            input_mode: InputMode::Search,
            status_message: n.status_message,
            ..o
        }) && n.status_message@ == "Search: type to filter"@,
        Action::ExitSearchMode => eff is Nothing && n == (App {
            input_mode: InputMode::Normal,
            status_message: n.status_message,
            ..o
        }) && n.status_message@ == "Ready"@,
        Action::SearchInput(c) => eff is Nothing && searched(o, n, o.search_query@.push(c)),
        Action::SearchBackspace => eff is Nothing && searched(o, n, drop_last_char(o.search_query@)),
        Action::SearchClear => eff is Nothing && searched(o, n, seq![]),
        Action::DeleteRun => eff is Nothing && n == (App {
            input_mode: if cursor_run(o) is Some {
                InputMode::DeleteConfirm
            } else {
                o.input_mode
            },
            ..o
        }),
        Action::ConfirmDelete => n == (App { input_mode: InputMode::Normal, ..o }) && match cursor_run(o) {
            Some(r) => eff matches Effect::DeleteRun { run_id, name } && run_id == r.id && name == r.name,
            None => eff is Nothing,
        },
        Action::CancelDelete => eff is Nothing && n == (App {
            input_mode: InputMode::Normal,
            status_message: n.status_message,
            ..o
        }) && n.status_message@ == "Delete cancelled"@,
        Action::OpenTagList => eff is Nothing && n == (App {
            input_mode: InputMode::TagList,
            tag_list_selected: 0,
            ..o
        }),
        Action::OpenTagInput => eff is Nothing && n == (App {
            input_mode: InputMode::TagInput,
            input_buffer: n.input_buffer,
            ..o
        }) && n.input_buffer@.len() == 0,
        Action::RemoveSelectedTag => n == o && if o.current_run is Some && o.tag_list_selected
            < o.current_tags@.len() {
            eff matches Effect::RemoveTag { run_id, tag } && run_id == o.current_run->0.id && tag
                == o.current_tags@[o.tag_list_selected as int]
        } else {
            eff is Nothing
        },
        Action::OpenNotesEditor => eff is Nothing && n == (App {
            input_mode: InputMode::NotesInput,
            input_buffer: n.input_buffer,
            ..o
        }) && n.input_buffer@.len() == 0,
        Action::InputChar(c) => eff is Nothing && typed_post(o, n, Some(c)),
        Action::InputBackspace => eff is Nothing && typed_post(o, n, None),
        Action::InputConfirm => {
            &&& n == (App {
                input_mode: match o.input_mode {
                    InputMode::TagInput => InputMode::TagList,
                    _ => InputMode::Normal,
                },
                input_buffer: n.input_buffer,
                ..o
            })
            &&& (o.input_mode == InputMode::TagInput || o.input_mode == InputMode::NotesInput)
                ==> n.input_buffer@.len() == 0
            &&& !(o.input_mode == InputMode::TagInput || o.input_mode == InputMode::NotesInput)
                ==> n.input_buffer == o.input_buffer
            &&& if o.input_mode == InputMode::TagInput && o.input_buffer@.len() > 0
                && o.current_run is Some {
                eff matches Effect::AddTag { run_id, tag } && run_id == o.current_run->0.id && tag
                    == o.input_buffer
            } else if o.input_mode == InputMode::NotesInput && o.current_run is Some {
                eff matches Effect::SaveNotes { run_id, notes } && run_id == o.current_run->0.id
                    && notes == o.input_buffer
            } else {
                eff is Nothing
            }
        },
        Action::InputCancel => eff is Nothing && n == (App {
            input_mode: match o.input_mode {
                InputMode::TagInput => InputMode::TagList,
                _ => InputMode::Normal,
            },
            run_dialog: if o.input_mode == InputMode::RunDialog {
                None
            } else {
                o.run_dialog
            },
            input_buffer: n.input_buffer,
            status_message: n.status_message,
            ..o
        }) && n.input_buffer@.len() == 0 && n.status_message@ == "Cancelled"@,
        Action::ToggleCompareSelection => eff is Nothing && match cursor_run(o) {
            Some(r) => toggled(o, n, r.id),
            None => n == o,
        },
        Action::ToggleRunStatus => n == o && match o.current_run {
            Some(r) => eff matches Effect::SetRunStatus { run_id, status } && run_id == r.id && status
                == next_status(r.status),
            None => eff is Nothing,
        },
        Action::StopContainer => n == o && match o.current_run {
            Some(r) => eff matches Effect::StopContainer { run_id } && run_id == r.id,
            None => eff is Nothing,
        },
        Action::Refresh => n == o && eff is RefreshRuns,
        Action::ToggleHelp => eff is Nothing && if !o.show_help {
            n == (App {
                show_help: true,
                current_view: view::View::Help,
                previous_view: Some(o.current_view),
                ..o
            })
        } else {
            n == (App {
                show_help: false,
                current_view: back_target(o.current_view, o.previous_view),
                previous_view: None,
                ..o
            })
        },
        Action::OpenRunDialog => eff is Nothing && dialog_opened(o, n, docker, config),
        Action::ConfirmRunDialog => n == o && match o.run_dialog {
            Some(d) => eff matches Effect::StartRun(nd) && nd == d,
            None => eff is Nothing,
        },
        Action::RunDialogNextField => eff is Nothing && match o.run_dialog {
            Some(d) => n == (App {
                run_dialog: Some(RunDialogState { active_field: ((d.active_field + 1) % 4) as usize, ..d }),
                ..o
            }),
            None => n == o,
        },
        Action::RunDialogToggleGpu => eff is Nothing && match o.run_dialog {
            Some(d) => n == (App {
                run_dialog: Some(RunDialogState { use_gpu: !d.use_gpu, ..d }),
                ..o
            }),
            None => n == o,
        },
        Action::ExportMarkdown => n == o && export_effect(o, eff, ExportFormat::Markdown),
        Action::ExportCsv => n == o && export_effect(o, eff, ExportFormat::Csv),
        Action::ExportLatex => n == o && export_effect(o, eff, ExportFormat::Latex),
        Action::MenuSelect(i) => menu_selected_post(o, n, i, docker, config, eff),
        Action::SplashDismiss => eff is Nothing && n == (App { current_view: view::View::Menu, ..o }),
        _ => n == o && eff is Nothing,
    }
}

/// After a search edit to `q`: the search text is `q`, its matches are
/// listed from the first.
pub open spec fn searched(o: App, n: App, q: Seq<char>) -> bool {
    &&& n == (App {
        search_query: n.search_query,
        filtered_runs: n.filtered_runs,
        selected_run_index: 0,
        ..o
    })
    &&& n.search_query@ == q
    &&& n.filtered_runs@ == crate::control::state::filter_runs(o.runs@, q)
}

/// After toggling run `id` for comparison (see `toggled_ids`), with the
/// status message that `App::toggle_compare` sets.
pub open spec fn toggled(o: App, n: App, id: i64) -> bool {
    &&& n == (App {
        compare_run_ids: n.compare_run_ids,
        status_message: n.status_message,
        ..o
    })
    &&& n.compare_run_ids@ == crate::control::state::toggled_ids(o.compare_run_ids@, id)
    &&& n.status_message@ == (if !o.compare_run_ids@.contains(id) && o.compare_run_ids@.len() >= 5 {
        "Maximum 5 runs for comparison"@
    } else {
        crate::text::nat_digits(crate::control::state::toggled_ids(o.compare_run_ids@, id).len())
            + " run(s) selected for comparison"@
    })
}

/// With Docker available the run dialog opens (see `App::open_run_dialog`);
/// else the status says "Docker not available".
pub open spec fn dialog_opened(o: App, n: App, docker: bool, config: AppConfig) -> bool {
    if docker {
        &&& n == (App { input_mode: InputMode::RunDialog, run_dialog: n.run_dialog, ..o })
        &&& n.run_dialog matches Some(d) && d.image@ == dialog_image(config) && d.use_gpu
            == dialog_gpu(config) && d.command@ == "python train.py"@ && d.output_dir@
            == run_dir_text((o.runs@.len() + 1) as nat) && d.active_field == 1
            && d.error_message@.len() == 0
    } else {
        status_only(o, n, "Docker not available"@)
    }
}

/// Exports are asked for from the run detail (of the run) and from the
/// comparison view (of the comparison); elsewhere nothing happens.
pub open spec fn export_effect(o: App, eff: Effect, f: ExportFormat) -> bool {
    if o.current_view == view::View::RunDetail {
        eff == Effect::ExportRun(f)
    } else if o.current_view == view::View::Compare {
        eff == Effect::ExportCompare(f)
    } else {
        eff is Nothing
    }
}

/// Picking menu item `i` (the cursor moves to it): 0 shows the dashboard,
/// 1 opens the run dialog (or says Docker is not available), 2 shows the
/// GPU monitor, 3 asks for the comparison's data (or says no runs are
/// marked), 4 shows the settings, 5 quits. Other numbers do nothing.
pub open spec fn menu_selected_post(o: App, n: App, i: usize, docker: bool, config: AppConfig, eff: Effect) -> bool {
    let m = App { menu_selected: i, ..o };
    if i == 0 {
        eff is Nothing && n == (App { current_view: view::View::Dashboard, previous_view: Some(o.current_view), ..m })
    } else if i == 1 {
        eff is Nothing && dialog_opened(m, n, docker, config)
    } else if i == 2 {
        eff is Nothing && n == (App { current_view: view::View::GpuMonitor, previous_view: Some(o.current_view), ..m })
    } else if i == 3 {
        if o.compare_run_ids@.len() == 0 {
            eff is Nothing && status_only(m, n, "No runs selected. Go to Dashboard and press Space to mark runs."@)
        } else {
            n == m && (eff matches Effect::LoadCompare { run_ids } && run_ids@ == o.compare_run_ids@)
        }
    } else if i == 4 {
        eff is Nothing && n == (App { current_view: view::View::Settings, previous_view: Some(o.current_view), ..m })
    } else if i == 5 {
        eff is Nothing && n == (App { should_quit: true, ..m })
    } else {
        eff is Nothing && n == o
    }
}


/// A copy of a list of ids.
pub fn copy_ids(v: &Vec<i64>) -> (r: Vec<i64>)
    ensures
        r@ == v@,
{
    let mut r: Vec<i64> = Vec::new();
    let mut i: usize = 0;
    while i < v.len()
        invariant
            i <= v@.len(),
            r@ == v@.take(i as int),
        decreases v@.len() - i,
    {
        r.push(v[i]);
        i = i + 1;
        assert(r@ == v@.take(i as int));
    }
    assert(v@.take(v@.len() as int) == v@);
    r
}

/// Carries out an action on the state and says which outside work it
/// needs (see `step_post`). `docker_available` tells whether Docker was
/// found; `config` supplies the run dialog's defaults.
pub fn execute_action(app: &mut App, action: Action, docker_available: bool, config: &AppConfig) -> (eff: Effect)
    requires
        old(app).wf(),
    ensures
        final(app).wf(),
        step_post(*old(app), *final(app), action, docker_available, *config, eff),
{
    match action {
        Action::Quit | Action::MoveUp | Action::MoveDown | Action::Select | Action::Back | Action::GoToDashboard | Action::GoToCompare | Action::GoToGpuMonitor | Action::NextTab | Action::PrevTab | Action::CycleMetric | Action::CycleCompareMetric | Action::CycleDetailSubView | Action::ToggleHelp | Action::MenuSelect(_) | Action::SplashDismiss => act_nav(app, action, docker_available, config),
        Action::EnterSearchMode | Action::ExitSearchMode | Action::SearchInput(_) | Action::SearchBackspace | Action::SearchClear => act_search(app, action, docker_available, config),
        Action::DeleteRun | Action::ConfirmDelete | Action::CancelDelete | Action::OpenTagList | Action::OpenTagInput | Action::RemoveSelectedTag | Action::OpenNotesEditor | Action::InputChar(_) | Action::InputBackspace | Action::InputConfirm | Action::InputCancel | Action::ToggleCompareSelection => act_edit(app, action, docker_available, config),
        Action::ToggleRunStatus | Action::StopContainer | Action::Refresh | Action::OpenRunDialog | Action::ConfirmRunDialog | Action::RunDialogNextField | Action::RunDialogToggleGpu | Action::ExportMarkdown | Action::ExportCsv | Action::ExportLatex => act_run(app, action, docker_available, config),
        _ => Effect::Nothing,
    }
}

/// Navigation between views, lists and menu items.
fn act_nav(app: &mut App, action: Action, docker_available: bool, config: &AppConfig) -> (eff: Effect)
    requires
        old(app).wf(),
        matches!(action, Action::Quit | Action::MoveUp | Action::MoveDown | Action::Select | Action::Back | Action::GoToDashboard | Action::GoToCompare | Action::GoToGpuMonitor | Action::NextTab | Action::PrevTab | Action::CycleMetric | Action::CycleCompareMetric | Action::CycleDetailSubView | Action::ToggleHelp | Action::MenuSelect(_) | Action::SplashDismiss),
    ensures
        final(app).wf(),
        step_post(*old(app), *final(app), action, docker_available, *config, eff),
{
    match action {
        Action::Quit => {
            app.should_quit = true;
            Effect::StopAllContainers
        },
        Action::MoveUp => app.act_move_up(),
        Action::MoveDown => app.act_move_down(),
        Action::Select => match app.selected_run() {
            Some(r) => Effect::LoadRunDetail { run_id: r.id, name: r.name.clone() },
            None => Effect::Nothing,
        },
        Action::Back => {
            app.go_back();
            app.set_status(owned("Ready"));
            Effect::Nothing
        },
        Action::GoToDashboard => {
            app.navigate_to(view::View::Dashboard);
            app.set_status(owned("Ready"));
            Effect::Nothing
        },
        Action::GoToCompare => {
            if app.compare_run_ids.len() == 0 {
                app.set_status(owned("No runs selected. Press Space to mark runs first."));
                Effect::Nothing
            } else {
                Effect::LoadCompare { run_ids: copy_ids(&app.compare_run_ids) }
            }
        },
        Action::GoToGpuMonitor => {
            app.navigate_to(view::View::GpuMonitor);
            app.set_status(owned("GPU Monitor"));
            Effect::Nothing
        },
        Action::NextTab => {
            let n = app.tab_titles.len();
            app.selected_tab = (app.selected_tab + 1) % n;
            Effect::Nothing
        },
        Action::PrevTab => {
            app.selected_tab = if app.selected_tab == 0 {
                app.tab_titles.len() - 1
            } else {
                app.selected_tab - 1
            };
            Effect::Nothing
        },
        Action::CycleMetric => app.act_cycle_metric(),
        Action::CycleCompareMetric => app.act_cycle_compare_metric(),
        Action::CycleDetailSubView => {
            app.cycle_detail_sub_view();
            if app.detail_sub_view == DetailSubView::Logs {
                match &app.current_run {
                    Some(r) => Effect::RefreshLogs { run_id: r.id },
                    None => Effect::Nothing,
                }
            } else {
                Effect::Nothing
            }
        },
        Action::ToggleHelp => {
            app.show_help = !app.show_help;
            if app.show_help {
                app.navigate_to(view::View::Help);
            } else {
                app.go_back();
            }
            Effect::Nothing
        },
        Action::MenuSelect(i) => app.act_menu_select(i, docker_available, config),
        Action::SplashDismiss => {
            app.current_view = view::View::Menu;
            Effect::Nothing
        },

        _ => Effect::Nothing,
    }
}

/// Editing the search.
fn act_search(app: &mut App, action: Action, docker_available: bool, config: &AppConfig) -> (eff: Effect)
    requires
        old(app).wf(),
        matches!(action, Action::EnterSearchMode | Action::ExitSearchMode | Action::SearchInput(_) | Action::SearchBackspace | Action::SearchClear),
    ensures
        final(app).wf(),
        step_post(*old(app), *final(app), action, docker_available, *config, eff),
{
    match action {
        Action::EnterSearchMode => {
            app.input_mode = InputMode::Search;
            app.set_status(owned("Search: type to filter"));
            Effect::Nothing
        },
        Action::ExitSearchMode => {
            app.input_mode = InputMode::Normal;
            app.set_status(owned("Ready"));
            Effect::Nothing
        },
        Action::SearchInput(c) => {
            let mut q = app.search_query.clone();
            push_char(&mut q, c);
            app.update_search(q);
            Effect::Nothing
        },
        Action::SearchBackspace => {
            let mut q = app.search_query.clone();
            pop_char(&mut q);
            app.update_search(q);
            Effect::Nothing
        },
        Action::SearchClear => {
            app.update_search(String::new());
            Effect::Nothing
        },
        _ => Effect::Nothing,
    }
}

/// Deleting runs, tags, notes and the marks for comparison.
fn act_edit(app: &mut App, action: Action, docker_available: bool, config: &AppConfig) -> (eff: Effect)
    requires
        old(app).wf(),
        matches!(action, Action::DeleteRun | Action::ConfirmDelete | Action::CancelDelete | Action::OpenTagList | Action::OpenTagInput | Action::RemoveSelectedTag | Action::OpenNotesEditor | Action::InputChar(_) | Action::InputBackspace | Action::InputConfirm | Action::InputCancel | Action::ToggleCompareSelection),
    ensures
        final(app).wf(),
        step_post(*old(app), *final(app), action, docker_available, *config, eff),
{
    match action {
        Action::DeleteRun => {
            if app.selected_run().is_some() {
                app.input_mode = InputMode::DeleteConfirm;
            }
            Effect::Nothing
        },
        Action::ConfirmDelete => {
            let eff = match app.selected_run() {
                Some(r) => Effect::DeleteRun { run_id: r.id, name: r.name.clone() },
                None => Effect::Nothing,
            };
            app.input_mode = InputMode::Normal;
            eff
        },
        Action::CancelDelete => {
            app.input_mode = InputMode::Normal;
            app.set_status(owned("Delete cancelled"));
            Effect::Nothing
        },
        Action::OpenTagList => {
            app.input_mode = InputMode::TagList;
            app.tag_list_selected = 0;
            Effect::Nothing
        },
        Action::OpenTagInput => {
            app.input_buffer = String::new();
            app.input_mode = InputMode::TagInput;
            Effect::Nothing
        },
        Action::RemoveSelectedTag => match &app.current_run {
            Some(r) => if app.tag_list_selected < app.current_tags.len() {
                Effect::RemoveTag { run_id: r.id, tag: app.current_tags[app.tag_list_selected].clone() }
            } else {
                Effect::Nothing
            },
            None => Effect::Nothing,
        },
        Action::OpenNotesEditor => {
            app.input_buffer = String::new();
            app.input_mode = InputMode::NotesInput;
            Effect::Nothing
        },
        Action::InputChar(c) => {
            app.act_type(Some(c));
            Effect::Nothing
        },
        Action::InputBackspace => {
            app.act_type(None);
            Effect::Nothing
        },
        Action::InputConfirm => app.act_input_confirm(),
        Action::InputCancel => {
            let was_dialog = app.input_mode == InputMode::RunDialog;
            app.input_buffer = String::new();
            app.input_mode = match app.input_mode {
                InputMode::TagInput => InputMode::TagList,
                _ => InputMode::Normal,
            };
            if was_dialog {
                app.run_dialog = None;
            }
            app.set_status(owned("Cancelled"));
            Effect::Nothing
        },
        Action::ToggleCompareSelection => {
            let id = match app.selected_run() {
                Some(r) => Some(r.id),
                None => None,
            };
            match id {
                Some(id) => app.toggle_compare(id),
                None => {},
            }
            Effect::Nothing
        },
        _ => Effect::Nothing,
    }
}

/// Run status, containers, the run dialog, refreshing and exports.
fn act_run(app: &mut App, action: Action, docker_available: bool, config: &AppConfig) -> (eff: Effect)
    requires
        old(app).wf(),
        matches!(action, Action::ToggleRunStatus | Action::StopContainer | Action::Refresh | Action::OpenRunDialog | Action::ConfirmRunDialog | Action::RunDialogNextField | Action::RunDialogToggleGpu | Action::ExportMarkdown | Action::ExportCsv | Action::ExportLatex),
    ensures
        final(app).wf(),
        step_post(*old(app), *final(app), action, docker_available, *config, eff),
{
    match action {
        Action::ToggleRunStatus => match &app.current_run {
            Some(r) => {
                let status = match r.status {
                    RunStatus::Running => RunStatus::Completed,
                    RunStatus::Completed => RunStatus::Stopped,
                    RunStatus::Stopped => RunStatus::Running,
                    RunStatus::Failed => RunStatus::Running,
                };
                Effect::SetRunStatus { run_id: r.id, status }
            },
            None => Effect::Nothing,
        },
        Action::StopContainer => match &app.current_run {
            Some(r) => Effect::StopContainer { run_id: r.id },
            None => Effect::Nothing,
        },
        Action::Refresh => Effect::RefreshRuns,
        Action::OpenRunDialog => {
            if docker_available {
                app.open_run_dialog(config);
            } else {
                app.set_status(owned("Docker not available"));
            }
            Effect::Nothing
        },
        Action::ConfirmRunDialog => match &app.run_dialog {
            Some(d) => Effect::StartRun(d.duplicate()),
            None => Effect::Nothing,
        },
        Action::RunDialogNextField => {
            match app.run_dialog.take() {
                Some(mut d) => {
                    d.next_field();
                    app.run_dialog = Some(d);
                },
                None => {},
            }
            Effect::Nothing
        },
        Action::RunDialogToggleGpu => {
            match app.run_dialog.take() {
                Some(mut d) => {
                    d.toggle_gpu();
                    app.run_dialog = Some(d);
                },
                None => {},
            }
            Effect::Nothing
        },
        Action::ExportMarkdown => app.act_export(ExportFormat::Markdown),
        Action::ExportCsv => app.act_export(ExportFormat::Csv),
        Action::ExportLatex => app.act_export(ExportFormat::Latex),
        _ => Effect::Nothing,
    }
}

impl App {
    fn act_move_up(&mut self) -> (eff: Effect)
        requires
            old(self).wf(),
        ensures
            final(self).wf(),
            step_post(*old(self), *final(self), Action::MoveUp, false, arbitrary(), eff),
    {
        if self.input_mode == InputMode::TagList {
            if self.tag_list_selected > 0 {
                self.tag_list_selected = self.tag_list_selected - 1;
            }
        } else if self.current_view == view::View::Menu {
            self.menu_selected = if self.menu_selected == 0 {
                5
            } else {
                self.menu_selected - 1
            };
        } else if self.current_view == view::View::RunDetail {
            self.cycle_metric_back();
        } else {
            self.move_up();
        }
        Effect::Nothing
    }

    fn act_move_down(&mut self) -> (eff: Effect)
        requires
            old(self).wf(),
        ensures
            final(self).wf(),
            step_post(*old(self), *final(self), Action::MoveDown, false, arbitrary(), eff),
    {
        if self.input_mode == InputMode::TagList {
            let len = self.current_tags.len();
            if len > 0 && self.tag_list_selected < len - 1 {
                self.tag_list_selected = self.tag_list_selected + 1;
            }
        } else if self.current_view == view::View::Menu {
            self.menu_selected = (self.menu_selected + 1) % 6;
        } else if self.current_view == view::View::RunDetail {
            self.cycle_metric();
        } else {
            self.move_down();
        }
        Effect::Nothing
    }

    fn act_cycle_metric(&mut self) -> (eff: Effect)
        requires
            old(self).wf(),
        ensures
            final(self).wf(),
            step_post(*old(self), *final(self), Action::CycleMetric, false, arbitrary(), eff),
    {
        self.cycle_metric();
        let i = self.selected_metric_index;
        if i < self.current_metric_names.len() {
            let mut msg = owned("Metric: ");
            push_str(&mut msg, self.current_metric_names[i].as_str());
            self.set_status(msg);
        }
        Effect::Nothing
    }

    fn act_cycle_compare_metric(&mut self) -> (eff: Effect)
        requires
            old(self).wf(),
        ensures
            final(self).wf(),
            step_post(*old(self), *final(self), Action::CycleCompareMetric, false, arbitrary(), eff),
    {
        self.cycle_compare_metric();
        let i = self.compare_selected_metric;
        if i < self.compare_metric_names.len() {
            let mut msg = owned("Compare metric: ");
            push_str(&mut msg, self.compare_metric_names[i].as_str());
            self.set_status(msg);
        }
        Effect::Nothing
    }

    fn act_type(&mut self, typed: Option<char>)
        requires
            old(self).wf(),
        ensures
            final(self).wf(),
            typed_post(*old(self), *final(self), typed),
    {
        if self.input_mode == InputMode::RunDialog && self.run_dialog.is_some() {
            let mut d = self.run_dialog.take().unwrap();
            let ghost od = d;
            match d.active_value_mut() {
                Some(v) => match typed {
                    Some(c) => push_char(v, c),
                    None => pop_char(v),
                },
                None => {},
            }
            assert(dialog_edited(od, d, typed));
            self.run_dialog = Some(d);
        } else {
            match typed {
                Some(c) => push_char(&mut self.input_buffer, c),
                None => pop_char(&mut self.input_buffer),
            }
        }
    }

    fn act_input_confirm(&mut self) -> (eff: Effect)
        requires
            old(self).wf(),
        ensures
            final(self).wf(),
            step_post(*old(self), *final(self), Action::InputConfirm, false, arbitrary(), eff),
    {
        match self.input_mode {
            InputMode::TagInput => {
                let eff = if !self.input_buffer.as_str().is_empty() {
                    match &self.current_run {
                        Some(r) => Effect::AddTag { run_id: r.id, tag: self.input_buffer.clone() },
                        None => Effect::Nothing,
                    }
                } else {
                    Effect::Nothing
                };
                self.input_buffer = String::new();
                self.input_mode = InputMode::TagList;
                eff
            },
            InputMode::NotesInput => {
                let eff = match &self.current_run {
                    Some(r) => Effect::SaveNotes { run_id: r.id, notes: self.input_buffer.clone() },
                    None => Effect::Nothing,
                };
                self.input_buffer = String::new();
                self.input_mode = InputMode::Normal;
                eff
            },
            _ => {
                self.input_mode = InputMode::Normal;
                Effect::Nothing
            },
        }
    }

    fn act_export(&mut self, f: ExportFormat) -> (eff: Effect)
        ensures
            *final(self) == *old(self),
            export_effect(*old(self), eff, f),
    {
        if self.current_view == view::View::RunDetail {
            Effect::ExportRun(f)
        } else if self.current_view == view::View::Compare {
            Effect::ExportCompare(f)
        } else {
            Effect::Nothing
        }
    }

    fn act_menu_select(&mut self, i: usize, docker_available: bool, config: &AppConfig) -> (eff: Effect)
        requires
            old(self).wf(),
        ensures
            final(self).wf(),
            menu_selected_post(*old(self), *final(self), i, docker_available, *config, eff),
    {
        if i >= 6 {
            return Effect::Nothing;
        }
        let from = self.current_view;
        self.menu_selected = i;
        if i == 0 {
            self.navigate_to(view::View::Dashboard);
            Effect::Nothing
        } else if i == 1 {
            if docker_available {
                self.open_run_dialog(config);
            } else {
                self.set_status(owned("Docker not available"));
            }
            Effect::Nothing
        } else if i == 2 {
            self.navigate_to(view::View::GpuMonitor);
            Effect::Nothing
        } else if i == 3 {
            if self.compare_run_ids.len() == 0 {
                self.set_status(owned("No runs selected. Go to Dashboard and press Space to mark runs."));
                Effect::Nothing
            } else {
                Effect::LoadCompare { run_ids: copy_ids(&self.compare_run_ids) }
            }
        } else if i == 4 {
            self.navigate_to(view::View::Settings);
            Effect::Nothing
        } else {
            self.should_quit = true;
            Effect::Nothing
        }
    }
}


/// How stopping a run's container went.
#[derive(Debug, Clone)]
pub enum StopOutcome {
    NoDocker,
    NotRunning,
    Stopped(Option<RunDetail>),
    Failed,
}

/// The tags without `tag`, in their order.
pub open spec fn without_tag(s: Seq<Seq<char>>, tag: Seq<char>) -> Seq<Seq<char>>
    decreases s.len(),
{
    if s.len() == 0 {
        seq![]
    } else if s.last() == tag {
        without_tag(s.drop_last(), tag)
    } else {
        without_tag(s.drop_last(), tag).push(s.last())
    }
}

/// The first `n` characters of a text (all of it when shorter).
pub open spec fn char_prefix(s: Seq<char>, n: int) -> Seq<char> {
    if s.len() <= n {
        s
    } else {
        s.take(n)
    }
}

impl App {
    /// Completes `Effect::LoadRunDetail`: with the details read, the run
    /// detail view shows them and the status says "Viewing: <name>"; when
    /// they could not be read the status says so.
    pub fn finish_select(&mut self, name: &str, detail: Option<RunDetail>)
        requires
            old(self).wf(),
        ensures
            final(self).wf(),
            match detail {
                Some(d) => *final(self) == (App {
                    current_run: Some(d.run),
                    current_metrics: d.metrics,
                    current_metric_names: d.metric_names,
                    current_latest_metrics: d.latest_metrics,
                    current_hyperparams: d.hyperparams,
                    current_tags: d.tags,
                    selected_metric_index: 0,
                    detail_sub_view: DetailSubView::Chart,
                    current_view: view::View::RunDetail,
                    previous_view: Some(old(self).current_view),
                    status_message: final(self).status_message,
                    ..*old(self)
                }) && final(self).status_message@ == "Viewing: "@ + name@,
                None => status_only(*old(self), *final(self), "Failed to load run details"@),
            },
    {
        match detail {
            Some(d) => {
                self.load_run_detail(d);
                self.navigate_to(view::View::RunDetail);
                let mut msg = owned("Viewing: ");
                push_str(&mut msg, name);
                self.set_status(msg);
            },
            None => {
                self.set_status(owned("Failed to load run details"));
            },
        }
    }

    /// Completes `Effect::LoadCompare`: with the runs' names and metrics
    /// read, the comparison view shows them and the status says
    /// "Comparing <n> runs"; when they could not be read the comparison is
    /// left empty.
    pub fn finish_compare(&mut self, data: Option<Vec<(String, Vec<Metric>)>>)
        requires
            old(self).wf(),
        ensures
            final(self).wf(),
            match data {
                Some(d) => *final(self) == (App {
                    compare_data: d,
                    compare_metric_names: final(self).compare_metric_names,
                    compare_selected_metric: 0,
                    current_view: view::View::Compare,
                    previous_view: Some(old(self).current_view),
                    status_message: final(self).status_message,
                    ..*old(self)
                }) && views(final(self).compare_metric_names@) == compare_names(d@)
                    && final(self).status_message@ == "Comparing "@ + nat_digits(
                    old(self).compare_run_ids@.len(),
                ) + " runs"@,
                None => *final(self) == (App {
                    compare_data: final(self).compare_data,
                    compare_metric_names: final(self).compare_metric_names,
                    compare_selected_metric: 0,
                    ..*old(self)
                }) && final(self).compare_data@.len() == 0 && final(self).compare_metric_names@.len()
                    == 0,
            },
    {
        match data {
            Some(d) => {
                self.load_compare_data(d);
                self.navigate_to(view::View::Compare);
                let mut msg = owned("Comparing ");
                push_u64(&mut msg, self.compare_run_ids.len() as u64);
                push_str(&mut msg, " runs");
                self.set_status(msg);
            },
            None => {
                self.compare_data = Vec::new();
                self.compare_metric_names = Vec::new();
                self.compare_selected_metric = 0;
            },
        }
    }

    /// Completes `Effect::DeleteRun`: once the run is deleted it is no
    /// longer marked for comparison, the runs are replaced by the list read
    /// afterwards (when it could be read) and the status says
    /// "Deleted: <name>"; nothing changes when the deletion failed.
    pub fn finish_delete(&mut self, run_id: i64, name: &str, deleted: bool, runs: Option<Vec<Run>>)
        requires
            old(self).wf(),
            runs matches Some(rs) ==> rs@.len() < usize::MAX,
        ensures
            final(self).wf(),
            !deleted ==> *final(self) == *old(self),
            deleted ==> *final(self) == (App {
                compare_run_ids: final(self).compare_run_ids,
                runs: final(self).runs,
                filtered_runs: final(self).filtered_runs,
                selected_run_index: final(self).selected_run_index,
                status_message: final(self).status_message,
                ..*old(self)
            }) && final(self).compare_run_ids@ == without_id(old(self).compare_run_ids@, run_id)
                && final(self).status_message@ == "Deleted: "@ + name@ && match runs {
                Some(rs) => final(self).runs@ == rs@ && final(self).filtered_runs@ == filter_runs(
                    rs@,
                    old(self).search_query@,
                ) && final(self).selected_run_index == clamp_index(
                    old(self).selected_run_index,
                    final(self).visible().len() as int,
                ),
                None => final(self).runs == old(self).runs && final(self).filtered_runs
                    == old(self).filtered_runs && final(self).selected_run_index
                    == old(self).selected_run_index,
            },
    {
        if !deleted {
            return;
        }
        let ghost before = self.compare_run_ids@;
        let mut kept: Vec<i64> = Vec::new();
        let mut i: usize = 0;
        while i < self.compare_run_ids.len()
            invariant
                i <= before.len(),
                self.compare_run_ids@ == before,
                kept@ == without_id(before.take(i as int), run_id),
            decreases before.len() - i,
        {
            assert(before.take(i + 1).drop_last() == before.take(i as int));
            let x = self.compare_run_ids[i];
            if x != run_id {
                kept.push(x);
            }
            i = i + 1;
        }
        assert(before.take(before.len() as int) == before);
        proof {
            crate::control::state::lemma_without_id_distinct(before, run_id);
        }
        self.compare_run_ids = kept;
        match runs {
            Some(rs) => self.refresh_runs(rs),
            None => {},
        }
        let mut msg = owned("Deleted: ");
        push_str(&mut msg, name);
        self.set_status(msg);
    }

    /// Completes `Effect::AddTag`: once the tag is stored it joins the
    /// run's tags, which are kept sorted, and the status says
    /// "Added tag: <tag>"; nothing changes when storing failed.
    pub fn finish_add_tag(&mut self, tag: String, added: bool)
        requires
            old(self).wf(),
        ensures
            final(self).wf(),
            !added ==> *final(self) == *old(self),
            added ==> *final(self) == (App {
                current_tags: final(self).current_tags,
                status_message: final(self).status_message,
                ..*old(self)
            }) && views(final(self).current_tags@) == sort_texts(
                views(old(self).current_tags@).push(tag@),
            ) && final(self).status_message@ == "Added tag: "@ + tag@,
    {
        if added {
            let mut msg = owned("Added tag: ");
            push_str(&mut msg, tag.as_str());
            let ghost t = tag@;
            let mut tags = copy_texts(&self.current_tags);
            tags.push(tag);
            assert(views(tags@) == views(old(self).current_tags@).push(t));
            self.current_tags = sorted_texts(&tags);
            self.set_status(msg);
        }
    }
}

impl App {
    /// Completes `Effect::RemoveTag`: once the tag is removed it leaves the
    /// run's tags, the tag list cursor stays in range, and the status says
    /// "Removed tag: <tag>"; nothing changes when removing failed.
    pub fn finish_remove_tag(&mut self, tag: &str, removed: bool)
        requires
            old(self).wf(),
        ensures
            final(self).wf(),
            !removed ==> *final(self) == *old(self),
            removed ==> *final(self) == (App {
                current_tags: final(self).current_tags,
                tag_list_selected: final(self).tag_list_selected,
                status_message: final(self).status_message,
                ..*old(self)
            }) && views(final(self).current_tags@) == without_tag(views(old(self).current_tags@), tag@)
                && final(self).tag_list_selected == (if old(self).tag_list_selected > 0
                && old(self).tag_list_selected >= final(self).current_tags@.len() {
                clamp_index(old(self).tag_list_selected, final(self).current_tags@.len() as int)
            } else {
                old(self).tag_list_selected
            }) && final(self).status_message@ == "Removed tag: "@ + tag@,
    {
        if !removed {
            return;
        }
        let ghost before = views(self.current_tags@);
        let mut kept: Vec<String> = Vec::new();
        let mut i: usize = 0;
        while i < self.current_tags.len()
            invariant
                i <= self.current_tags@.len(),
                before == views(self.current_tags@),
                views(kept@) == without_tag(before.take(i as int), tag@),
            decreases self.current_tags@.len() - i,
        {
            assert(before.take(i + 1).drop_last() == before.take(i as int));
            if !crate::text::str_eq(self.current_tags[i].as_str(), tag) {
                kept.push(self.current_tags[i].clone());
                assert(views(kept@) == views(kept@.drop_last()).push(kept@.last()@));
            }
            i = i + 1;
        }
        assert(before.take(before.len() as int) == before);
        self.current_tags = kept;
        let len = self.current_tags.len();
        if self.tag_list_selected > 0 && self.tag_list_selected >= len {
            self.tag_list_selected = if len > 0 {
                len - 1
            } else {
                0
            };
        }
        let mut msg = owned("Removed tag: ");
        push_str(&mut msg, tag);
        self.set_status(msg);
    }

    /// Completes `Effect::SaveNotes`: once the notes are stored the shown
    /// run holds them and the status says "Notes saved"; nothing changes
    /// when storing failed.
    pub fn finish_save_notes(&mut self, notes: String, saved: bool)
        requires
            old(self).wf(),
        ensures
            final(self).wf(),
            !saved ==> *final(self) == *old(self),
            saved ==> *final(self) == (App {
                current_run: match old(self).current_run {
                    Some(r) => Some(Run { notes, ..r }),
                    None => None,
                },
                status_message: final(self).status_message,
                ..*old(self)
            }) && final(self).status_message@ == "Notes saved"@,
    {
        if saved {
            match self.current_run.take() {
                Some(r) => {
                    self.current_run = Some(Run { notes, ..r });
                },
                None => {},
            }
            self.set_status(owned("Notes saved"));
        }
    }

    /// Completes `Effect::SetRunStatus`: once the status is stored the run
    /// detail is shown again as read afterwards (when it could be read) and
    /// the status bar says "Status -> <status>"; nothing changes when
    /// storing failed.
    pub fn finish_status_change(&mut self, status: RunStatus, updated: bool, detail: Option<RunDetail>)
        requires
            old(self).wf(),
        ensures
            final(self).wf(),
            !updated ==> *final(self) == *old(self),
            updated ==> (match detail {
                Some(d) => *final(self) == (App {
                    current_run: Some(d.run),
                    current_metrics: d.metrics,
                    current_metric_names: d.metric_names,
                    current_latest_metrics: d.latest_metrics,
                    current_hyperparams: d.hyperparams,
                    current_tags: d.tags,
                    selected_metric_index: 0,
                    detail_sub_view: DetailSubView::Chart,
                    status_message: final(self).status_message,
                    ..*old(self)
                }),
                None => *final(self) == (App { status_message: final(self).status_message, ..*old(self) }),
            }) && final(self).status_message@ == "Status -> "@ + status_text(status),
    {
        if updated {
            match detail {
                Some(d) => self.load_run_detail(d),
                None => {},
            }
            let mut msg = owned("Status -> ");
            push_str(&mut msg, status.as_str());
            self.set_status(msg);
        }
    }

    /// Completes `Effect::StopContainer`: without Docker nothing changes;
    /// when the run has no running container the status says so; once the
    /// container is stopped (and the run marked stopped) the run detail is
    /// shown again as read afterwards and the status says "Container
    /// stopped"; a failed stop changes nothing.
    pub fn finish_stop_container(&mut self, outcome: StopOutcome)
        requires
            old(self).wf(),
        ensures
            final(self).wf(),
            match outcome {
                StopOutcome::NoDocker | StopOutcome::Failed => *final(self) == *old(self),
                StopOutcome::NotRunning => status_only(
                    *old(self),
                    *final(self),
                    "No running container for this run"@,
                ),
                StopOutcome::Stopped(detail) => (match detail {
                    Some(d) => *final(self) == (App {
                        current_run: Some(d.run),
                        current_metrics: d.metrics,
                        current_metric_names: d.metric_names,
                        current_latest_metrics: d.latest_metrics,
                        current_hyperparams: d.hyperparams,
                        current_tags: d.tags,
                        selected_metric_index: 0,
                        detail_sub_view: DetailSubView::Chart,
                        status_message: final(self).status_message,
                        ..*old(self)
                    }),
                    None => *final(self) == (App {
                        status_message: final(self).status_message,
                        ..*old(self)
                    }),
                }) && final(self).status_message@ == "Container stopped"@,
            },
    {
        match outcome {
            StopOutcome::NotRunning => self.set_status(owned("No running container for this run")),
            StopOutcome::Stopped(detail) => {
                match detail {
                    Some(d) => self.load_run_detail(d),
                    None => {},
                }
                self.set_status(owned("Container stopped"));
            },
            _ => {},
        }
    }

    /// Completes `Effect::RefreshRuns`: with the runs read, they replace
    /// the list (see `refresh_runs`) and the status says "Refreshed";
    /// nothing changes when they could not be read.
    pub fn finish_refresh(&mut self, runs: Option<Vec<Run>>)
        requires
            old(self).wf(),
            runs matches Some(rs) ==> rs@.len() < usize::MAX,
        ensures
            final(self).wf(),
            match runs {
                Some(rs) => *final(self) == (App {
                    runs: final(self).runs,
                    filtered_runs: final(self).filtered_runs,
                    selected_run_index: final(self).selected_run_index,
                    status_message: final(self).status_message,
                    ..*old(self)
                }) && final(self).runs@ == rs@ && final(self).filtered_runs@ == filter_runs(
                    rs@,
                    old(self).search_query@,
                ) && final(self).selected_run_index == clamp_index(
                    old(self).selected_run_index,
                    final(self).visible().len() as int,
                ) && final(self).status_message@ == "Refreshed"@,
                None => *final(self) == *old(self),
            },
    {
        match runs {
            Some(rs) => {
                self.refresh_runs(rs);
                self.set_status(owned("Refreshed"));
            },
            None => {},
        }
    }

    /// Completes `Effect::ExportRun` and `Effect::ExportCompare`: the status
    /// says "Exported to <path>", or "Export failed: <reason>".
    pub fn finish_export(&mut self, result: Result<String, String>)
        ensures
            match result {
                Ok(path) => status_only(*old(self), *final(self), "Exported to "@ + path@),
                Err(e) => status_only(*old(self), *final(self), "Export failed: "@ + e@),
            },
    {
        let msg = match &result {
            Ok(path) => {
                let mut m = owned("Exported to ");
                push_str(&mut m, path.as_str());
                m
            },
            Err(e) => {
                let mut m = owned("Export failed: ");
                push_str(&mut m, e.as_str());
                m
            },
        };
        self.set_status(msg);
    }

    /// Completes `Effect::StartRun`. Once the container is started (its
    /// id and the run's name given) the status says "Started container
    /// <first 12 characters of the id> for <name>", the runs are replaced
    /// by the list read afterwards (when it could be read), and the dialog
    /// closes. When the start was refused the dialog stays open and shows
    /// the reason.
    pub fn finish_run_start(&mut self, result: Result<(String, String), String>, runs: Option<Vec<Run>>)
        requires
            old(self).wf(),
            runs matches Some(rs) ==> rs@.len() < usize::MAX,
        ensures
            final(self).wf(),
            match result {
                Ok((id, name)) => *final(self) == (App {
                    runs: final(self).runs,
                    filtered_runs: final(self).filtered_runs,
                    selected_run_index: final(self).selected_run_index,
                    status_message: final(self).status_message,
                    run_dialog: None,
                    input_mode: InputMode::Normal,
                    ..*old(self)
                }) && final(self).status_message@ == "Started container "@ + char_prefix(id@, 12)
                    + " for "@ + name@ && match runs {
                    Some(rs) => final(self).runs@ == rs@ && final(self).filtered_runs@ == filter_runs(
                        rs@,
                        old(self).search_query@,
                    ) && final(self).selected_run_index == clamp_index(
                        old(self).selected_run_index,
                        final(self).visible().len() as int,
                    ),
                    None => final(self).runs == old(self).runs && final(self).filtered_runs
                        == old(self).filtered_runs && final(self).selected_run_index
                        == old(self).selected_run_index,
                },
                Err(e) => *final(self) == (App { run_dialog: final(self).run_dialog, ..*old(self) })
                    && match old(self).run_dialog {
                    Some(d) => final(self).run_dialog matches Some(nd) && nd == (RunDialogState {
                        error_message: nd.error_message,
                        ..d
                    }) && nd.error_message@ == e@,
                    None => final(self).run_dialog is None,
                },
            },
    {
        match result {
            Ok((id, name)) => {
                let v = crate::text::chars_of(id.as_str());
                let mut msg = owned("Started container ");
                let mut k: usize = 0;
                while k < v.len() && k < 12
                    invariant
                        k <= v@.len(),
                        k <= 12,
                        msg@ == "Started container "@ + v@.take(k as int),
                    decreases 12 - k,
                {
                    push_char(&mut msg, v[k]);
                    k = k + 1;
                    assert(msg@ == "Started container "@ + v@.take(k as int));
                }
                assert(v@.take(k as int) == char_prefix(id@, 12));
                push_str(&mut msg, " for ");
                push_str(&mut msg, name.as_str());
                match runs {
                    Some(rs) => self.refresh_runs(rs),
                    None => {},
                }
                self.set_status(msg);
                self.run_dialog = None;
                self.input_mode = InputMode::Normal;
            },
            Err(e) => {
                match self.run_dialog.take() {
                    Some(d) => {
                        self.run_dialog = Some(RunDialogState { error_message: e, ..d });
                    },
                    None => {},
                }
            },
        }
    }
}

impl App {
    /// Completes a change of a container's state found by polling: once
    /// the run's new status (see `run_status_after`) is stored, the status
    /// bar shows the container's message and the runs are replaced by the
    /// list read afterwards (when it could be read); otherwise nothing
    /// changes.
    pub fn finish_container_update(&mut self, state: &crate::docker::ContainerState, stored: bool, runs: Option<Vec<Run>>)
        requires
            old(self).wf(),
            runs matches Some(rs) ==> rs@.len() < usize::MAX,
        ensures
            final(self).wf(),
            !stored ==> *final(self) == *old(self),
            stored ==> *final(self) == (App {
                runs: final(self).runs,
                filtered_runs: final(self).filtered_runs,
                selected_run_index: final(self).selected_run_index,
                status_message: final(self).status_message,
                ..*old(self)
            }) && final(self).status_message@ == crate::docker::container_message(*state) && match runs {
                Some(rs) => final(self).runs@ == rs@ && final(self).filtered_runs@ == filter_runs(
                    rs@,
                    old(self).search_query@,
                ) && final(self).selected_run_index == clamp_index(
                    old(self).selected_run_index,
                    final(self).visible().len() as int,
                ),
                None => final(self).runs == old(self).runs && final(self).filtered_runs
                    == old(self).filtered_runs && final(self).selected_run_index
                    == old(self).selected_run_index,
            },
    {
        if stored {
            let msg = crate::docker::container_status_message(state);
            self.set_status(msg);
            match runs {
                Some(rs) => self.refresh_runs(rs),
                None => {},
            }
        }
    }
}

/// The metric rows of a log: record after record, each metric of a record
/// with its name, the record's epoch and step, and its value text.
pub open spec fn all_rows(records: Seq<crate::parser::ParsedRecord>) -> Seq<(Seq<char>, Option<i64>, Option<i64>, Seq<char>)>
    decreases records.len(),
{
    if records.len() == 0 {
        seq![]
    } else {
        all_rows(records.drop_last()) + record_rows(records.last())
    }
}

/// The metric rows an import still has to store when the run already holds
/// `stored` rows of the log: all its rows past the first `stored` (none when
/// the log has no more).
pub open spec fn new_rows(records: Seq<crate::parser::ParsedRecord>, stored: int) -> Seq<(Seq<char>, Option<i64>, Option<i64>, Seq<char>)> {
    if stored >= all_rows(records).len() {
        seq![]
    } else {
        all_rows(records).skip(stored)
    }
}

/// The metric rows of one record.
pub open spec fn record_rows(r: crate::parser::ParsedRecord) -> Seq<(Seq<char>, Option<i64>, Option<i64>, Seq<char>)> {
    r.metrics@.map_values(|m: (String, String)| (m.0@, r.epoch, r.step, m.1@))
}

/// A metric row to store: name, epoch, step and value text.
pub open spec fn row_view(r: (String, Option<i64>, Option<i64>, String)) -> (Seq<char>, Option<i64>, Option<i64>, Seq<char>) {
    (r.0@, r.1, r.2, r.3@)
}

/// The rows of a list of records, as texts.
pub open spec fn rows_view(v: Seq<(String, Option<i64>, Option<i64>, String)>) -> Seq<(Seq<char>, Option<i64>, Option<i64>, Seq<char>)> {
    v.map_values(|r: (String, Option<i64>, Option<i64>, String)| row_view(r))
}

/// The metric rows an import stores when the run already holds
/// `stored_count` rows of the log (see `new_rows`).
pub fn new_metric_rows(records: &[crate::parser::ParsedRecord], stored_count: usize) -> (rows: Vec<(String, Option<i64>, Option<i64>, String)>)
    ensures
        rows_view(rows@) == new_rows(records@, stored_count as int),
{
    let mut all: Vec<(String, Option<i64>, Option<i64>, String)> = Vec::new();
    let mut i: usize = 0;
    while i < records.len()
        invariant
            i <= records@.len(),
            rows_view(all@) == all_rows(records@.take(i as int)),
        decreases records@.len() - i,
    {
        assert(records@.take(i + 1).drop_last() == records@.take(i as int));
        let rec = &records[i];
        let ghost base = rows_view(all@);
        let mut k: usize = 0;
        while k < rec.metrics.len()
            invariant
                k <= rec.metrics@.len(),
                rows_view(all@) == base + record_rows(*rec).take(k as int),
            decreases rec.metrics@.len() - k,
        {
            let ghost before = all@;
            all.push((rec.metrics[k].0.clone(), rec.epoch, rec.step, rec.metrics[k].1.clone()));
            assert(rows_view(all@) == rows_view(before).push(record_rows(*rec)[k as int]));
            assert(record_rows(*rec).take(k + 1) == record_rows(*rec).take(k as int).push(record_rows(*rec)[k as int]));
            k = k + 1;
        }
        assert(record_rows(*rec).take(rec.metrics@.len() as int) == record_rows(*rec));
        i = i + 1;
    }
    assert(records@.take(records@.len() as int) == records@);
    let mut rows: Vec<(String, Option<i64>, Option<i64>, String)> = Vec::new();
    if stored_count >= all.len() {
        assert(rows_view(rows@) =~= seq![]);
        return rows;
    }
    let mut j: usize = stored_count;
    while j < all.len()
        invariant
            stored_count <= j <= all@.len(),
            rows_view(rows@) == rows_view(all@).subrange(stored_count as int, j as int),
        decreases all@.len() - j,
    {
        let ghost before = rows@;
        rows.push((all[j].0.clone(), all[j].1, all[j].2, all[j].3.clone()));
        assert(rows_view(rows@) == rows_view(before).push(rows_view(all@)[j as int]));
        assert(rows_view(all@).subrange(stored_count as int, j + 1) == rows_view(all@).subrange(
            stored_count as int,
            j as int,
        ).push(rows_view(all@)[j as int]));
        j = j + 1;
    }
    assert(rows_view(all@).subrange(stored_count as int, all@.len() as int) == rows_view(all@).skip(
        stored_count as int,
    ));
    rows
}

/// The rows of two logs one after the other are the rows of the first,
/// then those of the second.
pub proof fn lemma_all_rows_append(a: Seq<crate::parser::ParsedRecord>, b: Seq<crate::parser::ParsedRecord>)
    ensures
        all_rows(a + b) == all_rows(a) + all_rows(b),
    decreases b.len(),
{
    if b.len() == 0 {
        assert(a + b == a);
    } else {
        lemma_all_rows_append(a, b.drop_last());
        assert((a + b).drop_last() == a + b.drop_last());
        assert((a + b).last() == b.last());
    }
}

/// Records appended to an imported log are imported once: when the run
/// holds the rows of the records `old`, importing `old` followed by `more`
/// stores exactly the rows of `more`.
pub proof fn law_import_appended(old: Seq<crate::parser::ParsedRecord>, more: Seq<crate::parser::ParsedRecord>)
    ensures
        new_rows(old + more, all_rows(old).len() as int) == all_rows(more),
{
    lemma_all_rows_append(old, more);
    assert((all_rows(old) + all_rows(more)).skip(all_rows(old).len() as int) =~= all_rows(more));
}

/// Importing a log whose rows are all stored stores nothing more.
pub proof fn law_reimport_stores_nothing(records: Seq<crate::parser::ParsedRecord>)
    ensures
        new_rows(records, all_rows(records).len() as int).len() == 0,
{
}

/// The number of metrics of a list of records.
pub open spec fn metric_count(records: Seq<crate::parser::ParsedRecord>) -> nat
    decreases records.len(),
{
    if records.len() == 0 {
        0
    } else {
        metric_count(records.drop_last()) + records.last().metrics@.len()
    }
}

/// The rows a run holds after importing a log: the rows it held, then
/// those the import stores (see `new_rows`).
pub open spec fn after_import(
    stored: Seq<(Seq<char>, Option<i64>, Option<i64>, Seq<char>)>,
    records: Seq<crate::parser::ParsedRecord>,
) -> Seq<(Seq<char>, Option<i64>, Option<i64>, Seq<char>)> {
    stored + new_rows(records, stored.len() as int)
}

/// A log has one row per metric of each of its records.
pub proof fn lemma_all_rows_count(records: Seq<crate::parser::ParsedRecord>)
    ensures
        all_rows(records).len() == metric_count(records),
    decreases records.len(),
{
    if records.len() > 0 {
        lemma_all_rows_count(records.drop_last());
    }
}

/// Importing a log into a run that holds the rows of an earlier state of
/// it (the records `old`), after records `more` were appended, leaves the
/// run with every metric of every record stored exactly once, in order.
pub proof fn law_import_grown_log(old: Seq<crate::parser::ParsedRecord>, more: Seq<crate::parser::ParsedRecord>)
    ensures
        after_import(all_rows(old), old + more) == all_rows(old + more),
        after_import(all_rows(old), old + more).len() == metric_count(old + more),
{
    law_import_appended(old, more);
    lemma_all_rows_append(old, more);
    lemma_all_rows_count(old + more);
}

/// Two imports of a log, first of its records `old` into a run with no
/// rows, then of `old` followed by appended records `more`, store each
/// metric of each record exactly once: the run's row count is the number
/// of metrics of all the records.
pub proof fn law_two_imports(old: Seq<crate::parser::ParsedRecord>, more: Seq<crate::parser::ParsedRecord>)
    ensures
        after_import(after_import(seq![], old), old + more) == all_rows(old + more),
        after_import(after_import(seq![], old), old + more).len() == metric_count(old + more),
        after_import(after_import(seq![], old), old) == all_rows(old),
{
    let empty = Seq::<(Seq<char>, Option<i64>, Option<i64>, Seq<char>)>::empty();
    assert(all_rows(old).skip(0) == all_rows(old));
    assert(after_import(empty, old) == all_rows(old));
    law_import_grown_log(old, more);
    assert(old + Seq::<crate::parser::ParsedRecord>::empty() == old);
    law_import_grown_log(old, Seq::<crate::parser::ParsedRecord>::empty());
}

impl App {
    /// Completes the import of a log file: once `inserted` metric rows are
    /// stored the status says "Imported <n> metrics from <run>" (when any
    /// were), and the runs are replaced by the list read afterwards.
    pub fn finish_import(&mut self, run_name: &str, inserted: usize, runs: Vec<Run>)
        requires
            old(self).wf(),
            runs@.len() < usize::MAX,
        ensures
            final(self).wf(),
            *final(self) == (App {
                runs: final(self).runs,
                filtered_runs: final(self).filtered_runs,
                selected_run_index: final(self).selected_run_index,
                status_message: final(self).status_message,
                ..*old(self)
            }),
            final(self).runs@ == runs@,
            final(self).filtered_runs@ == filter_runs(runs@, old(self).search_query@),
            final(self).selected_run_index == clamp_index(
                old(self).selected_run_index,
                final(self).visible().len() as int,
            ),
            final(self).status_message@ == (if inserted > 0 {
                "Imported "@ + nat_digits(inserted as nat) + " metrics from "@ + run_name@
            } else {
                old(self).status_message@
            }),
    {
        if inserted > 0 {
            let mut msg = owned("Imported ");
            push_u64(&mut msg, inserted as u64);
            push_str(&mut msg, " metrics from ");
            push_str(&mut msg, run_name);
            self.set_status(msg);
        }
        self.refresh_runs(runs);
    }

    /// After the start-up scan: with files imported, the status says
    /// "Imported <n> existing log files".
    pub fn finish_import_scan(&mut self, imported: usize)
        ensures
            imported == 0 ==> *final(self) == *old(self),
            imported > 0 ==> status_only(
                *old(self),
                *final(self),
                "Imported "@ + nat_digits(imported as nat) + " existing log files"@,
            ),
    {
        if imported > 0 {
            let mut msg = owned("Imported ");
            push_u64(&mut msg, imported as u64);
            push_str(&mut msg, " existing log files");
            self.set_status(msg);
        }
    }

    /// Reports a watcher event in the status bar: a failed import of a
    /// changed file ("Import error: <file> — <reason>"), a removed file
    /// ("File removed: <file>"; its run is kept), or a watcher error
    /// ("Watcher: <message>"). The file is named by its last component, or
    /// "unknown".
    pub fn finish_watch_event(&mut self, ev: &crate::watcher::WatchEvent, import_error: Option<String>)
        ensures
            match ev {
                crate::watcher::WatchEvent::FileChanged(p) => match import_error {
                    Some(e) => status_only(
                        *old(self),
                        *final(self),
                        "Import error: "@ + name_or_unknown(p@) + " — "@ + e@,
                    ),
                    None => *final(self) == *old(self),
                },
                crate::watcher::WatchEvent::FileRemoved(p) => status_only(
                    *old(self),
                    *final(self),
                    "File removed: "@ + name_or_unknown(p@),
                ),
                crate::watcher::WatchEvent::Error(m) => status_only(*old(self), *final(self), "Watcher: "@ + m@),
            },
    {
        match ev {
            crate::watcher::WatchEvent::FileChanged(p) => match import_error {
                Some(e) => {
                    let mut msg = owned("Import error: ");
                    push_file_name(&mut msg, p.as_str());
                    push_str(&mut msg, " — ");
                    push_str(&mut msg, e.as_str());
                    self.set_status(msg);
                },
                None => {},
            },
            crate::watcher::WatchEvent::FileRemoved(p) => {
                let mut msg = owned("File removed: ");
                push_file_name(&mut msg, p.as_str());
                self.set_status(msg);
            },
            crate::watcher::WatchEvent::Error(m) => {
                let mut msg = owned("Watcher: ");
                push_str(&mut msg, m.as_str());
                self.set_status(msg);
            },
        }
    }

    /// Leaves the splash screen for the menu once two seconds have passed.
    pub fn tick_splash(&mut self, elapsed_ms: u64)
        ensures
            *final(self) == (if old(self).current_view == view::View::Splash && elapsed_ms >= 2000 {
                App { current_view: view::View::Menu, ..*old(self) }
            } else {
                *old(self)
            }),
    {
        if self.current_view == view::View::Splash && elapsed_ms >= 2000 {
            self.current_view = view::View::Menu;
        }
    }
}

/// A path's last component, or "unknown".
pub open spec fn name_or_unknown(p: Seq<char>) -> Seq<char> {
    match crate::paths::file_name(p) {
        Some(n) => n,
        None => "unknown"@,
    }
}

fn push_file_name(out: &mut String, p: &str)
    ensures
        final(out)@ == old(out)@ + name_or_unknown(p@),
{
    match crate::paths::path_file_name(p) {
        Some(n) => crate::text::push_chars(out, &n),
        None => push_str(out, "unknown"),
    }
}

/// A copy of a list of strings.
pub fn copy_texts(v: &Vec<String>) -> (r: Vec<String>)
    ensures
        r@ == v@,
{
    let mut r: Vec<String> = Vec::new();
    let mut i: usize = 0;
    while i < v.len()
        invariant
            i <= v@.len(),
            r@ == v@.take(i as int),
        decreases v@.len() - i,
    {
        r.push(v[i].clone());
        i = i + 1;
        assert(r@ == v@.take(i as int));
    }
    assert(v@.take(v@.len() as int) == v@);
    r
}

} // verus!
