//! The state behind the screens: which view is shown, what is selected,
//! what is being typed, and the Docker run dialog.
use vstd::prelude::*;
use crate::config::AppConfig;
use crate::control::view;
use crate::export::csv::{csv_header, export_run_csv, export_summary_csv, row_fn, summary_text};
use crate::export::latex::{
    compare_latex_text, export_compare_latex_at, export_run_latex_at, run_latex_text,
};
use crate::export::markdown::{
    compare_markdown_text, export_compare_markdown_at, export_run_markdown_at, run_markdown_text,
};
use crate::export::table::compare_names;
use crate::export::{export_base, export_base_dir, export_file_is, write_export_at, ExportFile};
use crate::models::Timestamp;
use crate::text::concat_map;
use crate::models::{status_text, HyperParam, Metric, MetricValue, Run};
use crate::text::{
    contains_seq, lowercase, nat_digits, owned, push_padded, str_contains, to_lowercase, views,
    zero_pad,
};

verus! {

/// What key presses currently edit or answer.
#[derive(Debug, Clone, Copy, PartialEq, Eq, Structural)]
pub enum InputMode {
    Normal,
    Search,
    TagInput,
    TagList,
    NotesInput,
    DeleteConfirm,
    RunDialog,
}

/// The panel shown in the run detail view.
#[derive(Debug, Clone, Copy, PartialEq, Eq, Structural)]
pub enum DetailSubView {
    Chart,
    Hyperparams,
    Logs,
}

/// The fields of the Docker run dialog. `active_field` is 0 for the
/// image, 1 for the command, 2 for the output directory and 3 for the GPU
/// toggle.
#[derive(Debug, Clone)]
pub struct RunDialogState {
    pub image: String,
    pub command: String,
    pub output_dir: String,
    pub use_gpu: bool,
    pub active_field: usize,
    pub error_message: String,
}

/// The output directory proposed for the n-th run: "./experiments/run_"
/// and n with at least three digits.
pub open spec fn run_dir_text(n: nat) -> Seq<char> {
    "./experiments/run_"@ + zero_pad(nat_digits(n), 3)
}

/// The image the dialog proposes: the configured default, else
/// "pytorch/pytorch:latest".
pub open spec fn dialog_image(config: AppConfig) -> Seq<char> {
    match config.docker {
        Some(d) => d.default_image@,
        None => "pytorch/pytorch:latest"@,
    }
}

/// Whether the dialog proposes GPU access: the configured choice, else no.
pub open spec fn dialog_gpu(config: AppConfig) -> bool {
    match config.docker {
        Some(d) => d.gpu,
        None => false,
    }
}

impl RunDialogState {
    /// The dialog as it opens for the run numbered `next_run_number`: the
    /// configured image and GPU choice, the command "python train.py", a
    /// numbered output directory, and the command field active.
    pub fn new(config: &AppConfig, next_run_number: usize) -> (d: Self)
        ensures
            d.image@ == dialog_image(*config),
            d.use_gpu == dialog_gpu(*config),
            d.command@ == "python train.py"@,
            d.output_dir@ == run_dir_text(next_run_number as nat),
            d.active_field == 1,
            d.error_message@.len() == 0,
    {
        let image = match &config.docker {
            Some(d) => d.default_image.clone(),
            None => owned("pytorch/pytorch:latest"),
        };
        let use_gpu = match &config.docker {
            Some(d) => d.gpu,
            None => false,
        };
        let mut output_dir = owned("./experiments/run_");
        push_padded(&mut output_dir, next_run_number as u64, 3);
        RunDialogState {
            image,
            command: owned("python train.py"),
            output_dir,
            use_gpu,
            active_field: 1,
            error_message: String::new(),
        }
    }

    /// A copy of the dialog.
    pub fn duplicate(&self) -> (d: RunDialogState)
        ensures
            d == *self,
    {
        RunDialogState {
            image: self.image.clone(),
            command: self.command.clone(),
            output_dir: self.output_dir.clone(),
            use_gpu: self.use_gpu,
            active_field: self.active_field,
            error_message: self.error_message.clone(),
        }
    }

    /// The text field that is active, for editing; none when the GPU
    /// toggle is active.
    pub fn active_value_mut(&mut self) -> (r: Option<&mut String>)
        ensures
            final(self).use_gpu == old(self).use_gpu,
            final(self).active_field == old(self).active_field,
            final(self).error_message == old(self).error_message,
            old(self).active_field == 0 ==> r is Some && *r->0 == old(self).image
                && final(self).image == *final(r->0) && final(self).command == old(self).command
                && final(self).output_dir == old(self).output_dir,
            old(self).active_field == 1 ==> r is Some && *r->0 == old(self).command
                && final(self).command == *final(r->0) && final(self).image == old(self).image
                && final(self).output_dir == old(self).output_dir,
            old(self).active_field == 2 ==> r is Some && *r->0 == old(self).output_dir
                && final(self).output_dir == *final(r->0) && final(self).image == old(self).image
                && final(self).command == old(self).command,
            old(self).active_field >= 3 ==> r is None && final(self).image == old(self).image
                && final(self).command == old(self).command && final(self).output_dir == old(
                self,
            ).output_dir,
    {
        match self.active_field {
            0 => Some(&mut self.image),
            1 => Some(&mut self.command),
            2 => Some(&mut self.output_dir),
            _ => None,
        }
    }

    /// Moves to the next field, from the GPU toggle back to the image.
    pub fn next_field(&mut self)
        ensures
            final(self).active_field == (old(self).active_field + 1) % 4,
            final(self).image == old(self).image,
            final(self).command == old(self).command,
            final(self).output_dir == old(self).output_dir,
            final(self).use_gpu == old(self).use_gpu,
            final(self).error_message == old(self).error_message,
    {
        self.active_field = ((self.active_field % 4) + 1) % 4;
    }

    /// Switches GPU access on or off.
    pub fn toggle_gpu(&mut self)
        ensures
            final(self).use_gpu == !old(self).use_gpu,
            final(self).image == old(self).image,
            final(self).command == old(self).command,
            final(self).output_dir == old(self).output_dir,
            final(self).active_field == old(self).active_field,
            final(self).error_message == old(self).error_message,
    {
        self.use_gpu = !self.use_gpu;
    }
}


/// Whether `i` is a valid selection in a list of `len` items: an index
/// into the list, or 0 when the list is empty.
pub open spec fn index_ok(i: usize, len: int) -> bool {
    i < len || (len == 0 && i == 0)
}

/// Whether a run matches a search: the lower-cased query occurs in the
/// lower-cased name, status or notes.
pub open spec fn run_matches(r: Run, q: Seq<char>) -> bool {
    contains_seq(lowercase(r.name@), lowercase(q)) || contains_seq(
        lowercase(status_text(r.status)),
        lowercase(q),
    ) || contains_seq(lowercase(r.notes@), lowercase(q))
}

/// The runs that match a search, in their order.
pub open spec fn filter_runs(runs: Seq<Run>, q: Seq<char>) -> Seq<Run>
    decreases runs.len(),
{
    if runs.len() == 0 {
        seq![]
    } else {
        let rest = filter_runs(runs.drop_last(), q);
        if run_matches(runs.last(), q) {
            rest.push(runs.last())
        } else {
            rest
        }
    }
}

/// No id occurs twice.
pub open spec fn distinct_ids(s: Seq<i64>) -> bool {
    forall|i: int, j: int| 0 <= i < j < s.len() ==> s[i] != s[j]
}

/// Everything the run detail view shows of one run, as read from the
/// database.
#[derive(Debug, Clone)]
pub struct RunDetail {
    pub run: Run,
    pub metrics: Vec<Metric>,
    pub metric_names: Vec<String>,
    pub latest_metrics: Vec<(String, MetricValue)>,
    pub hyperparams: Vec<HyperParam>,
    pub tags: Vec<String>,
}

/// The state of the application's screens.
pub struct App {
    pub current_view: view::View,
    pub previous_view: Option<view::View>,
    pub should_quit: bool,
    pub runs: Vec<Run>,
    pub selected_run_index: usize,
    pub selected_tab: usize,
    pub tab_titles: Vec<String>,
    pub current_run: Option<Run>,
    pub current_metrics: Vec<Metric>,
    pub current_metric_names: Vec<String>,
    pub selected_metric_index: usize,
    pub current_tags: Vec<String>,
    pub current_latest_metrics: Vec<(String, MetricValue)>,
    pub current_hyperparams: Vec<HyperParam>,
    pub detail_sub_view: DetailSubView,
    pub container_logs: String,
    pub compare_run_ids: Vec<i64>,
    pub compare_data: Vec<(String, Vec<Metric>)>,
    pub compare_metric_names: Vec<String>,
    pub compare_selected_metric: usize,
    pub input_mode: InputMode,
    pub search_query: String,
    pub filtered_runs: Vec<Run>,
    pub input_buffer: String,
    pub tag_list_selected: usize,
    pub run_dialog: Option<RunDialogState>,
    pub show_help: bool,
    pub menu_selected: usize,
    pub status_message: String,
}

/// Where "back" leads: the menu from a top-level view (dashboard, GPU
/// monitor, comparison, settings), the dashboard from the run detail, and
/// otherwise the view shown before, or the dashboard when none is known.
pub open spec fn back_target(current: view::View, previous: Option<view::View>) -> view::View {
    match current {
        view::View::Dashboard | view::View::GpuMonitor | view::View::Compare
        | view::View::Settings => view::View::Menu,
        view::View::RunDetail => view::View::Dashboard,
        _ => match previous {
            Some(p) => p,
            None => view::View::Dashboard,
        },
    }
}

/// The selection after the list it points into changed to `len` items:
/// kept when still in range, else the last item (0 for an empty list).
pub open spec fn clamp_index(i: usize, len: int) -> usize {
    if i < len {
        i
    } else if len > 0 {
        (len - 1) as usize
    } else {
        0
    }
}

impl App {
    /// The runs the dashboard lists: all of them, or the matches of the
    /// search when a search text is set.
    pub open spec fn visible(&self) -> Seq<Run> {
        if self.search_query@.len() == 0 {
            self.runs@
        } else {
            self.filtered_runs@
        }
    }

    /// The selections point into their lists, the filtered runs are the
    /// matches of the search, and at most five distinct runs are marked
    /// for comparison.
    pub open spec fn wf(&self) -> bool {
        &&& index_ok(self.selected_run_index, self.visible().len() as int)
        &&& self.runs@.len() < usize::MAX
        &&& self.filtered_runs@ == filter_runs(self.runs@, self.search_query@)
        &&& distinct_ids(self.compare_run_ids@)
        &&& self.compare_run_ids@.len() <= 5
        &&& self.menu_selected < 6
        &&& 0 < self.tab_titles@.len()
        &&& self.selected_tab < self.tab_titles@.len()
        &&& index_ok(self.selected_metric_index, self.current_metric_names@.len() as int)
        &&& index_ok(self.compare_selected_metric, self.compare_metric_names@.len() as int)
    }

    /// The state at start-up: the splash screen, the given runs on the
    /// dashboard, nothing selected for comparison, status "Ready".
    pub fn new(runs: Vec<Run>) -> (app: App)
        requires
            runs@.len() < usize::MAX,
        ensures
            app.wf(),
            app.current_view == view::View::Splash,
            app.previous_view is None,
            !app.should_quit,
            app.runs@ == runs@,
            app.filtered_runs@ == runs@,
            app.selected_run_index == 0,
            app.selected_tab == 0,
            views(app.tab_titles@) == seq!["Dashboard"@, "Detail"@, "Compare"@, "GPU"@],
            app.current_run is None,
            app.current_metrics@.len() == 0,
            app.current_metric_names@.len() == 0,
            app.selected_metric_index == 0,
            app.current_tags@.len() == 0,
            app.current_latest_metrics@.len() == 0,
            app.current_hyperparams@.len() == 0,
            app.detail_sub_view == DetailSubView::Chart,
            app.container_logs@.len() == 0,
            app.compare_run_ids@.len() == 0,
            app.compare_data@.len() == 0,
            app.compare_metric_names@.len() == 0,
            app.compare_selected_metric == 0,
            app.input_mode == InputMode::Normal,
            app.search_query@.len() == 0,
            app.input_buffer@.len() == 0,
            app.tag_list_selected == 0,
            app.run_dialog is None,
            !app.show_help,
            app.menu_selected == 0,
            app.status_message@ == "Ready"@,
    {
        let mut tab_titles: Vec<String> = Vec::new();
        tab_titles.push(owned("Dashboard"));
        tab_titles.push(owned("Detail"));
        tab_titles.push(owned("Compare"));
        tab_titles.push(owned("GPU"));
        let search_query = String::new();
        let filtered_runs = filter_by(&runs, search_query.as_str());
        let app = App {
            current_view: view::View::Splash,
            previous_view: None,
            should_quit: false,
            runs,
            selected_run_index: 0,
            selected_tab: 0,
            tab_titles,
            current_run: None,
            current_metrics: Vec::new(),
            current_metric_names: Vec::new(),
            selected_metric_index: 0,
            current_tags: Vec::new(),
            current_latest_metrics: Vec::new(),
            current_hyperparams: Vec::new(),
            detail_sub_view: DetailSubView::Chart,
            container_logs: String::new(),
            compare_run_ids: Vec::new(),
            compare_data: Vec::new(),
            compare_metric_names: Vec::new(),
            compare_selected_metric: 0,
            input_mode: InputMode::Normal,
            search_query,
            filtered_runs,
            input_buffer: String::new(),
            tag_list_selected: 0,
            run_dialog: None,
            show_help: false,
            menu_selected: 0,
            status_message: owned("Ready"),
        };
        assert(views(app.tab_titles@) =~= seq!["Dashboard"@, "Detail"@, "Compare"@, "GPU"@]);
        app
    }

    /// The runs the dashboard lists.
    pub fn visible_runs(&self) -> (r: &Vec<Run>)
        ensures
            r@ == self.visible(),
    {
        if self.search_query.as_str().is_empty() {
            &self.runs
        } else {
            &self.filtered_runs
        }
    }

    /// The run under the dashboard's cursor, if the list is not empty.
    pub fn selected_run(&self) -> (r: Option<&Run>)
        ensures
            r == (if self.selected_run_index < self.visible().len() {
                Some(&self.visible()[self.selected_run_index as int])
            } else {
                None
            }),
    {
        let v = self.visible_runs();
        if self.selected_run_index < v.len() {
            Some(&v[self.selected_run_index])
        } else {
            None
        }
    }

    /// Shows `view`, remembering the view shown before.
    pub fn navigate_to(&mut self, view: view::View)
        ensures
            *final(self) == (App {
                current_view: view,
                previous_view: Some(old(self).current_view),
                ..*old(self)
            }),
    {
        self.previous_view = Some(self.current_view);
        self.current_view = view;
    }

    /// Goes back (see `back_target`); the remembered view is forgotten.
    pub fn go_back(&mut self)
        ensures
            *final(self) == (App {
                current_view: back_target(old(self).current_view, old(self).previous_view),
                previous_view: None,
                ..*old(self)
            }),
    {
        let prev = self.previous_view;
        self.previous_view = None;
        self.current_view = match self.current_view {
            view::View::Dashboard | view::View::GpuMonitor | view::View::Compare
            | view::View::Settings => view::View::Menu,
            view::View::RunDetail => view::View::Dashboard,
            _ => match prev {
                Some(p) => p,
                None => view::View::Dashboard,
            },
        };
    }

    /// Moves the dashboard cursor up one run, stopping at the first.
    pub fn move_up(&mut self)
        requires
            old(self).wf(),
        ensures
            final(self).wf(),
            *final(self) == (App {
                selected_run_index: if old(self).selected_run_index > 0 {
                    (old(self).selected_run_index - 1) as usize
                } else {
                    0
                },
                ..*old(self)
            }),
    {
        if self.selected_run_index > 0 {
            self.selected_run_index = self.selected_run_index - 1;
        }
    }

    /// Moves the dashboard cursor down one run, stopping at the last.
    pub fn move_down(&mut self)
        requires
            old(self).wf(),
        ensures
            final(self).wf(),
            *final(self) == (App {
                selected_run_index: if old(self).selected_run_index + 1 < old(self).visible().len() {
                    (old(self).selected_run_index + 1) as usize
                } else {
                    old(self).selected_run_index
                },
                ..*old(self)
            }),
    {
        let len = self.visible_runs().len();
        let max = if len > 0 {
            len - 1
        } else {
            0
        };
        if self.selected_run_index < max {
            self.selected_run_index = self.selected_run_index + 1;
        }
    }

    /// Selects the next metric of the run detail, after the last the first.
    pub fn cycle_metric(&mut self)
        requires
            old(self).wf(),
        ensures
            final(self).wf(),
            *final(self) == (App {
                selected_metric_index: if old(self).current_metric_names@.len() > 0 {
                    ((old(self).selected_metric_index + 1) % (old(self).current_metric_names@.len() as int)) as usize
                } else {
                    old(self).selected_metric_index
                },
                ..*old(self)
            }),
    {
        let n = self.current_metric_names.len();
        if n > 0 {
            self.selected_metric_index = (self.selected_metric_index + 1) % n;
        }
    }

    /// Selects the previous metric of the run detail, before the first the last.
    pub fn cycle_metric_back(&mut self)
        requires
            old(self).wf(),
        ensures
            final(self).wf(),
            *final(self) == (App {
                selected_metric_index: if old(self).current_metric_names@.len() == 0 {
                    old(self).selected_metric_index
                } else if old(self).selected_metric_index == 0 {
                    (old(self).current_metric_names@.len() - 1) as usize
                } else {
                    (old(self).selected_metric_index - 1) as usize
                },
                ..*old(self)
            }),
    {
        let n = self.current_metric_names.len();
        if n > 0 {
            if self.selected_metric_index == 0 {
                self.selected_metric_index = n - 1;
            } else {
                self.selected_metric_index = self.selected_metric_index - 1;
            }
        }
    }

    /// Selects the next metric of the comparison, after the last the first.
    pub fn cycle_compare_metric(&mut self)
        requires
            old(self).wf(),
        ensures
            final(self).wf(),
            *final(self) == (App {
                compare_selected_metric: if old(self).compare_metric_names@.len() > 0 {
                    ((old(self).compare_selected_metric + 1) % (old(self).compare_metric_names@.len() as int)) as usize
                } else {
                    old(self).compare_selected_metric
                },
                ..*old(self)
            }),
    {
        let n = self.compare_metric_names.len();
        if n > 0 {
            self.compare_selected_metric = (self.compare_selected_metric + 1) % n;
        }
    }

    /// Shows the next panel of the run detail: chart, hyperparameters,
    /// logs, and the chart again.
    pub fn cycle_detail_sub_view(&mut self)
        ensures
            *final(self) == (App {
                detail_sub_view: next_sub_view(old(self).detail_sub_view),
                ..*old(self)
            }),
    {
        self.detail_sub_view = match self.detail_sub_view {
            DetailSubView::Chart => DetailSubView::Hyperparams,
            DetailSubView::Hyperparams => DetailSubView::Logs,
            DetailSubView::Logs => DetailSubView::Chart,
        };
    }

    /// Whether the run is marked for comparison.
    pub fn is_selected_for_compare(&self, run_id: i64) -> (b: bool)
        ensures
            b == self.compare_run_ids@.contains(run_id),
    {
        let mut i: usize = 0;
        while i < self.compare_run_ids.len()
            invariant
                i <= self.compare_run_ids@.len(),
                forall|k: int| 0 <= k < i ==> self.compare_run_ids@[k] != run_id,
            decreases self.compare_run_ids@.len() - i,
        {
            if self.compare_run_ids[i] == run_id {
                return true;
            }
            i = i + 1;
        }
        false
    }

    /// Marks the run for comparison, or unmarks it when it is marked; at
    /// most five runs are marked, and the status bar says how many are.
    pub fn toggle_compare(&mut self, run_id: i64)
        requires
            old(self).wf(),
        ensures
            final(self).wf(),
            *final(self) == (App {
                compare_run_ids: final(self).compare_run_ids,
                status_message: final(self).status_message,
                ..*old(self)
            }),
            final(self).compare_run_ids@ == toggled_ids(old(self).compare_run_ids@, run_id),
            final(self).status_message@ == (if !old(self).compare_run_ids@.contains(run_id)
                && old(self).compare_run_ids@.len() >= 5 {
                "Maximum 5 runs for comparison"@
            } else {
                nat_digits(toggled_ids(old(self).compare_run_ids@, run_id).len())
                    + " run(s) selected for comparison"@
            }),
    {
        if self.is_selected_for_compare(run_id) {
            let ghost before = self.compare_run_ids@;
            let mut kept: Vec<i64> = Vec::new();
            let mut i: usize = 0;
            while i < self.compare_run_ids.len()
                invariant
                    i <= before.len(),
                    self.compare_run_ids@ == before,
                    kept@ == without_id(before.take(i as int), run_id),
                decreases before.len() - i,
            {
                assert(before.take(i + 1).drop_last() == before.take(i as int));
                let x = self.compare_run_ids[i];
                if x != run_id {
                    kept.push(x);
                }
                i = i + 1;
            }
            assert(before.take(before.len() as int) == before);
            proof {
                lemma_remove_id(before, run_id);
            }
            self.compare_run_ids = kept;
        } else {
            if self.compare_run_ids.len() >= 5 {
                self.status_message = owned("Maximum 5 runs for comparison");
                return;
            }
            self.compare_run_ids.push(run_id);
        }
        let mut msg = String::new();
        crate::text::push_u64(&mut msg, self.compare_run_ids.len() as u64);
        crate::text::push_str(&mut msg, " run(s) selected for comparison");
        self.status_message = msg;
    }

    /// Sets the search text; the dashboard then lists its matches, from the
    /// first.
    pub fn update_search(&mut self, query: String)
        requires
            old(self).wf(),
        ensures
            final(self).wf(),
            *final(self) == (App {
                search_query: query,
                filtered_runs: final(self).filtered_runs,
                selected_run_index: 0,
                ..*old(self)
            }),
            final(self).filtered_runs@ == filter_runs(old(self).runs@, query@),
    {
        self.filtered_runs = filter_by(&self.runs, query.as_str());
        self.search_query = query;
        self.selected_run_index = 0;
    }

    /// Replaces the runs with a fresh list; the search is applied again and
    /// the cursor kept in range.
    pub fn refresh_runs(&mut self, runs: Vec<Run>)
        requires
            old(self).wf(),
            runs@.len() < usize::MAX,
        ensures
            final(self).wf(),
            *final(self) == (App {
                runs: final(self).runs,
                filtered_runs: final(self).filtered_runs,
                selected_run_index: final(self).selected_run_index,
                ..*old(self)
            }),
            final(self).runs@ == runs@,
            final(self).filtered_runs@ == filter_runs(runs@, old(self).search_query@),
            final(self).selected_run_index == clamp_index(
                old(self).selected_run_index,
                final(self).visible().len() as int,
            ),
    {
        self.filtered_runs = filter_by(&runs, self.search_query.as_str());
        self.runs = runs;
        let len = self.visible_runs().len();
        if self.selected_run_index >= len {
            self.selected_run_index = if len > 0 {
                len - 1
            } else {
                0
            };
        }
    }

    /// Shows a run's details (read from the database): its metrics, metric
    /// names, latest values, hyperparameters and tags, with the first
    /// metric selected and the chart panel shown.
    pub fn load_run_detail(&mut self, detail: RunDetail)
        requires
            old(self).wf(),
        ensures
            final(self).wf(),
            *final(self) == (App {
                current_run: Some(detail.run),
                current_metrics: detail.metrics,
                current_metric_names: detail.metric_names,
                current_latest_metrics: detail.latest_metrics,
                current_hyperparams: detail.hyperparams,
                current_tags: detail.tags,
                selected_metric_index: 0,
                detail_sub_view: DetailSubView::Chart,
                ..*old(self)
            }),
    {
        self.current_run = Some(detail.run);
        self.current_metrics = detail.metrics;
        self.current_metric_names = detail.metric_names;
        self.current_latest_metrics = detail.latest_metrics;
        self.current_hyperparams = detail.hyperparams;
        self.selected_metric_index = 0;
        self.detail_sub_view = DetailSubView::Chart;
        self.current_tags = detail.tags;
    }

    /// Replaces the container log text shown in the run detail.
    pub fn set_container_logs(&mut self, logs: String)
        ensures
            *final(self) == (App { container_logs: logs, ..*old(self) }),
    {
        self.container_logs = logs;
    }

    /// Holds the runs of a comparison (names and metrics, read from the
    /// database); the metric names are collected in order of first
    /// appearance and the first is selected.
    pub fn load_compare_data(&mut self, data: Vec<(String, Vec<Metric>)>)
        requires
            old(self).wf(),
        ensures
            final(self).wf(),
            *final(self) == (App {
                compare_data: data,
                compare_metric_names: final(self).compare_metric_names,
                compare_selected_metric: 0,
                ..*old(self)
            }),
            views(final(self).compare_metric_names@) == compare_names(data@),
    {
        let names = crate::export::table::collect_metric_names(data.as_slice());
        self.compare_metric_names = names;
        self.compare_data = data;
        self.compare_selected_metric = 0;
    }

    /// Opens the Docker run dialog for the next run number (one more than
    /// the number of runs).
    pub fn open_run_dialog(&mut self, config: &AppConfig)
        requires
            old(self).wf(),
        ensures
            final(self).wf(),
            final(self).input_mode == InputMode::RunDialog,
            final(self).run_dialog matches Some(d) && d.image@ == dialog_image(*config) && d.use_gpu
                == dialog_gpu(*config) && d.command@ == "python train.py"@ && d.output_dir@
                == run_dir_text((old(self).runs@.len() + 1) as nat) && d.active_field == 1
                && d.error_message@.len() == 0,
            *final(self) == (App {
                input_mode: InputMode::RunDialog,
                run_dialog: final(self).run_dialog,
                ..*old(self)
            }),
    {
        let next_num = self.runs.len() + 1;
        self.run_dialog = Some(RunDialogState::new(config, next_num));
        self.input_mode = InputMode::RunDialog;
    }

    /// The Markdown export of the current run, made at `now` under the
    /// first of the (resolved) watch directories; refused with "No run
    /// selected" when no run is shown.
    pub fn export_current_run_markdown(&self, watch_dirs: &[String], now: &Timestamp) -> (r: Result<ExportFile, String>)
        ensures
            match self.current_run {
                None => r matches Err(e) && e@ == "No run selected"@,
                Some(run) => r matches Ok(f) && export_file_is(
                    f,
                    export_base(watch_dirs@),
                    run.name@,
                    "md"@,
                    run_markdown_text(
                        run,
                        self.current_metrics@,
                        self.current_hyperparams@,
                        views(self.current_tags@),
                        self.current_latest_metrics@,
                        *now,
                    ),
                    *now,
                ),
            },
    {
        match &self.current_run {
            None => Err(owned("No run selected")),
            Some(run) => {
                let base = export_base_dir(watch_dirs);
                let content = export_run_markdown_at(
                    run,
                    self.current_metrics.as_slice(),
                    self.current_hyperparams.as_slice(),
                    self.current_tags.as_slice(),
                    self.current_latest_metrics.as_slice(),
                    now,
                );
                Ok(write_export_at(base.as_str(), run.name.as_str(), "md", content.as_str(), now))
            },
        }
    }

    /// The CSV export of the current run's metrics, made at `now` under
    /// the first watch directory; refused when no run is shown.
    pub fn export_current_run_csv(&self, watch_dirs: &[String], now: &Timestamp) -> (r: Result<ExportFile, String>)
        ensures
            match self.current_run {
                None => r matches Err(e) && e@ == "No run selected"@,
                Some(run) => r matches Ok(f) && export_file_is(
                    f,
                    export_base(watch_dirs@),
                    run.name@,
                    "csv"@,
                    csv_header() + concat_map(self.current_metrics@, row_fn(run.name@)),
                    *now,
                ),
            },
    {
        match &self.current_run {
            None => Err(owned("No run selected")),
            Some(run) => {
                let base = export_base_dir(watch_dirs);
                let content = export_run_csv(run.name.as_str(), self.current_metrics.as_slice());
                Ok(write_export_at(base.as_str(), run.name.as_str(), "csv", content.as_str(), now))
            },
        }
    }

    /// The LaTeX export of the current run, made at `now` under the first
    /// watch directory; refused when no run is shown.
    pub fn export_current_run_latex(&self, watch_dirs: &[String], now: &Timestamp) -> (r: Result<ExportFile, String>)
        ensures
            match self.current_run {
                None => r matches Err(e) && e@ == "No run selected"@,
                Some(run) => r matches Ok(f) && export_file_is(
                    f,
                    export_base(watch_dirs@),
                    run.name@,
                    "tex"@,
                    run_latex_text(
                        run.name@,
                        self.current_hyperparams@,
                        self.current_latest_metrics@,
                        *now,
                    ),
                    *now,
                ),
            },
    {
        match &self.current_run {
            None => Err(owned("No run selected")),
            Some(run) => {
                let base = export_base_dir(watch_dirs);
                let content = export_run_latex_at(
                    run.name.as_str(),
                    self.current_hyperparams.as_slice(),
                    self.current_latest_metrics.as_slice(),
                    now,
                );
                Ok(write_export_at(base.as_str(), run.name.as_str(), "tex", content.as_str(), now))
            },
        }
    }

    /// The Markdown export of the comparison, made at `now`.
    pub fn export_compare_markdown(&self, watch_dirs: &[String], now: &Timestamp) -> (f: ExportFile)
        ensures
            export_file_is(
                f,
                export_base(watch_dirs@),
                "comparison"@,
                "md"@,
                compare_markdown_text(self.compare_data@, *now),
                *now,
            ),
    {
        let base = export_base_dir(watch_dirs);
        let content = export_compare_markdown_at(self.compare_data.as_slice(), now);
        write_export_at(base.as_str(), "comparison", "md", content.as_str(), now)
    }

    /// The CSV summary export of the comparison, made at `now`.
    pub fn export_compare_csv(&self, watch_dirs: &[String], now: &Timestamp) -> (f: ExportFile)
        ensures
            export_file_is(
                f,
                export_base(watch_dirs@),
                "comparison"@,
                "csv"@,
                summary_text(self.compare_data@),
                *now,
            ),
    {
        let base = export_base_dir(watch_dirs);
        let content = export_summary_csv(self.compare_data.as_slice());
        write_export_at(base.as_str(), "comparison", "csv", content.as_str(), now)
    }

    /// The LaTeX export of the comparison, made at `now`.
    pub fn export_compare_latex(&self, watch_dirs: &[String], now: &Timestamp) -> (f: ExportFile)
        ensures
            export_file_is(
                f,
                export_base(watch_dirs@),
                "comparison"@,
                "tex"@,
                compare_latex_text(self.compare_data@, *now),
                *now,
            ),
    {
        let base = export_base_dir(watch_dirs);
        let content = export_compare_latex_at(self.compare_data.as_slice(), now);
        write_export_at(base.as_str(), "comparison", "tex", content.as_str(), now)
    }

    /// Sets the status-bar message.
    pub fn set_status(&mut self, msg: String)
        ensures
            *final(self) == (App { status_message: msg, ..*old(self) }),
    {
        self.status_message = msg;
    }
}

/// The panel after `v`: chart, hyperparameters, logs, chart.
pub open spec fn next_sub_view(v: DetailSubView) -> DetailSubView {
    match v {
        DetailSubView::Chart => DetailSubView::Hyperparams,
        DetailSubView::Hyperparams => DetailSubView::Logs,
        DetailSubView::Logs => DetailSubView::Chart,
    }
}

/// The marked runs after toggling `id`: removed when marked; else added at
/// the end, unless five are marked already.
pub open spec fn toggled_ids(ids: Seq<i64>, id: i64) -> Seq<i64> {
    if ids.contains(id) {
        without_id(ids, id)
    } else if ids.len() >= 5 {
        ids
    } else {
        ids.push(id)
    }
}

/// The ids of `s` other than `id`, in their order.
pub open spec fn without_id(s: Seq<i64>, id: i64) -> Seq<i64>
    decreases s.len(),
{
    if s.len() == 0 {
        seq![]
    } else if s.last() == id {
        without_id(s.drop_last(), id)
    } else {
        without_id(s.drop_last(), id).push(s.last())
    }
}

/// The ids left by `without_id` are ids of `s` other than `id`.
pub proof fn lemma_without_id_from(s: Seq<i64>, id: i64, x: i64)
    requires
        without_id(s, id).contains(x),
    ensures
        s.contains(x),
        x != id,
    decreases s.len(),
{
    if s.len() > 0 {
        let rest = without_id(s.drop_last(), id);
        if s.last() == id || x != s.last() {
            if s.last() != id {
                let k = choose|k: int| 0 <= k < without_id(s, id).len() && without_id(s, id)[k] == x;
                assert(k < rest.len());
                assert(rest[k] == x);
            }
            lemma_without_id_from(s.drop_last(), id, x);
            let j = choose|j: int| 0 <= j < s.drop_last().len() && s.drop_last()[j] == x;
            assert(s[j] == x);
        } else {
            assert(s[s.len() - 1] == x);
        }
    }
}

/// Removing an id from a list of distinct ids that holds it leaves the
/// others, distinct, one fewer.
pub proof fn lemma_remove_id(ids: Seq<i64>, id: i64)
    requires
        distinct_ids(ids),
        ids.contains(id),
    ensures
        distinct_ids(without_id(ids, id)),
        without_id(ids, id).len() == ids.len() - 1,
        !without_id(ids, id).contains(id),
    decreases ids.len(),
{
    let rest = ids.drop_last();
    if ids.last() == id {
        assert(!rest.contains(id)) by {
            if rest.contains(id) {
                let k = choose|k: int| 0 <= k < rest.len() && rest[k] == id;
                assert(ids[k] == ids[ids.len() - 1]);
            }
        }
        lemma_filter_keeps_all(rest, id);
    } else {
        assert(rest.contains(id)) by {
            let k = choose|k: int| 0 <= k < ids.len() && ids[k] == id;
            assert(k < ids.len() - 1);
            assert(rest[k] == id);
        }
        assert(distinct_ids(rest));
        lemma_remove_id(rest, id);
        let fr = without_id(rest, id);
        assert(without_id(ids, id) == fr.push(ids.last()));
        assert forall|i: int, j: int| 0 <= i < j < fr.push(ids.last()).len() implies fr.push(
            ids.last(),
        )[i] != fr.push(ids.last())[j] by {
            if j == fr.len() {
                assert(fr.contains(fr[i]));
                lemma_without_id_from(rest, id, fr[i]);
                let k = choose|k: int| 0 <= k < rest.len() && rest[k] == fr[i];
                assert(ids[k] == rest[k]);
            }
        }
        assert(!without_id(ids, id).contains(id)) by {
            if without_id(ids, id).contains(id) {
                lemma_without_id_from(ids, id, id);
            }
        }
    }
}

/// Removing an id from distinct ids leaves distinct ids, no more of them.
pub proof fn lemma_without_id_distinct(ids: Seq<i64>, id: i64)
    requires
        distinct_ids(ids),
    ensures
        distinct_ids(without_id(ids, id)),
        without_id(ids, id).len() <= ids.len(),
{
    if ids.contains(id) {
        lemma_remove_id(ids, id);
    } else {
        lemma_filter_keeps_all(ids, id);
    }
}

/// Removing an id that does not occur keeps the list.
pub proof fn lemma_filter_keeps_all(s: Seq<i64>, id: i64)
    requires
        !s.contains(id),
    ensures
        without_id(s, id) == s,
    decreases s.len(),
{
    if s.len() > 0 {
        assert(!s.drop_last().contains(id)) by {
            if s.drop_last().contains(id) {
                let k = choose|k: int| 0 <= k < s.drop_last().len() && s.drop_last()[k] == id;
                assert(s[k] == id);
            }
        }
        assert(s.last() != id);
        lemma_filter_keeps_all(s.drop_last(), id);
        assert(s.drop_last().push(s.last()) == s);
    }
}

/// File stems too generic to name a run ("metrics", "log", "train",
/// "training", "output", "results").
pub open spec fn generic_stem(s: Seq<char>) -> bool {
    s == "metrics"@ || s == "log"@ || s == "train"@ || s == "training"@ || s == "output"@ || s
        == "results"@
}

/// The name a run gets from its log file's path: the file stem ("unknown"
/// without one), or the parent directory's name when the lower-cased stem
/// is generic (the stem again when there is no such directory name).
pub open spec fn run_name_for(p: Seq<char>) -> Seq<char> {
    let stem = match crate::paths::path_stem(p) {
        Some(s) => s,
        None => "unknown"@,
    };
    if generic_stem(lowercase(stem)) {
        match crate::paths::parent_name(p) {
            Some(n) => n,
            None => stem,
        }
    } else {
        stem
    }
}

/// A log file's run name: where the lower-cased file stem is one of
/// "metrics", "log", "train", "training", "output" or "results" and the file
/// has a parent directory name, the run is named after that directory;
/// otherwise it is named after the file stem itself.
pub proof fn law_run_name(p: Seq<char>)
    ensures
        ({
            let stem = crate::paths::path_stem(p)->0;
            let l = lowercase(stem);
            let common = l == "metrics"@ || l == "log"@ || l == "train"@ || l == "training"@ || l
                == "output"@ || l == "results"@;
            &&& crate::paths::path_stem(p) is Some && common && crate::paths::parent_name(p) is Some
                ==> run_name_for(p) == crate::paths::parent_name(p)->0
            &&& crate::paths::path_stem(p) is Some && common && crate::paths::parent_name(p) is None
                ==> run_name_for(p) == stem
            &&& crate::paths::path_stem(p) is Some && !common ==> run_name_for(p) == stem
        }),
{
}

/// The name a run gets from its log file's path (see `run_name_for`).
pub fn derive_run_name(path: &str) -> (name: String)
    ensures
        name@ == run_name_for(path@),
{
    let stem = match crate::paths::path_file_stem(path) {
        Some(s) => crate::text::string_of(&s),
        None => owned("unknown"),
    };
    let lower = to_lowercase(stem.as_str());
    let l = lower.as_str();
    let generic = crate::text::str_eq(l, "metrics") || crate::text::str_eq(l, "log")
        || crate::text::str_eq(l, "train") || crate::text::str_eq(l, "training")
        || crate::text::str_eq(l, "output") || crate::text::str_eq(l, "results");
    if generic {
        match crate::paths::path_parent_name(path) {
            Some(n) => crate::text::string_of(&n),
            None => stem,
        }
    } else {
        stem
    }
}

/// The runs that match a search text.
pub fn filter_by(runs: &Vec<Run>, query: &str) -> (out: Vec<Run>)
    ensures
        out@ == filter_runs(runs@, query@),
        query@.len() == 0 ==> out@ == runs@,
{
    let q = to_lowercase(query);
    let mut out: Vec<Run> = Vec::new();
    let mut i: usize = 0;
    while i < runs.len()
        invariant
            i <= runs@.len(),
            q@ == lowercase(query@),
            out@ == filter_runs(runs@.take(i as int), query@),
        decreases runs@.len() - i,
    {
        let r = &runs[i];
        assert(runs@.take(i + 1).drop_last() == runs@.take(i as int));
        let name = to_lowercase(r.name.as_str());
        let status = to_lowercase(r.status.as_str());
        let notes = to_lowercase(r.notes.as_str());
        if str_contains(name.as_str(), q.as_str()) || str_contains(status.as_str(), q.as_str())
            || str_contains(notes.as_str(), q.as_str()) {
            out.push(r.duplicate());
        }
        i = i + 1;
    }
    assert(runs@.take(runs@.len() as int) == runs@);
    proof {
        if query@.len() == 0 {
            lemma_filter_all_match(runs@, query@);
        }
    }
    out
}

/// When the lower-cased search text is empty, every run matches.
pub proof fn lemma_filter_all_match(runs: Seq<Run>, q: Seq<char>)
    requires
        lowercase(q).len() == 0,
    ensures
        filter_runs(runs, q) == runs,
    decreases runs.len(),
{
    if runs.len() > 0 {
        lemma_filter_all_match(runs.drop_last(), q);
        assert(lowercase(runs.last().name@).subrange(0, 0) =~= lowercase(q));
        assert(crate::text::occurs_at(lowercase(runs.last().name@), lowercase(q), 0));
        assert(runs.drop_last().push(runs.last()) == runs);
    }
}

} // verus!
