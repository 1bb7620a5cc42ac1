//! The application configuration: its defaults, the checks on its values,
//! and the paths it names once '~' is expanded.
use vstd::prelude::*;
use crate::paths::{join_path, path_join};
use crate::text::{chars_of, owned, push_str, starts_with, views};

verus! {

/// General settings.
#[derive(Debug, Clone)]
pub struct GeneralConfig {
    pub watch_dirs: Vec<String>,
    pub refresh_rate_ms: u64,
    pub db_path: String,
}

/// Display settings.
#[derive(Debug, Clone)]
pub struct UiConfig {
    pub theme: String,
    pub show_sparklines: bool,
    pub show_gpu_bar: bool,
    pub max_chart_points: usize,
}

/// How log files are read.
#[derive(Debug, Clone)]
pub struct ParserConfig {
    pub default_format: String,
    pub epoch_field: String,
    pub step_field: String,
    pub loss_field: String,
    pub accuracy_field: String,
}

/// GPU polling and alert thresholds.
#[derive(Debug, Clone)]
pub struct GpuConfig {
    pub poll_interval_secs: u64,
    pub temp_warning: u32,
    pub temp_critical: u32,
    pub vram_warning: u32,
    pub vram_critical: u32,
}

/// Docker launch defaults.
#[derive(Debug, Clone)]
pub struct DockerConfig {
    pub default_image: String,
    pub gpu: bool,
    pub container_workdir: String,
}

/// The whole configuration.
#[derive(Debug, Clone)]
pub struct AppConfig {
    pub general: GeneralConfig,
    pub ui: UiConfig,
    pub parser: ParserConfig,
    pub gpu: Option<GpuConfig>,
    pub docker: Option<DockerConfig>,
}

/// Why a configuration was refused; the first failing check is reported.
#[derive(Debug, Clone, PartialEq, Eq, Structural)]
pub enum ConfigError {
    EmptyWatchDirs,
    RefreshRateTooLow(u64),
    EmptyDbPath,
    PollIntervalTooLow(u64),
    TempThresholds(u32, u32),
    VramThresholds(u32, u32),
    ZeroChartPoints,
}

/// The first check that a configuration fails, in the order: watch
/// directories present, refresh rate at least 50 ms, database path not
/// empty, then (with GPU settings) poll interval at least 1 s, warning
/// temperature below the critical one, warning VRAM level below the
/// critical one, and finally at least one chart point.
pub open spec fn config_error(c: AppConfig) -> Option<ConfigError> {
    if c.general.watch_dirs@.len() == 0 {
        Some(ConfigError::EmptyWatchDirs)
    } else if c.general.refresh_rate_ms < 50 {
        Some(ConfigError::RefreshRateTooLow(c.general.refresh_rate_ms))
    } else if c.general.db_path@.len() == 0 {
        Some(ConfigError::EmptyDbPath)
    } else if c.gpu.is_some() && c.gpu.unwrap().poll_interval_secs < 1 {
        Some(ConfigError::PollIntervalTooLow(c.gpu.unwrap().poll_interval_secs))
    } else if c.gpu.is_some() && c.gpu.unwrap().temp_warning >= c.gpu.unwrap().temp_critical {
        Some(ConfigError::TempThresholds(c.gpu.unwrap().temp_warning, c.gpu.unwrap().temp_critical))
    } else if c.gpu.is_some() && c.gpu.unwrap().vram_warning >= c.gpu.unwrap().vram_critical {
        Some(ConfigError::VramThresholds(c.gpu.unwrap().vram_warning, c.gpu.unwrap().vram_critical))
    } else if c.ui.max_chart_points == 0 {
        Some(ConfigError::ZeroChartPoints)
    } else {
        None
    }
}

/// A path with a leading "~/" replaced by the home directory, when the
/// home directory is known.
pub open spec fn expand_tilde_text(path: Seq<char>, home: Option<Seq<char>>) -> Seq<char> {
    if starts_with(path, "~/"@) && home.is_some() {
        path_join(home.unwrap(), path.skip(2))
    } else {
        path
    }
}

/// The default location of the configuration file: under XDG_CONFIG_HOME
/// when it is set, else under "$HOME/.config" (with an empty home when
/// HOME is unset).
pub open spec fn default_config_file(xdg: Option<Seq<char>>, home: Option<Seq<char>>) -> Seq<char> {
    let base = match xdg {
        Some(x) => x,
        None => path_join(
            match home {
                Some(h) => h,
                None => seq![],
            },
            ".config"@,
        ),
    };
    path_join(path_join(base, "experiment-tracker"@), "config.toml"@)
}

/// The text of an optional string.
pub open spec fn opt_view(o: Option<&str>) -> Option<Seq<char>> {
    match o {
        Some(s) => Some(s@),
        None => None,
    }
}

/// The message shown for a configuration error.
pub open spec fn config_error_text(e: ConfigError) -> Seq<char> {
    match e {
        ConfigError::EmptyWatchDirs => "Config error: watch_dirs must not be empty"@,
        ConfigError::RefreshRateTooLow(r) => "Config error: refresh_rate_ms must be >= 50 (got "@
            + crate::text::nat_digits(r as nat) + ")"@,
        ConfigError::EmptyDbPath => "Config error: db_path must not be empty"@,
        ConfigError::PollIntervalTooLow(p) => "Config error: gpu.poll_interval_secs must be >= 1 (got "@
            + crate::text::nat_digits(p as nat) + ")"@,
        ConfigError::TempThresholds(w, c) => "Config error: gpu.temp_warning ("@ + crate::text::nat_digits(
            w as nat,
        ) + ") must be < gpu.temp_critical ("@ + crate::text::nat_digits(c as nat) + ")"@,
        ConfigError::VramThresholds(w, c) => "Config error: gpu.vram_warning ("@ + crate::text::nat_digits(
            w as nat,
        ) + ") must be < gpu.vram_critical ("@ + crate::text::nat_digits(c as nat) + ")"@,
        ConfigError::ZeroChartPoints => "Config error: ui.max_chart_points must be > 0"@,
    }
}

impl ConfigError {
    /// The message shown for the error (see `config_error_text`).
    pub fn message(&self) -> (s: String)
        ensures
            s@ == config_error_text(*self),
    {
        let mut s = String::new();
        match self {
            ConfigError::EmptyWatchDirs => push_str(&mut s, "Config error: watch_dirs must not be empty"),
            ConfigError::RefreshRateTooLow(r) => {
                push_str(&mut s, "Config error: refresh_rate_ms must be >= 50 (got ");
                crate::text::push_u64(&mut s, *r);
                push_str(&mut s, ")");
            },
            ConfigError::EmptyDbPath => push_str(&mut s, "Config error: db_path must not be empty"),
            ConfigError::PollIntervalTooLow(p) => {
                push_str(&mut s, "Config error: gpu.poll_interval_secs must be >= 1 (got ");
                crate::text::push_u64(&mut s, *p);
                push_str(&mut s, ")");
            },
            ConfigError::TempThresholds(w, c) => {
                push_str(&mut s, "Config error: gpu.temp_warning (");
                crate::text::push_u64(&mut s, *w as u64);
                push_str(&mut s, ") must be < gpu.temp_critical (");
                crate::text::push_u64(&mut s, *c as u64);
                push_str(&mut s, ")");
            },
            ConfigError::VramThresholds(w, c) => {
                push_str(&mut s, "Config error: gpu.vram_warning (");
                crate::text::push_u64(&mut s, *w as u64);
                push_str(&mut s, ") must be < gpu.vram_critical (");
                crate::text::push_u64(&mut s, *c as u64);
                push_str(&mut s, ")");
            },
            ConfigError::ZeroChartPoints => push_str(&mut s, "Config error: ui.max_chart_points must be > 0"),
        }
        s
    }
}

/// A path with a leading "~/" replaced by the home directory.
pub fn expand_tilde(path: &str, home: Option<&str>) -> (r: String)
    ensures
        r@ == expand_tilde_text(path@, opt_view(home)),
{
    let v = chars_of(path);
    if v.len() >= 2 && v[0] == '~' && v[1] == '/' {
        assert(starts_with(path@, "~/"@)) by {
            reveal_strlit("~/");
            assert(path@.subrange(0, 2) =~= "~/"@);
        }
        match home {
            Some(h) => {
                let rest = crate::text::string_of(&chars_after(&v, 2));
                join_path(h, rest.as_str())
            },
            None => owned(path),
        }
    } else {
        assert(!starts_with(path@, "~/"@)) by {
            reveal_strlit("~/");
            if starts_with(path@, "~/"@) {
                assert(path@.subrange(0, 2)[0] == '~');
                assert(path@.subrange(0, 2)[1] == '/');
            }
        }
        owned(path)
    }
}

/// The characters of `v` from position `a` on.
pub fn chars_after(v: &Vec<char>, a: usize) -> (r: Vec<char>)
    requires
        a <= v@.len(),
    ensures
        r@ == v@.skip(a as int),
{
    let mut r: Vec<char> = Vec::new();
    let mut k = a;
    while k < v.len()
        invariant
            a <= k <= v@.len(),
            r@ == v@.subrange(a as int, k as int),
        decreases v.len() - k,
    {
        r.push(v[k]);
        k = k + 1;
    }
    r
}

/// The built-in configuration's values.
pub open spec fn is_default_config(c: AppConfig) -> bool {
    &&& views(c.general.watch_dirs@) == seq!["./experiments"@]
    &&& c.general.refresh_rate_ms == 1000
    &&& c.general.db_path@ == "~/.local/share/experiment-tracker/tracker.db"@
    &&& c.ui.theme@ == "dark"@
    &&& c.ui.show_sparklines
    &&& c.ui.show_gpu_bar
    &&& c.ui.max_chart_points == 500
    &&& c.parser.default_format@ == "auto"@
    &&& c.parser.epoch_field@ == "epoch"@
    &&& c.parser.step_field@ == "step"@
    &&& c.parser.loss_field@ == "loss"@
    &&& c.parser.accuracy_field@ == "accuracy"@
    &&& c.gpu.is_some()
    &&& c.gpu.unwrap().poll_interval_secs == 2
    &&& c.gpu.unwrap().temp_warning == 80
    &&& c.gpu.unwrap().temp_critical == 90
    &&& c.gpu.unwrap().vram_warning == 80
    &&& c.gpu.unwrap().vram_critical == 95
    &&& c.docker.is_some()
    &&& c.docker.unwrap().default_image@ == "thesis-training:latest"@
    &&& c.docker.unwrap().gpu
    &&& c.docker.unwrap().container_workdir@ == "/workspace/output"@
}

impl Default for AppConfig {
    /// The built-in configuration (see `is_default_config`).
    fn default() -> (c: AppConfig)
        ensures
            is_default_config(c),
    {
        AppConfig::default_config()
    }
}

impl AppConfig {
    /// The built-in configuration (see `is_default_config`).
    pub fn default_config() -> (c: AppConfig)
        ensures
            is_default_config(c),
    {
        let mut dirs: Vec<String> = Vec::new();
        dirs.push(owned("./experiments"));
        assert(views(dirs@) == seq!["./experiments"@]);
        AppConfig {
            general: GeneralConfig {
                watch_dirs: dirs,
                refresh_rate_ms: 1000,
                db_path: owned("~/.local/share/experiment-tracker/tracker.db"),
            },
            ui: UiConfig {
                theme: owned("dark"),
                show_sparklines: true,
                show_gpu_bar: true,
                max_chart_points: 500,
            },
            parser: ParserConfig {
                default_format: owned("auto"),
                epoch_field: owned("epoch"),
                step_field: owned("step"),
                loss_field: owned("loss"),
                accuracy_field: owned("accuracy"),
            },
            gpu: Some(
                GpuConfig {
                    poll_interval_secs: 2,
                    temp_warning: 80,
                    temp_critical: 90,
                    vram_warning: 80,
                    vram_critical: 95,
                },
            ),
            docker: Some(
                DockerConfig {
                    default_image: owned("thesis-training:latest"),
                    gpu: true,
                    container_workdir: owned("/workspace/output"),
                },
            ),
        }
    }

    /// Checks that the configured values are in range; the first failing
    /// check is reported.
    pub fn validate(&self) -> (r: Result<(), ConfigError>)
        ensures
            match config_error(*self) {
                Some(e) => r == Err::<(), ConfigError>(e),
                None => r is Ok,
            },
    {
        if self.general.watch_dirs.len() == 0 {
            return Err(ConfigError::EmptyWatchDirs);
        }
        if self.general.refresh_rate_ms < 50 {
            return Err(ConfigError::RefreshRateTooLow(self.general.refresh_rate_ms));
        }
        if self.general.db_path.as_str().is_empty() {
            return Err(ConfigError::EmptyDbPath);
        }
        match &self.gpu {
            Some(gpu) => {
                if gpu.poll_interval_secs < 1 {
                    return Err(ConfigError::PollIntervalTooLow(gpu.poll_interval_secs));
                }
                if gpu.temp_warning >= gpu.temp_critical {
                    return Err(ConfigError::TempThresholds(gpu.temp_warning, gpu.temp_critical));
                }
                if gpu.vram_warning >= gpu.vram_critical {
                    return Err(ConfigError::VramThresholds(gpu.vram_warning, gpu.vram_critical));
                }
            },
            None => {},
        }
        if self.ui.max_chart_points == 0 {
            return Err(ConfigError::ZeroChartPoints);
        }
        Ok(())
    }

    /// The database path with "~/" expanded against `home`.
    pub fn resolved_db_path(&self, home: Option<&str>) -> (p: String)
        ensures
            p@ == expand_tilde_text(self.general.db_path@, opt_view(home)),
    {
        expand_tilde(self.general.db_path.as_str(), home)
    }

    /// The watch directories with "~/" expanded against `home`.
    pub fn resolved_watch_dirs(&self, home: Option<&str>) -> (dirs: Vec<String>)
        ensures
            dirs@.len() == self.general.watch_dirs@.len(),
            forall|i: int|
                0 <= i < dirs@.len() ==> #[trigger] dirs@[i]@ == expand_tilde_text(
                    self.general.watch_dirs@[i]@,
                    opt_view(home),
                ),
    {
        let mut dirs: Vec<String> = Vec::new();
        let mut i: usize = 0;
        while i < self.general.watch_dirs.len()
            invariant
                i <= self.general.watch_dirs@.len(),
                dirs@.len() == i,
                forall|j: int|
                    0 <= j < i ==> #[trigger] dirs@[j]@ == expand_tilde_text(
                        self.general.watch_dirs@[j]@,
                        opt_view(home),
                    ),
            decreases self.general.watch_dirs@.len() - i,
        {
            dirs.push(expand_tilde(self.general.watch_dirs[i].as_str(), home));
            i = i + 1;
        }
        dirs
    }

    /// The default location of the configuration file, given the values of
    /// XDG_CONFIG_HOME and HOME.
    pub fn default_config_path(xdg_config_home: Option<&str>, home: Option<&str>) -> (p: String)
        ensures
            p@ == default_config_file(opt_view(xdg_config_home), opt_view(home)),
    {
        let base = match xdg_config_home {
            Some(x) => owned(x),
            None => join_path(
                match home {
                    Some(h) => h,
                    None => "",
                },
                ".config",
            ),
        };
        proof {
            if xdg_config_home.is_none() && home.is_none() {
                assert(""@ =~= Seq::<char>::empty()) by {
                    reveal_strlit("");
                }
            }
        }
        let d = join_path(base.as_str(), "experiment-tracker");
        join_path(d.as_str(), "config.toml")
    }
    /// The configuration file to read: the one given on the command line,
    /// else "config.toml" in the current directory when it exists, else the
    /// default location (see `default_config_path`).
    pub fn config_file_to_read(
        given: Option<&str>,
        local_exists: bool,
        xdg_config_home: Option<&str>,
        home: Option<&str>,
    ) -> (p: String)
        ensures
            p@ == match given {
                Some(g) => g@,
                None => if local_exists {
                    "config.toml"@
                } else {
                    default_config_file(opt_view(xdg_config_home), opt_view(home))
                },
            },
    {
        match given {
            Some(g) => owned(g),
            None => if local_exists {
                owned("config.toml")
            } else {
                AppConfig::default_config_path(xdg_config_home, home)
            },
        }
    }
}

/// A configuration is accepted exactly when it has a watch directory, a
/// refresh rate of at least 50 ms, a database path, at least one chart
/// point and, with GPU settings, a poll interval of at least 1 s and warning
/// levels (temperature and VRAM) below the critical ones. Otherwise the
/// first failing check names the error: among them, GPU settings whose
/// warning temperature is not below the critical one are refused with both
/// temperatures, and, with the temperatures in order, GPU settings whose
/// VRAM warning level is not below the critical one with both VRAM levels.
pub proof fn law_config_checks(c: AppConfig)
    ensures
        config_error(c) is None <==> (c.general.watch_dirs@.len() > 0 && c.general.refresh_rate_ms
            >= 50 && c.general.db_path@.len() > 0 && c.ui.max_chart_points > 0 && match c.gpu {
            Some(g) => g.poll_interval_secs >= 1 && g.temp_warning < g.temp_critical
                && g.vram_warning < g.vram_critical,
            None => true,
        }),
        c.general.watch_dirs@.len() == 0 ==> config_error(c) == Some(ConfigError::EmptyWatchDirs),
        c.general.watch_dirs@.len() > 0 && c.general.refresh_rate_ms < 50 ==> config_error(c)
            == Some(ConfigError::RefreshRateTooLow(c.general.refresh_rate_ms)),
        c.general.watch_dirs@.len() > 0 && c.general.refresh_rate_ms >= 50
            && c.general.db_path@.len() == 0 ==> config_error(c) == Some(ConfigError::EmptyDbPath),
        ({
            let early = c.general.watch_dirs@.len() > 0 && c.general.refresh_rate_ms >= 50
                && c.general.db_path@.len() > 0;
            match c.gpu {
                Some(g) => {
                    &&& early && g.poll_interval_secs < 1 ==> config_error(c) == Some(
                        ConfigError::PollIntervalTooLow(g.poll_interval_secs),
                    )
                    &&& early && g.poll_interval_secs >= 1 && g.temp_warning >= g.temp_critical
                        ==> config_error(c) == Some(
                        ConfigError::TempThresholds(g.temp_warning, g.temp_critical),
                    )
                    &&& early && g.poll_interval_secs >= 1 && g.temp_warning < g.temp_critical
                        && g.vram_warning >= g.vram_critical ==> config_error(c) == Some(
                        ConfigError::VramThresholds(g.vram_warning, g.vram_critical),
                    )
                    &&& early && g.poll_interval_secs >= 1 && g.temp_warning < g.temp_critical
                        && g.vram_warning < g.vram_critical && c.ui.max_chart_points == 0
                        ==> config_error(c) == Some(ConfigError::ZeroChartPoints)
                },
                None => early && c.ui.max_chart_points == 0 ==> config_error(c) == Some(
                    ConfigError::ZeroChartPoints,
                ),
            }
        }),
{
}

/// The built-in configuration passes every check.
pub proof fn law_default_config_valid(c: AppConfig)
    requires
        is_default_config(c),
    ensures
        config_error(c) is None,
{
    assert(c.general.watch_dirs@.len() == views(c.general.watch_dirs@).len());
    reveal_strlit("~/.local/share/experiment-tracker/tracker.db");
}

} // verus!
