//! The texts the screens show that are worked out rather than fixed: the
//! version line, shortened names, the menu's items with their live
//! context, alert levels, file sizes and the key hints of each view.
use vstd::prelude::*;
use vstd::string::StringSliceAdditionalSpecFns;
use vstd::utf8::{decode_utf8, encode_utf8, is_char_boundary};
use crate::control::state::InputMode;
use crate::control::view;
use crate::text::{nat_digits, owned, push_char, push_str, push_u64};

verus! {

/// The version line shown on the splash screen and the menu.
pub fn version_string() -> (s: String)
    ensures
        s@ == "ML Experiment Tracker v0.1.0"@,
{
    owned("ML Experiment Tracker v0.1.0")
}

/// A name cut to fit `max` bytes: unchanged when it fits, else its first
/// `max - 1` bytes followed by "…".
pub open spec fn truncated_name(s: Seq<char>, max: int) -> Seq<char> {
    if encode_utf8(s).len() <= max {
        s
    } else {
        decode_utf8(encode_utf8(s).take(max - 1)) + "…"@
    }
}

/// A name cut to fit `max` bytes (see `truncated_name`); the cut must fall
/// between characters.
pub fn truncate_name(s: &str, max: usize) -> (r: String)
    requires
        encode_utf8(s@).len() <= max || (max >= 1 && is_char_boundary(encode_utf8(s@), max - 1)),
    ensures
        r@ == truncated_name(s@, max as int),
{
    let n = s.as_bytes().len();
    if n <= max {
        owned(s)
    } else {
        let (a, _b) = s.split_at(max - 1);
        proof {
            vstd::utf8::encode_utf8_decode_utf8(a@);
            assert(a.spec_bytes() == encode_utf8(s@).take(max - 1));
        }
        let mut r = owned(a);
        push_str(&mut r, "…");
        r
    }
}

/// An item of the main menu: its label, its key, and its context text.
#[derive(Debug, Clone)]
pub struct MenuItem {
    pub label: String,
    pub shortcut: String,
    pub context: String,
}

/// The context shown beside "GPU Monitor": the GPU's name and
/// temperature, or "(not detected)".
pub open spec fn gpu_context(gpu: Option<(Seq<char>, u32)>) -> Seq<char> {
    match gpu {
        Some((name, temp)) => "("@ + name + nat_digits(temp as nat) + "C)"@,
        None => "(not detected)"@,
    }
}

/// The six menu items: Dashboard with the number of experiments, Run
/// Experiment with Docker's availability, GPU Monitor with the GPU, Compare
/// Runs with the number of marked runs (when any), Settings, and Quit.
pub open spec fn menu_items_text(run_count: nat, docker: bool, gpu: Option<(Seq<char>, u32)>, marked: nat) -> Seq<(Seq<char>, Seq<char>, Seq<char>)> {
    seq![
        ("Dashboard"@, "1"@, "("@ + nat_digits(run_count) + " experiments)"@),
        ("Run Experiment"@, "2"@, if docker { "(Docker)"@ } else { "(unavailable)"@ }),
        ("GPU Monitor"@, "3"@, gpu_context(gpu)),
        ("Compare Runs"@, "4"@, if marked == 0 { seq![] } else { "("@ + nat_digits(marked) + " selected)"@ }),
        ("Settings"@, "5"@, seq![]),
        ("Quit"@, "q"@, seq![]),
    ]
}

/// A menu item as plain texts.
pub open spec fn item_view(m: MenuItem) -> (Seq<char>, Seq<char>, Seq<char>) {
    (m.label@, m.shortcut@, m.context@)
}

fn item(label: &str, shortcut: &str, context: String) -> (m: MenuItem)
    ensures
        item_view(m) == (label@, shortcut@, context@),
{
    MenuItem { label: owned(label), shortcut: owned(shortcut), context }
}

/// The main menu's items (see `menu_items_text`); `gpu` is the detected
/// GPU's name and temperature.
pub fn menu_items(run_count: usize, docker_available: bool, gpu: Option<(&str, u32)>, marked: usize) -> (items: Vec<MenuItem>)
    ensures
        items@.map_values(|m: MenuItem| item_view(m)) == menu_items_text(
            run_count as nat,
            docker_available,
            match gpu {
                Some((n, t)) => Some((n@, t)),
                None => None,
            },
            marked as nat,
        ),
{
    let mut items: Vec<MenuItem> = Vec::new();
    let mut c0 = owned("(");
    push_u64(&mut c0, run_count as u64);
    push_str(&mut c0, " experiments)");
    items.push(item("Dashboard", "1", c0));
    let c1 = if docker_available {
        owned("(Docker)")
    } else {
        owned("(unavailable)")
    };
    items.push(item("Run Experiment", "2", c1));
    let c2 = match gpu {
        Some((name, temp)) => {
            let mut c = owned("(");
            push_str(&mut c, name);
            push_u64(&mut c, temp as u64);
            push_str(&mut c, "C)");
            c
        },
        None => owned("(not detected)"),
    };
    items.push(item("GPU Monitor", "3", c2));
    let c3 = if marked == 0 {
        String::new()
    } else {
        let mut c = owned("(");
        push_u64(&mut c, marked as u64);
        push_str(&mut c, " selected)");
        c
    };
    items.push(item("Compare Runs", "4", c3));
    items.push(item("Settings", "5", String::new()));
    items.push(item("Quit", "q", String::new()));
    assert(items@.map_values(|m: MenuItem| item_view(m)) =~= menu_items_text(
        run_count as nat,
        docker_available,
        match gpu {
            Some((n, t)) => Some((n@, t)),
            None => None,
        },
        marked as nat,
    ));
    items
}

/// How alarming a reading is.
#[derive(Debug, Clone, Copy, PartialEq, Eq, Structural)]
pub enum Level {
    Normal,
    Warning,
    Critical,
}

/// The level of a reading against a warning and a critical threshold:
/// critical above the critical one, warning above the warning one.
pub open spec fn level_of(value: u32, warn: u32, critical: u32) -> Level {
    if value > critical {
        Level::Critical
    } else if value > warn {
        Level::Warning
    } else {
        Level::Normal
    }
}

/// The level of a temperature (or any whole reading) against its
/// thresholds (see `level_of`).
pub fn temp_level(value: u32, warn: u32, critical: u32) -> (l: Level)
    ensures
        l == level_of(value, warn, critical),
{
    if value > critical {
        Level::Critical
    } else if value > warn {
        Level::Warning
    } else {
        Level::Normal
    }
}

/// The tenths of `n / d`, rounded to the nearest, ties to even (how `{:.1}`
/// prints the exact quotient).
pub open spec fn rounded_tenths(n: int, d: int) -> int {
    let q = (n * 10) / d;
    let r = (n * 10) % d;
    if 2 * r > d || (2 * r == d && q % 2 == 1) {
        q + 1
    } else {
        q
    }
}

/// `n / d` rounded to the nearest whole number, ties to even (how `{:.0}`
/// prints the exact quotient).
pub open spec fn rounded_whole(n: int, d: int) -> int {
    let q = n / d;
    let r = n % d;
    if 2 * r > d || (2 * r == d && q % 2 == 1) {
        q + 1
    } else {
        q
    }
}

/// A size in bytes as text: "N B" under 1 KiB, else whole kilobytes
/// "N KB" under 1 MiB (rounded to the nearest, ties to even), else "N.N MB"
/// (one decimal, rounded to the nearest tenth, ties to even): "340 KB",
/// "1.2 MB".
pub open spec fn size_text(bytes: nat) -> Seq<char> {
    if bytes < 1024 {
        nat_digits(bytes) + " B"@
    } else if bytes < 1048576 {
        nat_digits(rounded_whole(bytes as int, 1024) as nat) + " KB"@
    } else {
        let t = rounded_tenths(bytes as int, 1048576);
        nat_digits((t / 10) as nat) + seq!['.'] + nat_digits((t % 10) as nat) + " MB"@
    }
}

/// The tenths of `n / d` rounded half to even.
fn tenths(n: u64, d: u64) -> (t: u128)
    requires
        d == 1024 || d == 1048576,
    ensures
        t == rounded_tenths(n as int, d as int),
{
    let n10 = n as u128 * 10;
    let d2 = d as u128;
    let q = n10 / d2;
    let r = n10 % d2;
    if 2 * r > d2 || (2 * r == d2 && q % 2 == 1) {
        q + 1
    } else {
        q
    }
}

/// A file size as "340 B", "340 KB" or "3.4 MB" (see `size_text`).
pub fn format_size(bytes: u64) -> (s: String)
    ensures
        s@ == size_text(bytes as nat),
{
    let mut s = String::new();
    if bytes < 1024 {
        push_u64(&mut s, bytes);
        push_str(&mut s, " B");
    } else if bytes < 1048576 {
        let q = bytes / 1024;
        let r = bytes % 1024;
        let k = if 2 * r > 1024 || (2 * r == 1024 && q % 2 == 1) {
            q + 1
        } else {
            q
        };
        assert(k == rounded_whole(bytes as int, 1024));
        push_u64(&mut s, k);
        push_str(&mut s, " KB");
    } else {
        let t = tenths(bytes, 1048576);
        assert(t <= (bytes as int * 10) / 1048576 + 1);
        assert(t < 0x1_0000_0000_0000_0000 * 10) by (nonlinear_arith)
            requires
                t <= (bytes as int * 10) / 1048576 + 1,
                bytes < 0x1_0000_0000_0000_0000,
        ;
        push_u64(&mut s, (t / 10) as u64);
        push_char(&mut s, '.');
        push_u64(&mut s, (t % 10) as u64);
        push_str(&mut s, " MB");
    }
    s
}

/// The key hints the status bar shows for a view and input mode.
pub open spec fn hints(v: view::View, m: InputMode) -> Seq<char> {
    match m {
        InputMode::Search => " Esc:exit  Enter:confirm "@,
        InputMode::DeleteConfirm => " y:confirm  n/Esc:cancel "@,
        InputMode::TagList => " a:add  d:remove  j/k:nav  Esc:close "@,
        InputMode::TagInput | InputMode::NotesInput => " Enter:save  Esc:cancel "@,
        InputMode::RunDialog => " Tab:field  Space:toggle  Enter:run  Esc:cancel "@,
        InputMode::Normal => match v {
            view::View::Dashboard => " j/k:nav  Enter:open  Space:compare  /:search  R:run  g:gpu  ?:help  q:quit "@,
            view::View::RunDetail => " Esc:back  Tab:view  t:tags  n:notes  m:md  e:csv  x:tex  K:stop  ?:help "@,
            view::View::Compare => " Esc:back  Tab:metric  m:md  e:csv  x:tex  ?:help "@,
            view::View::GpuMonitor => " Esc/g:back  ?:help "@,
            view::View::Settings => " Esc:back  ?:help  q:quit "@,
            view::View::Help => " ?/Esc:close "@,
            view::View::Splash => " Press any key... "@,
            view::View::Menu => " j/k:nav  Enter:select  1-5:shortcut  q:quit "@,
        },
    }
}

/// The key hints the status bar shows (see `hints`).
pub fn key_hints(v: view::View, m: InputMode) -> (s: &'static str)
    ensures
        s@ == hints(v, m),
{
    match m {
        InputMode::Search => " Esc:exit  Enter:confirm ",
        InputMode::DeleteConfirm => " y:confirm  n/Esc:cancel ",
        InputMode::TagList => " a:add  d:remove  j/k:nav  Esc:close ",
        InputMode::TagInput | InputMode::NotesInput => " Enter:save  Esc:cancel ",
        InputMode::RunDialog => " Tab:field  Space:toggle  Enter:run  Esc:cancel ",
        InputMode::Normal => match v {
            view::View::Dashboard => " j/k:nav  Enter:open  Space:compare  /:search  R:run  g:gpu  ?:help  q:quit ",
            view::View::RunDetail => " Esc:back  Tab:view  t:tags  n:notes  m:md  e:csv  x:tex  K:stop  ?:help ",
            view::View::Compare => " Esc:back  Tab:metric  m:md  e:csv  x:tex  ?:help ",
            view::View::GpuMonitor => " Esc/g:back  ?:help ",
            view::View::Settings => " Esc:back  ?:help  q:quit ",
            view::View::Help => " ?/Esc:close ",
            view::View::Splash => " Press any key... ",
            view::View::Menu => " j/k:nav  Enter:select  1-5:shortcut  q:quit ",
        },
    }
}

} // verus!
