//! Operating-system specific paths and capabilities, computed from the
//! operating system's name and the environment values the caller reads.
use vstd::prelude::*;
use crate::config::opt_view;
use crate::paths::{join_path, path_join};
use crate::text::{
    ascii_lower, char_ascii_lower, chars_of, owned, push_char, push_chars, replace_char,
    replace_chars, starts_with, str_eq,
};

verus! {

/// The operating systems the tracker knows.
#[derive(Debug, Clone, Copy, PartialEq, Eq, Structural)]
pub enum OsType {
    Linux,
    Windows,
    MacOs,
    Unknown,
}

/// The operating system named by a Rust target name (`std::env::consts::OS`).
pub open spec fn os_from_name(name: Seq<char>) -> OsType {
    if name == "linux"@ {
        OsType::Linux
    } else if name == "windows"@ {
        OsType::Windows
    } else if name == "macos"@ {
        OsType::MacOs
    } else {
        OsType::Unknown
    }
}

/// The home directory: HOME, else USERPROFILE, else a fixed fallback
/// ("C:\Users\Default" on Windows, "/tmp" elsewhere).
pub open spec fn home_text(os: OsType, home: Option<Seq<char>>, user_profile: Option<Seq<char>>) -> Seq<char> {
    match home {
        Some(h) => h,
        None => match user_profile {
            Some(u) => u,
            None => if os == OsType::Windows {
                "C:\\Users\\Default"@
            } else {
                "/tmp"@
            },
        },
    }
}

/// A separator of path components on Windows.
pub open spec fn win_sep(c: char) -> bool {
    c == '\\' || c == '/'
}

/// A drive prefix alone, such as "C:".
pub open spec fn drive_only(p: Seq<char>) -> bool {
    p.len() == 2 && p[1] == ':' && (('a' <= p[0] && p[0] <= 'z') || ('A' <= p[0] && p[0] <= 'Z'))
}

/// A single plain component `name` appended to `base` as `PathBuf::join`
/// does on Windows: with a '\' between them, unless `base` is empty, ends
/// with a separator, or is a drive alone.
pub open spec fn win_join(base: Seq<char>, name: Seq<char>) -> Seq<char> {
    if base.len() == 0 || win_sep(base.last()) || drive_only(base) {
        base + name
    } else {
        base + seq!['\\'] + name
    }
}

/// A single plain component appended to a path the way the operating
/// system joins paths: as on Windows for Windows, as on Unix otherwise.
pub open spec fn os_join(os: OsType, base: Seq<char>, name: Seq<char>) -> Seq<char> {
    if os == OsType::Windows {
        win_join(base, name)
    } else {
        path_join(base, name)
    }
}

/// The base directory for per-user application files: LOCALAPPDATA (else
/// home\AppData\Local, joined as on Windows) on Windows, home/Library/Application Support on
/// macOS, and elsewhere `xdg` (else home joined with `fallback`).
pub open spec fn app_base(
    os: OsType,
    local_app_data: Option<Seq<char>>,
    xdg: Option<Seq<char>>,
    home: Seq<char>,
    fallback: Seq<Seq<char>>,
) -> Seq<char> {
    if os == OsType::Windows {
        match local_app_data {
            Some(l) => l,
            None => win_join(win_join(home, "AppData"@), "Local"@),
        }
    } else if os == OsType::MacOs {
        path_join(path_join(home, "Library"@), "Application Support"@)
    } else {
        match xdg {
            Some(x) => x,
            None => if fallback.len() == 2 {
                path_join(path_join(home, fallback[0]), fallback[1])
            } else {
                path_join(home, fallback[0])
            },
        }
    }
}

/// A path with a leading "~/" or "~\" replaced by the home directory, and
/// a lone "~" meaning the home directory.
pub open spec fn expand_path_text(path: Seq<char>, home: Seq<char>) -> Seq<char> {
    if starts_with(path, "~/"@) || starts_with(path, "~\\"@) {
        path_join(home, path.skip(2))
    } else if path == "~"@ {
        home
    } else {
        path
    }
}

/// A host path as a Docker volume path: on Windows, backslashes become
/// forward slashes and a leading drive "C:" becomes "/c"; elsewhere the
/// path is used as it is.
pub open spec fn docker_path_text(path: Seq<char>, os: OsType) -> Seq<char> {
    if os == OsType::Windows {
        let p = replace_char(path, '\\', seq!['/']);
        if p.len() >= 2 && (p[0] as u32) < 128 && p[1] == ':' {
            seq!['/', ascii_lower(p[0])] + p.skip(2)
        } else {
            p
        }
    } else {
        path
    }
}

/// The operating system named by a Rust target name.
pub fn detect_os(target_os: &str) -> (os: OsType)
    ensures
        os == os_from_name(target_os@),
{
    if str_eq(target_os, "linux") {
        OsType::Linux
    } else if str_eq(target_os, "windows") {
        OsType::Windows
    } else if str_eq(target_os, "macos") {
        OsType::MacOs
    } else {
        OsType::Unknown
    }
}

/// The home directory, from the values of HOME and USERPROFILE.
pub fn home_dir(os: OsType, home: Option<&str>, user_profile: Option<&str>) -> (h: String)
    ensures
        h@ == home_text(os, opt_view(home), opt_view(user_profile)),
{
    match home {
        Some(h) => owned(h),
        None => match user_profile {
            Some(u) => owned(u),
            None => if os == OsType::Windows {
                owned("C:\\Users\\Default")
            } else {
                owned("/tmp")
            },
        },
    }
}

/// The per-user data directory of the tracker ("experiment-tracker" under
/// LOCALAPPDATA on Windows, Library/Application Support on macOS, and
/// XDG_DATA_HOME or ~/.local/share elsewhere).
pub fn data_dir(os: OsType, local_app_data: Option<&str>, xdg_data_home: Option<&str>, home: &str) -> (d: String)
    ensures
        d@ == os_join(
            os,
            app_base(os, opt_view(local_app_data), opt_view(xdg_data_home), home@, seq![".local"@, "share"@]),
            "experiment-tracker"@,
        ),
{
    let base = app_dir_base(os, local_app_data, xdg_data_home, home, true);
    join_name(os, base.as_str(), "experiment-tracker")
}

/// The per-user configuration directory of the tracker ("experiment-tracker"
/// under LOCALAPPDATA on Windows, Library/Application Support on macOS, and
/// XDG_CONFIG_HOME or ~/.config elsewhere).
pub fn config_dir(os: OsType, local_app_data: Option<&str>, xdg_config_home: Option<&str>, home: &str) -> (d: String)
    ensures
        d@ == os_join(
            os,
            app_base(os, opt_view(local_app_data), opt_view(xdg_config_home), home@, seq![".config"@]),
            "experiment-tracker"@,
        ),
{
    let base = app_dir_base(os, local_app_data, xdg_config_home, home, false);
    join_name(os, base.as_str(), "experiment-tracker")
}

fn app_dir_base(os: OsType, local_app_data: Option<&str>, xdg: Option<&str>, home: &str, data: bool) -> (b: String)
    ensures
        data ==> b@ == app_base(os, opt_view(local_app_data), opt_view(xdg), home@, seq![".local"@, "share"@]),
        !data ==> b@ == app_base(os, opt_view(local_app_data), opt_view(xdg), home@, seq![".config"@]),
{
    if os == OsType::Windows {
        match local_app_data {
            Some(l) => owned(l),
            None => {
                let a = join_name(os, home, "AppData");
                join_name(os, a.as_str(), "Local")
            },
        }
    } else if os == OsType::MacOs {
        let a = join_path(home, "Library");
        join_path(a.as_str(), "Application Support")
    } else {
        match xdg {
            Some(x) => owned(x),
            None => if data {
                let a = join_path(home, ".local");
                join_path(a.as_str(), "share")
            } else {
                join_path(home, ".config")
            },
        }
    }
}

/// A plain component appended to a path as the operating system joins
/// paths (see `os_join`).
fn join_name(os: OsType, base: &str, name: &str) -> (r: String)
    ensures
        r@ == os_join(os, base@, name@),
{
    if os == OsType::Windows {
        let b = chars_of(base);
        let n = b.len();
        let no_sep = n == 0 || b[n - 1] == '\\' || b[n - 1] == '/' || (n == 2 && b[1] == ':' && (('a' <= b[0]
            && b[0] <= 'z') || ('A' <= b[0] && b[0] <= 'Z')));
        let mut r = owned(base);
        if !no_sep {
            push_char(&mut r, '\\');
        }
        crate::text::push_str(&mut r, name);
        r
    } else {
        join_path(base, name)
    }
}

/// The default database file inside the data directory.
pub fn default_db_path(os: OsType, data_dir: &str) -> (p: String)
    ensures
        p@ == os_join(os, data_dir@, "tracker.db"@),
{
    join_name(os, data_dir, "tracker.db")
}

/// The default configuration file inside the configuration directory.
pub fn default_config_path(os: OsType, config_dir: &str) -> (p: String)
    ensures
        p@ == os_join(os, config_dir@, "config.toml"@),
{
    join_name(os, config_dir, "config.toml")
}

/// A path with "~" expanded to the home directory.
pub fn expand_path(path: &str, home: &str) -> (p: String)
    ensures
        p@ == expand_path_text(path@, home@),
{
    let v = chars_of(path);
    proof {
        reveal_strlit("~/");
        reveal_strlit("~\\");
        reveal_strlit("~");
    }
    if v.len() >= 2 && v[0] == '~' && (v[1] == '/' || v[1] == '\\') {
        proof {
            if v[1] == '/' {
                assert(path@.subrange(0, 2) =~= "~/"@);
            } else {
                assert(path@.subrange(0, 2) =~= "~\\"@);
            }
        }
        let rest = crate::text::string_of(&crate::config::chars_after(&v, 2));
        assert(starts_with(path@, "~/"@) || starts_with(path@, "~\\"@));
        let r = join_path(home, rest.as_str());
        assert(r@ == expand_path_text(path@, home@));
        r
    } else {
        proof {
            if starts_with(path@, "~/"@) {
                assert(path@.subrange(0, 2)[0] == '~');
                assert(path@.subrange(0, 2)[1] == '/');
                assert(path@[0] == '~' && path@[1] == '/');
            }
            if starts_with(path@, "~\\"@) {
                assert(path@.subrange(0, 2)[0] == '~');
                assert(path@.subrange(0, 2)[1] == '\\');
                assert(path@[0] == '~' && path@[1] == '\\');
            }
        }
        if v.len() == 1 && v[0] == '~' {
            assert(path@ =~= "~"@);
            assert(!starts_with(path@, "~/"@));
            assert(!starts_with(path@, "~\\"@));
            let r = owned(home);
            assert(r@ == expand_path_text(path@, home@));
            r
        } else {
            proof {
                if path@ == "~"@ {
                    assert(path@[0] == '~');
                }
            }
            owned(path)
        }
    }
}

/// A host path as a Docker volume path.
pub fn to_docker_path(path: &str, os: OsType) -> (p: String)
    ensures
        p@ == docker_path_text(path@, os),
{
    if os != OsType::Windows {
        return owned(path);
    }
    let v = chars_of(path);
    let mut slash: Vec<char> = Vec::new();
    slash.push('/');
    let w = replace_chars(&v, '\\', &slash);
    assert(slash@ == seq!['/']);
    if w.len() >= 2 && (w[0] as u32) < 128 && w[1] == ':' {
        let mut out = String::new();
        push_char(&mut out, '/');
        push_char(&mut out, char_ascii_lower(w[0]));
        let rest = crate::config::chars_after(&w, 2);
        push_chars(&mut out, &rest);
        out
    } else {
        crate::text::string_of(&w)
    }
}

/// Whether the terminal is expected to show Unicode: always outside
/// Windows; on Windows only when WT_SESSION or TERM_PROGRAM is set.
pub fn supports_unicode(os: OsType, wt_session_set: bool, term_program_set: bool) -> (b: bool)
    ensures
        b == (os != OsType::Windows || wt_session_set || term_program_set),
{
    if os == OsType::Windows {
        wt_session_set || term_program_set
    } else {
        true
    }
}

} // verus!
