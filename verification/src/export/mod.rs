//! Exports of runs and comparisons as CSV, Markdown and LaTeX documents,
//! and the names of the files they are written to.
pub mod csv;
pub mod latex;
pub mod markdown;
pub mod table;

use vstd::prelude::*;
use crate::clock::now_local;
use crate::models::{compact_text, Timestamp};
use crate::paths::{join_path, path_join};
use crate::text::{char_is_alnum, chars_of, is_alnum, push_char, push_str, views};

verus! {

/// A file-name character: letters, digits, '-', '_' and '.' are kept,
/// everything else becomes '_'.
pub open spec fn file_char(c: char) -> char {
    if is_alnum(c) || c == '-' || c == '_' || c == '.' {
        c
    } else {
        '_'
    }
}

/// A text made safe for use as a file name.
pub open spec fn sanitized(s: Seq<char>) -> Seq<char> {
    s.map_values(|c: char| file_char(c))
}

/// The name of an export file written at `now`: the sanitized run name,
/// '_', the compact timestamp, '.', the extension.
pub open spec fn export_file_name(run: Seq<char>, ext: Seq<char>, now: Timestamp) -> Seq<char> {
    sanitized(run) + seq!['_'] + compact_text(now) + seq!['.'] + ext
}

/// Where an export of `run` is written at `now`: in the "exports"
/// directory under `base`.
pub open spec fn export_path_text(base: Seq<char>, run: Seq<char>, ext: Seq<char>, now: Timestamp) -> Seq<char> {
    path_join(path_join(base, "exports"@), export_file_name(run, ext, now))
}

/// A text made safe for use as a file name.
pub fn sanitize_filename(s: &str) -> (r: String)
    ensures
        r@ == sanitized(s@),
{
    let v = chars_of(s);
    let mut r = String::new();
    let mut i: usize = 0;
    while i < v.len()
        invariant
            i <= v.len(),
            r@ == v@.take(i as int).map_values(|c: char| file_char(c)),
        decreases v.len() - i,
    {
        let c = v[i];
        if char_is_alnum(c) || c == '-' || c == '_' || c == '.' {
            push_char(&mut r, c);
        } else {
            push_char(&mut r, '_');
        }
        i = i + 1;
        assert(v@.take(i as int).map_values(|c: char| file_char(c)) == v@.take(i - 1).map_values(
            |c: char| file_char(c),
        ).push(file_char(c)));
    }
    assert(v@.take(v.len() as int) == v@);
    r
}

/// The directory exports go to: the first watch directory, or "." when
/// there is none.
pub open spec fn export_base(watch_dirs: Seq<String>) -> Seq<char> {
    if watch_dirs.len() > 0 {
        watch_dirs[0]@
    } else {
        "."@
    }
}

/// The directory exports go to: the first watch directory, or "." when
/// there is none.
pub fn export_base_dir(watch_dirs: &[String]) -> (d: String)
    ensures
        d@ == export_base(watch_dirs@),
{
    if watch_dirs.len() > 0 {
        crate::text::owned(watch_dirs[0].as_str())
    } else {
        crate::text::owned(".")
    }
}

/// An export ready to be written: the directory to create, the file to
/// write and its text.
#[derive(Debug, Clone)]
pub struct ExportFile {
    pub dir: String,
    pub path: String,
    pub content: String,
}

/// Whether `f` is the export of `content` for `run` with extension `ext`,
/// made at `now` under `base`.
pub open spec fn export_file_is(f: ExportFile, base: Seq<char>, run: Seq<char>, ext: Seq<char>, content: Seq<char>, now: Timestamp) -> bool {
    &&& f.dir@ == path_join(base, "exports"@)
    &&& f.path@ == export_path_text(base, run, ext, now)
    &&& f.content@ == content
}

/// The export of `content` for `run_name` made at `now`: the file
/// "<sanitized name>_<timestamp>.<extension>" in the "exports" directory
/// under `base_dir`. The caller creates the directory and writes the file.
pub fn write_export_at(base_dir: &str, run_name: &str, extension: &str, content: &str, now: &Timestamp) -> (f: ExportFile)
    ensures
        export_file_is(f, base_dir@, run_name@, extension@, content@, *now),
{
    let dir = join_path(base_dir, "exports");
    let mut name = sanitize_filename(run_name);
    push_char(&mut name, '_');
    let stamp = now.format_compact();
    push_str(&mut name, stamp.as_str());
    push_char(&mut name, '.');
    push_str(&mut name, extension);
    assert(name@ == export_file_name(run_name@, extension@, *now));
    let path = join_path(dir.as_str(), name.as_str());
    ExportFile { dir, path, content: crate::text::owned(content) }
}

/// The export of `content` for `run_name` made now (see `write_export_at`).
pub fn write_export(base_dir: &str, run_name: &str, extension: &str, content: &str) -> (f: ExportFile)
    ensures
        exists|now: Timestamp| crate::time::valid_timestamp(now) && export_file_is(f, base_dir@, run_name@, extension@, content@, now),
{
    let now = now_local();
    write_export_at(base_dir, run_name, extension, content, &now)
}

/// The export of a comparison made now: as for a run named "comparison".
pub fn write_compare_export(base_dir: &str, extension: &str, content: &str) -> (f: ExportFile)
    ensures
        exists|now: Timestamp| crate::time::valid_timestamp(now) && export_file_is(f, base_dir@, "comparison"@, extension@, content@, now),
{
    write_export(base_dir, "comparison", extension, content)
}

} // verus!
