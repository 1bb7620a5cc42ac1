//! Reading experiment logs: which files are logs, which format a log is
//! in, and turning CSV and JSON-lines logs into metric records and
//! hyperparameters.
use vstd::prelude::*;
use serde_json::Value;
use crate::config::ParserConfig;
use vstd::utf8::{decode_utf8, encode_utf8, is_char_boundary};
use vstd::string::StringSliceAdditionalSpecFns;
use crate::numbers::{is_float, is_float_text, parse_i64, parse_i64_spec};
use crate::paths::{path_ext, path_extension};
use crate::text::{
    chars_of, copy_chars, has_char, lines, lines_of, owned, push_str, split_chars, split_on,
    starts_with, string_of, trim, trim_chars, trim_start,
};

verus! {

/// The formats a log file can be in.
#[derive(Debug, Clone, Copy, PartialEq, Eq, Structural)]
pub enum LogFormat {
    JsonLines,
    Csv,
}

/// A JSON value below the top level of a log line, as far as the parser
/// looks at it: numbers keep their text (what `Number::to_string` prints)
/// and their `i64` value when they have one; arrays and objects keep only
/// their compact JSON text.
#[derive(Debug, Clone)]
pub enum JsonValue {
    Null,
    Bool(bool),
    Number { text: String, integer: Option<i64> },
    Str(String),
    Array(String),
    Object(String),
}

/// A field of a log line's object: a value, or an object with its entries.
#[derive(Debug, Clone)]
pub enum JsonField {
    Value(JsonValue),
    Entries(Vec<(String, JsonValue)>),
}

/// A parsed log line: an object with its entries in order, or anything else.
#[derive(Debug, Clone)]
pub enum JsonLine {
    Object(Vec<(String, JsonField)>),
    Other,
}

/// One record of a log: optional epoch and step, and metric values by name
/// (each name once), the values kept as the number texts of the log.
#[derive(Debug, Clone)]
pub struct ParsedRecord {
    pub epoch: Option<i64>,
    pub step: Option<i64>,
    pub metrics: Vec<(String, String)>,
}

/// A CSV line that was passed over because its field count differs from
/// the header's (`line` counts from 1).
#[derive(Debug, Clone, Copy, PartialEq, Eq, Structural)]
pub struct SkippedLine {
    pub line: usize,
    pub found: usize,
    pub expected: usize,
}

/// A parsed log: its records in file order, its hyperparameters by key
/// (each key once), and the CSV lines passed over.
#[derive(Debug, Clone)]
pub struct ParsedLog {
    pub records: Vec<ParsedRecord>,
    pub hyperparams: Vec<(String, String)>,
    pub skipped: Vec<SkippedLine>,
}

/// Why a log could not be parsed.
#[derive(Debug, Clone)]
pub enum ParseError {
    /// The CSV text has no line at all.
    EmptyCsv,
    /// A JSON line is not valid JSON (`line` counts from 1; `snippet` is the
    /// line cut to 50 bytes with "..." appended when longer).
    InvalidJson { line: usize, snippet: String },
    /// Neither the configuration nor the file tells the format.
    UnknownFormat(String),
    /// The log file (named here) could not be read.
    ReadFailed(String),
}

/// Name-value pairs as texts.
pub open spec fn pairs_view(v: Seq<(String, String)>) -> Seq<(Seq<char>, Seq<char>)> {
    v.map_values(|p: (String, String)| (p.0@, p.1@))
}

/// The first position of key `k`.
pub open spec fn key_index(m: Seq<(Seq<char>, Seq<char>)>, k: Seq<char>) -> Option<int>
    decreases m.len(),
{
    if m.len() == 0 {
        None
    } else {
        match key_index(m.drop_last(), k) {
            Some(i) => Some(i),
            None => if m.last().0 == k {
                Some(m.len() - 1)
            } else {
                None
            },
        }
    }
}

/// Key `k` set to `v`: replaced in place when present, appended otherwise
/// (what inserting into a map does to its contents).
pub open spec fn map_put(m: Seq<(Seq<char>, Seq<char>)>, k: Seq<char>, v: Seq<char>) -> Seq<
    (Seq<char>, Seq<char>),
> {
    match key_index(m, k) {
        Some(i) => m.update(i, (k, v)),
        None => m.push((k, v)),
    }
}

/// A record as plain values.
pub open spec fn record_view(r: ParsedRecord) -> (Option<i64>, Option<i64>, Seq<(Seq<char>, Seq<char>)>) {
    (r.epoch, r.step, pairs_view(r.metrics@))
}

/// Records as plain values.
pub open spec fn records_view(v: Seq<ParsedRecord>) -> Seq<(Option<i64>, Option<i64>, Seq<(Seq<char>, Seq<char>)>)> {
    v.map_values(|r: ParsedRecord| record_view(r))
}

/// Skipped lines as plain values.
pub open spec fn skipped_view(v: Seq<SkippedLine>) -> Seq<(int, int, int)> {
    v.map_values(|s: SkippedLine| (s.line as int, s.found as int, s.expected as int))
}

/// The file extensions of log files.
pub open spec fn is_log_extension(e: Seq<char>) -> bool {
    e == "jsonl"@ || e == "ndjson"@ || e == "csv"@ || e == "json"@ || e == "log"@
}

/// What `serde_json::from_str::<serde_json::Value>` makes of a text, as a
/// log line (see `JsonLine`): `None` when the text is not valid JSON.
pub uninterp spec fn json_line_of(text: Seq<char>) -> Option<JsonLine>;

/// Valid JSON text, as `serde_json::from_str::<Value>` decides it.
pub open spec fn json_valid(s: Seq<char>) -> bool {
    json_line_of(s) is Some
}

/// The first line of a text, or the empty text when it has none.
pub open spec fn first_line(c: Seq<char>) -> Seq<char> {
    if lines_of(c).len() > 0 {
        lines_of(c)[0]
    } else {
        seq![]
    }
}

/// The format of a log: by extension first ("jsonl" and "ndjson" are JSON
/// lines, "csv" is CSV, "json" is JSON lines when its first line starts
/// with '{'); otherwise by content: a first line (trimmed) that starts with
/// '{' and is valid JSON means JSON lines, one that holds a comma and does
/// not start with '{' means CSV. `content` is `None` when the file could
/// not be read.
pub open spec fn detect_format_spec(path: Seq<char>, content: Option<Seq<char>>) -> Option<LogFormat> {
    let ext = path_extension(path);
    if ext == Some("jsonl"@) || ext == Some("ndjson"@) {
        Some(LogFormat::JsonLines)
    } else if ext == Some("csv"@) {
        Some(LogFormat::Csv)
    } else if ext == Some("json"@) && content.is_some() && starts_with(
        trim_start(first_line(content.unwrap())),
        "{"@,
    ) {
        Some(LogFormat::JsonLines)
    } else {
        match content {
            None => None,
            Some(c) => {
                let fl = trim(first_line(c));
                if starts_with(fl, "{"@) && json_valid(fl) {
                    Some(LogFormat::JsonLines)
                } else if has_char(fl, ',') && !starts_with(fl, "{"@) {
                    Some(LogFormat::Csv)
                } else {
                    None
                }
            },
        }
    }
}

/// The trimmed pieces of a CSV line.
pub open spec fn csv_fields(l: Seq<char>) -> Seq<Seq<char>> {
    split_on(l, ',').map_values(|f: Seq<char>| trim(f))
}

/// The position of the first header named `name`.
pub open spec fn header_index(hs: Seq<Seq<char>>, name: Seq<char>) -> Option<int>
    decreases hs.len(),
{
    if hs.len() == 0 {
        None
    } else {
        match header_index(hs.drop_last(), name) {
            Some(i) => Some(i),
            None => if hs.last() == name {
                Some(hs.len() - 1)
            } else {
                None
            },
        }
    }
}

/// Columns that do not hold metrics: epoch, step and time stamps.
pub open spec fn csv_skip_column(h: Seq<char>, cfg: ParserConfig) -> bool {
    h == cfg.epoch_field@ || h == cfg.step_field@ || h == "timestamp"@ || h == "time"@ || h
        == "datetime"@
}

/// The metrics of the first `n` columns of a CSV line: every metric
/// column whose field is a number.
pub open spec fn csv_metrics(hs: Seq<Seq<char>>, fs: Seq<Seq<char>>, cfg: ParserConfig, n: int) -> Seq<
    (Seq<char>, Seq<char>),
>
    decreases n,
{
    if n <= 0 {
        seq![]
    } else {
        let acc = csv_metrics(hs, fs, cfg, n - 1);
        if !csv_skip_column(hs[n - 1], cfg) && is_float_text(fs[n - 1]) {
            map_put(acc, hs[n - 1], fs[n - 1])
        } else {
            acc
        }
    }
}

/// An integer field read at an optional column.
pub open spec fn int_at(fs: Seq<Seq<char>>, idx: Option<int>) -> Option<i64> {
    match idx {
        Some(i) => parse_i64_spec(fs[i]),
        None => None,
    }
}

/// The record of a CSV data line, if it yields one: the line is not blank,
/// has as many fields as the header, and has at least one metric.
pub open spec fn csv_line_record(l: Seq<char>, hs: Seq<Seq<char>>, cfg: ParserConfig) -> Option<
    (Option<i64>, Option<i64>, Seq<(Seq<char>, Seq<char>)>),
> {
    let t = trim(l);
    let fs = csv_fields(t);
    if t.len() == 0 || fs.len() != hs.len() {
        None
    } else {
        let ms = csv_metrics(hs, fs, cfg, hs.len() as int);
        if ms.len() == 0 {
            None
        } else {
            Some(
                (
                    int_at(fs, header_index(hs, cfg.epoch_field@)),
                    int_at(fs, header_index(hs, cfg.step_field@)),
                    ms,
                ),
            )
        }
    }
}

/// The records of the data lines 1..n of a CSV text.
pub open spec fn csv_records(ls: Seq<Seq<char>>, hs: Seq<Seq<char>>, cfg: ParserConfig, n: int) -> Seq<
    (Option<i64>, Option<i64>, Seq<(Seq<char>, Seq<char>)>),
>
    decreases n,
{
    if n <= 1 {
        seq![]
    } else {
        let prev = csv_records(ls, hs, cfg, n - 1);
        match csv_line_record(ls[n - 1], hs, cfg) {
            Some(r) => prev.push(r),
            None => prev,
        }
    }
}

/// The data lines 1..n of a CSV text whose field count differs from the header's.
pub open spec fn csv_skipped(ls: Seq<Seq<char>>, hs: Seq<Seq<char>>, n: int) -> Seq<(int, int, int)>
    decreases n,
{
    if n <= 1 {
        seq![]
    } else {
        let prev = csv_skipped(ls, hs, n - 1);
        let t = trim(ls[n - 1]);
        let fs = csv_fields(t);
        if t.len() != 0 && fs.len() != hs.len() {
            prev.push((n, fs.len() as int, hs.len() as int))
        } else {
            prev
        }
    }
}

/// The trimmed header names of a CSV text.
pub open spec fn csv_headers(c: Seq<char>) -> Seq<Seq<char>> {
    csv_fields(lines_of(c)[0])
}

/// The text of a JSON value as the hyperparameter table shows it.
pub open spec fn json_value_text(v: JsonValue) -> Seq<char> {
    match v {
        JsonValue::Null => "null"@,
        JsonValue::Bool(b) => if b {
            "true"@
        } else {
            "false"@
        },
        JsonValue::Number { text, integer } => text@,
        JsonValue::Str(s) => s@,
        JsonValue::Array(t) => t@,
        JsonValue::Object(t) => t@,
    }
}

/// The field under key `k` of a line's object (the first one, if repeated).
pub open spec fn field_of(fs: Seq<(String, JsonField)>, k: Seq<char>) -> Option<JsonField>
    decreases fs.len(),
{
    if fs.len() == 0 {
        None
    } else {
        match field_of(fs.drop_last(), k) {
            Some(f) => Some(f),
            None => if fs.last().0@ == k {
                Some(fs.last().1)
            } else {
                None
            },
        }
    }
}

/// An integer read from a field: a JSON number that is an `i64`, or a
/// string that parses as one.
pub open spec fn json_int(f: Option<JsonField>) -> Option<i64> {
    match f {
        Some(JsonField::Value(JsonValue::Number { text, integer })) => integer,
        Some(JsonField::Value(JsonValue::Str(s))) => parse_i64_spec(s@),
        _ => None,
    }
}

/// Keys of a JSON line that are never metrics.
pub open spec fn json_skip_key(k: Seq<char>, cfg: ParserConfig) -> bool {
    k == cfg.epoch_field@ || k == cfg.step_field@ || k == "timestamp"@ || k == "time"@ || k
        == "datetime"@ || k == "hyperparams"@ || k == "config"@
}

/// The metrics of the first `n` fields of a JSON line: every numeric field
/// whose key is not skipped.
pub open spec fn json_metrics(fs: Seq<(String, JsonField)>, cfg: ParserConfig, n: int) -> Seq<
    (Seq<char>, Seq<char>),
>
    decreases n,
{
    if n <= 0 {
        seq![]
    } else {
        let acc = json_metrics(fs, cfg, n - 1);
        let f = fs[n - 1];
        match f.1 {
            JsonField::Value(JsonValue::Number { text, integer }) => if !json_skip_key(f.0@, cfg) {
                map_put(acc, f.0@, text@)
            } else {
                acc
            },
            _ => acc,
        }
    }
}

/// The hyperparameter object of a line: under "hyperparams", or else
/// under "config".
pub open spec fn hp_field(fs: Seq<(String, JsonField)>) -> Option<JsonField> {
    match field_of(fs, "hyperparams"@) {
        Some(f) => Some(f),
        None => field_of(fs, "config"@),
    }
}

/// Hyperparameters after adding the first `n` entries of an object.
pub open spec fn hp_put_all(hp: Seq<(Seq<char>, Seq<char>)>, es: Seq<(String, JsonValue)>, n: int) -> Seq<
    (Seq<char>, Seq<char>),
>
    decreases n,
{
    if n <= 0 {
        hp
    } else {
        map_put(hp_put_all(hp, es, n - 1), es[n - 1].0@, json_value_text(es[n - 1].1))
    }
}

/// Records and hyperparameters after one more parsed line.
pub open spec fn json_step(
    st: (Seq<(Option<i64>, Option<i64>, Seq<(Seq<char>, Seq<char>)>)>, Seq<(Seq<char>, Seq<char>)>),
    line: JsonLine,
    cfg: ParserConfig,
) -> (Seq<(Option<i64>, Option<i64>, Seq<(Seq<char>, Seq<char>)>)>, Seq<(Seq<char>, Seq<char>)>) {
    match line {
        JsonLine::Other => st,
        JsonLine::Object(fs) => match hp_field(fs@) {
            Some(JsonField::Entries(es)) => (st.0, hp_put_all(st.1, es@, es@.len() as int)),
            _ => {
                let ms = json_metrics(fs@, cfg, fs@.len() as int);
                if ms.len() == 0 {
                    st
                } else {
                    (
                        st.0.push(
                            (
                                json_int(field_of(fs@, cfg.epoch_field@)),
                                json_int(field_of(fs@, cfg.step_field@)),
                                ms,
                            ),
                        ),
                        st.1,
                    )
                }
            },
        },
    }
}

/// The non-blank lines of the first `n` lines, trimmed, with their line numbers.
pub open spec fn candidates(ls: Seq<Seq<char>>, n: int) -> Seq<(int, Seq<char>)>
    decreases n,
{
    if n <= 0 {
        seq![]
    } else {
        let prev = candidates(ls, n - 1);
        let t = trim(ls[n - 1]);
        if t.len() == 0 {
            prev
        } else {
            prev.push((n, t))
        }
    }
}

/// The non-blank lines of a text, trimmed, with their line numbers.
pub open spec fn json_candidates(c: Seq<char>) -> Seq<(int, Seq<char>)> {
    candidates(lines_of(c), lines_of(c).len() as int)
}

/// A text cut to `max` bytes of UTF-8 with "..." appended when it is longer.
pub open spec fn truncated(s: Seq<char>, max: int) -> Seq<char> {
    if encode_utf8(s).len() <= max {
        s
    } else {
        decode_utf8(encode_utf8(s).take(max)) + "..."@
    }
}

/// Cutting a text at `max` bytes falls between characters.
pub open spec fn cut_ok(s: Seq<char>, max: int) -> bool {
    encode_utf8(s).len() <= max || is_char_boundary(encode_utf8(s), max)
}

/// The outcome of reading the first `n` candidate lines of a JSON-lines
/// log: the records and hyperparameters so far, or the first invalid line.
pub open spec fn json_outcome(
    cs: Seq<(int, Seq<char>)>,
    parsed: Seq<Option<JsonLine>>,
    cfg: ParserConfig,
    n: int,
) -> Result<
    (Seq<(Option<i64>, Option<i64>, Seq<(Seq<char>, Seq<char>)>)>, Seq<(Seq<char>, Seq<char>)>),
    (int, Seq<char>),
>
    decreases n,
{
    if n <= 0 {
        Ok((seq![], seq![]))
    } else {
        match json_outcome(cs, parsed, cfg, n - 1) {
            Err(e) => Err(e),
            Ok(st) => match parsed[n - 1] {
                None => Err((cs[n - 1].0, truncated(cs[n - 1].1, 50))),
                Some(l) => Ok(json_step(st, l, cfg)),
            },
        }
    }
}

/// Whether a path names a log file: its extension is "jsonl", "ndjson",
/// "csv", "json" or "log".
pub fn is_log_file(path: &str) -> (b: bool)
    ensures
        b == (path_extension(path@).is_some() && is_log_extension(path_extension(path@).unwrap())),
{
    match path_ext(path) {
        Some(e) => {
            let s = string_of(&e);
            let r = crate::text::str_eq(s.as_str(), "jsonl") || crate::text::str_eq(s.as_str(), "ndjson")
                || crate::text::str_eq(s.as_str(), "csv") || crate::text::str_eq(s.as_str(), "json")
                || crate::text::str_eq(s.as_str(), "log");
            r
        },
        None => false,
    }
}

#[verifier::external_type_specification]
#[verifier::external_body]
pub struct ExJsonValue(serde_json::Value);

/// A JSON value below the top level of a log line, converted variant by
/// variant: numbers keep `Number::to_string` and `Number::as_i64`, arrays
/// and objects their compact text (`Value::to_string`). Nothing is stated
/// of the result; `parse_json_line` names what a whole line gives.
#[verifier::external_body]
fn json_value_of(v: &Value) -> JsonValue {
    match v {
        Value::Null => JsonValue::Null,
        Value::Bool(b) => JsonValue::Bool(*b),
        Value::Number(n) => JsonValue::Number { text: n.to_string(), integer: n.as_i64() },
        Value::String(t) => JsonValue::Str(t.clone()),
        Value::Array(_) => JsonValue::Array(v.to_string()),
        Value::Object(_) => JsonValue::Object(v.to_string()),
    }
}

/// `serde_json::from_str::<serde_json::Value>` on a log line, converted to
/// a `JsonLine`: an object with its entries in the map's order (entries
/// that are objects with their own entries), any other JSON value as
/// `Other`, and `None` when the text is not JSON. The contract names the
/// result (`json_line_of`).
#[verifier::external_body]
fn parse_json_line(text: &str) -> (r: Option<JsonLine>)
    ensures
        r == json_line_of(text@),
{
    match serde_json::from_str::<Value>(text) {
        Ok(Value::Object(map)) => Some(JsonLine::Object(map.iter().map(|(k, v)| (k.clone(), match v {
            Value::Object(m) => JsonField::Entries(m.iter().map(|(a, x)| (a.clone(), json_value_of(x))).collect()),
            other => JsonField::Value(json_value_of(other)),
        })).collect())),
        Ok(_) => Some(JsonLine::Other),
        Err(_) => None,
    }
}

fn vec_is(v: &Vec<char>, w: &str) -> (b: bool)
    ensures
        b == (v@ == w@),
{
    let s = string_of(v);
    crate::text::str_eq(s.as_str(), w)
}

fn starts_with_brace(v: &Vec<char>) -> (b: bool)
    ensures
        b == starts_with(v@, "{"@),
{
    proof {
        reveal_strlit("{");
    }
    let b = v.len() > 0 && v[0] == '{';
    proof {
        if b {
            assert(v@.subrange(0, 1) =~= "{"@);
        }
        if starts_with(v@, "{"@) {
            assert(v@.subrange(0, 1)[0] == '{');
        }
    }
    b
}

/// The format of a log file, from its path and (when it could be read)
/// its content.
pub fn detect_format(path: &str, content: Option<&str>) -> (f: Option<LogFormat>)
    ensures
        f == detect_format_spec(path@, crate::config::opt_view(content)),
{
    let ext = path_ext(path);
    let (is_jsonl, is_csv, is_json) = match &ext {
        Some(e) => (vec_is(e, "jsonl") || vec_is(e, "ndjson"), vec_is(e, "csv"), vec_is(e, "json")),
        None => (false, false, false),
    };
    if is_jsonl {
        return Some(LogFormat::JsonLines);
    }
    if is_csv {
        return Some(LogFormat::Csv);
    }
    match content {
        None => None,
        Some(c) => {
            let ls = lines(c);
            let first: Vec<char> = if ls.len() > 0 {
                copy_chars(&ls[0])
            } else {
                Vec::new()
            };
            assert(first@ == first_line(c@));
            if is_json {
                let ts = trim_start_chars(&first);
                if starts_with_brace(&ts) {
                    return Some(LogFormat::JsonLines);
                }
            }
            let fl = trim_chars(&first);
            let brace = starts_with_brace(&fl);
            if brace {
                let fs = string_of(&fl);
                if parse_json_line(fs.as_str()).is_some() {
                    return Some(LogFormat::JsonLines);
                }
            }
            if crate::text::contains_char(&fl, ',') && !brace {
                Some(LogFormat::Csv)
            } else {
                None
            }
        },
    }
}

/// `v` without its leading white space.
pub fn trim_start_chars(v: &Vec<char>) -> (out: Vec<char>)
    ensures
        out@ == trim_start(v@),
{
    let mut a: usize = 0;
    assert(v@.skip(0) == v@);
    while a < v.len() && crate::text::char_is_ws(v[a])
        invariant
            a <= v.len(),
            trim_start(v@) == trim_start(v@.skip(a as int)),
        decreases v.len() - a,
    {
        assert(v@.skip(a as int).skip(1) == v@.skip(a + 1));
        a = a + 1;
    }
    crate::config::chars_after(v, a)
}

/// Sets key `k` to `v` in a list of pairs.
pub fn put_pair(m: &mut Vec<(String, String)>, k: &str, v: String)
    ensures
        pairs_view(final(m)@) == map_put(pairs_view(old(m)@), k@, v@),
{
    let ghost pm = pairs_view(m@);
    let mut i: usize = 0;
    while i < m.len()
        invariant
            i <= m@.len(),
            m@ == old(m)@,
            pm == pairs_view(m@),
            key_index(pm.take(i as int), k@) is None,
        decreases m.len() - i,
    {
        assert(pm.take(i + 1).drop_last() == pm.take(i as int));
        if crate::text::str_eq(m[i].0.as_str(), k) {
            proof {
                assert(pm.take(i + 1).last() == pm[i as int]);
                assert(key_index(pm.take(i + 1), k@) == Some(i as int));
                lemma_key_index_extend(pm, i + 1);
            }
            let key = owned(k);
            m.set(i, (key, v));
            assert(pairs_view(m@) == pm.update(i as int, (k@, v@)));
            return;
        }
        i = i + 1;
    }
    assert(pm.take(m.len() as int) == pm);
    let key = owned(k);
    m.push((key, v));
    assert(pairs_view(m@) == pm.push((k@, v@)));
}

/// Once a prefix holds the key, the whole list holds it at the same place.
pub proof fn lemma_key_index_extend(m: Seq<(Seq<char>, Seq<char>)>, k2: int)
    requires
        0 <= k2 <= m.len(),
    ensures
        forall|k: Seq<char>|
            #![trigger key_index(m.take(k2), k)]
            key_index(m.take(k2), k) is Some ==> key_index(m, k) == key_index(m.take(k2), k),
    decreases m.len(),
{
    if k2 < m.len() {
        assert(m.drop_last().take(k2) == m.take(k2));
        lemma_key_index_extend(m.drop_last(), k2);
    } else {
        assert(m.take(k2) == m);
    }
}

/// Splits a trimmed CSV line into trimmed fields.
fn fields_of(l: &Vec<char>) -> (fs: Vec<Vec<char>>)
    ensures
        fs@.len() == csv_fields(l@).len(),
        forall|k: int| 0 <= k < fs@.len() ==> #[trigger] fs@[k]@ == csv_fields(l@)[k],
{
    let parts = split_chars(l, ',');
    let ghost ps = split_on(l@, ',');
    let mut fs: Vec<Vec<char>> = Vec::new();
    let mut i: usize = 0;
    while i < parts.len()
        invariant
            i <= parts@.len(),
            parts@.len() == ps.len(),
            forall|k: int| 0 <= k < parts@.len() ==> #[trigger] parts@[k]@ == ps[k],
            fs@.len() == i,
            forall|k: int| 0 <= k < i ==> #[trigger] fs@[k]@ == trim(ps[k]),
        decreases parts@.len() - i,
    {
        fs.push(trim_chars(&parts[i]));
        i = i + 1;
    }
    fs
}

fn find_header(hs: &Vec<Vec<char>>, name: &str) -> (r: Option<usize>)
    ensures
        match r {
            Some(i) => i < hs@.len() && header_index(hs@.map_values(|h: Vec<char>| h@), name@) == Some(i as int),
            None => header_index(hs@.map_values(|h: Vec<char>| h@), name@) is None,
        },
{
    let ghost hv = hs@.map_values(|h: Vec<char>| h@);
    let mut i: usize = 0;
    while i < hs.len()
        invariant
            i <= hs@.len(),
            hv == hs@.map_values(|h: Vec<char>| h@),
            header_index(hv.take(i as int), name@) is None,
        decreases hs@.len() - i,
    {
        assert(hv.take(i + 1).drop_last() == hv.take(i as int));
        if vec_is(&hs[i], name) {
            proof {
                lemma_header_index_extend(hv, i + 1, name@);
            }
            return Some(i);
        }
        i = i + 1;
    }
    assert(hv.take(hs.len() as int) == hv);
    None
}

/// Once a prefix holds the name, the whole list holds it at the same place.
pub proof fn lemma_header_index_extend(hs: Seq<Seq<char>>, k2: int, name: Seq<char>)
    requires
        0 <= k2 <= hs.len(),
        header_index(hs.take(k2), name) is Some,
    ensures
        header_index(hs, name) == header_index(hs.take(k2), name),
    decreases hs.len(),
{
    if k2 < hs.len() {
        assert(hs.drop_last().take(k2) == hs.take(k2));
        lemma_header_index_extend(hs.drop_last(), k2, name);
    } else {
        assert(hs.take(k2) == hs);
    }
}

fn is_skip_column(h: &Vec<char>, cfg: &ParserConfig) -> (b: bool)
    ensures
        b == csv_skip_column(h@, *cfg),
{
    vec_is(h, cfg.epoch_field.as_str()) || vec_is(h, cfg.step_field.as_str()) || vec_is(h, "timestamp")
        || vec_is(h, "time") || vec_is(h, "datetime")
}

fn int_field(fs: &Vec<Vec<char>>, idx: Option<usize>) -> (r: Option<i64>)
    requires
        idx.is_some() ==> idx.unwrap() < fs@.len(),
    ensures
        r == int_at(
            fs@.map_values(|f: Vec<char>| f@),
            match idx {
                Some(i) => Some(i as int),
                None => None,
            },
        ),
{
    match idx {
        Some(i) => parse_i64(&fs[i]),
        None => None,
    }
}

/// What parsing the CSV text `c` gives: refused (as empty) only when it has
/// no line; otherwise its records (see `csv_records`), no hyperparameters,
/// and its lines with the wrong field count (see `csv_skipped`).
pub open spec fn csv_parsed(r: Result<ParsedLog, ParseError>, c: Seq<char>, cfg: ParserConfig) -> bool {
    match r {
        Err(e) => lines_of(c).len() == 0 && e is EmptyCsv,
        Ok(log) => {
            let ls = lines_of(c);
            let hs = csv_headers(c);
            &&& ls.len() > 0
            &&& records_view(log.records@) == csv_records(ls, hs, cfg, ls.len() as int)
            &&& log.hyperparams@.len() == 0
            &&& skipped_view(log.skipped@) == csv_skipped(ls, hs, ls.len() as int)
        },
    }
}

/// Parses a CSV log: the first line names the columns; each later line
/// with as many fields as there are columns yields a record when at least
/// one metric column (any column but epoch, step, "timestamp", "time" and
/// "datetime") holds a number; lines with another field count are listed
/// as skipped. Only a text without any line is refused.
pub fn parse_csv(content: &str, config: &ParserConfig) -> (r: Result<ParsedLog, ParseError>)
    ensures
        csv_parsed(r, content@, *config),
{
    let ls = lines(content);
    if ls.len() == 0 {
        return Err(ParseError::EmptyCsv);
    }
    let ghost lsv = lines_of(content@);
    let headers = fields_of(&ls[0]);
    let ghost hs = headers@.map_values(|h: Vec<char>| h@);
    assert(hs == csv_headers(content@));
    let epoch_idx = find_header(&headers, config.epoch_field.as_str());
    let step_idx = find_header(&headers, config.step_field.as_str());
    let mut records: Vec<ParsedRecord> = Vec::new();
    let mut skipped: Vec<SkippedLine> = Vec::new();
    let mut j: usize = 1;
    while j < ls.len()
        invariant
            1 <= j <= ls@.len(),
            ls@.len() == lsv.len(),
            forall|k: int| 0 <= k < ls@.len() ==> #[trigger] ls@[k]@ == lsv[k],
            hs == headers@.map_values(|h: Vec<char>| h@),
            match epoch_idx {
                Some(i) => i < hs.len() && header_index(hs, config.epoch_field@) == Some(i as int),
                None => header_index(hs, config.epoch_field@) is None,
            },
            match step_idx {
                Some(i) => i < hs.len() && header_index(hs, config.step_field@) == Some(i as int),
                None => header_index(hs, config.step_field@) is None,
            },
            records_view(records@) == csv_records(lsv, hs, *config, j as int),
            skipped_view(skipped@) == csv_skipped(lsv, hs, j as int),
        decreases ls@.len() - j,
    {
        let t = trim_chars(&ls[j]);
        if t.len() > 0 {
            let fs = fields_of(&t);
            let ghost fsv = fs@.map_values(|f: Vec<char>| f@);
            assert(fsv == csv_fields(t@));
            if fs.len() != headers.len() {
                skipped.push(SkippedLine { line: j + 1, found: fs.len(), expected: headers.len() });
                assert(skipped_view(skipped@) == skipped_view(skipped@.drop_last()).push(
                    ((j + 1) as int, fs@.len() as int, headers@.len() as int),
                ));
            } else {
                let mut metrics: Vec<(String, String)> = Vec::new();
                let mut c: usize = 0;
                while c < headers.len()
                    invariant
                        c <= headers@.len(),
                        fs@.len() == headers@.len(),
                        hs == headers@.map_values(|h: Vec<char>| h@),
                        fsv == fs@.map_values(|f: Vec<char>| f@),
                        pairs_view(metrics@) == csv_metrics(hs, fsv, *config, c as int),
                    decreases headers@.len() - c,
                {
                    if !is_skip_column(&headers[c], config) && is_float(&fs[c]) {
                        let k = string_of(&headers[c]);
                        let v = string_of(&fs[c]);
                        put_pair(&mut metrics, k.as_str(), v);
                    }
                    c = c + 1;
                }
                if metrics.len() > 0 {
                    let epoch = int_field(&fs, epoch_idx);
                    let step = int_field(&fs, step_idx);
                    let ghost mv = pairs_view(metrics@);
                    records.push(ParsedRecord { epoch, step, metrics });
                    assert(records_view(records@) == records_view(records@.drop_last()).push(
                        (epoch, step, mv),
                    ));
                }
            }
        }
        j = j + 1;
    }
    Ok(ParsedLog { records, hyperparams: Vec::new(), skipped })
}


/// A text cut to `max_len` bytes of UTF-8, with "..." appended when it was longer.
pub fn truncate(s: &str, max_len: usize) -> (r: String)
    requires
        cut_ok(s@, max_len as int),
    ensures
        r@ == truncated(s@, max_len as int),
{
    let byte_len = s.as_bytes().len();
    if byte_len <= max_len {
        assert(encode_utf8(s@).len() <= max_len);
        let r = owned(s);
        assert(r@ == truncated(s@, max_len as int));
        r
    } else {
        let (a, _b) = s.split_at(max_len);
        proof {
            vstd::utf8::encode_utf8_decode_utf8(a@);
            assert(a.spec_bytes() == encode_utf8(s@).take(max_len as int));
        }
        let mut r = owned(a);
        push_str(&mut r, "...");
        assert(a@ == decode_utf8(encode_utf8(s@).take(max_len as int)));
        assert(encode_utf8(s@).len() > max_len);
        assert(r@ == truncated(s@, max_len as int));
        r
    }
}

/// The text under which a JSON value is stored as a hyperparameter.
pub fn json_value_to_string(v: &JsonValue) -> (s: String)
    ensures
        s@ == json_value_text(*v),
{
    match v {
        JsonValue::Null => owned("null"),
        JsonValue::Bool(b) => if *b {
            owned("true")
        } else {
            owned("false")
        },
        JsonValue::Number { text, integer } => owned(text.as_str()),
        JsonValue::Str(s) => owned(s.as_str()),
        JsonValue::Array(t) => owned(t.as_str()),
        JsonValue::Object(t) => owned(t.as_str()),
    }
}

/// The non-blank lines of a text, trimmed, with their line numbers
/// (counting from 1): the lines of a JSON-lines log that must be JSON.
pub fn jsonl_candidates(content: &str) -> (cs: Vec<(usize, String)>)
    ensures
        cs@.len() == json_candidates(content@).len(),
        forall|k: int|
            0 <= k < cs@.len() ==> (#[trigger] cs@[k]).0 as int == json_candidates(content@)[k].0
                && cs@[k].1@ == json_candidates(content@)[k].1,
{
    let ls = lines(content);
    let ghost lsv = lines_of(content@);
    let mut cs: Vec<(usize, String)> = Vec::new();
    let mut j: usize = 0;
    while j < ls.len()
        invariant
            j <= ls@.len(),
            ls@.len() == lsv.len(),
            forall|k: int| 0 <= k < ls@.len() ==> #[trigger] ls@[k]@ == lsv[k],
            cs@.len() == candidates(lsv, j as int).len(),
            forall|k: int|
                0 <= k < cs@.len() ==> (#[trigger] cs@[k]).0 as int == candidates(lsv, j as int)[k].0
                    && cs@[k].1@ == candidates(lsv, j as int)[k].1,
        decreases ls@.len() - j,
    {
        let t = trim_chars(&ls[j]);
        if t.len() > 0 {
            cs.push((j + 1, string_of(&t)));
        }
        j = j + 1;
    }
    cs
}

fn find_field(fs: &Vec<(String, JsonField)>, k: &str) -> (r: Option<usize>)
    ensures
        match r {
            Some(i) => i < fs@.len() && field_of(fs@, k@) == Some(fs@[i as int].1),
            None => field_of(fs@, k@) is None,
        },
{
    let mut i: usize = 0;
    while i < fs.len()
        invariant
            i <= fs@.len(),
            field_of(fs@.take(i as int), k@) is None,
        decreases fs@.len() - i,
    {
        assert(fs@.take(i + 1).drop_last() == fs@.take(i as int));
        if crate::text::str_eq(fs[i].0.as_str(), k) {
            proof {
                assert(field_of(fs@.take(i + 1), k@) == Some(fs@[i as int].1));
                lemma_field_of_extend(fs@, i + 1, k@);
            }
            return Some(i);
        }
        i = i + 1;
    }
    assert(fs@.take(fs.len() as int) == fs@);
    None
}

/// Once a prefix holds the key, the whole object holds it with the same field.
pub proof fn lemma_field_of_extend(fs: Seq<(String, JsonField)>, k2: int, k: Seq<char>)
    requires
        0 <= k2 <= fs.len(),
        field_of(fs.take(k2), k) is Some,
    ensures
        field_of(fs, k) == field_of(fs.take(k2), k),
    decreases fs.len(),
{
    if k2 < fs.len() {
        assert(fs.drop_last().take(k2) == fs.take(k2));
        lemma_field_of_extend(fs.drop_last(), k2, k);
    } else {
        assert(fs.take(k2) == fs);
    }
}

fn json_int_of(fs: &Vec<(String, JsonField)>, k: &str) -> (r: Option<i64>)
    ensures
        r == json_int(field_of(fs@, k@)),
{
    match find_field(fs, k) {
        Some(i) => match &fs[i].1 {
            JsonField::Value(JsonValue::Number { text, integer }) => *integer,
            JsonField::Value(JsonValue::Str(s)) => {
                let v = chars_of(s.as_str());
                parse_i64(&v)
            },
            _ => None,
        },
        None => None,
    }
}

fn is_json_skip_key(k: &str, cfg: &ParserConfig) -> (b: bool)
    ensures
        b == json_skip_key(k@, *cfg),
{
    crate::text::str_eq(k, cfg.epoch_field.as_str()) || crate::text::str_eq(k, cfg.step_field.as_str())
        || crate::text::str_eq(k, "timestamp") || crate::text::str_eq(k, "time")
        || crate::text::str_eq(k, "datetime") || crate::text::str_eq(k, "hyperparams")
        || crate::text::str_eq(k, "config")
}

/// Applies one parsed line to the records and hyperparameters.
fn apply_json_line(
    records: &mut Vec<ParsedRecord>,
    hyperparams: &mut Vec<(String, String)>,
    line: &JsonLine,
    config: &ParserConfig,
)
    ensures
        (records_view(final(records)@), pairs_view(final(hyperparams)@)) == json_step(
            (records_view(old(records)@), pairs_view(old(hyperparams)@)),
            *line,
            *config,
        ),
{
    match line {
        JsonLine::Other => {},
        JsonLine::Object(fs) => {
            let hp = match find_field(fs, "hyperparams") {
                Some(i) => Some(i),
                None => find_field(fs, "config"),
            };
            let is_entries = match hp {
                Some(i) => match &fs[i].1 {
                    JsonField::Entries(_) => true,
                    _ => false,
                },
                None => false,
            };
            if is_entries {
                let i = hp.unwrap();
                match &fs[i].1 {
                    JsonField::Entries(es) => {
                        let ghost start = pairs_view(hyperparams@);
                        let mut k: usize = 0;
                        while k < es.len()
                            invariant
                                k <= es@.len(),
                                pairs_view(hyperparams@) == hp_put_all(start, es@, k as int),
                            decreases es@.len() - k,
                        {
                            let v = json_value_to_string(&es[k].1);
                            put_pair(hyperparams, es[k].0.as_str(), v);
                            k = k + 1;
                        }
                    },
                    _ => {},
                }
            } else {
                let mut metrics: Vec<(String, String)> = Vec::new();
                let mut k: usize = 0;
                while k < fs.len()
                    invariant
                        k <= fs@.len(),
                        pairs_view(metrics@) == json_metrics(fs@, *config, k as int),
                    decreases fs@.len() - k,
                {
                    match &fs[k].1 {
                        JsonField::Value(JsonValue::Number { text, integer }) => {
                            if !is_json_skip_key(fs[k].0.as_str(), config) {
                                put_pair(&mut metrics, fs[k].0.as_str(), owned(text.as_str()));
                            }
                        },
                        _ => {},
                    }
                    k = k + 1;
                }
                if metrics.len() > 0 {
                    let epoch = json_int_of(fs, config.epoch_field.as_str());
                    let step = json_int_of(fs, config.step_field.as_str());
                    let ghost mv = pairs_view(metrics@);
                    records.push(ParsedRecord { epoch, step, metrics });
                    assert(records_view(records@) == records_view(records@.drop_last()).push(
                        (epoch, step, mv),
                    ));
                }
            }
        },
    }
}

/// What each non-blank line of a JSON-lines text parses to (see
/// `json_candidates` and `json_line_of`).
pub open spec fn json_lines_of(c: Seq<char>) -> Seq<Option<JsonLine>> {
    json_candidates(c).map_values(|x: (int, Seq<char>)| json_line_of(x.1))
}

/// The first line that is not JSON (the one the log is refused at) can be
/// cut at 50 bytes between two characters, as its error message needs.
pub open spec fn first_bad_cut_ok(cs: Seq<(int, Seq<char>)>, parsed: Seq<Option<JsonLine>>) -> bool {
    forall|k: int|
        0 <= k < parsed.len() && (#[trigger] parsed[k]) is None && (forall|j: int|
            0 <= j < k ==> parsed[j] is Some) ==> cut_ok(cs[k].1, 50)
}

/// What parsing the JSON-lines text `c` gives (see `json_outcome`): its
/// records and hyperparameters, or the refusal at its first invalid line.
pub open spec fn jsonl_parsed(r: Result<ParsedLog, ParseError>, c: Seq<char>, cfg: ParserConfig) -> bool {
    match json_outcome(json_candidates(c), json_lines_of(c), cfg, json_candidates(c).len() as int) {
        Ok(st) => r is Ok && (records_view(r->Ok_0.records@), pairs_view(r->Ok_0.hyperparams@)) == st
            && r->Ok_0.skipped@.len() == 0,
        Err(e) => invalid_json_error(r, e),
    }
}

/// Each non-blank line of a JSON-lines text, parsed.
fn json_lines(content: &str) -> (ls: Vec<Option<JsonLine>>)
    ensures
        ls@ == json_lines_of(content@),
{
    let cs = jsonl_candidates(content);
    let ghost csv = json_candidates(content@);
    let mut ls: Vec<Option<JsonLine>> = Vec::new();
    let mut k: usize = 0;
    while k < cs.len()
        invariant
            k <= cs@.len(),
            cs@.len() == csv.len(),
            csv == json_candidates(content@),
            forall|i: int| 0 <= i < cs@.len() ==> (#[trigger] cs@[i]).1@ == csv[i].1,
            ls@ == json_lines_of(content@).take(k as int),
        decreases cs@.len() - k,
    {
        let l = parse_json_line(cs[k].1.as_str());
        proof {
            assert(cs@[k as int].1@ == csv[k as int].1);
        }
        ls.push(l);
        assert(json_lines_of(content@).take(k + 1) == json_lines_of(content@).take(k as int).push(
            json_lines_of(content@)[k as int],
        ));
        k = k + 1;
    }
    assert(json_lines_of(content@).take(cs@.len() as int) == json_lines_of(content@));
    ls
}

/// Builds a JSON-lines log from its parsed lines (`parsed[k]` for the k-th
/// candidate line, see `json_outcome`).
fn parse_parsed_lines(content: &str, config: &ParserConfig, parsed: &[Option<JsonLine>]) -> (r: Result<
    ParsedLog,
    ParseError,
>)
    requires
        parsed@.len() == json_candidates(content@).len(),
        first_bad_cut_ok(json_candidates(content@), parsed@),
    ensures
        match json_outcome(json_candidates(content@), parsed@, *config, parsed@.len() as int) {
            Ok(st) => r is Ok && (records_view(r->Ok_0.records@), pairs_view(r->Ok_0.hyperparams@))
                == st && r->Ok_0.skipped@.len() == 0,
            Err(e) => invalid_json_error(r, e),
        },
{
    let cs = jsonl_candidates(content);
    let ghost csv = json_candidates(content@);
    let mut records: Vec<ParsedRecord> = Vec::new();
    let mut hyperparams: Vec<(String, String)> = Vec::new();
    let mut n: usize = 0;
    assert(records_view(records@) =~= seq![]);
    assert(pairs_view(hyperparams@) =~= seq![]);
    while n < parsed.len()
        invariant
            n <= parsed@.len(),
            csv == json_candidates(content@),
            parsed@.len() == csv.len(),
            cs@.len() == csv.len(),
            forall|k: int|
                0 <= k < cs@.len() ==> (#[trigger] cs@[k]).0 as int == csv[k].0 && cs@[k].1@ == csv[k].1,
            first_bad_cut_ok(csv, parsed@),
            forall|j: int| 0 <= j < n ==> (#[trigger] parsed@[j]) is Some,
            json_outcome(csv, parsed@, *config, n as int) == Ok::<
                (
                    Seq<(Option<i64>, Option<i64>, Seq<(Seq<char>, Seq<char>)>)>,
                    Seq<(Seq<char>, Seq<char>)>,
                ),
                (int, Seq<char>),
            >((records_view(records@), pairs_view(hyperparams@))),
        decreases parsed@.len() - n,
    {
        match &parsed[n] {
            None => {
                assert(cs@[n as int].1@ == csv[n as int].1);
                assert(parsed@[n as int] is None);
                assert(cut_ok(csv[n as int].1, 50));
                let snippet = truncate(cs[n].1.as_str(), 50);
                let line = cs[n].0;
                assert(json_outcome(csv, parsed@, *config, n + 1) == Err::<
                    (
                        Seq<(Option<i64>, Option<i64>, Seq<(Seq<char>, Seq<char>)>)>,
                        Seq<(Seq<char>, Seq<char>)>,
                    ),
                    (int, Seq<char>),
                >((csv[n as int].0, truncated(csv[n as int].1, 50))));
                proof {
                    lemma_json_outcome_err_stays(csv, parsed@, *config, n + 1, parsed@.len() as int);
                }
                assert(line as int == csv[n as int].0 && snippet@ == truncated(csv[n as int].1, 50));
                return Err(ParseError::InvalidJson { line, snippet });
            },
            Some(l) => {
                apply_json_line(&mut records, &mut hyperparams, l, config);
            },
        }
        n = n + 1;
    }
    Ok(ParsedLog { records, hyperparams, skipped: Vec::new() })
}

/// Parses a JSON-lines log. Each non-blank line is read with serde_json
/// (see `json_line_of`), in order: the first invalid line refuses the log;
/// a line that is not an object is passed over; an object with a
/// "hyperparams" entry (or else a "config" entry) that is an object adds
/// its entries to the hyperparameters; any other object yields a record of
/// its numeric entries (all but epoch, step, "timestamp", "time",
/// "datetime", "hyperparams" and "config"), with epoch and step read as
/// integers, when it has at least one.
pub fn parse_jsonl(content: &str, config: &ParserConfig) -> (r: Result<ParsedLog, ParseError>)
    requires
        first_bad_cut_ok(json_candidates(content@), json_lines_of(content@)),
    ensures
        jsonl_parsed(r, content@, *config),
{
    let ls = json_lines(content);
    parse_parsed_lines(content, config, ls.as_slice())
}

/// Whether a result is the refusal of a JSON-lines log at the given line
/// number with the given snippet.
pub open spec fn invalid_json_error(r: Result<ParsedLog, ParseError>, e: (int, Seq<char>)) -> bool {
    match r {
        Err(ParseError::InvalidJson { line, snippet }) => line as int == e.0 && snippet@ == e.1,
        _ => false,
    }
}

/// Once an invalid line is met, the outcome stays that error.
pub proof fn lemma_json_outcome_err_stays(
    cs: Seq<(int, Seq<char>)>,
    parsed: Seq<Option<JsonLine>>,
    cfg: ParserConfig,
    a: int,
    b: int,
)
    requires
        0 <= a <= b,
        json_outcome(cs, parsed, cfg, a) is Err,
    ensures
        json_outcome(cs, parsed, cfg, b) == json_outcome(cs, parsed, cfg, a),
    decreases b - a,
{
    if a < b {
        lemma_json_outcome_err_stays(cs, parsed, cfg, a, b - 1);
    }
}

/// The format to read a log in: the configured one ("jsonl" or "csv"), or
/// else the detected one; refused when neither tells.
pub fn choose_format(config: &ParserConfig, path: &str, content: Option<&str>) -> (r: Result<
    LogFormat,
    ParseError,
>)
    ensures
        config.default_format@ == "jsonl"@ ==> r == Ok::<LogFormat, ParseError>(LogFormat::JsonLines),
        config.default_format@ == "csv"@ ==> r == Ok::<LogFormat, ParseError>(LogFormat::Csv),
        config.default_format@ != "jsonl"@ && config.default_format@ != "csv"@ ==> match detect_format_spec(
            path@,
            crate::config::opt_view(content),
        ) {
            Some(f) => r == Ok::<LogFormat, ParseError>(f),
            None => (r matches Err(ParseError::UnknownFormat(p)) && p@ == path@),
        },
{
    proof {
        reveal_strlit("jsonl");
        reveal_strlit("csv");
        assert("jsonl"@.len() != "csv"@.len());
    }
    if crate::text::str_eq(config.default_format.as_str(), "jsonl") {
        Ok(LogFormat::JsonLines)
    } else if crate::text::str_eq(config.default_format.as_str(), "csv") {
        Ok(LogFormat::Csv)
    } else {
        match detect_format(path, content) {
            Some(f) => Ok(f),
            None => Err(ParseError::UnknownFormat(owned(path))),
        }
    }
}

/// The format a log is read in: the configured one ("jsonl" or "csv"),
/// else the detected one (see `detect_format_spec`).
pub open spec fn format_for(cfg: ParserConfig, path: Seq<char>, content: Option<Seq<char>>) -> Option<LogFormat> {
    if cfg.default_format@ == "jsonl"@ {
        Some(LogFormat::JsonLines)
    } else if cfg.default_format@ == "csv"@ {
        Some(LogFormat::Csv)
    } else {
        detect_format_spec(path, content)
    }
}

/// Parses the log file at `path` from its content (`None` when it could not
/// be read): refused when its format is unknown, or when it has to be read
/// and could not be; otherwise parsed as CSV or as JSON lines. The result
/// is `None` only for a JSON-lines log whose first invalid line cannot be
/// cut at 50 bytes between characters for its error message (where
/// reading it stops with a panic).
pub fn parse_log_file(path: &str, content: Option<&str>, config: &ParserConfig) -> (r: Option<
    Result<ParsedLog, ParseError>,
>)
    ensures
        match format_for(*config, path@, crate::config::opt_view(content)) {
            None => r matches Some(Err(ParseError::UnknownFormat(p))) && p@ == path@,
            Some(f) => match content {
                None => r matches Some(Err(ParseError::ReadFailed(p))) && p@ == path@,
                Some(c) => if f == LogFormat::Csv {
                    r matches Some(x) && csv_parsed(x, c@, *config)
                } else if first_bad_cut_ok(json_candidates(c@), json_lines_of(c@)) {
                    r matches Some(x) && jsonl_parsed(x, c@, *config)
                } else {
                    r is None
                },
            },
        },
{
    let format = match choose_format(config, path, content) {
        Ok(f) => f,
        Err(e) => return Some(Err(e)),
    };
    let c = match content {
        Some(c) => c,
        None => return Some(Err(ParseError::ReadFailed(owned(path)))),
    };
    match format {
        LogFormat::Csv => Some(parse_csv(c, config)),
        LogFormat::JsonLines => {
            let cs = jsonl_candidates(c);
            let ls = json_lines(c);
            let ghost csv = json_candidates(c@);
            let mut k: usize = 0;
            while k < ls.len() && ls[k].is_some()
                invariant
                    k <= ls@.len(),
                    forall|j: int| 0 <= j < k ==> (#[trigger] ls@[j]) is Some,
                decreases ls@.len() - k,
            {
                k = k + 1;
            }
            if k < ls.len() {
                let t = cs[k].1.as_str();
                assert(t@ == csv[k as int].1);
                let fits = t.as_bytes().len() <= 50 || t.is_char_boundary(50);
                assert(fits == cut_ok(t@, 50));
                if !fits {
                    assert(!cut_ok(csv[k as int].1, 50));
                    assert(ls@[k as int] is None);
                    assert(!first_bad_cut_ok(csv, json_lines_of(c@)));
                    return None;
                }
                assert(cut_ok(csv[k as int].1, 50));
                assert forall|i: int|
                    0 <= i < ls@.len() && (#[trigger] ls@[i]) is None && (forall|j: int|
                        0 <= j < i ==> ls@[j] is Some) implies cut_ok(csv[i].1, 50) by {
                    if i < k {
                        assert(ls@[i] is Some);
                    }
                    if i > k {
                        assert(ls@[k as int] is Some);
                    }
                }
            }
            Some(parse_jsonl(c, config))
        },
    }
}

/// A metric name of a CSV record is never the epoch or step column, nor a
/// time stamp column ("timestamp", "time", "datetime").
pub open spec fn metric_names_ok(ms: Seq<(Seq<char>, Seq<char>)>, cfg: ParserConfig) -> bool {
    forall|j: int|
        0 <= j < ms.len() ==> {
            let n = (#[trigger] ms[j]).0;
            &&& n != "timestamp"@
            &&& n != "time"@
            &&& n != "datetime"@
            &&& n != cfg.epoch_field@
            &&& n != cfg.step_field@
        }
}

proof fn lemma_key_index_range(m: Seq<(Seq<char>, Seq<char>)>, k: Seq<char>)
    ensures
        key_index(m, k) matches Some(i) ==> 0 <= i < m.len(),
    decreases m.len(),
{
    if m.len() > 0 {
        lemma_key_index_range(m.drop_last(), k);
    }
}

/// Putting a key that passes keeps every key passing.
proof fn lemma_map_put_names(m: Seq<(Seq<char>, Seq<char>)>, k: Seq<char>, v: Seq<char>, cfg: ParserConfig)
    requires
        metric_names_ok(m, cfg),
        metric_names_ok(seq![(k, v)], cfg),
    ensures
        metric_names_ok(map_put(m, k, v), cfg),
{
    assert(seq![(k, v)][0] == (k, v));
    lemma_key_index_range(m, k);
    match key_index(m, k) {
        Some(i) => {
            assert forall|j: int| 0 <= j < map_put(m, k, v).len() implies {
                let n = (#[trigger] map_put(m, k, v)[j]).0;
                &&& n != "timestamp"@
                &&& n != "time"@
                &&& n != "datetime"@
                &&& n != cfg.epoch_field@
                &&& n != cfg.step_field@
            } by {
                if j != i {
                    assert(map_put(m, k, v)[j] == m[j]);
                }
            }
        },
        None => {
            assert forall|j: int| 0 <= j < map_put(m, k, v).len() implies {
                let n = (#[trigger] map_put(m, k, v)[j]).0;
                &&& n != "timestamp"@
                &&& n != "time"@
                &&& n != "datetime"@
                &&& n != cfg.epoch_field@
                &&& n != cfg.step_field@
            } by {
                if j < m.len() {
                    assert(map_put(m, k, v)[j] == m[j]);
                }
            }
        },
    }
}

proof fn lemma_csv_metric_names(hs: Seq<Seq<char>>, fs: Seq<Seq<char>>, cfg: ParserConfig, n: int)
    ensures
        metric_names_ok(csv_metrics(hs, fs, cfg, n), cfg),
    decreases n,
{
    if n > 0 {
        lemma_csv_metric_names(hs, fs, cfg, n - 1);
        if !csv_skip_column(hs[n - 1], cfg) && is_float_text(fs[n - 1]) {
            let one = seq![(hs[n - 1], fs[n - 1])];
            assert(one[0] == (hs[n - 1], fs[n - 1]));
            lemma_map_put_names(csv_metrics(hs, fs, cfg, n - 1), hs[n - 1], fs[n - 1], cfg);
        }
    }
}

proof fn lemma_csv_record_names(ls: Seq<Seq<char>>, hs: Seq<Seq<char>>, cfg: ParserConfig, n: int)
    ensures
        forall|i: int|
            0 <= i < csv_records(ls, hs, cfg, n).len() ==> metric_names_ok(
                (#[trigger] csv_records(ls, hs, cfg, n)[i]).2,
                cfg,
            ),
    decreases n,
{
    if n > 1 {
        lemma_csv_record_names(ls, hs, cfg, n - 1);
        let t = trim(ls[n - 1]);
        lemma_csv_metric_names(hs, csv_fields(t), cfg, hs.len() as int);
        let prev = csv_records(ls, hs, cfg, n - 1);
        match csv_line_record(ls[n - 1], hs, cfg) {
            Some(r) => {
                assert(r.2 == csv_metrics(hs, csv_fields(t), cfg, hs.len() as int));
                assert forall|i: int| 0 <= i < prev.push(r).len() implies metric_names_ok(
                    (#[trigger] prev.push(r)[i]).2,
                    cfg,
                ) by {
                    if i < prev.len() {
                        assert(prev.push(r)[i] == prev[i]);
                    }
                }
            },
            None => {},
        }
    }
}

/// A CSV log never counts the epoch and step columns, nor the time stamp
/// columns "timestamp", "time" and "datetime", among a record's metrics:
/// whatever a CSV text and configuration, every metric name of every
/// record parsed from them differs from those five column names.
pub proof fn law_csv_time_columns_are_not_metrics(c: Seq<char>, cfg: ParserConfig, log: ParsedLog)
    requires
        csv_parsed(Ok(log), c, cfg),
    ensures
        forall|i: int, j: int|
            0 <= i < log.records@.len() && 0 <= j < log.records@[i].metrics@.len() ==> {
                let n = (#[trigger] log.records@[i].metrics@[j]).0@;
                &&& n != "timestamp"@
                &&& n != "time"@
                &&& n != "datetime"@
                &&& n != cfg.epoch_field@
                &&& n != cfg.step_field@
            },
{
    let ls = lines_of(c);
    let hs = csv_headers(c);
    lemma_csv_record_names(ls, hs, cfg, ls.len() as int);
    assert forall|i: int, j: int|
        0 <= i < log.records@.len() && 0 <= j < log.records@[i].metrics@.len() implies {
            let n = (#[trigger] log.records@[i].metrics@[j]).0@;
            &&& n != "timestamp"@
            &&& n != "time"@
            &&& n != "datetime"@
            &&& n != cfg.epoch_field@
            &&& n != cfg.step_field@
        } by {
        assert(records_view(log.records@)[i] == record_view(log.records@[i]));
        let ms = csv_records(ls, hs, cfg, ls.len() as int)[i].2;
        assert(ms == pairs_view(log.records@[i].metrics@));
        assert(ms[j] == (log.records@[i].metrics@[j].0@, log.records@[i].metrics@[j].1@));
    }
}

} // verus!
