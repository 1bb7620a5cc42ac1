//! CSV exports: every metric row of a run or of several runs, and a summary
//! table with the latest value of each metric per run.
use vstd::prelude::*;
use crate::export::table::{
    collect_metric_names, compare_names, find_latest, latest_index,
};
use crate::models::{datetime_text, Metric};
use crate::text::{
    chars_of, concat_map, contains_char, has_char, int_text, lemma_concat_map_step,
    push_char, push_chars, push_i64, push_str, replace_char, replace_chars, views,
};

verus! {

/// A CSV field: wrapped in double quotes, with inner quotes doubled, when
/// it holds a comma, a double quote or a newline; otherwise as it is.
pub open spec fn csv_field(s: Seq<char>) -> Seq<char> {
    if has_char(s, ',') || has_char(s, '"') || has_char(s, '\n') {
        seq!['"'] + replace_char(s, '"', seq!['"', '"']) + seq!['"']
    } else {
        s
    }
}

/// An optional integer as text; empty when absent.
pub open spec fn opt_int_text(o: Option<i64>) -> Seq<char> {
    match o {
        Some(e) => int_text(e as int),
        None => seq![],
    }
}

/// The header line of a metrics CSV.
pub open spec fn csv_header() -> Seq<char> {
    "run,epoch,step,metric,value,recorded_at\n"@
}

/// One metric as a CSV line.
pub open spec fn csv_row(run: Seq<char>, m: Metric) -> Seq<char> {
    csv_field(run) + seq![','] + opt_int_text(m.epoch) + seq![','] + opt_int_text(m.step) + seq![
        ',',
    ] + csv_field(m.name@) + seq![','] + m.value.text@ + seq![','] + datetime_text(m.recorded_at)
        + seq!['\n']
}

/// The CSV line of each metric of a run.
pub open spec fn row_fn(run: Seq<char>) -> spec_fn(Metric) -> Seq<char> {
    |m: Metric| csv_row(run, m)
}

/// The CSV lines of all metrics of one run of a comparison.
pub open spec fn run_rows(r: (String, Vec<Metric>)) -> Seq<char> {
    concat_map(r.1@, row_fn(r.0@))
}

/// The CSV lines of each run of a comparison.
pub open spec fn run_rows_fn() -> spec_fn((String, Vec<Metric>)) -> Seq<char> {
    |r: (String, Vec<Metric>)| run_rows(r)
}

/// The header cell of each metric name.
pub open spec fn header_fn() -> spec_fn(Seq<char>) -> Seq<char> {
    |n: Seq<char>| header_cell(n)
}

/// The summary cell of one metric name: a comma, then the latest value if
/// the run has one.
pub open spec fn summary_cell(ms: Seq<Metric>, name: Seq<char>) -> Seq<char> {
    match latest_index(ms, name) {
        Some(k) => seq![','] + ms[k].value.text@,
        None => seq![','],
    }
}

/// The cells of one run's summary line.
pub open spec fn cell_fn(ms: Seq<Metric>) -> spec_fn(Seq<char>) -> Seq<char> {
    |n: Seq<char>| summary_cell(ms, n)
}

/// One run's summary line.
pub open spec fn summary_row(r: (String, Vec<Metric>), names: Seq<Seq<char>>) -> Seq<char> {
    csv_field(r.0@) + concat_map(names, cell_fn(r.1@)) + seq!['\n']
}

/// The summary line of each run.
pub open spec fn summary_row_fn(names: Seq<Seq<char>>) -> spec_fn((String, Vec<Metric>)) -> Seq<
    char,
> {
    |r: (String, Vec<Metric>)| summary_row(r, names)
}

/// The header cell of a metric name.
pub open spec fn header_cell(n: Seq<char>) -> Seq<char> {
    seq![','] + csv_field(n)
}

/// The summary table: a header naming the metrics, then one line per run.
pub open spec fn summary_text(runs: Seq<(String, Vec<Metric>)>) -> Seq<char> {
    let names = compare_names(runs);
    "run"@ + concat_map(names, header_fn()) + seq!['\n'] + concat_map(
        runs,
        summary_row_fn(names),
    )
}

/// A text as a CSV field (see `csv_field`).
pub fn escape_csv(s: &str) -> (r: String)
    ensures
        r@ == csv_field(s@),
{
    let mut r = String::new();
    push_csv_field(&mut r, s);
    r
}

/// Appends a text as a CSV field.
pub fn push_csv_field(out: &mut String, s: &str)
    ensures
        final(out)@ == old(out)@ + csv_field(s@),
{
    let v = chars_of(s);
    if contains_char(&v, ',') || contains_char(&v, '"') || contains_char(&v, '\n') {
        let mut q: Vec<char> = Vec::new();
        q.push('"');
        q.push('"');
        let r = replace_chars(&v, '"', &q);
        push_char(out, '"');
        push_chars(out, &r);
        push_char(out, '"');
        assert(q@ == seq!['"', '"']);
        assert(out@ == old(out)@ + csv_field(s@));
    } else {
        push_str(out, s);
    }
}

/// Appends an optional integer; nothing when absent.
pub fn push_opt_int(out: &mut String, o: Option<i64>)
    ensures
        final(out)@ == old(out)@ + opt_int_text(o),
{
    match o {
        Some(e) => push_i64(out, e),
        None => {
            assert(out@ == old(out)@ + opt_int_text(o));
        },
    }
}

/// Appends one metric's CSV line.
pub fn push_csv_row(out: &mut String, run: &str, m: &Metric)
    ensures
        final(out)@ == old(out)@ + csv_row(run@, *m),
{
    push_csv_field(out, run);
    push_char(out, ',');
    push_opt_int(out, m.epoch);
    push_char(out, ',');
    push_opt_int(out, m.step);
    push_char(out, ',');
    push_csv_field(out, m.name.as_str());
    push_char(out, ',');
    push_str(out, m.value.text.as_str());
    push_char(out, ',');
    m.recorded_at.push_datetime(out);
    push_char(out, '\n');
    assert(out@ == old(out)@ + csv_row(run@, *m));
}

/// Appends the CSV lines of all metrics of a run.
pub fn push_csv_rows(out: &mut String, run: &str, metrics: &[Metric])
    ensures
        final(out)@ == old(out)@ + concat_map(metrics@, row_fn(run@)),
{
    let ghost f = row_fn(run@);
    let mut i: usize = 0;
    while i < metrics.len()
        invariant
            i <= metrics.len(),
            f == row_fn(run@),
            out@ == old(out)@ + concat_map(metrics@.take(i as int), f),
        decreases metrics.len() - i,
    {
        proof {
            lemma_concat_map_step(metrics@, f, i as int);
        }
        push_csv_row(out, run, &metrics[i]);
        i = i + 1;
    }
    assert(metrics@.take(metrics.len() as int) == metrics@);
}

/// Every metric of a run as a CSV document: a header line, then one line
/// per metric in the order given.
pub fn export_run_csv(run_name: &str, metrics: &[Metric]) -> (csv: String)
    ensures
        csv@ == csv_header() + concat_map(metrics@, row_fn(run_name@)),
{
    let mut csv = String::new();
    push_str(&mut csv, "run,epoch,step,metric,value,recorded_at\n");
    push_csv_rows(&mut csv, run_name, metrics);
    csv
}

/// The metrics of several runs as one CSV document: a header line, then the
/// lines of each run's metrics, run after run.
pub fn export_compare_csv(runs_data: &[(String, Vec<Metric>)]) -> (csv: String)
    ensures
        csv@ == csv_header() + concat_map(runs_data@, run_rows_fn()),
{
    let ghost f = run_rows_fn();
    let mut csv = String::new();
    push_str(&mut csv, "run,epoch,step,metric,value,recorded_at\n");
    let ghost start = csv@;
    let mut i: usize = 0;
    while i < runs_data.len()
        invariant
            i <= runs_data.len(),
            f == run_rows_fn(),
            csv@ == start + concat_map(runs_data@.take(i as int), f),
        decreases runs_data.len() - i,
    {
        proof {
            lemma_concat_map_step(runs_data@, f, i as int);
        }
        let ms = &runs_data[i].1;
        push_csv_rows(&mut csv, runs_data[i].0.as_str(), ms.as_slice());
        i = i + 1;
    }
    assert(runs_data@.take(runs_data.len() as int) == runs_data@);
    csv
}

/// Appends one run's summary line.
fn push_summary_row(out: &mut String, r: &(String, Vec<Metric>), names: &Vec<String>)
    ensures
        final(out)@ == old(out)@ + summary_row(*r, views(names@)),
{
    let ghost ns = views(names@);
    let ghost f = cell_fn(r.1@);
    push_csv_field(out, r.0.as_str());
    let ghost mid = out@;
    let mut j: usize = 0;
    while j < names.len()
        invariant
            j <= names.len(),
            ns == views(names@),
            f == cell_fn(r.1@),
            out@ == mid + concat_map(ns.take(j as int), f),
        decreases names.len() - j,
    {
        proof {
            lemma_concat_map_step(ns, f, j as int);
        }
        match find_latest(&r.1, names[j].as_str()) {
            Some(k) => {
                push_char(out, ',');
                push_str(out, r.1[k].value.text.as_str());
            },
            None => {
                push_char(out, ',');
            },
        }
        j = j + 1;
    }
    assert(ns.take(names.len() as int) == ns);
    push_char(out, '\n');
}

/// A summary table as CSV: a header with "run" and each metric name (in
/// order of first appearance across the runs), then one line per run with
/// the latest value of each metric, or an empty cell when the run lacks it.
pub fn export_summary_csv(runs_data: &[(String, Vec<Metric>)]) -> (csv: String)
    ensures
        csv@ == summary_text(runs_data@),
{
    let names = collect_metric_names(runs_data);
    let ghost ns = views(names@);
    let ghost hf = header_fn();
    let mut csv = String::new();
    push_str(&mut csv, "run");
    let ghost s0 = csv@;
    let mut j: usize = 0;
    while j < names.len()
        invariant
            j <= names.len(),
            ns == views(names@),
            hf == header_fn(),
            csv@ == s0 + concat_map(ns.take(j as int), hf),
        decreases names.len() - j,
    {
        proof {
            lemma_concat_map_step(ns, hf, j as int);
        }
        push_char(&mut csv, ',');
        push_csv_field(&mut csv, names[j].as_str());
        j = j + 1;
    }
    assert(ns.take(names.len() as int) == ns);
    push_char(&mut csv, '\n');
    let ghost s1 = csv@;
    let ghost rf = summary_row_fn(ns);
    let mut i: usize = 0;
    while i < runs_data.len()
        invariant
            i <= runs_data.len(),
            ns == views(names@),
            rf == summary_row_fn(ns),
            csv@ == s1 + concat_map(runs_data@.take(i as int), rf),
        decreases runs_data.len() - i,
    {
        proof {
            lemma_concat_map_step(runs_data@, rf, i as int);
        }
        push_summary_row(&mut csv, &runs_data[i], &names);
        i = i + 1;
    }
    assert(runs_data@.take(runs_data.len() as int) == runs_data@);
    csv
}

} // verus!
