//! LaTeX exports: a run's hyperparameter and result tables, and a
//! comparison table that sets the best value of each metric in bold.
use vstd::prelude::*;
use crate::clock::now_local;
use crate::export::table::{
    best_key, best_of_row, collect_metric_names, compare_names, find_latest, is_best,
    latest_value, lower_is_better, name_lower_is_better, row_values, value_is_best,
};
use crate::models::{datetime_text, HyperParam, Metric, MetricValue, Timestamp};
use crate::text::{
    ascii_lower, char_ascii_lower, char_is_alnum, chars_of, concat_map, is_alnum,
    lemma_concat_map_step, push_char, push_chars, push_str, views,
};

verus! {

/// The LaTeX text for one character: `&`, `%`, `$`, `#`, `_`, `{` and `}`
/// get a backslash, `\`, `~` and `^` become `\textbackslash{}`,
/// `\textasciitilde{}` and `\textasciicircum{}`; any other character stays.
pub open spec fn latex_char(c: char) -> Seq<char> {
    if c == '\\' {
        "\\textbackslash{}"@
    } else if c == '&' {
        "\\&"@
    } else if c == '%' {
        "\\%"@
    } else if c == '$' {
        "\\$"@
    } else if c == '#' {
        "\\#"@
    } else if c == '_' {
        "\\_"@
    } else if c == '{' {
        "\\{"@
    } else if c == '}' {
        "\\}"@
    } else if c == '~' {
        "\\textasciitilde{}"@
    } else if c == '^' {
        "\\textasciicircum{}"@
    } else {
        seq![c]
    }
}

/// Special LaTeX characters escaped in one pass over the text: each
/// character becomes its `latex_char` text, and what one character turned
/// into is not escaped again.
pub open spec fn latex_escape(s: Seq<char>) -> Seq<char>
    decreases s.len(),
{
    if s.len() == 0 {
        seq![]
    } else {
        latex_escape(s.drop_last()) + latex_char(s.last())
    }
}

/// A label character: letters and digits lower-cased (ASCII), '-' kept,
/// everything else turned into '-'.
pub open spec fn slug_char(c: char) -> char {
    if is_alnum(c) || c == '-' {
        ascii_lower(c)
    } else {
        '-'
    }
}

/// Each "--" replaced by "-", scanning from the left without overlap.
pub open spec fn collapse_dashes(s: Seq<char>) -> Seq<char>
    decreases s.len(),
{
    if s.len() == 0 {
        seq![]
    } else if s.len() >= 2 && s[0] == '-' && s[1] == '-' {
        seq!['-'] + collapse_dashes(s.skip(2))
    } else {
        seq![s[0]] + collapse_dashes(s.skip(1))
    }
}

/// A text turned into a label-safe slug.
pub open spec fn slug_text(s: Seq<char>) -> Seq<char> {
    collapse_dashes(s.map_values(|c: char| slug_char(c)))
}

/// One hyperparameter line of the LaTeX table.
pub open spec fn hp_row(hp: HyperParam) -> Seq<char> {
    latex_escape(hp.key@) + " & "@ + latex_escape(hp.value@) + " \\\\\n"@
}

/// The LaTeX line of each hyperparameter.
pub open spec fn hp_row_fn() -> spec_fn(HyperParam) -> Seq<char> {
    |hp: HyperParam| hp_row(hp)
}

/// One result line of the LaTeX table, with four decimals.
pub open spec fn result_row(r: (String, MetricValue)) -> Seq<char> {
    latex_escape(r.0@) + " & "@ + r.1.fixed4@ + " \\\\\n"@
}

/// The LaTeX line of each latest metric.
pub open spec fn result_row_fn() -> spec_fn((String, MetricValue)) -> Seq<char> {
    |r: (String, MetricValue)| result_row(r)
}

/// The hyperparameter table of a run.
pub open spec fn hp_table(run: Seq<char>, hps: Seq<HyperParam>) -> Seq<char> {
    "\\begin{table}[h]\n"@ + "\\centering\n"@ + "\\caption{Hyperparameters for "@ + latex_escape(run)
        + "}\n"@ + "\\label{tab:"@ + slug_text(run) + "-params}\n"@ + "\\begin{tabular}{ll}\n"@
        + "\\toprule\n"@ + "Parameter & Value \\\\\n"@ + "\\midrule\n"@ + concat_map(
        hps,
        hp_row_fn(),
    ) + "\\bottomrule\n"@ + "\\end{tabular}\n"@ + "\\end{table}\n\n"@
}

/// The result table of a run.
pub open spec fn result_table(run: Seq<char>, latest: Seq<(String, MetricValue)>) -> Seq<char> {
    "\\begin{table}[h]\n"@ + "\\centering\n"@ + "\\caption{Results for "@ + latex_escape(run)
        + "}\n"@ + "\\label{tab:"@ + slug_text(run) + "-results}\n"@ + "\\begin{tabular}{lr}\n"@
        + "\\toprule\n"@ + "Metric & Value \\\\\n"@ + "\\midrule\n"@ + concat_map(
        latest,
        result_row_fn(),
    ) + "\\bottomrule\n"@ + "\\end{tabular}\n"@ + "\\end{table}\n"@
}

/// The LaTeX document of a run generated at `now`: a comment header, the
/// hyperparameter table if there are hyperparameters, and the result table
/// if there are latest metrics.
pub open spec fn run_latex_text(
    run: Seq<char>,
    hps: Seq<HyperParam>,
    latest: Seq<(String, MetricValue)>,
    now: Timestamp,
) -> Seq<char> {
    "% Experiment: "@ + latex_escape(run) + "\n"@ + "% Generated on "@ + datetime_text(now)
        + "\n\n"@ + (if hps.len() > 0 {
        hp_table(run, hps)
    } else {
        seq![]
    }) + (if latest.len() > 0 {
        result_table(run, latest)
    } else {
        seq![]
    })
}

/// One cell of a comparison row: the value with four decimals, in bold
/// when it is within 1e-10 of the best (see `MetricValue::small_band`), or
/// "---" when the run lacks the metric.
pub open spec fn compare_cell(best: Option<i64>, v: Option<MetricValue>) -> Seq<char> {
    match v {
        Some(x) => if is_best(x.small_band, best) {
            " & \\textbf{"@ + x.fixed4@ + "}"@
        } else {
            " & "@ + x.fixed4@
        },
        None => " & ---"@,
    }
}

/// The cells of a comparison row, given the row's best key.
pub open spec fn compare_cell_fn(best: Option<i64>) -> spec_fn(Option<MetricValue>) -> Seq<char> {
    |v: Option<MetricValue>| compare_cell(best, v)
}

/// The comparison line of one metric.
pub open spec fn compare_row(runs: Seq<(String, Vec<Metric>)>, name: Seq<char>) -> Seq<char> {
    let vals = row_values(runs, name);
    latex_escape(name) + concat_map(vals, compare_cell_fn(best_key(vals, lower_is_better(name))))
        + " \\\\\n"@
}

/// The comparison line of each metric.
pub open spec fn compare_row_fn(runs: Seq<(String, Vec<Metric>)>) -> spec_fn(Seq<char>) -> Seq<
    char,
> {
    |n: Seq<char>| compare_row(runs, n)
}

/// The header cell of a run.
pub open spec fn run_header_fn() -> spec_fn((String, Vec<Metric>)) -> Seq<char> {
    |r: (String, Vec<Metric>)| " & "@ + latex_escape(r.0@)
}

/// The LaTeX comparison table generated at `now`: one column per run and
/// one line per metric (in order of first appearance).
pub open spec fn compare_latex_text(runs: Seq<(String, Vec<Metric>)>, now: Timestamp) -> Seq<char> {
    "% Experiment Comparison\n"@ + "% Generated on "@ + datetime_text(now) + "\n\n"@
        + "\\begin{table}[h]\n"@ + "\\centering\n"@ + "\\caption{Experiment Comparison}\n"@
        + "\\label{tab:comparison}\n"@ + "\\begin{tabular}{l"@ + Seq::new(
        runs.len(),
        |i: int| 'r',
    ) + "}\n"@ + "\\toprule\n"@ + "Metric"@ + concat_map(runs, run_header_fn()) + " \\\\\n"@
        + "\\midrule\n"@ + concat_map(compare_names(runs), compare_row_fn(runs))
        + "\\bottomrule\n"@ + "\\end{tabular}\n"@ + "\\end{table}\n"@
}

/// Special LaTeX characters escaped (see `latex_escape`).
pub fn escape_latex(s: &str) -> (out: String)
    ensures
        out@ == latex_escape(s@),
{
    let v = chars_of(s);
    let mut out = String::new();
    let mut i: usize = 0;
    while i < v.len()
        invariant
            i <= v@.len(),
            v@ == s@,
            out@ == latex_escape(s@.take(i as int)),
        decreases v@.len() - i,
    {
        assert(s@.take(i + 1).drop_last() == s@.take(i as int));
        let c = v[i];
        if c == '\\' {
            push_str(&mut out, "\\textbackslash{}");
        } else if c == '&' {
            push_str(&mut out, "\\&");
        } else if c == '%' {
            push_str(&mut out, "\\%");
        } else if c == '$' {
            push_str(&mut out, "\\$");
        } else if c == '#' {
            push_str(&mut out, "\\#");
        } else if c == '_' {
            push_str(&mut out, "\\_");
        } else if c == '{' {
            push_str(&mut out, "\\{");
        } else if c == '}' {
            push_str(&mut out, "\\}");
        } else if c == '~' {
            push_str(&mut out, "\\textasciitilde{}");
        } else if c == '^' {
            push_str(&mut out, "\\textasciicircum{}");
        } else {
            push_char(&mut out, c);
        }
        i = i + 1;
    }
    assert(s@.take(s@.len() as int) == s@);
    out
}

/// A text turned into a label-safe slug: letters and digits lower-cased,
/// every other character a dash, and each "--" then collapsed to "-".
pub fn slug(s: &str) -> (out: String)
    ensures
        out@ == slug_text(s@),
{
    let v = chars_of(s);
    let mut m: Vec<char> = Vec::new();
    let mut i: usize = 0;
    while i < v.len()
        invariant
            i <= v.len(),
            m@ == v@.take(i as int).map_values(|c: char| slug_char(c)),
        decreases v.len() - i,
    {
        let c = v[i];
        let d = if char_is_alnum(c) || c == '-' {
            char_ascii_lower(c)
        } else {
            '-'
        };
        m.push(d);
        i = i + 1;
        assert(v@.take(i as int).map_values(|c: char| slug_char(c)) == v@.take(i - 1).map_values(
            |c: char| slug_char(c),
        ).push(slug_char(c)));
    }
    assert(v@.take(v.len() as int) == v@);
    let ghost mapped = m@;
    let mut out = String::new();
    let mut k: usize = 0;
    assert(mapped.skip(0) == mapped);
    assert(out@ + collapse_dashes(mapped.skip(0)) == collapse_dashes(mapped));
    while k < m.len()
        invariant
            mapped == m@,
            k <= m.len(),
            out@ + collapse_dashes(mapped.skip(k as int)) == collapse_dashes(mapped),
        decreases m.len() - k,
    {
        if k + 1 < m.len() && m[k] == '-' && m[k + 1] == '-' {
            assert(mapped.skip(k as int).skip(2) == mapped.skip(k + 2));
            push_char(&mut out, '-');
            k = k + 2;
        } else {
            assert(mapped.skip(k as int).skip(1) == mapped.skip(k + 1));
            push_char(&mut out, m[k]);
            k = k + 1;
        }
    }
    assert(mapped.skip(m.len() as int).len() == 0);
    out
}

fn push_escaped(out: &mut String, s: &str)
    ensures
        final(out)@ == old(out)@ + latex_escape(s@),
{
    let e = escape_latex(s);
    push_str(out, e.as_str());
}

fn push_hp_table(out: &mut String, run_name: &str, hyperparams: &[HyperParam])
    ensures
        final(out)@ == old(out)@ + hp_table(run_name@, hyperparams@),
{
    push_str(out, "\\begin{table}[h]\n");
    push_str(out, "\\centering\n");
    push_str(out, "\\caption{Hyperparameters for ");
    push_escaped(out, run_name);
    push_str(out, "}\n");
    push_str(out, "\\label{tab:");
    let sl = slug(run_name);
    push_str(out, sl.as_str());
    push_str(out, "-params}\n");
    push_str(out, "\\begin{tabular}{ll}\n");
    push_str(out, "\\toprule\n");
    push_str(out, "Parameter & Value \\\\\n");
    push_str(out, "\\midrule\n");
    let ghost mid = out@;
    let ghost f = hp_row_fn();
    let mut i: usize = 0;
    while i < hyperparams.len()
        invariant
            i <= hyperparams.len(),
            f == hp_row_fn(),
            out@ == mid + concat_map(hyperparams@.take(i as int), f),
        decreases hyperparams.len() - i,
    {
        proof {
            lemma_concat_map_step(hyperparams@, f, i as int);
        }
        let hp = &hyperparams[i];
        push_escaped(out, hp.key.as_str());
        push_str(out, " & ");
        push_escaped(out, hp.value.as_str());
        push_str(out, " \\\\\n");
        i = i + 1;
    }
    assert(hyperparams@.take(hyperparams.len() as int) == hyperparams@);
    push_str(out, "\\bottomrule\n");
    push_str(out, "\\end{tabular}\n");
    push_str(out, "\\end{table}\n\n");
}

fn push_result_table(out: &mut String, run_name: &str, latest: &[(String, MetricValue)])
    ensures
        final(out)@ == old(out)@ + result_table(run_name@, latest@),
{
    push_str(out, "\\begin{table}[h]\n");
    push_str(out, "\\centering\n");
    push_str(out, "\\caption{Results for ");
    push_escaped(out, run_name);
    push_str(out, "}\n");
    push_str(out, "\\label{tab:");
    let sl = slug(run_name);
    push_str(out, sl.as_str());
    push_str(out, "-results}\n");
    push_str(out, "\\begin{tabular}{lr}\n");
    push_str(out, "\\toprule\n");
    push_str(out, "Metric & Value \\\\\n");
    push_str(out, "\\midrule\n");
    let ghost mid = out@;
    let ghost f = result_row_fn();
    let mut i: usize = 0;
    while i < latest.len()
        invariant
            i <= latest.len(),
            f == result_row_fn(),
            out@ == mid + concat_map(latest@.take(i as int), f),
        decreases latest.len() - i,
    {
        proof {
            lemma_concat_map_step(latest@, f, i as int);
        }
        let r = &latest[i];
        push_escaped(out, r.0.as_str());
        push_str(out, " & ");
        push_str(out, r.1.fixed4.as_str());
        push_str(out, " \\\\\n");
        i = i + 1;
    }
    assert(latest@.take(latest.len() as int) == latest@);
    push_str(out, "\\bottomrule\n");
    push_str(out, "\\end{tabular}\n");
    push_str(out, "\\end{table}\n");
}

/// A run's hyperparameters and latest metrics as LaTeX tables, stamped
/// with the given generation time.
pub fn export_run_latex_at(
    run_name: &str,
    hyperparams: &[HyperParam],
    latest_metrics: &[(String, MetricValue)],
    now: &Timestamp,
) -> (tex: String)
    ensures
        tex@ == run_latex_text(run_name@, hyperparams@, latest_metrics@, *now),
{
    let mut tex = String::new();
    push_str(&mut tex, "% Experiment: ");
    push_escaped(&mut tex, run_name);
    push_str(&mut tex, "\n");
    push_str(&mut tex, "% Generated on ");
    now.push_datetime(&mut tex);
    push_str(&mut tex, "\n\n");
    let ghost head = tex@;
    if hyperparams.len() > 0 {
        push_hp_table(&mut tex, run_name, hyperparams);
    }
    let ghost mid = tex@;
    assert(mid == head + (if hyperparams@.len() > 0 {
        hp_table(run_name@, hyperparams@)
    } else {
        seq![]
    }));
    if latest_metrics.len() > 0 {
        push_result_table(&mut tex, run_name, latest_metrics);
    }
    tex
}

/// A run's hyperparameters and latest metrics as LaTeX tables, stamped
/// with the current local time.
pub fn export_run_latex(
    run_name: &str,
    hyperparams: &[HyperParam],
    latest_metrics: &[(String, MetricValue)],
) -> (tex: String)
    ensures
        exists|now: Timestamp| crate::time::valid_timestamp(now) && tex@ == run_latex_text(run_name@, hyperparams@, latest_metrics@, now),
{
    let now = now_local();
    export_run_latex_at(run_name, hyperparams, latest_metrics, &now)
}

fn push_compare_row(out: &mut String, runs_data: &[(String, Vec<Metric>)], name: &str)
    ensures
        final(out)@ == old(out)@ + compare_row(runs_data@, name@),
{
    let lower = name_lower_is_better(name);
    let best = best_of_row(runs_data, name, lower);
    let ghost vals = row_values(runs_data@, name@);
    let ghost f = compare_cell_fn(best);
    push_escaped(out, name);
    let ghost mid = out@;
    let mut i: usize = 0;
    while i < runs_data.len()
        invariant
            i <= runs_data.len(),
            vals == row_values(runs_data@, name@),
            f == compare_cell_fn(best),
            out@ == mid + concat_map(vals.take(i as int), f),
        decreases runs_data.len() - i,
    {
        proof {
            lemma_concat_map_step(vals, f, i as int);
        }
        match find_latest(&runs_data[i].1, name) {
            Some(k) => {
                let v = &runs_data[i].1[k].value;
                if value_is_best(v.small_band, best) {
                    push_str(out, " & \\textbf{");
                    push_str(out, v.fixed4.as_str());
                    push_str(out, "}");
                } else {
                    push_str(out, " & ");
                    push_str(out, v.fixed4.as_str());
                }
            },
            None => {
                push_str(out, " & ---");
            },
        }
        i = i + 1;
    }
    assert(vals.take(runs_data.len() as int) == vals);
    push_str(out, " \\\\\n");
}

/// A comparison of several runs as a LaTeX table stamped with the given
/// time: one column per run, one line per metric with each run's latest
/// value (four decimals, "---" when missing), the best of each line in bold
/// (the lowest for metrics whose names mention "loss" or "error", the
/// highest otherwise).
pub fn export_compare_latex_at(runs_data: &[(String, Vec<Metric>)], now: &Timestamp) -> (tex:
    String)
    ensures
        tex@ == compare_latex_text(runs_data@, *now),
{
    let names = collect_metric_names(runs_data);
    let mut tex = String::new();
    push_str(&mut tex, "% Experiment Comparison\n");
    push_str(&mut tex, "% Generated on ");
    now.push_datetime(&mut tex);
    push_str(&mut tex, "\n\n");
    push_str(&mut tex, "\\begin{table}[h]\n");
    push_str(&mut tex, "\\centering\n");
    push_str(&mut tex, "\\caption{Experiment Comparison}\n");
    push_str(&mut tex, "\\label{tab:comparison}\n");
    push_str(&mut tex, "\\begin{tabular}{l");
    let ghost s0 = tex@;
    let mut k: usize = 0;
    while k < runs_data.len()
        invariant
            k <= runs_data.len(),
            tex@ == s0 + Seq::new(k as nat, |i: int| 'r'),
        decreases runs_data.len() - k,
    {
        push_char(&mut tex, 'r');
        k = k + 1;
        assert(tex@ == s0 + Seq::new(k as nat, |i: int| 'r'));
    }
    push_str(&mut tex, "}\n");
    push_str(&mut tex, "\\toprule\n");
    push_str(&mut tex, "Metric");
    let ghost s1 = tex@;
    let ghost hf = run_header_fn();
    let mut i: usize = 0;
    while i < runs_data.len()
        invariant
            i <= runs_data.len(),
            hf == run_header_fn(),
            tex@ == s1 + concat_map(runs_data@.take(i as int), hf),
        decreases runs_data.len() - i,
    {
        proof {
            lemma_concat_map_step(runs_data@, hf, i as int);
        }
        push_str(&mut tex, " & ");
        push_escaped(&mut tex, runs_data[i].0.as_str());
        i = i + 1;
    }
    assert(runs_data@.take(runs_data.len() as int) == runs_data@);
    push_str(&mut tex, " \\\\\n");
    push_str(&mut tex, "\\midrule\n");
    let ghost s2 = tex@;
    let ghost ns = views(names@);
    let ghost rf = compare_row_fn(runs_data@);
    let mut j: usize = 0;
    while j < names.len()
        invariant
            j <= names.len(),
            ns == views(names@),
            rf == compare_row_fn(runs_data@),
            tex@ == s2 + concat_map(ns.take(j as int), rf),
        decreases names.len() - j,
    {
        proof {
            lemma_concat_map_step(ns, rf, j as int);
        }
        push_compare_row(&mut tex, runs_data, names[j].as_str());
        j = j + 1;
    }
    assert(ns.take(names.len() as int) == ns);
    push_str(&mut tex, "\\bottomrule\n");
    push_str(&mut tex, "\\end{tabular}\n");
    push_str(&mut tex, "\\end{table}\n");
    tex
}

/// A comparison of several runs as a LaTeX table stamped with the current
/// local time.
pub fn export_compare_latex(runs_data: &[(String, Vec<Metric>)]) -> (tex: String)
    ensures
        exists|now: Timestamp| crate::time::valid_timestamp(now) && tex@ == compare_latex_text(runs_data@, now),
{
    let now = now_local();
    export_compare_latex_at(runs_data, &now)
}

} // verus!
