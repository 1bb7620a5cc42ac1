//! Markdown exports: a run summary and a comparison table that sets the
//! best value of each metric in bold.
use vstd::prelude::*;
use crate::clock::now_local;
use crate::export::table::{
    best_key, best_of_row, collect_metric_names, compare_names, copy_string, find_latest, is_best,
    lower_is_better, name_lower_is_better, row_values, value_is_best,
};
use crate::models::{
    datetime_text, status_symbol, status_text, HyperParam, Metric, MetricValue, Run, Timestamp,
};
use crate::order::{sort_unique, sorted_unique_texts};
use crate::text::{
    concat_map, int_text, lemma_concat_map_step, nat_digits, push_char, push_i64, push_str,
    push_u64, views,
};

verus! {

/// The items of `parts` with `sep` between neighbours.
pub open spec fn join(parts: Seq<Seq<char>>, sep: Seq<char>) -> Seq<char>
    decreases parts.len(),
{
    if parts.len() == 0 {
        seq![]
    } else if parts.len() == 1 {
        parts[0]
    } else {
        join(parts.drop_last(), sep) + sep + parts.last()
    }
}

/// The largest epoch recorded among the metrics, if any has one.
pub open spec fn max_epoch(ms: Seq<Metric>) -> Option<i64>
    decreases ms.len(),
{
    if ms.len() == 0 {
        None
    } else {
        let prev = max_epoch(ms.drop_last());
        match ms.last().epoch {
            Some(e) => match prev {
                Some(p) => Some(if p >= e { p } else { e }),
                None => Some(e),
            },
            None => prev,
        }
    }
}

/// The largest step recorded among the metrics, if any has one.
pub open spec fn max_step(ms: Seq<Metric>) -> Option<i64>
    decreases ms.len(),
{
    if ms.len() == 0 {
        None
    } else {
        let prev = max_step(ms.drop_last());
        match ms.last().step {
            Some(e) => match prev {
                Some(p) => Some(if p >= e { p } else { e }),
                None => Some(e),
            },
            None => prev,
        }
    }
}

/// An optional maximum, 0 when absent.
pub open spec fn or_zero(o: Option<i64>) -> i64 {
    match o {
        Some(x) => x,
        None => 0,
    }
}

/// What `max_epoch` is: `None` exactly when no metric has an epoch;
/// otherwise an epoch that some metric has, and no metric's epoch is larger.
pub proof fn lemma_max_epoch(ms: Seq<Metric>)
    ensures
        max_epoch(ms) is None <==> (forall|i: int| 0 <= i < ms.len() ==> (#[trigger] ms[i]).epoch is None),
        max_epoch(ms) matches Some(m) ==> exists|i: int|
            0 <= i < ms.len() && (#[trigger] ms[i]).epoch == Some(m),
        max_epoch(ms) matches Some(m) ==> forall|i: int|
            0 <= i < ms.len() && (#[trigger] ms[i]).epoch is Some ==> ms[i].epoch->0 <= m,
    decreases ms.len(),
{
    if ms.len() > 0 {
        let init = ms.drop_last();
        lemma_max_epoch(init);
        let n = ms.len() - 1;
        assert forall|i: int| 0 <= i < n implies ms[i] == #[trigger] init[i] by {}
        if max_epoch(ms) is None {
            assert forall|i: int| 0 <= i < ms.len() implies (#[trigger] ms[i]).epoch is None by {
                if i < n {
                    assert(init[i] == ms[i]);
                }
            }
        }
        match max_epoch(ms) {
            Some(m) => {
                match max_epoch(init) {
                    Some(p) => {
                        let j = choose|j: int| 0 <= j < init.len() && (#[trigger] init[j]).epoch == Some(p);
                        if m == p {
                            assert(ms[j] == init[j]);
                        }
                    },
                    None => {},
                }
                assert forall|i: int|
                    0 <= i < ms.len() && (#[trigger] ms[i]).epoch is Some implies ms[i].epoch->0 <= m by {
                    if i < n {
                        assert(init[i] == ms[i]);
                    }
                }
            },
            None => {},
        }
    }
}

/// What `max_step` is: `None` exactly when no metric has a step; otherwise
/// a step that some metric has, and no metric's step is larger.
pub proof fn lemma_max_step(ms: Seq<Metric>)
    ensures
        max_step(ms) is None <==> (forall|i: int| 0 <= i < ms.len() ==> (#[trigger] ms[i]).step is None),
        max_step(ms) matches Some(m) ==> exists|i: int|
            0 <= i < ms.len() && (#[trigger] ms[i]).step == Some(m),
        max_step(ms) matches Some(m) ==> forall|i: int|
            0 <= i < ms.len() && (#[trigger] ms[i]).step is Some ==> ms[i].step->0 <= m,
    decreases ms.len(),
{
    if ms.len() > 0 {
        let init = ms.drop_last();
        lemma_max_step(init);
        let n = ms.len() - 1;
        assert forall|i: int| 0 <= i < n implies ms[i] == #[trigger] init[i] by {}
        if max_step(ms) is None {
            assert forall|i: int| 0 <= i < ms.len() implies (#[trigger] ms[i]).step is None by {
                if i < n {
                    assert(init[i] == ms[i]);
                }
            }
        }
        match max_step(ms) {
            Some(m) => {
                match max_step(init) {
                    Some(p) => {
                        let j = choose|j: int| 0 <= j < init.len() && (#[trigger] init[j]).step == Some(p);
                        if m == p {
                            assert(ms[j] == init[j]);
                        }
                    },
                    None => {},
                }
                assert forall|i: int|
                    0 <= i < ms.len() && (#[trigger] ms[i]).step is Some implies ms[i].step->0 <= m by {
                    if i < n {
                        assert(init[i] == ms[i]);
                    }
                }
            },
            None => {},
        }
    }
}

/// The totals of a training summary are the largest recorded epoch and
/// step: each is at least the epoch (step) of every metric and equals that
/// of some metric; it is 0 when no metric records one.
pub proof fn law_summary_totals(ms: Seq<Metric>)
    ensures
        forall|i: int|
            0 <= i < ms.len() && (#[trigger] ms[i]).epoch is Some ==> ms[i].epoch->0 <= or_zero(
                max_epoch(ms),
            ),
        forall|i: int|
            0 <= i < ms.len() && (#[trigger] ms[i]).step is Some ==> ms[i].step->0 <= or_zero(
                max_step(ms),
            ),
        (exists|i: int| 0 <= i < ms.len() && (#[trigger] ms[i]).epoch is Some) ==> exists|i: int|
            0 <= i < ms.len() && (#[trigger] ms[i]).epoch == Some(or_zero(max_epoch(ms))),
        (exists|i: int| 0 <= i < ms.len() && (#[trigger] ms[i]).step is Some) ==> exists|i: int|
            0 <= i < ms.len() && (#[trigger] ms[i]).step == Some(or_zero(max_step(ms))),
        (forall|i: int| 0 <= i < ms.len() ==> (#[trigger] ms[i]).epoch is None) ==> or_zero(
            max_epoch(ms),
        ) == 0,
        (forall|i: int| 0 <= i < ms.len() ==> (#[trigger] ms[i]).step is None) ==> or_zero(
            max_step(ms),
        ) == 0,
{
    lemma_max_epoch(ms);
    lemma_max_step(ms);
}

/// A tag in backticks.
pub open spec fn tag_code(t: Seq<char>) -> Seq<char> {
    "`"@ + t + "`"@
}

/// The tags line of a run summary, present only when there are tags.
pub open spec fn tags_part(tags: Seq<Seq<char>>) -> Seq<char> {
    if tags.len() > 0 {
        "- **Tags:** "@ + join(tags.map_values(|t: Seq<char>| tag_code(t)), ", "@) + " \n"@
    } else {
        seq![]
    }
}

/// The notes section, present only when there are notes.
pub open spec fn notes_part(notes: Seq<char>) -> Seq<char> {
    if notes.len() > 0 {
        "\n## Notes\n\n"@ + notes + "\n"@
    } else {
        seq![]
    }
}

/// One line of the hyperparameter table.
pub open spec fn md_hp_row_fn() -> spec_fn(HyperParam) -> Seq<char> {
    |hp: HyperParam| "| "@ + hp.key@ + " | "@ + hp.value@ + " |\n"@
}

/// The hyperparameter section, present only when there are hyperparameters.
pub open spec fn hp_part(hps: Seq<HyperParam>) -> Seq<char> {
    if hps.len() > 0 {
        "\n## Hyperparameters\n\n"@ + "| Parameter | Value |\n"@ + "|-----------|-------|\n"@
            + concat_map(hps, md_hp_row_fn())
    } else {
        seq![]
    }
}

/// One line of the final-metrics table, with six decimals.
pub open spec fn md_latest_row_fn() -> spec_fn((String, MetricValue)) -> Seq<char> {
    |r: (String, MetricValue)| "| "@ + r.0@ + " | "@ + r.1.fixed6@ + " |\n"@
}

/// The final-metrics section, present only when there are latest metrics.
pub open spec fn latest_part(latest: Seq<(String, MetricValue)>) -> Seq<char> {
    if latest.len() > 0 {
        "\n## Final Metrics\n\n"@ + "| Metric | Value |\n"@ + "|--------|-------|\n"@ + concat_map(
            latest,
            md_latest_row_fn(),
        )
    } else {
        seq![]
    }
}

/// The training summary: the largest epoch (0 when none), the largest step
/// when positive, the distinct metric names sorted, and the number of points.
pub open spec fn summary_part(ms: Seq<Metric>) -> Seq<char> {
    if ms.len() > 0 {
        let steps = or_zero(max_step(ms));
        "\n## Training Summary \n\n"@ + "- **Total Epoch:** "@ + int_text(or_zero(max_epoch(ms)) as int)
            + "\n"@ + (if steps > 0 {
            "- **Total Steps:** "@ + int_text(steps as int) + "\n"@
        } else {
            seq![]
        }) + "- **Metrics Tracked:** "@ + join(
            sort_unique(ms.map_values(|m: Metric| m.name@)),
            ", "@,
        ) + "\n"@ + "- **Total data points:** "@ + nat_digits(ms.len()) + "\n"@
    } else {
        seq![]
    }
}

/// The Markdown summary of a run exported at `now`.
pub open spec fn run_markdown_text(
    run: Run,
    ms: Seq<Metric>,
    hps: Seq<HyperParam>,
    tags: Seq<Seq<char>>,
    latest: Seq<(String, MetricValue)>,
    now: Timestamp,
) -> Seq<char> {
    "# "@ + run.name@ + " \n\n"@ + "- **Status:** "@ + status_symbol(run.status) + " "@ + status_text(
        run.status,
    ) + "\n"@ + "- **Created:** "@ + datetime_text(run.created_at) + "\n"@ + "- **Updated:** "@
        + datetime_text(run.updated_at) + "\n"@ + "- **Log path:** `"@ + run.log_path@ + "`\n"@
        + tags_part(tags) + notes_part(run.notes@) + hp_part(hps) + latest_part(latest)
        + summary_part(ms) + "\n---\n*Exported by experiment-tracker on "@ + datetime_text(now)
        + "*\n"@
}

/// One cell of the comparison table: the value with six decimals, in bold
/// when it is within 1e-30 of the best of its row (see
/// `MetricValue::tiny_band`), or "-" when the run lacks the metric.
pub open spec fn md_cell(best: Option<i64>, v: Option<MetricValue>) -> Seq<char> {
    match v {
        Some(x) => if is_best(x.tiny_band, best) {
            " **"@ + x.fixed6@ + "** |"@
        } else {
            " "@ + x.fixed6@ + " |"@
        },
        None => " - |"@,
    }
}

/// The cells of a comparison row, given the row's best key.
pub open spec fn md_cell_fn(best: Option<i64>) -> spec_fn(Option<MetricValue>) -> Seq<char> {
    |v: Option<MetricValue>| md_cell(best, v)
}

/// The comparison line of one metric.
pub open spec fn md_row(runs: Seq<(String, Vec<Metric>)>, name: Seq<char>) -> Seq<char> {
    let vals = row_values(runs, name);
    "| "@ + name + " |"@ + concat_map(vals, md_cell_fn(best_key(vals, lower_is_better(name))))
        + "\n"@
}

/// The comparison line of each metric.
pub open spec fn md_row_fn(runs: Seq<(String, Vec<Metric>)>) -> spec_fn(Seq<char>) -> Seq<char> {
    |n: Seq<char>| md_row(runs, n)
}

/// The header cell of a run.
pub open spec fn md_head_fn() -> spec_fn((String, Vec<Metric>)) -> Seq<char> {
    |r: (String, Vec<Metric>)| " "@ + r.0@ + " |"@
}

/// The separator cell of a run.
pub open spec fn md_rule_fn() -> spec_fn((String, Vec<Metric>)) -> Seq<char> {
    |r: (String, Vec<Metric>)| "--------|"@
}

/// The details line of a run: its largest epoch and its number of points.
pub open spec fn md_detail_fn() -> spec_fn((String, Vec<Metric>)) -> Seq<char> {
    |r: (String, Vec<Metric>)|
        "- **"@ + r.0@ + ":** "@ + int_text(or_zero(max_epoch(r.1@)) as int) + " epochs, "@
            + nat_digits(r.1@.len()) + " data points\n"@
}

/// The Markdown comparison of several runs generated at `now`.
pub open spec fn compare_markdown_text(runs: Seq<(String, Vec<Metric>)>, now: Timestamp) -> Seq<
    char,
> {
    "# Experiment Comparison \n\n"@ + "*Generated on "@ + datetime_text(now) + "*\n\n"@
        + "| Metric |"@ + concat_map(runs, md_head_fn()) + "\n"@ + "|--------|"@ + concat_map(
        runs,
        md_rule_fn(),
    ) + "\n"@ + concat_map(compare_names(runs), md_row_fn(runs)) + "\n## Run Details\n\n"@
        + concat_map(runs, md_detail_fn())
}

/// Appends texts with a separator between neighbours.
fn push_joined(out: &mut String, parts: &Vec<String>, sep: &str)
    ensures
        final(out)@ == old(out)@ + join(views(parts@), sep@),
{
    let ghost ps = views(parts@);
    let mut i: usize = 0;
    while i < parts.len()
        invariant
            i <= parts.len(),
            ps == views(parts@),
            out@ == old(out)@ + join(ps.take(i as int), sep@),
        decreases parts.len() - i,
    {
        assert(ps.take(i + 1).drop_last() == ps.take(i as int));
        if i > 0 {
            push_str(out, sep);
        } else {
            assert(ps.take(1) == seq![ps[0]]);
        }
        push_str(out, parts[i].as_str());
        i = i + 1;
    }
    assert(ps.take(parts.len() as int) == ps);
}

/// The largest epoch among the metrics.
fn max_epoch_of(ms: &[Metric]) -> (r: Option<i64>)
    ensures
        r == max_epoch(ms@),
{
    let mut best: Option<i64> = None;
    let mut i: usize = 0;
    while i < ms.len()
        invariant
            i <= ms.len(),
            best == max_epoch(ms@.take(i as int)),
        decreases ms.len() - i,
    {
        assert(ms@.take(i + 1).drop_last() == ms@.take(i as int));
        match ms[i].epoch {
            Some(e) => {
                best = match best {
                    Some(p) => Some(if p >= e { p } else { e }),
                    None => Some(e),
                };
            },
            None => {},
        }
        i = i + 1;
    }
    assert(ms@.take(ms.len() as int) == ms@);
    best
}

/// The largest step among the metrics.
fn max_step_of(ms: &[Metric]) -> (r: Option<i64>)
    ensures
        r == max_step(ms@),
{
    let mut best: Option<i64> = None;
    let mut i: usize = 0;
    while i < ms.len()
        invariant
            i <= ms.len(),
            best == max_step(ms@.take(i as int)),
        decreases ms.len() - i,
    {
        assert(ms@.take(i + 1).drop_last() == ms@.take(i as int));
        match ms[i].step {
            Some(e) => {
                best = match best {
                    Some(p) => Some(if p >= e { p } else { e }),
                    None => Some(e),
                };
            },
            None => {},
        }
        i = i + 1;
    }
    assert(ms@.take(ms.len() as int) == ms@);
    best
}

fn push_tags(out: &mut String, tags: &[String])
    ensures
        final(out)@ == old(out)@ + tags_part(views(tags@)),
{
    if tags.len() > 0 {
        let ghost ts = views(tags@);
        let mut coded: Vec<String> = Vec::new();
        let mut i: usize = 0;
        while i < tags.len()
            invariant
                i <= tags.len(),
                ts == views(tags@),
                views(coded@) == ts.take(i as int).map_values(|t: Seq<char>| tag_code(t)),
            decreases tags.len() - i,
        {
            let mut c = String::new();
            push_str(&mut c, "`");
            push_str(&mut c, tags[i].as_str());
            push_str(&mut c, "`");
            coded.push(c);
            i = i + 1;
            assert(ts.take(i as int).map_values(|t: Seq<char>| tag_code(t)) == ts.take(
                i - 1,
            ).map_values(|t: Seq<char>| tag_code(t)).push(tag_code(ts[i - 1])));
            assert(views(coded@) == views(coded@.drop_last()).push(c@));
        }
        assert(ts.take(tags.len() as int) == ts);
        push_str(out, "- **Tags:** ");
        push_joined(out, &coded, ", ");
        push_str(out, " \n");
    }
}

fn push_summary(out: &mut String, metrics: &[Metric])
    ensures
        final(out)@ == old(out)@ + summary_part(metrics@),
{
    if metrics.len() > 0 {
        let epochs = match max_epoch_of(metrics) {
            Some(e) => e,
            None => 0,
        };
        let steps = match max_step_of(metrics) {
            Some(s) => s,
            None => 0,
        };
        let mut names: Vec<String> = Vec::new();
        let mut i: usize = 0;
        while i < metrics.len()
            invariant
                i <= metrics.len(),
                views(names@) == metrics@.take(i as int).map_values(|m: Metric| m.name@),
            decreases metrics.len() - i,
        {
            let n = copy_string(&metrics[i].name);
            names.push(n);
            i = i + 1;
            assert(metrics@.take(i as int).map_values(|m: Metric| m.name@) == metrics@.take(
                i - 1,
            ).map_values(|m: Metric| m.name@).push(metrics@[i - 1].name@));
            assert(views(names@) == views(names@.drop_last()).push(n@));
        }
        assert(metrics@.take(metrics.len() as int) == metrics@);
        let unique = sorted_unique_texts(&names);
        push_str(out, "\n## Training Summary \n\n");
        push_str(out, "- **Total Epoch:** ");
        push_i64(out, epochs);
        push_str(out, "\n");
        let ghost mid = out@;
        if steps > 0 {
            push_str(out, "- **Total Steps:** ");
            push_i64(out, steps);
            push_str(out, "\n");
        }
        push_str(out, "- **Metrics Tracked:** ");
        push_joined(out, &unique, ", ");
        push_str(out, "\n");
        push_str(out, "- **Total data points:** ");
        push_u64(out, metrics.len() as u64);
        push_str(out, "\n");
    }
}

/// A run as a Markdown summary exported at the given time: title, status,
/// dates, log path, tags, notes, hyperparameter and final-metric tables, and
/// a training summary, each section present only when it has content.
pub fn export_run_markdown_at(
    run: &Run,
    metrics: &[Metric],
    hyperparams: &[HyperParam],
    tags: &[String],
    latest_metrics: &[(String, MetricValue)],
    now: &Timestamp,
) -> (md: String)
    ensures
        md@ == run_markdown_text(
            *run,
            metrics@,
            hyperparams@,
            views(tags@),
            latest_metrics@,
            *now,
        ),
{
    let mut md = String::new();
    push_str(&mut md, "# ");
    push_str(&mut md, run.name.as_str());
    push_str(&mut md, " \n\n");
    push_str(&mut md, "- **Status:** ");
    push_str(&mut md, run.status.symbol());
    push_str(&mut md, " ");
    push_str(&mut md, run.status.as_str());
    push_str(&mut md, "\n");
    push_str(&mut md, "- **Created:** ");
    run.created_at.push_datetime(&mut md);
    push_str(&mut md, "\n");
    push_str(&mut md, "- **Updated:** ");
    run.updated_at.push_datetime(&mut md);
    push_str(&mut md, "\n");
    push_str(&mut md, "- **Log path:** `");
    push_str(&mut md, run.log_path.as_str());
    push_str(&mut md, "`\n");
    push_tags(&mut md, tags);
    let ghost s_notes = md@;
    if !run.notes.as_str().is_empty() {
        push_str(&mut md, "\n## Notes\n\n");
        push_str(&mut md, run.notes.as_str());
        push_str(&mut md, "\n");
    }
    assert(md@ == s_notes + notes_part(run.notes@));
    let ghost s_hp = md@;
    if hyperparams.len() > 0 {
        push_str(&mut md, "\n## Hyperparameters\n\n");
        push_str(&mut md, "| Parameter | Value |\n");
        push_str(&mut md, "|-----------|-------|\n");
        let ghost mid = md@;
        let ghost f = md_hp_row_fn();
        let mut i: usize = 0;
        while i < hyperparams.len()
            invariant
                i <= hyperparams.len(),
                f == md_hp_row_fn(),
                md@ == mid + concat_map(hyperparams@.take(i as int), f),
            decreases hyperparams.len() - i,
        {
            proof {
                lemma_concat_map_step(hyperparams@, f, i as int);
            }
            push_str(&mut md, "| ");
            push_str(&mut md, hyperparams[i].key.as_str());
            push_str(&mut md, " | ");
            push_str(&mut md, hyperparams[i].value.as_str());
            push_str(&mut md, " |\n");
            i = i + 1;
        }
        assert(hyperparams@.take(hyperparams.len() as int) == hyperparams@);
    }
    assert(md@ == s_hp + hp_part(hyperparams@));
    let ghost s_latest = md@;
    if latest_metrics.len() > 0 {
        push_str(&mut md, "\n## Final Metrics\n\n");
        push_str(&mut md, "| Metric | Value |\n");
        push_str(&mut md, "|--------|-------|\n");
        let ghost mid = md@;
        let ghost f = md_latest_row_fn();
        let mut i: usize = 0;
        while i < latest_metrics.len()
            invariant
                i <= latest_metrics.len(),
                f == md_latest_row_fn(),
                md@ == mid + concat_map(latest_metrics@.take(i as int), f),
            decreases latest_metrics.len() - i,
        {
            proof {
                lemma_concat_map_step(latest_metrics@, f, i as int);
            }
            push_str(&mut md, "| ");
            push_str(&mut md, latest_metrics[i].0.as_str());
            push_str(&mut md, " | ");
            push_str(&mut md, latest_metrics[i].1.fixed6.as_str());
            push_str(&mut md, " |\n");
            i = i + 1;
        }
        assert(latest_metrics@.take(latest_metrics.len() as int) == latest_metrics@);
    }
    assert(md@ == s_latest + latest_part(latest_metrics@));
    push_summary(&mut md, metrics);
    push_str(&mut md, "\n---\n*Exported by experiment-tracker on ");
    now.push_datetime(&mut md);
    push_str(&mut md, "*\n");
    md
}

/// A run as a Markdown summary exported at the current local time.
pub fn export_run_markdown(
    run: &Run,
    metrics: &[Metric],
    hyperparams: &[HyperParam],
    tags: &[String],
    latest_metrics: &[(String, MetricValue)],
) -> (md: String)
    ensures
        exists|now: Timestamp|
            crate::time::valid_timestamp(now) && md@ == run_markdown_text(
                *run,
                metrics@,
                hyperparams@,
                views(tags@),
                latest_metrics@,
                now,
            ),
{
    let now = now_local();
    export_run_markdown_at(run, metrics, hyperparams, tags, latest_metrics, &now)
}

fn push_md_row(out: &mut String, runs_data: &[(String, Vec<Metric>)], name: &str)
    ensures
        final(out)@ == old(out)@ + md_row(runs_data@, name@),
{
    let lower = name_lower_is_better(name);
    let best = best_of_row(runs_data, name, lower);
    let ghost vals = row_values(runs_data@, name@);
    let ghost f = md_cell_fn(best);
    push_str(out, "| ");
    push_str(out, name);
    push_str(out, " |");
    let ghost mid = out@;
    let mut i: usize = 0;
    while i < runs_data.len()
        invariant
            i <= runs_data.len(),
            vals == row_values(runs_data@, name@),
            f == md_cell_fn(best),
            out@ == mid + concat_map(vals.take(i as int), f),
        decreases runs_data.len() - i,
    {
        proof {
            lemma_concat_map_step(vals, f, i as int);
        }
        match find_latest(&runs_data[i].1, name) {
            Some(k) => {
                let v = &runs_data[i].1[k].value;
                if value_is_best(v.tiny_band, best) {
                    push_str(out, " **");
                    push_str(out, v.fixed6.as_str());
                    push_str(out, "** |");
                } else {
                    push_str(out, " ");
                    push_str(out, v.fixed6.as_str());
                    push_str(out, " |");
                }
            },
            None => {
                push_str(out, " - |");
            },
        }
        i = i + 1;
    }
    assert(vals.take(runs_data.len() as int) == vals);
    push_str(out, "\n");
}

/// A comparison of several runs as Markdown generated at the given time: a
/// table with one column per run and one line per metric (each run's latest
/// value with six decimals, "-" when missing, the best of each line in bold:
/// the lowest for metrics whose names mention "loss" or "error", the highest
/// otherwise), then the largest epoch and number of points of each run.
pub fn export_compare_markdown_at(runs_data: &[(String, Vec<Metric>)], now: &Timestamp) -> (md:
    String)
    ensures
        md@ == compare_markdown_text(runs_data@, *now),
{
    let names = collect_metric_names(runs_data);
    let mut md = String::new();
    push_str(&mut md, "# Experiment Comparison \n\n");
    push_str(&mut md, "*Generated on ");
    now.push_datetime(&mut md);
    push_str(&mut md, "*\n\n");
    push_str(&mut md, "| Metric |");
    let ghost s0 = md@;
    let ghost hf = md_head_fn();
    let mut i: usize = 0;
    while i < runs_data.len()
        invariant
            i <= runs_data.len(),
            hf == md_head_fn(),
            md@ == s0 + concat_map(runs_data@.take(i as int), hf),
        decreases runs_data.len() - i,
    {
        proof {
            lemma_concat_map_step(runs_data@, hf, i as int);
        }
        push_str(&mut md, " ");
        push_str(&mut md, runs_data[i].0.as_str());
        push_str(&mut md, " |");
        i = i + 1;
    }
    assert(runs_data@.take(runs_data.len() as int) == runs_data@);
    push_str(&mut md, "\n");
    push_str(&mut md, "|--------|");
    let ghost s1 = md@;
    let ghost rf = md_rule_fn();
    let mut i: usize = 0;
    while i < runs_data.len()
        invariant
            i <= runs_data.len(),
            rf == md_rule_fn(),
            md@ == s1 + concat_map(runs_data@.take(i as int), rf),
        decreases runs_data.len() - i,
    {
        proof {
            lemma_concat_map_step(runs_data@, rf, i as int);
        }
        push_str(&mut md, "--------|");
        i = i + 1;
    }
    push_str(&mut md, "\n");
    let ghost s2 = md@;
    let ghost ns = views(names@);
    let ghost wf = md_row_fn(runs_data@);
    let mut j: usize = 0;
    while j < names.len()
        invariant
            j <= names.len(),
            ns == views(names@),
            wf == md_row_fn(runs_data@),
            md@ == s2 + concat_map(ns.take(j as int), wf),
        decreases names.len() - j,
    {
        proof {
            lemma_concat_map_step(ns, wf, j as int);
        }
        push_md_row(&mut md, runs_data, names[j].as_str());
        j = j + 1;
    }
    assert(ns.take(names.len() as int) == ns);
    push_str(&mut md, "\n## Run Details\n\n");
    let ghost s3 = md@;
    let ghost df = md_detail_fn();
    let mut i: usize = 0;
    while i < runs_data.len()
        invariant
            i <= runs_data.len(),
            df == md_detail_fn(),
            md@ == s3 + concat_map(runs_data@.take(i as int), df),
        decreases runs_data.len() - i,
    {
        proof {
            lemma_concat_map_step(runs_data@, df, i as int);
        }
        let epochs = match max_epoch_of(runs_data[i].1.as_slice()) {
            Some(e) => e,
            None => 0,
        };
        push_str(&mut md, "- **");
        push_str(&mut md, runs_data[i].0.as_str());
        push_str(&mut md, ":** ");
        push_i64(&mut md, epochs);
        push_str(&mut md, " epochs, ");
        push_u64(&mut md, runs_data[i].1.len() as u64);
        push_str(&mut md, " data points\n");
        i = i + 1;
    }
    md
}

/// A comparison of several runs as Markdown generated at the current local time.
pub fn export_compare_markdown(runs_data: &[(String, Vec<Metric>)]) -> (md: String)
    ensures
        exists|now: Timestamp| crate::time::valid_timestamp(now) && md@ == compare_markdown_text(runs_data@, now),
{
    let now = now_local();
    export_compare_markdown_at(runs_data, &now)
}

} // verus!
