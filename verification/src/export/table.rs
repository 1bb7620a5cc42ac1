//! What comparison exports share: the metric names across runs, the latest
//! value of a metric in a run, and which value of a row is the best.
use vstd::prelude::*;
use crate::models::{KeyBand, Metric, MetricValue};
use crate::text::{contains_seq, str_contains, str_eq, views};

verus! {

/// The names of a run's metrics, in recording order.
pub open spec fn metric_names(ms: Seq<Metric>) -> Seq<Seq<char>> {
    ms.map_values(|m: Metric| m.name@)
}

/// The names of all metrics of all runs, run after run.
pub open spec fn all_names(runs: Seq<(String, Vec<Metric>)>) -> Seq<Seq<char>>
    decreases runs.len(),
{
    if runs.len() == 0 {
        seq![]
    } else {
        all_names(runs.drop_last()) + metric_names(runs.last().1@)
    }
}

/// The items of `s` without repeats, each where it first occurs.
pub open spec fn unique(s: Seq<Seq<char>>) -> Seq<Seq<char>>
    decreases s.len(),
{
    if s.len() == 0 {
        seq![]
    } else {
        let u = unique(s.drop_last());
        if u.contains(s.last()) {
            u
        } else {
            u.push(s.last())
        }
    }
}

/// The distinct metric names of a comparison, in order of first appearance.
pub open spec fn compare_names(runs: Seq<(String, Vec<Metric>)>) -> Seq<Seq<char>> {
    unique(all_names(runs))
}

/// The position of the last metric named `name`, if any.
pub open spec fn latest_index(ms: Seq<Metric>, name: Seq<char>) -> Option<int>
    decreases ms.len(),
{
    if ms.len() == 0 {
        None
    } else if ms.last().name@ == name {
        Some(ms.len() - 1)
    } else {
        latest_index(ms.drop_last(), name)
    }
}

/// The latest value of the metric named `name` in a run.
pub open spec fn latest_value(ms: Seq<Metric>, name: Seq<char>) -> Option<MetricValue> {
    match latest_index(ms, name) {
        Some(k) => Some(ms[k].value),
        None => None,
    }
}

/// The latest values of one metric across the runs of a comparison.
pub open spec fn row_values(runs: Seq<(String, Vec<Metric>)>, name: Seq<char>) -> Seq<
    Option<MetricValue>,
> {
    runs.map_values(|r: (String, Vec<Metric>)| latest_value(r.1@, name))
}

/// Metrics whose names mention "loss" or "error" are better when lower.
pub open spec fn lower_is_better(name: Seq<char>) -> bool {
    contains_seq(name, "loss"@) || contains_seq(name, "error"@)
}

/// The better of two order keys.
pub open spec fn better(a: i64, b: i64, lower: bool) -> i64 {
    if lower {
        if a <= b {
            a
        } else {
            b
        }
    } else {
        if a >= b {
            a
        } else {
            b
        }
    }
}

/// The best order key among the values present (NaN values, which have
/// no key, are passed over), or `None` when there is none.
pub open spec fn best_key(vals: Seq<Option<MetricValue>>, lower: bool) -> Option<i64>
    decreases vals.len(),
{
    if vals.len() == 0 {
        None
    } else {
        let prev = best_key(vals.drop_last(), lower);
        match vals.last() {
            Some(v) => match v.order {
                Some(k) => match prev {
                    Some(p) => Some(better(p, k, lower)),
                    None => Some(k),
                },
                None => prev,
            },
            None => prev,
        }
    }
}

/// What `best_key` is: `None` exactly when no value of the row has an order
/// key; otherwise one of the keys, and no key is better than it.
pub proof fn lemma_best_key(vals: Seq<Option<MetricValue>>, lower: bool)
    ensures
        best_key(vals, lower) is None <==> (forall|i: int|
            0 <= i < vals.len() ==> (#[trigger] vals[i] is None || vals[i]->0.order is None)),
        best_key(vals, lower) matches Some(b) ==> exists|i: int|
            0 <= i < vals.len() && #[trigger] vals[i] == Some(vals[i]->0) && vals[i]->0.order
                == Some(b),
        best_key(vals, lower) matches Some(b) ==> forall|i: int|
            0 <= i < vals.len() && #[trigger] vals[i] is Some && vals[i]->0.order is Some ==> if lower {
                b <= vals[i]->0.order->0
            } else {
                b >= vals[i]->0.order->0
            },
    decreases vals.len(),
{
    if vals.len() > 0 {
        let init = vals.drop_last();
        lemma_best_key(init, lower);
        let n = vals.len() - 1;
        assert forall|i: int| 0 <= i < n implies vals[i] == #[trigger] init[i] by {}
        if best_key(vals, lower) is None {
            assert forall|i: int|
                0 <= i < vals.len() implies (#[trigger] vals[i] is None || vals[i]->0.order is None) by {
                if i < n {
                    assert(init[i] == vals[i]);
                }
            }
        }
        match best_key(vals, lower) {
            Some(b) => {
                match best_key(init, lower) {
                    Some(p) => {
                        let j = choose|j: int|
                            0 <= j < init.len() && #[trigger] init[j] == Some(init[j]->0)
                                && init[j]->0.order == Some(p);
                        if b == p {
                            assert(vals[j] == init[j]);
                        } else {
                            assert(vals[n] == Some(vals[n]->0));
                        }
                    },
                    None => {
                        assert(vals[n] == Some(vals[n]->0));
                    },
                }
                assert forall|i: int|
                    0 <= i < vals.len() && #[trigger] vals[i] is Some && vals[i]->0.order
                        is Some implies if lower {
                    b <= vals[i]->0.order->0
                } else {
                    b >= vals[i]->0.order->0
                } by {
                    if i < n {
                        assert(init[i] == vals[i]);
                    }
                }
            },
            None => {},
        }
    }
}

/// For a metric whose name contains "loss" or "error", the best value of a
/// comparison row is the lowest of the row's values; for any other metric it
/// is the highest. The best is one of the row's values, and there is none
/// exactly when no run has an ordered value of the metric.
pub proof fn law_comparison_best(runs: Seq<(String, Vec<Metric>)>, name: Seq<char>)
    ensures
        ({
            let vals = row_values(runs, name);
            let lower = contains_seq(name, "loss"@) || contains_seq(name, "error"@);
            let best = best_key(vals, lower_is_better(name));
            &&& best is None <==> (forall|i: int|
                0 <= i < vals.len() ==> (#[trigger] vals[i] is None || vals[i]->0.order is None))
            &&& best matches Some(b) ==> exists|i: int|
                0 <= i < vals.len() && #[trigger] vals[i] == Some(vals[i]->0) && vals[i]->0.order
                    == Some(b)
            &&& best matches Some(b) ==> forall|i: int|
                0 <= i < vals.len() && #[trigger] vals[i] is Some && vals[i]->0.order is Some
                    ==> (lower ==> b <= vals[i]->0.order->0) && (!lower ==> b >= vals[i]->0.order->0)
        }),
{
    lemma_best_key(row_values(runs, name), lower_is_better(name));
}

/// A value is marked as the best of its row when the row's best value lies
/// within its tolerance band (see `MetricValue`): the band of the keys of
/// the numbers within the tolerance of the value.
pub open spec fn is_best(band: KeyBand, best: Option<i64>) -> bool {
    match best {
        Some(b) => band.lo <= b && b <= band.hi,
        None => false,
    }
}

/// Whether the list of names holds `name`.
pub fn names_contain(names: &Vec<String>, name: &str) -> (b: bool)
    ensures
        b == views(names@).contains(name@),
{
    let mut i: usize = 0;
    while i < names.len()
        invariant
            i <= names.len(),
            forall|j: int| 0 <= j < i ==> names@[j]@ != name@,
        decreases names.len() - i,
    {
        if str_eq(names[i].as_str(), name) {
            assert(views(names@)[i as int] == name@);
            return true;
        }
        i = i + 1;
    }
    assert(!views(names@).contains(name@)) by {
        if views(names@).contains(name@) {
            let k = choose|k: int| 0 <= k < views(names@).len() && views(names@)[k] == name@;
            assert(names@[k]@ == name@);
        }
    }
    false
}

/// The distinct metric names of a comparison, in order of first appearance.
pub fn collect_metric_names(runs_data: &[(String, Vec<Metric>)]) -> (names: Vec<String>)
    ensures
        views(names@) == compare_names(runs_data@),
{
    let mut names: Vec<String> = Vec::new();
    let mut i: usize = 0;
    while i < runs_data.len()
        invariant
            i <= runs_data.len(),
            views(names@) == unique(all_names(runs_data@.take(i as int))),
        decreases runs_data.len() - i,
    {
        let ms = &runs_data[i].1;
        let ghost before = all_names(runs_data@.take(i as int));
        let mut j: usize = 0;
        while j < ms.len()
            invariant
                j <= ms.len(),
                i < runs_data@.len(),
                ms@ == runs_data@[i as int].1@,
                views(names@) == unique(before + metric_names(ms@.take(j as int))),
            decreases ms.len() - j,
        {
            assert(metric_names(ms@.take(j + 1)) == metric_names(ms@.take(j as int)).push(
                ms@[j as int].name@,
            ));
            assert(before + metric_names(ms@.take(j + 1)) == (before + metric_names(
                ms@.take(j as int),
            )).push(ms@[j as int].name@));
            let ghost xs = before + metric_names(ms@.take(j as int));
            assert(xs.push(ms@[j as int].name@).drop_last() == xs);
            if !names_contain(&names, ms[j].name.as_str()) {
                let n = copy_string(&ms[j].name);
                names.push(n);
                assert(views(names@) == views(names@.drop_last()).push(n@));
            }
            j = j + 1;
        }
        assert(ms@.take(ms.len() as int) == ms@);
        assert(runs_data@.take(i + 1).drop_last() == runs_data@.take(i as int));
        i = i + 1;
    }
    assert(runs_data@.take(runs_data.len() as int) == runs_data@);
    names
}

/// A copy of a string.
pub fn copy_string(s: &String) -> (r: String)
    ensures
        r@ == s@,
{
    crate::text::owned(s.as_str())
}

/// The position of the last metric named `name` in `ms`.
pub fn find_latest(ms: &Vec<Metric>, name: &str) -> (r: Option<usize>)
    ensures
        match r {
            Some(k) => k < ms@.len() && latest_index(ms@, name@) == Some(k as int),
            None => latest_index(ms@, name@) is None,
        },
{
    let mut found: Option<usize> = None;
    let mut j: usize = 0;
    while j < ms.len()
        invariant
            j <= ms.len(),
            match found {
                Some(k) => k < j && latest_index(ms@.take(j as int), name@) == Some(k as int),
                None => latest_index(ms@.take(j as int), name@) is None,
            },
        decreases ms.len() - j,
    {
        assert(ms@.take(j + 1).drop_last() == ms@.take(j as int));
        if str_eq(ms[j].name.as_str(), name) {
            found = Some(j);
        }
        j = j + 1;
    }
    assert(ms@.take(ms.len() as int) == ms@);
    found
}

/// Whether metrics named `name` are better when lower.
pub fn name_lower_is_better(name: &str) -> (b: bool)
    ensures
        b == lower_is_better(name@),
{
    str_contains(name, "loss") || str_contains(name, "error")
}

/// The best order key of the latest values of `name` across the runs.
pub fn best_of_row(runs_data: &[(String, Vec<Metric>)], name: &str, lower: bool) -> (b: Option<
    i64,
>)
    ensures
        b == best_key(row_values(runs_data@, name@), lower),
{
    let ghost vals = row_values(runs_data@, name@);
    let mut best: Option<i64> = None;
    let mut i: usize = 0;
    while i < runs_data.len()
        invariant
            i <= runs_data.len(),
            vals == row_values(runs_data@, name@),
            best == best_key(vals.take(i as int), lower),
        decreases runs_data.len() - i,
    {
        assert(vals.take(i + 1).drop_last() == vals.take(i as int));
        let idx = find_latest(&runs_data[i].1, name);
        match idx {
            Some(k) => {
                let v = &runs_data[i].1[k];
                match v.value.order {
                    Some(key) => {
                        best = match best {
                            Some(p) => Some(
                                if lower {
                                    if p <= key {
                                        p
                                    } else {
                                        key
                                    }
                                } else {
                                    if p >= key {
                                        p
                                    } else {
                                        key
                                    }
                                },
                            ),
                            None => Some(key),
                        };
                    },
                    None => {},
                }
            },
            None => {},
        }
        i = i + 1;
    }
    assert(vals.take(runs_data.len() as int) == vals);
    best
}

/// Whether a value is marked best in its row.
pub fn value_is_best(band: KeyBand, best: Option<i64>) -> (b: bool)
    ensures
        b == is_best(band, best),
{
    match best {
        Some(bk) => band.lo <= bk && bk <= band.hi,
        None => false,
    }
}

} // verus!
