//! Watching directories for log files: which file-system events are
//! reported, the debouncing of repeated changes to one file, and the order
//! in which existing files are imported.
use vstd::prelude::*;
use crate::parser::{is_log_extension, is_log_file};
use crate::paths::{path_extension, path_key, same_path};

verus! {

/// The shortest interval, in milliseconds, between two reported changes
/// of the same file.
pub const DEBOUNCE_MS: u64 = 200;

/// What the watcher reports to the application.
#[derive(Debug, Clone)]
pub enum WatchEvent {
    FileChanged(String),
    FileRemoved(String),
    Error(String),
}

/// The kind of a file-system event.
#[derive(Debug, Clone, Copy, PartialEq, Eq, Structural)]
pub enum EventKind {
    Create,
    Modify,
    Remove,
    Other,
}

/// Whether a path names a log file (by its extension).
pub open spec fn log_path(p: Seq<char>) -> bool {
    path_extension(p).is_some() && is_log_extension(path_extension(p).unwrap())
}

/// When each path last had a change reported, in milliseconds.
pub struct Debouncer {
    last: Vec<(String, u64)>,
}

/// The time a change of `p` was last reported, if ever; two texts that
/// name the same path (see `path_key`) are one file.
pub open spec fn last_report(s: Seq<(String, u64)>, p: Seq<char>) -> Option<u64>
    decreases s.len(),
{
    if s.len() == 0 {
        None
    } else if path_key(s.last().0@) == path_key(p) {
        Some(s.last().1)
    } else {
        last_report(s.drop_last(), p)
    }
}

/// Whether a change of a path at `now` is reported: always the first
/// time, and afterwards once at least `DEBOUNCE_MS` milliseconds passed
/// since the last report (a clock that went back counts as no time).
pub open spec fn due(last: Option<u64>, now: u64) -> bool {
    match last {
        Some(t) => !(now <= t || now - t < DEBOUNCE_MS),
        None => true,
    }
}

impl Debouncer {
    /// When a change of `p` was last reported, if ever.
    pub closed spec fn report(&self, p: Seq<char>) -> Option<u64> {
        last_report(self.last@, p)
    }

    /// When each path's change was last reported.
    pub open spec fn reports(&self) -> spec_fn(Seq<char>) -> Option<u64> {
        |p: Seq<char>| self.report(p)
    }

    /// A debouncer that has reported nothing yet.
    pub fn new() -> (d: Debouncer)
        ensures
            forall|p: Seq<char>| #[trigger] d.report(p) is None,
    {
        Debouncer { last: Vec::new() }
    }

    /// Whether a change of `path` at `now` (milliseconds) is reported; when
    /// it is, `now` becomes the path's last report.
    pub fn should_emit(&mut self, path: &str, now: u64) -> (b: bool)
        ensures
            b == due(old(self).report(path@), now),
            b ==> final(self).report(path@) == Some(now),
            forall|p: Seq<char>|
                #![trigger final(self).report(p)]
                b && path_key(p) == path_key(path@) ==> final(self).report(p) == Some(now),
            forall|p: Seq<char>| #![trigger final(self).report(p)] !b ==> final(self).report(p) == old(self).report(p),
            forall|p: Seq<char>|
                #![trigger final(self).report(p)]
                path_key(p) != path_key(path@) ==> final(self).report(p) == old(self).report(p),
    {
        let mut i = self.last.len();
        let mut found: Option<u64> = None;
        assert(self.last@.take(i as int) == self.last@);
        while i > 0 && found.is_none()
            invariant
                i <= self.last@.len(),
                found is None ==> last_report(self.last@, path@) == last_report(self.last@.take(i as int), path@),
                found matches Some(t) ==> last_report(self.last@, path@) == Some(t),
            decreases i,
        {
            assert(self.last@.take(i as int).drop_last() == self.last@.take(i - 1));
            if same_path(self.last[i - 1].0.as_str(), path) {
                found = Some(self.last[i - 1].1);
            }
            i = i - 1;
        }
        match found {
            Some(t) => {
                if now <= t || now - t < DEBOUNCE_MS {
                    return false;
                }
            },
            None => {},
        }
        let ghost before = self.last@;
        self.last.push((crate::text::owned(path), now));
        proof {
            assert(self.last@.drop_last() == before);
            assert forall|p: Seq<char>|
                path_key(p) != path_key(path@) implies last_report(self.last@, p) == last_report(
                before,
                p,
            ) by {
                assert(self.last@.last().0@ == path@);
            }
            assert forall|p: Seq<char>| path_key(p) == path_key(path@) implies last_report(self.last@, p) == Some(
                now,
            ) by {
                assert(self.last@.last().0@ == path@);
            }
        }
        true
    }
}

/// The events a change to `paths` at `now` produces (0 for a change, 1
/// for a removal, with the path): created and modified log files are reported as
/// changed when due; removed log files as removed; other paths and kinds
/// give nothing.
pub open spec fn events_after(
    kind: EventKind,
    paths: Seq<Seq<char>>,
    reports: spec_fn(Seq<char>) -> Option<u64>,
    now: u64,
) -> Seq<(int, Seq<char>)>
    decreases paths.len(),
{
    if paths.len() == 0 {
        seq![]
    } else {
        let prev = events_after(kind, paths.drop_last(), reports, now);
        let p = paths.last();
        let r = reports_after(kind, paths.drop_last(), reports, now);
        if !log_path(p) {
            prev
        } else if kind == EventKind::Remove {
            prev.push((1, p))
        } else if (kind == EventKind::Create || kind == EventKind::Modify) && due(r(p), now) {
            prev.push((0, p))
        } else {
            prev
        }
    }
}

/// The debouncing state after the changes to `paths` at `now`.
pub open spec fn reports_after(
    kind: EventKind,
    paths: Seq<Seq<char>>,
    reports: spec_fn(Seq<char>) -> Option<u64>,
    now: u64,
) -> spec_fn(Seq<char>) -> Option<u64>
    decreases paths.len(),
{
    if paths.len() == 0 {
        reports
    } else {
        let r = reports_after(kind, paths.drop_last(), reports, now);
        let p = paths.last();
        if log_path(p) && (kind == EventKind::Create || kind == EventKind::Modify) && due(r(p), now) {
            |q: Seq<char>| if path_key(q) == path_key(p) {
                Some(now)
            } else {
                r(q)
            }
        } else {
            r
        }
    }
}

/// An event as plain values: 0 for a change, 1 for a removal, 2 for an
/// error, with the path or message.
pub open spec fn event_view(e: WatchEvent) -> (int, Seq<char>) {
    match e {
        WatchEvent::FileChanged(p) => (0, p@),
        WatchEvent::FileRemoved(p) => (1, p@),
        WatchEvent::Error(m) => (2, m@),
    }
}

/// The views of a list of strings.
pub open spec fn path_views(v: Seq<String>) -> Seq<Seq<char>> {
    v.map_values(|s: String| s@)
}

/// The events one file-system notification of `kind` for `paths`
/// produces at `now` (see `events_after`).
pub fn events_for(kind: EventKind, paths: &Vec<String>, debouncer: &mut Debouncer, now: u64) -> (evs: Vec<WatchEvent>)
    ensures
        evs@.map_values(|e: WatchEvent| event_view(e)) == events_after(
            kind,
            path_views(paths@),
            old(debouncer).reports(),
            now,
        ),
        final(debouncer).reports() == reports_after(kind, path_views(paths@), old(debouncer).reports(), now),
{
    let ghost pv = path_views(paths@);
    let ghost r0 = debouncer.reports();
    let mut evs: Vec<WatchEvent> = Vec::new();
    let mut i: usize = 0;
    while i < paths.len()
        invariant
            i <= paths@.len(),
            pv == path_views(paths@),
            evs@.map_values(|e: WatchEvent| event_view(e)) == events_after(kind, pv.take(i as int), r0, now),
            debouncer.reports() == reports_after(kind, pv.take(i as int), r0, now),
        decreases paths@.len() - i,
    {
        assert(pv.take(i + 1).drop_last() == pv.take(i as int));
        assert(pv.take(i + 1).last() == paths@[i as int]@);
        let p = &paths[i];
        if is_log_file(p.as_str()) {
            if kind == EventKind::Remove {
                let ghost before = evs@;
                evs.push(WatchEvent::FileRemoved(p.clone()));
                assert(evs@.map_values(|e: WatchEvent| event_view(e)) == before.map_values(
                    |e: WatchEvent| event_view(e),
                ).push((1, p@)));
            } else if kind == EventKind::Create || kind == EventKind::Modify {
                let ghost rb = debouncer.reports();
                if debouncer.should_emit(p.as_str(), now) {
                    let ghost before = evs@;
                    evs.push(WatchEvent::FileChanged(p.clone()));
                    assert(evs@.map_values(|e: WatchEvent| event_view(e)) == before.map_values(
                        |e: WatchEvent| event_view(e),
                    ).push((0, p@)));
                    assert(debouncer.reports() =~= (|q: Seq<char>| if path_key(q) == path_key(p@) {
                        Some(now)
                    } else {
                        rb(q)
                    }));
                } else {
                    assert(debouncer.reports() =~= rb);
                }
            }
        }
        i = i + 1;
    }
    assert(pv.take(paths@.len() as int) == pv);
    evs
}

/// A change reported at `now` is not reported again for the same file
/// before `DEBOUNCE_MS` milliseconds have passed.
pub proof fn law_debounce_quiet(t: u64, now: u64)
    requires
        t <= now < t + DEBOUNCE_MS,
    ensures
        !due(Some(t), now),
{
}

/// A file's first change is always reported, and so is any change
/// `DEBOUNCE_MS` or more milliseconds after the last report.
pub proof fn law_debounce_due(t: u64, now: u64)
    requires
        now >= t + DEBOUNCE_MS,
    ensures
        due(None, now),
        due(Some(t), now),
{
}

/// Files ordered newest first (by modification time); files with equal
/// times keep their order.
pub open spec fn newest_first(fs: Seq<(String, u128)>) -> Seq<(String, u128)>
    decreases fs.len(),
{
    if fs.len() == 0 {
        seq![]
    } else {
        insert_by_time(newest_first(fs.drop_last()), fs.last())
    }
}

/// `x` placed into a newest-first list after every file at least as new.
pub open spec fn insert_by_time(s: Seq<(String, u128)>, x: (String, u128)) -> Seq<(String, u128)>
    decreases s.len(),
{
    if s.len() == 0 {
        seq![x]
    } else if s[0].1 >= x.1 {
        seq![s[0]] + insert_by_time(s.skip(1), x)
    } else {
        seq![x] + s
    }
}

/// Orders the files found by a scan newest first, as a stable sort by
/// modification time (nanoseconds; 0 when unknown) from newest to oldest.
pub fn sort_newest_first(files: Vec<(String, u128)>) -> (out: Vec<(String, u128)>)
    ensures
        out@ == newest_first(files@),
{
    let mut out: Vec<(String, u128)> = Vec::new();
    let mut i: usize = 0;
    while i < files.len()
        invariant
            i <= files@.len(),
            out@ == newest_first(files@.take(i as int)),
        decreases files@.len() - i,
    {
        assert(files@.take(i + 1).drop_last() == files@.take(i as int));
        let x = (files[i].0.clone(), files[i].1);
        let ghost before = out@;
        let mut p: usize = 0;
        assert(before.skip(0) == before);
        assert(before.take(0) + insert_by_time(before, x) == insert_by_time(before, x));
        while p < out.len() && out[p].1 >= x.1
            invariant
                p <= out@.len(),
                out@ == before,
                insert_by_time(before, x) == before.take(p as int) + insert_by_time(before.skip(p as int), x),
            decreases out@.len() - p,
        {
            assert(before.skip(p as int)[0] == before[p as int]);
            assert(before.skip(p as int).skip(1) == before.skip(p + 1));
            assert(before.take(p + 1) == before.take(p as int) + seq![before[p as int]]);
            p = p + 1;
        }
        proof {
            if p < before.len() {
                assert(before.skip(p as int)[0] == before[p as int]);
            }
            assert(before.take(p as int) + (seq![x] + before.skip(p as int)) == before.insert(p as int, x));
        }
        out.insert(p, x);
        assert(files@.take(i + 1).last() == x);
        i = i + 1;
    }
    assert(files@.take(files@.len() as int) == files@);
    out
}

/// A newest-first list is ordered from the newest file to the oldest.
pub proof fn law_newest_first_sorted(fs: Seq<(String, u128)>)
    ensures
        forall|i: int, j: int| 0 <= i < j < newest_first(fs).len() ==> newest_first(fs)[i].1 >= newest_first(fs)[j].1,
        newest_first(fs).len() == fs.len(),
    decreases fs.len(),
{
    if fs.len() > 0 {
        law_newest_first_sorted(fs.drop_last());
        lemma_insert_sorted(newest_first(fs.drop_last()), fs.last());
    }
}

/// Inserting into an ordered list keeps it ordered and one longer.
pub proof fn lemma_insert_sorted(s: Seq<(String, u128)>, x: (String, u128))
    requires
        forall|i: int, j: int| 0 <= i < j < s.len() ==> s[i].1 >= s[j].1,
    ensures
        forall|i: int, j: int| 0 <= i < j < insert_by_time(s, x).len() ==> insert_by_time(s, x)[i].1 >= insert_by_time(s, x)[j].1,
        insert_by_time(s, x).len() == s.len() + 1,
        forall|i: int| 0 <= i < insert_by_time(s, x).len() ==> (insert_by_time(s, x)[i] == x || s.contains(insert_by_time(s, x)[i])),
    decreases s.len(),
{
    if s.len() > 0 && s[0].1 >= x.1 {
        let t = s.skip(1);
        assert forall|i: int, j: int| 0 <= i < j < t.len() implies t[i].1 >= t[j].1 by {
            assert(t[i] == s[i + 1] && t[j] == s[j + 1]);
        }
        lemma_insert_sorted(t, x);
        let r = insert_by_time(t, x);
        assert forall|i: int| 0 <= i < r.len() implies r[i].1 <= s[0].1 by {
            if r[i] != x {
                assert(t.contains(r[i]));
                let k = choose|k: int| 0 <= k < t.len() && t[k] == r[i];
                assert(s[k + 1] == r[i]);
            }
        }
        assert forall|i: int| 0 <= i < (seq![s[0]] + r).len() implies ((seq![s[0]] + r)[i] == x || s.contains((seq![s[0]] + r)[i])) by {
            if i > 0 && r[i - 1] != x {
                let k = choose|k: int| 0 <= k < t.len() && t[k] == r[i - 1];
                assert(s[k + 1] == r[i - 1]);
            }
            if i == 0 {
                assert(s[0] == s[0]);
            }
        }
    } else if s.len() > 0 {
        assert forall|i: int| 0 <= i < (seq![x] + s).len() implies ((seq![x] + s)[i] == x || s.contains((seq![x] + s)[i])) by {
            if i > 0 {
                assert((seq![x] + s)[i] == s[i - 1]);
            }
        }
    }
}

} // verus!
