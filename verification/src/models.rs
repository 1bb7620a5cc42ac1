//! The records the tracker keeps: runs, metrics, tags and hyperparameters,
//! with the plain values that stand for timestamps and metric values.
use vstd::prelude::*;
use crate::text::{nat_digits, owned, push_char, push_padded, str_eq, zero_pad};

verus! {

/// The lifecycle state of an experiment run.
#[derive(Debug, Clone, Copy, PartialEq, Eq, Structural)]
pub enum RunStatus {
    Running,
    Completed,
    Failed,
    Stopped,
}

/// The lower-case name under which a status is shown and stored.
pub open spec fn status_text(s: RunStatus) -> Seq<char> {
    match s {
        RunStatus::Running => "running"@,
        RunStatus::Completed => "completed"@,
        RunStatus::Failed => "failed"@,
        RunStatus::Stopped => "stopped"@,
    }
}

/// The status that a stored name stands for: unknown names read as running.
pub open spec fn status_from_text(s: Seq<char>) -> RunStatus {
    if s == "completed"@ {
        RunStatus::Completed
    } else if s == "failed"@ {
        RunStatus::Failed
    } else if s == "stopped"@ {
        RunStatus::Stopped
    } else {
        RunStatus::Running
    }
}

/// The one-character symbol of a status.
pub open spec fn status_symbol(s: RunStatus) -> Seq<char> {
    match s {
        RunStatus::Running => "⟳"@,
        RunStatus::Completed => "✓"@,
        RunStatus::Failed => "✗"@,
        RunStatus::Stopped => "■"@,
    }
}

impl RunStatus {
    /// The lower-case name of the status ("running", "completed", "failed", "stopped").
    pub fn as_str(&self) -> (s: &'static str)
        ensures
            s@ == status_text(*self),
    {
        match self {
            RunStatus::Running => "running",
            RunStatus::Completed => "completed",
            RunStatus::Failed => "failed",
            RunStatus::Stopped => "stopped",
        }
    }

    /// The lower-case name of the status, as an owned string.
    pub fn to_text(&self) -> (s: String)
        ensures
            s@ == status_text(*self),
    {
        owned(self.as_str())
    }

    /// The status named by `s`; any name other than "completed", "failed"
    /// or "stopped" reads as running.
    pub fn parse(s: &str) -> (r: RunStatus)
        ensures
            r == status_from_text(s@),
    {
        if str_eq(s, "completed") {
            RunStatus::Completed
        } else if str_eq(s, "failed") {
            RunStatus::Failed
        } else if str_eq(s, "stopped") {
            RunStatus::Stopped
        } else {
            RunStatus::Running
        }
    }

    /// The symbol shown beside the status.
    pub fn symbol(&self) -> (s: &'static str)
        ensures
            s@ == status_symbol(*self),
    {
        match self {
            RunStatus::Running => "⟳",
            RunStatus::Completed => "✓",
            RunStatus::Failed => "✗",
            RunStatus::Stopped => "■",
        }
    }
}

impl<'a> From<&'a str> for RunStatus {
    fn from(s: &'a str) -> (r: RunStatus) {
        RunStatus::parse(s)
    }
}

impl<'a> vstd::std_specs::convert::FromSpecImpl<&'a str> for RunStatus {
    open spec fn obeys_from_spec() -> bool {
        true
    }

    open spec fn from_spec(s: &'a str) -> RunStatus {
        status_from_text(s@)
    }
}

/// Reading back the stored name of a status gives the same status.
pub proof fn lemma_status_round_trip(s: RunStatus)
    ensures
        status_from_text(status_text(s)) == s,
{
    reveal_strlit("running");
    reveal_strlit("completed");
    reveal_strlit("failed");
    reveal_strlit("stopped");
    assert("running"@.len() != "completed"@.len());
    assert("running"@.len() != "failed"@.len());
    assert("running"@[0] != "stopped"@[0]);
    assert("failed"@.len() != "completed"@.len());
    assert("stopped"@.len() != "completed"@.len());
    assert("stopped"@.len() != "failed"@.len());
}

/// A calendar date and time of day, with the field values that chrono's
/// `NaiveDateTime` reports (month 1..=12, day 1..=31, hour 0..=23,
/// minute and second 0..=59).
#[derive(Debug, Clone, Copy, PartialEq, Eq, Structural)]
pub struct Timestamp {
    pub year: i32,
    pub month: u32,
    pub day: u32,
    pub hour: u32,
    pub minute: u32,
    pub second: u32,
}

/// The year as chrono's `%Y` prints it: four digits, zero-padded, for years
/// 0..=9999, and otherwise a sign followed by at least four digits.
pub open spec fn year_text(y: int) -> Seq<char> {
    if 0 <= y <= 9999 {
        zero_pad(nat_digits(y as nat), 4)
    } else if y > 9999 {
        seq!['+'] + zero_pad(nat_digits(y as nat), 4)
    } else {
        seq!['-'] + zero_pad(nat_digits((-y) as nat), 4)
    }
}

/// A two-digit, zero-padded field.
pub open spec fn two(n: u32) -> Seq<char> {
    zero_pad(nat_digits(n as nat), 2)
}

/// "%Y-%m-%d": the date part of a timestamp.
pub open spec fn date_text(t: Timestamp) -> Seq<char> {
    year_text(t.year as int) + seq!['-'] + two(t.month) + seq!['-'] + two(t.day)
}

/// "%Y-%m-%d %H:%M:%S": date and time of a timestamp.
pub open spec fn datetime_text(t: Timestamp) -> Seq<char> {
    date_text(t) + seq![' '] + two(t.hour) + seq![':'] + two(t.minute) + seq![':'] + two(
        t.second,
    )
}

/// "%Y%m%d_%H%M%S": the compact form used in file names.
pub open spec fn compact_text(t: Timestamp) -> Seq<char> {
    year_text(t.year as int) + two(t.month) + two(t.day) + seq!['_'] + two(t.hour) + two(t.minute)
        + two(t.second)
}

fn push_year(out: &mut String, y: i32)
    ensures
        final(out)@ == old(out)@ + year_text(y as int),
{
    if 0 <= y && y <= 9999 {
        push_padded(out, y as u64, 4);
    } else if y > 9999 {
        push_char(out, '+');
        push_padded(out, y as u64, 4);
        assert(out@ == old(out)@ + (seq!['+'] + zero_pad(nat_digits(y as nat), 4)));
    } else {
        push_char(out, '-');
        let m: u64 = if y == i32::MIN {
            2147483648u64
        } else {
            (-y) as u64
        };
        push_padded(out, m, 4);
        assert(out@ == old(out)@ + (seq!['-'] + zero_pad(nat_digits((-y) as nat), 4)));
    }
}

impl Timestamp {
    /// The time that chrono's default `NaiveDateTime` holds: 1970-01-01 00:00:00.
    pub fn epoch() -> (t: Timestamp)
        ensures
            t == (Timestamp { year: 1970, month: 1, day: 1, hour: 0, minute: 0, second: 0 }),
    {
        Timestamp { year: 1970, month: 1, day: 1, hour: 0, minute: 0, second: 0 }
    }

    /// Appends "%Y-%m-%d".
    pub fn push_date(&self, out: &mut String)
        ensures
            final(out)@ == old(out)@ + date_text(*self),
    {
        push_year(out, self.year);
        push_char(out, '-');
        push_padded(out, self.month as u64, 2);
        push_char(out, '-');
        push_padded(out, self.day as u64, 2);
        assert(out@ == old(out)@ + date_text(*self));
    }

    /// Appends "%Y-%m-%d %H:%M:%S".
    pub fn push_datetime(&self, out: &mut String)
        ensures
            final(out)@ == old(out)@ + datetime_text(*self),
    {
        self.push_date(out);
        push_char(out, ' ');
        push_padded(out, self.hour as u64, 2);
        push_char(out, ':');
        push_padded(out, self.minute as u64, 2);
        push_char(out, ':');
        push_padded(out, self.second as u64, 2);
        assert(out@ == old(out)@ + datetime_text(*self));
    }

    /// "%Y-%m-%d" as a string.
    pub fn format_date(&self) -> (s: String)
        ensures
            s@ == date_text(*self),
    {
        let mut s = String::new();
        self.push_date(&mut s);
        s
    }

    /// "%Y-%m-%d %H:%M:%S" as a string.
    pub fn format_datetime(&self) -> (s: String)
        ensures
            s@ == datetime_text(*self),
    {
        let mut s = String::new();
        self.push_datetime(&mut s);
        s
    }

    /// "%Y%m%d_%H%M%S" as a string.
    pub fn format_compact(&self) -> (s: String)
        ensures
            s@ == compact_text(*self),
    {
        let mut s = String::new();
        push_year(&mut s, self.year);
        push_padded(&mut s, self.month as u64, 2);
        push_padded(&mut s, self.day as u64, 2);
        push_char(&mut s, '_');
        push_padded(&mut s, self.hour as u64, 2);
        push_padded(&mut s, self.minute as u64, 2);
        push_padded(&mut s, self.second as u64, 2);
        s
    }
}

/// A range of order keys, from `lo` to `hi` (empty when `lo > hi`).
#[derive(Debug, Clone, Copy, PartialEq, Eq, Structural)]
pub struct KeyBand {
    pub lo: i64,
    pub hi: i64,
}

/// A metric value as the library handles it: the floating-point number
/// itself stays with the caller, which supplies its position in the total
/// order of numbers and the texts under which it is printed.
///
/// `order` is `None` exactly for NaN; for other numbers, `order` compares
/// as the numbers do, and equal numbers (0.0 and -0.0 included) have equal
/// keys. `tiny_band` is the range of the keys of the numbers `b` for which
/// `(v - b).abs() < 1e-30` holds in floating-point arithmetic, and
/// `small_band` the same for `1e-10` (both empty for NaN and the
/// infinities).
/// `text` is what `{}` prints, `fixed4` and `fixed6` what `{:.4}` and
/// `{:.6}` print.
#[derive(Debug, Clone)]
pub struct MetricValue {
    pub order: Option<i64>,
    pub tiny_band: KeyBand,
    pub small_band: KeyBand,
    pub text: String,
    pub fixed4: String,
    pub fixed6: String,
}

/// A run (one training experiment).
#[derive(Debug, Clone)]
pub struct Run {
    pub id: i64,
    pub name: String,
    pub status: RunStatus,
    pub log_path: String,
    pub created_at: Timestamp,
    pub updated_at: Timestamp,
    pub notes: String,
}

impl MetricValue {
    /// A copy of the value.
    pub fn duplicate(&self) -> (r: MetricValue)
        ensures
            r == *self,
    {
        MetricValue {
            order: self.order,
            tiny_band: self.tiny_band,
            small_band: self.small_band,
            text: self.text.clone(),
            fixed4: self.fixed4.clone(),
            fixed6: self.fixed6.clone(),
        }
    }
}

impl Run {
    /// A copy of the run.
    pub fn duplicate(&self) -> (r: Run)
        ensures
            r == *self,
    {
        Run {
            id: self.id,
            name: self.name.clone(),
            status: self.status,
            log_path: self.log_path.clone(),
            created_at: self.created_at,
            updated_at: self.updated_at,
            notes: self.notes.clone(),
        }
    }
}

/// One recorded metric value of a run.
#[derive(Debug, Clone)]
pub struct Metric {
    pub id: i64,
    pub run_id: i64,
    pub name: String,
    pub epoch: Option<i64>,
    pub step: Option<i64>,
    pub value: MetricValue,
    pub recorded_at: Timestamp,
}

/// Where a metric stands on a chart's x axis: its step, else its epoch,
/// else its id.
pub open spec fn x_position(m: Metric) -> i64 {
    match m.step {
        Some(s) => s,
        None => match m.epoch {
            Some(e) => e,
            None => m.id,
        },
    }
}

impl Metric {
    /// A copy of the metric.
    pub fn duplicate(&self) -> (r: Metric)
        ensures
            r == *self,
    {
        Metric {
            id: self.id,
            run_id: self.run_id,
            name: self.name.clone(),
            epoch: self.epoch,
            step: self.step,
            value: self.value.duplicate(),
            recorded_at: self.recorded_at,
        }
    }

    /// The x-axis position of the metric for charting: step, else epoch, else id.
    pub fn x_position(&self) -> (x: i64)
        ensures
            x == x_position(*self),
    {
        match self.step {
            Some(s) => s,
            None => match self.epoch {
                Some(e) => e,
                None => self.id,
            },
        }
    }
}

/// A tag attached to a run.
#[derive(Debug, Clone)]
pub struct Tag {
    pub id: i64,
    pub run_id: i64,
    pub tag: String,
}

/// A hyperparameter of a run, as a key and its text value.
#[derive(Debug, Clone)]
pub struct HyperParam {
    pub id: i64,
    pub run_id: i64,
    pub key: String,
    pub value: String,
}

/// The values that two runs give one hyperparameter key.
#[derive(Debug, Clone)]
pub struct HyperParamDiff {
    pub key: String,
    pub left: Option<String>,
    pub right: Option<String>,
}

/// The text held by an optional string.
pub open spec fn opt_text(o: Option<String>) -> Option<Seq<char>> {
    match o {
        Some(s) => Some(s@),
        None => None,
    }
}

impl HyperParamDiff {
    /// Whether the two runs disagree on the key: one has it and the other
    /// not, or both have it with different values.
    pub fn is_different(&self) -> (b: bool)
        ensures
            b == (opt_text(self.left) != opt_text(self.right)),
    {
        match (&self.left, &self.right) {
            (Some(a), Some(b)) => !str_eq(a.as_str(), b.as_str()),
            (None, None) => false,
            _ => true,
        }
    }
}

} // verus!
