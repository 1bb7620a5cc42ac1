//! GPU readings from nvidia-smi: parsing its output, the alert
//! thresholds, and the ring buffer that keeps the recent history.
use vstd::prelude::*;
use crate::numbers::{float_floor_sat, float_text_floor};
use crate::text::{
    chars_of, contains_chars, contains_seq, lemma_lines_len, lemma_split_len, lemma_trim_len, lines,
    lines_of, split_chars, split_on, string_of, trim, trim_chars,
};

verus! {

/// The last `cap` items of `s` (all of them when there are fewer).
pub open spec fn keep_last<T>(s: Seq<T>, cap: nat) -> Seq<T> {
    if s.len() > cap {
        s.skip(s.len() - cap)
    } else {
        s
    }
}

/// A fixed-capacity history that keeps the most recent entries,
/// overwriting the oldest once full.
pub struct GpuHistory<T> {
    entries: Vec<T>,
    capacity: usize,
    write_index: usize,
}

impl<T> GpuHistory<T> {
    /// The buffer is never over capacity, and until it is full the next
    /// slot is the end (a history of capacity 0 stays empty).
    pub closed spec fn wf(&self) -> bool {
        &&& self.entries@.len() <= self.capacity
        &&& self.capacity == 0 ==> self.write_index == 0
        &&& self.capacity > 0 ==> self.write_index < self.capacity
        &&& self.entries@.len() < self.capacity ==> self.write_index == self.entries@.len()
    }

    /// The capacity the history was made with.
    pub closed spec fn cap(&self) -> nat {
        self.capacity as nat
    }

    /// The entries from oldest to newest.
    pub closed spec fn view_ordered(&self) -> Seq<T> {
        if self.entries@.len() < self.capacity {
            self.entries@
        } else {
            self.entries@.skip(self.write_index as int) + self.entries@.take(self.write_index as int)
        }
    }

    /// An empty history holding at most `capacity` entries.
    pub fn new(capacity: usize) -> (h: Self)
        ensures
            h.wf(),
            h.cap() == capacity,
            h.view_ordered().len() == 0,
    {
        GpuHistory { entries: Vec::new(), capacity, write_index: 0 }
    }

    /// Whether nothing was recorded yet.
    pub fn is_empty(&self) -> (b: bool)
        requires
            self.wf(),
        ensures
            b == (self.view_ordered().len() == 0),
    {
        self.entries.len() == 0
    }

    /// The number of entries held.
    pub fn len(&self) -> (n: usize)
        requires
            self.wf(),
        ensures
            n == self.view_ordered().len(),
    {
        self.entries.len()
    }

    /// Records an entry; once full, the oldest entry is dropped. A history
    /// of capacity 0 cannot take an entry (its slot index would divide by
    /// zero).
    pub fn push(&mut self, stats: T)
        requires
            old(self).wf(),
            old(self).cap() > 0,
        ensures
            final(self).wf(),
            final(self).cap() == old(self).cap(),
            final(self).view_ordered() == keep_last(old(self).view_ordered().push(stats), old(self).cap()),
    {
        let ghost old_view = self.view_ordered();
        let ghost e = self.entries@;
        let ghost w = self.write_index as int;
        let ghost x = stats;
        if self.entries.len() < self.capacity {
            self.entries.push(stats);
            self.write_index = if self.write_index + 1 < self.capacity {
                self.write_index + 1
            } else {
                0
            };
            proof {
                if self.entries@.len() == self.capacity {
                    assert(self.entries@.skip(0) == self.entries@);
                    assert(self.entries@.take(0) =~= Seq::<T>::empty());
                    assert(self.entries@.skip(0) + self.entries@.take(0) =~= self.entries@);
                }
            }
        } else {
            let w0 = self.write_index;
            self.entries.set(w0, stats);
            self.write_index = if self.write_index + 1 < self.capacity {
                self.write_index + 1
            } else {
                0
            };
            proof {
                let c = self.capacity as int;
                let ne = e.update(w, x);
                assert(self.entries@ == ne);
                let full = old_view.push(x);
                assert(full.len() == c + 1);
                let kept = full.skip(1);
                if w + 1 < c {
                    assert(ne.skip(w + 1) =~= e.skip(w + 1));
                    assert(ne.take(w + 1) =~= e.take(w).push(x));
                    assert(kept =~= e.skip(w + 1) + e.take(w).push(x));
                    assert(ne.skip(w + 1) + ne.take(w + 1) =~= kept);
                } else {
                    assert(self.write_index == 0);
                    assert(ne.skip(0) + ne.take(0) =~= ne);
                    assert(e.skip(w + 1) =~= Seq::<T>::empty());
                    assert(ne =~= e.take(w).push(x));
                    assert(kept =~= e.take(w).push(x));
                }
            }
        }
    }

    /// The entries from oldest to newest.
    pub fn ordered(&self) -> (r: Vec<&T>)
        requires
            self.wf(),
        ensures
            r@.len() == self.view_ordered().len(),
            forall|i: int| 0 <= i < r@.len() ==> *r@[i] == self.view_ordered()[i],
    {
        let mut r: Vec<&T> = Vec::new();
        let n = self.entries.len();
        if n < self.capacity {
            let mut i: usize = 0;
            while i < n
                invariant
                    i <= n,
                    n == self.entries@.len(),
                    n < self.capacity,
                    r@.len() == i,
                    forall|k: int| 0 <= k < i ==> *r@[k] == self.entries@[k],
                decreases n - i,
            {
                r.push(&self.entries[i]);
                i = i + 1;
            }
        } else {
            let mut i: usize = 0;
            while i < self.capacity
                invariant
                    self.wf(),
                    n == self.entries@.len(),
                    n >= self.capacity,
                    i <= self.capacity,
                    r@.len() == i,
                    forall|k: int| 0 <= k < i ==> *r@[k] == self.view_ordered()[k],
                decreases self.capacity - i,
            {
                let ix = if i < self.capacity - self.write_index {
                    self.write_index + i
                } else {
                    i - (self.capacity - self.write_index)
                };
                proof {
                    let w = self.write_index as int;
                    let e = self.entries@;
                    if w + i < self.capacity {
                        assert(self.view_ordered()[i as int] == e.skip(w)[i as int]);
                    } else {
                        assert(self.view_ordered()[i as int] == e.take(w)[i - (self.capacity - w)]);
                    }
                }
                r.push(&self.entries[ix]);
                i = i + 1;
            }
        }
        r
    }
}

/// What a history of capacity `cap` holds after `xs` were pushed onto it
/// one by one, from empty, step by step as `push` states it.
pub open spec fn after_pushes<T>(xs: Seq<T>, cap: nat) -> Seq<T>
    decreases xs.len(),
{
    if xs.len() == 0 {
        seq![]
    } else {
        keep_last(after_pushes(xs.drop_last(), cap).push(xs.last()), cap)
    }
}

/// Keeping the last `cap` items, adding one, and keeping the last `cap`
/// again is keeping the last `cap` of the whole.
pub proof fn lemma_keep_last_push<T>(s: Seq<T>, x: T, cap: nat)
    requires
        cap > 0,
    ensures
        keep_last(keep_last(s, cap).push(x), cap) == keep_last(s.push(x), cap),
{
    if s.len() > cap {
        let k = s.skip(s.len() - cap);
        assert(k.push(x).skip(1) =~= s.push(x).skip(s.push(x).len() - cap));
    }
}

/// A history holds the last `capacity` entries pushed, oldest first:
/// after pushing `xs` one by one onto an empty history it holds the last
/// `cap` items of `xs`, in order.
pub proof fn law_history_keeps_last<T>(xs: Seq<T>, cap: nat)
    requires
        cap > 0,
    ensures
        after_pushes(xs, cap) == keep_last(xs, cap),
    decreases xs.len(),
{
    if xs.len() > 0 {
        law_history_keeps_last(xs.drop_last(), cap);
        lemma_keep_last_push(xs.drop_last(), xs.last(), cap);
        assert(xs.drop_last().push(xs.last()) == xs);
    }
}

/// A process that uses the GPU.
#[derive(Debug, Clone)]
pub struct GpuProcess {
    pub pid: u32,
    pub name: String,
    pub vram_used_mb: u64,
}

/// Where the nvidia-smi program that is polled lives.
#[derive(Debug, Clone)]
pub struct GpuMonitor {
    pub nvidia_smi_path: String,
}

/// One poll of the GPU's statistics, as nvidia-smi reports them. The power
/// figures are kept as the texts nvidia-smi printed.
#[derive(Debug, Clone)]
pub struct GpuReading {
    pub utilization_percent: u32,
    pub vram_used_mb: u64,
    pub vram_total_mb: u64,
    pub temperature_celsius: u32,
    pub power_draw_text: String,
    pub power_limit_text: String,
    pub clock_speed_mhz: u32,
    pub fan_speed_percent: Option<u32>,
    pub gpu_name: String,
    pub driver_version: String,
}

/// Why nvidia-smi's statistics could not be read.
#[derive(Debug, Clone)]
pub enum GpuError {
    EmptyOutput,
    TooFewFields { count: usize, line: String },
}

impl GpuError {
    /// The message shown for the error.
    pub fn message(&self) -> (m: String)
        ensures
            match self {
                GpuError::EmptyOutput => m@ == "nvidia-smi returned empty output"@,
                GpuError::TooFewFields { count, line } => m@ == "nvidia-smi returned "@
                    + crate::text::nat_digits(*count as nat) + " fields, expected 10: "@ + line@,
            },
    {
        match self {
            GpuError::EmptyOutput => crate::text::owned("nvidia-smi returned empty output"),
            GpuError::TooFewFields { count, line } => {
                let mut m = crate::text::owned("nvidia-smi returned ");
                crate::text::push_u64(&mut m, *count as u64);
                crate::text::push_str(&mut m, " fields, expected 10: ");
                crate::text::push_str(&mut m, line.as_str());
                m
            },
        }
    }
}

/// A text limit that no text held in memory reaches.
pub open spec fn fits(s: Seq<char>) -> bool {
    s.len() < 0x1_0000_0000_0000
}

/// What an nvidia-smi number reads as in a `u32` field: the text, trimmed,
/// read as a floating-point number (0 when it is none) and cast to `u32`.
pub open spec fn u32_field(s: Seq<char>) -> u32 {
    float_floor_sat(trim(s), u32::MAX as int) as u32
}

/// What an nvidia-smi number reads as in a `u64` field.
pub open spec fn u64_field(s: Seq<char>) -> u64 {
    float_floor_sat(trim(s), u64::MAX as int) as u64
}

/// An optional `u32` field: absent when it reads "[N/A]", "N/A" or
/// nothing once trimmed.
pub open spec fn optional_u32_field(s: Seq<char>) -> Option<u32> {
    let t = trim(s);
    if t == "[N/A]"@ || t == "N/A"@ || t.len() == 0 {
        None
    } else {
        Some(u32_field(t))
    }
}

/// The fields of a comma-separated line, each trimmed.
pub open spec fn csv_fields_trimmed(line: Seq<char>) -> Seq<Seq<char>> {
    split_on(line, ',').map_values(|f: Seq<char>| trim(f))
}

/// The fields of nvidia-smi's statistics output: its trimmed text split at
/// commas, each trimmed.
pub open spec fn stat_fields(out: Seq<char>) -> Seq<Seq<char>> {
    csv_fields_trimmed(trim(out))
}

/// Whether `g` holds the ten statistics fields `fs`: utilization, VRAM
/// used and total, temperature, power draw and limit, clock, fan speed,
/// name and driver version.
pub open spec fn reading_is(g: GpuReading, fs: Seq<Seq<char>>) -> bool {
    &&& g.utilization_percent == u32_field(fs[0])
    &&& g.vram_used_mb == u64_field(fs[1])
    &&& g.vram_total_mb == u64_field(fs[2])
    &&& g.temperature_celsius == u32_field(fs[3])
    &&& g.power_draw_text@ == fs[4]
    &&& g.power_limit_text@ == fs[5]
    &&& g.clock_speed_mhz == u32_field(fs[6])
    &&& g.fan_speed_percent == optional_u32_field(fs[7])
    &&& g.gpu_name@ == fs[8]
    &&& g.driver_version@ == fs[9]
}

/// The process a line of nvidia-smi's process output describes: none for
/// a blank line, a "No Running" notice, or fewer than three fields; else
/// its pid, name and VRAM use.
pub open spec fn process_of(line: Seq<char>) -> Option<(u32, Seq<char>, u64)> {
    let t = trim(line);
    if t.len() == 0 || contains_seq(t, "No Running"@) {
        None
    } else {
        let fs = csv_fields_trimmed(t);
        if fs.len() >= 3 {
            Some((u32_field(fs[0]), fs[1], u64_field(fs[2])))
        } else {
            None
        }
    }
}

/// The processes the lines describe, in order.
pub open spec fn processes_of(ls: Seq<Seq<char>>) -> Seq<(u32, Seq<char>, u64)>
    decreases ls.len(),
{
    if ls.len() == 0 {
        seq![]
    } else {
        match process_of(ls.last()) {
            Some(p) => processes_of(ls.drop_last()).push(p),
            None => processes_of(ls.drop_last()),
        }
    }
}

/// A process as plain values.
pub open spec fn process_view(p: GpuProcess) -> (u32, Seq<char>, u64) {
    (p.pid, p.name@, p.vram_used_mb)
}

fn u32_of_chars(v: &Vec<char>) -> (r: u32)
    requires
        fits(v@),
    ensures
        r == u32_field(v@),
{
    let t = trim_chars(v);
    proof {
        lemma_trim_len(v@);
    }
    float_text_floor(&t, 4294967295u64) as u32
}

fn u64_of_chars(v: &Vec<char>) -> (r: u64)
    requires
        fits(v@),
    ensures
        r == u64_field(v@),
{
    let t = trim_chars(v);
    proof {
        lemma_trim_len(v@);
    }
    float_text_floor(&t, u64::MAX)
}

/// A `u32` statistic from its nvidia-smi text (see `u32_field`).
pub fn parse_u32(s: &str) -> (r: u32)
    requires
        fits(s@),
    ensures
        r == u32_field(s@),
{
    u32_of_chars(&chars_of(s))
}

/// A `u64` statistic from its nvidia-smi text (see `u64_field`).
pub fn parse_u64(s: &str) -> (r: u64)
    requires
        fits(s@),
    ensures
        r == u64_field(s@),
{
    u64_of_chars(&chars_of(s))
}

fn optional_u32_of_chars(v: &Vec<char>) -> (r: Option<u32>)
    requires
        fits(v@),
    ensures
        r == optional_u32_field(v@),
{
    let t = trim_chars(v);
    proof {
        lemma_trim_len(v@);
    }
    let ts = string_of(&t);
    if crate::text::str_eq(ts.as_str(), "[N/A]") || crate::text::str_eq(ts.as_str(), "N/A") || t.len() == 0 {
        None
    } else {
        Some(u32_of_chars(&t))
    }
}

/// An optional `u32` statistic (see `optional_u32_field`).
pub fn parse_optional_u32(s: &str) -> (r: Option<u32>)
    requires
        fits(s@),
    ensures
        r == optional_u32_field(s@),
{
    optional_u32_of_chars(&chars_of(s))
}

/// The trimmed comma-separated fields of a line.
fn trimmed_fields(line: &Vec<char>) -> (fs: Vec<Vec<char>>)
    requires
        fits(line@),
    ensures
        fs@.len() == csv_fields_trimmed(line@).len(),
        forall|k: int| 0 <= k < fs@.len() ==> #[trigger] fs@[k]@ == csv_fields_trimmed(line@)[k] && fits(fs@[k]@),
{
    let parts = split_chars(line, ',');
    let mut fs: Vec<Vec<char>> = Vec::new();
    let mut i: usize = 0;
    while i < parts.len()
        invariant
            i <= parts@.len(),
            fits(line@),
            parts@.len() == split_on(line@, ',').len(),
            forall|k: int| 0 <= k < parts@.len() ==> #[trigger] parts@[k]@ == split_on(line@, ',')[k],
            fs@.len() == i,
            forall|k: int| 0 <= k < i ==> #[trigger] fs@[k]@ == csv_fields_trimmed(line@)[k] && fits(fs@[k]@),
        decreases parts@.len() - i,
    {
        proof {
            lemma_split_len(line@, ',', i as int);
            lemma_trim_len(split_on(line@, ',')[i as int]);
        }
        fs.push(trim_chars(&parts[i]));
        i = i + 1;
    }
    fs
}

/// Reads nvidia-smi's statistics output (one line of ten comma-separated
/// fields). Refused when the output is blank or has fewer than ten fields.
pub fn parse_stats_output(out: &str) -> (r: Result<GpuReading, GpuError>)
    requires
        fits(out@),
    ensures
        trim(out@).len() == 0 ==> r matches Err(GpuError::EmptyOutput),
        trim(out@).len() > 0 && stat_fields(out@).len() < 10 ==> (r matches Err(
            GpuError::TooFewFields { count, line },
        ) && count == stat_fields(out@).len() && line@ == trim(out@)),
        trim(out@).len() > 0 && stat_fields(out@).len() >= 10 ==> (r matches Ok(g) && reading_is(
            g,
            stat_fields(out@),
        )),
{
    let v = chars_of(out);
    let t = trim_chars(&v);
    proof {
        lemma_trim_len(out@);
    }
    if t.len() == 0 {
        return Err(GpuError::EmptyOutput);
    }
    let fs = trimmed_fields(&t);
    if fs.len() < 10 {
        return Err(GpuError::TooFewFields { count: fs.len(), line: string_of(&t) });
    }
    Ok(GpuReading {
        utilization_percent: u32_of_chars(&fs[0]),
        vram_used_mb: u64_of_chars(&fs[1]),
        vram_total_mb: u64_of_chars(&fs[2]),
        temperature_celsius: u32_of_chars(&fs[3]),
        power_draw_text: string_of(&fs[4]),
        power_limit_text: string_of(&fs[5]),
        clock_speed_mhz: u32_of_chars(&fs[6]),
        fan_speed_percent: optional_u32_of_chars(&fs[7]),
        gpu_name: string_of(&fs[8]),
        driver_version: string_of(&fs[9]),
    })
}

/// Reads nvidia-smi's process output: one process per line with at least
/// three fields (pid, name, VRAM in MB); blank lines and "No Running"
/// notices are passed over.
pub fn parse_process_output(out: &str) -> (procs: Vec<GpuProcess>)
    requires
        fits(out@),
    ensures
        procs@.map_values(|p: GpuProcess| process_view(p)) == processes_of(lines_of(out@)),
{
    let ls = lines(out);
    let ghost lv = lines_of(out@);
    let notice = chars_of("No Running");
    let mut procs: Vec<GpuProcess> = Vec::new();
    let mut i: usize = 0;
    while i < ls.len()
        invariant
            i <= ls@.len(),
            fits(out@),
            lv == lines_of(out@),
            ls@.len() == lv.len(),
            forall|k: int| 0 <= k < ls@.len() ==> #[trigger] ls@[k]@ == lv[k],
            notice@ == "No Running"@,
            procs@.map_values(|p: GpuProcess| process_view(p)) == processes_of(lv.take(i as int)),
        decreases ls@.len() - i,
    {
        assert(lv.take(i + 1).drop_last() == lv.take(i as int));
        proof {
            lemma_lines_len(out@, i as int);
            lemma_trim_len(lv[i as int]);
        }
        let t = trim_chars(&ls[i]);
        if t.len() > 0 && !contains_chars(&t, &notice) {
            let fs = trimmed_fields(&t);
            if fs.len() >= 3 {
                let p = GpuProcess {
                    pid: u32_of_chars(&fs[0]),
                    name: string_of(&fs[1]),
                    vram_used_mb: u64_of_chars(&fs[2]),
                };
                let ghost before = procs@;
                procs.push(p);
                assert(procs@.map_values(|p: GpuProcess| process_view(p)) == before.map_values(
                    |p: GpuProcess| process_view(p),
                ).push(process_view(procs@.last())));
            }
        }
        i = i + 1;
    }
    assert(lv.take(ls@.len() as int) == lv);
    procs
}

impl GpuReading {
    /// Whether the GPU is hotter than `threshold` degrees.
    pub fn temp_critical(&self, threshold: u32) -> (b: bool)
        ensures
            b == (self.temperature_celsius > threshold),
    {
        self.temperature_celsius > threshold
    }
}

} // verus!
