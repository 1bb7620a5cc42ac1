//! Docker containers that run experiments: the arguments a run is
//! launched with, the table of tracked containers, and how the states
//! Docker reports map to run statuses and messages.
use vstd::prelude::*;
use crate::control::state::RunDialogState;
use crate::models::RunStatus;
use crate::numbers::{parse_i32, parse_i32_spec};
use crate::platform::{docker_path_text, to_docker_path, OsType};
use crate::text::{
    chars_of, contains_chars, contains_seq, int_text, is_ws, lines, lines_of, nat_digits, owned,
    push_char, push_i64, push_str, string_of, trim, trim_chars,
};

verus! {

/// The state of a container.
#[derive(Debug, Clone)]
pub enum ContainerState {
    Building,
    Running,
    Exited(i32),
    Failed(String),
}

/// What is known of the Docker installation.
#[derive(Debug, Clone)]
pub struct DockerInfo {
    pub installed: bool,
    pub running: bool,
    pub gpu_support: bool,
    pub version: String,
}

/// A container started for a run.
#[derive(Debug, Clone)]
pub struct TrackedContainer {
    pub container_id: String,
    pub run_id: i64,
    pub state: ContainerState,
    pub image: String,
    pub command: String,
}

/// The containers started for runs, at most one per run, and the docker
/// program that manages them.
pub struct DockerManager {
    pub docker_path: String,
    pub containers: Vec<TrackedContainer>,
}

/// The words of a text, as `str::split_whitespace` yields them, with
/// whether the last word is still open (no white space after it yet).
pub open spec fn words_open(s: Seq<char>) -> (Seq<Seq<char>>, bool)
    decreases s.len(),
{
    if s.len() == 0 {
        (seq![], false)
    } else {
        let (ws, open) = words_open(s.drop_last());
        let c = s.last();
        if is_ws(c) {
            (ws, false)
        } else if open {
            (ws.update(ws.len() - 1, ws.last().push(c)), true)
        } else {
            (ws.push(seq![c]), true)
        }
    }
}

/// The words of a text: its maximal runs of non-white-space characters.
pub open spec fn words(s: Seq<char>) -> Seq<Seq<char>> {
    words_open(s).0
}

/// A words list is open only when it has a last word.
pub proof fn lemma_words_open(s: Seq<char>)
    ensures
        words_open(s).1 ==> words_open(s).0.len() > 0,
    decreases s.len(),
{
    if s.len() > 0 {
        lemma_words_open(s.drop_last());
    }
}

/// The words of a text, as `str::split_whitespace` yields them.
pub fn split_words(s: &str) -> (ws: Vec<String>)
    ensures
        ws@.len() == words(s@).len(),
        forall|k: int| 0 <= k < ws@.len() ==> #[trigger] ws@[k]@ == words(s@)[k],
{
    let v = chars_of(s);
    let mut ws: Vec<Vec<char>> = Vec::new();
    let mut open = false;
    let mut i: usize = 0;
    while i < v.len()
        invariant
            i <= v@.len(),
            v@ == s@,
            ws@.len() == words_open(v@.take(i as int)).0.len(),
            forall|k: int| 0 <= k < ws@.len() ==> #[trigger] ws@[k]@ == words_open(v@.take(i as int)).0[k],
            open == words_open(v@.take(i as int)).1,
        decreases v@.len() - i,
    {
        assert(v@.take(i + 1).drop_last() == v@.take(i as int));
        proof {
            lemma_words_open(v@.take(i as int));
        }
        let c = v[i];
        if crate::text::char_is_ws(c) {
            open = false;
        } else if open {
            let ghost prev_ws = ws@;
            let mut w = ws.pop().unwrap();
            w.push(c);
            ws.push(w);
            proof {
                let prev = words_open(v@.take(i as int)).0;
                assert(ws@.len() == prev.len());
                assert forall|k: int| 0 <= k < ws@.len() implies #[trigger] ws@[k]@ == prev.update(
                    prev.len() - 1,
                    prev.last().push(c),
                )[k] by {
                    if k < ws@.len() - 1 {
                        assert(ws@[k] == prev_ws[k]);
                    }
                }
            }
        } else {
            let mut w: Vec<char> = Vec::new();
            w.push(c);
            ws.push(w);
            open = true;
            assert(w@ == seq![c]);
        }
        i = i + 1;
    }
    assert(v@.take(v@.len() as int) == v@);
    let mut out: Vec<String> = Vec::new();
    let mut k: usize = 0;
    while k < ws.len()
        invariant
            k <= ws@.len(),
            ws@.len() == words(s@).len(),
            forall|j: int| 0 <= j < ws@.len() ==> #[trigger] ws@[j]@ == words(s@)[j],
            out@.len() == k,
            forall|j: int| 0 <= j < k ==> #[trigger] out@[j]@ == words(s@)[j],
        decreases ws@.len() - k,
    {
        out.push(string_of(&ws[k]));
        k = k + 1;
    }
    out
}

/// The arguments of `docker run` for a training container: removed when
/// done, detached, the host directory (in Docker's path form) mounted on
/// the working directory, GPU access when asked for, the environment
/// variables, then the image and the command's words.
pub open spec fn run_args_text(
    host_dir: Seq<char>,
    os: OsType,
    workdir: Seq<char>,
    use_gpu: bool,
    env: Seq<(String, String)>,
    image: Seq<char>,
    command: Seq<char>,
) -> Seq<Seq<char>> {
    seq!["run"@, "--rm"@, "-d"@, "-v"@, docker_path_text(host_dir, os) + seq![':'] + workdir] + (if use_gpu {
        seq!["--gpus"@, "all"@]
    } else {
        seq![]
    }) + env_args(env) + seq![image] + words(command)
}

/// "-e" and "KEY=VALUE" for each environment variable.
pub open spec fn env_args(env: Seq<(String, String)>) -> Seq<Seq<char>>
    decreases env.len(),
{
    if env.len() == 0 {
        seq![]
    } else {
        env_args(env.drop_last()) + seq!["-e"@, env.last().0@ + seq!['='] + env.last().1@]
    }
}

/// The views of a list of strings.
pub open spec fn texts(v: Seq<String>) -> Seq<Seq<char>> {
    v.map_values(|s: String| s@)
}

/// The arguments of `docker run` for a training container (see
/// `run_args_text`).
pub fn docker_run_args(
    host_output_dir: &str,
    os: OsType,
    container_workdir: &str,
    use_gpu: bool,
    env_vars: &[(String, String)],
    image: &str,
    command: &str,
) -> (args: Vec<String>)
    ensures
        texts(args@) == run_args_text(
            host_output_dir@,
            os,
            container_workdir@,
            use_gpu,
            env_vars@,
            image@,
            command@,
        ),
{
    let mut args: Vec<String> = Vec::new();
    assert(texts(args@) =~= Seq::<Seq<char>>::empty());
    let mut mount = to_docker_path(host_output_dir, os);
    push_char(&mut mount, ':');
    push_str(&mut mount, container_workdir);
    let ghost mv = mount@;
    assert(mv == docker_path_text(host_output_dir@, os) + seq![':'] + container_workdir@);
    push_text(&mut args, owned("run"));
    assert(texts(args@) =~= seq!["run"@]);
    push_text(&mut args, owned("--rm"));
    push_text(&mut args, owned("-d"));
    push_text(&mut args, owned("-v"));
    assert(texts(args@) =~= seq!["run"@, "--rm"@, "-d"@, "-v"@]);
    push_text(&mut args, mount);
    let ghost base = texts(args@);
    assert(base =~= seq!["run"@, "--rm"@, "-d"@, "-v"@, docker_path_text(host_output_dir@, os) + seq![':']
        + container_workdir@]);
    if use_gpu {
        push_text(&mut args, owned("--gpus"));
        push_text(&mut args, owned("all"));
        assert(texts(args@) =~= base + seq!["--gpus"@, "all"@]);
    } else {
        assert(texts(args@) =~= base + Seq::<Seq<char>>::empty());
    }
    let ghost head = texts(args@);
    let mut i: usize = 0;
    while i < env_vars.len()
        invariant
            i <= env_vars@.len(),
            texts(args@) == head + env_args(env_vars@.take(i as int)),
        decreases env_vars@.len() - i,
    {
        assert(env_vars@.take(i + 1).drop_last() == env_vars@.take(i as int));
        let ghost before = texts(args@);
        push_text(&mut args, owned("-e"));
        let mut kv = env_vars[i].0.clone();
        push_char(&mut kv, '=');
        push_str(&mut kv, env_vars[i].1.as_str());
        let ghost kvv = kv@;
        push_text(&mut args, kv);
        assert(kvv == env_vars@[i as int].0@ + seq!['='] + env_vars@[i as int].1@);
        assert(env_vars@.take(i + 1).last() == env_vars@[i as int]);
        assert(texts(args@) =~= head + env_args(env_vars@.take(i + 1)));
        i = i + 1;
    }
    assert(env_vars@.take(env_vars@.len() as int) == env_vars@);
    push_text(&mut args, owned(image));
    let ws = split_words(command);
    let ghost mid = texts(args@);
    let mut k: usize = 0;
    while k < ws.len()
        invariant
            k <= ws@.len(),
            ws@.len() == words(command@).len(),
            forall|j: int| 0 <= j < ws@.len() ==> #[trigger] ws@[j]@ == words(command@)[j],
            texts(args@) == mid + words(command@).take(k as int),
        decreases ws@.len() - k,
    {
        push_text(&mut args, ws[k].clone());
        k = k + 1;
        assert(words(command@).take(k as int) == words(command@).take(k - 1).push(words(command@)[k - 1]));
    }
    assert(words(command@).take(ws@.len() as int) == words(command@));
    args
}

/// Appends a string to a list of strings.
fn push_text(v: &mut Vec<String>, s: String)
    ensures
        texts(final(v)@) == texts(old(v)@).push(s@),
{
    v.push(s);
    assert(texts(v@) =~= texts(old(v)@).push(s@));
}

/// The container tracked for a run, if any.
pub open spec fn container_for(cs: Seq<TrackedContainer>, run_id: i64) -> Option<TrackedContainer>
    decreases cs.len(),
{
    if cs.len() == 0 {
        None
    } else if cs.last().run_id == run_id {
        Some(cs.last())
    } else {
        container_for(cs.drop_last(), run_id)
    }
}

/// No run has two containers.
pub open spec fn distinct_runs(cs: Seq<TrackedContainer>) -> bool {
    forall|i: int, j: int| 0 <= i < j < cs.len() ==> cs[i].run_id != cs[j].run_id
}

/// Whether a container's state is `Running`.
pub open spec fn is_running_state(s: ContainerState) -> bool {
    s is Running
}

impl DockerManager {
    /// Each run has at most one container.
    pub open spec fn wf(&self) -> bool {
        distinct_runs(self.containers@)
    }

    /// A manager for the docker program at `docker_path`, tracking nothing.
    pub fn new(docker_path: String) -> (m: DockerManager)
        ensures
            m.wf(),
            m.docker_path == docker_path,
            m.containers@.len() == 0,
    {
        DockerManager { docker_path, containers: Vec::new() }
    }

    fn find(&self, run_id: i64) -> (r: Option<usize>)
        requires
            self.wf(),
        ensures
            match r {
                Some(i) => i < self.containers@.len() && self.containers@[i as int].run_id == run_id
                    && container_for(self.containers@, run_id) == Some(self.containers@[i as int]),
                None => container_for(self.containers@, run_id) is None,
            },
    {
        let mut i = self.containers.len();
        assert(self.containers@.take(i as int) == self.containers@);
        while i > 0
            invariant
                i <= self.containers@.len(),
                self.wf(),
                container_for(self.containers@, run_id) == container_for(self.containers@.take(i as int), run_id),
            decreases i,
        {
            assert(self.containers@.take(i as int).drop_last() == self.containers@.take(i - 1));
            if self.containers[i - 1].run_id == run_id {
                return Some(i - 1);
            }
            i = i - 1;
        }
        None
    }

    /// Whether the run has a container that is running.
    pub fn is_running(&self, run_id: i64) -> (b: bool)
        requires
            self.wf(),
        ensures
            b == (match container_for(self.containers@, run_id) {
                Some(c) => c.state is Running,
                None => false,
            }),
    {
        match self.find(run_id) {
            Some(i) => match self.containers[i].state {
                ContainerState::Running => true,
                _ => false,
            },
            None => false,
        }
    }

    /// The id of the run's container, if one is tracked.
    pub fn container_id(&self, run_id: i64) -> (r: Option<String>)
        requires
            self.wf(),
        ensures
            match container_for(self.containers@, run_id) {
                Some(c) => r matches Some(id) && id@ == c.container_id@,
                None => r is None,
            },
    {
        match self.find(run_id) {
            Some(i) => Some(self.containers[i].container_id.clone()),
            None => None,
        }
    }

    /// Tracks a container just started for a run, as running; a container
    /// tracked before for the run is replaced.
    pub fn track(&mut self, run_id: i64, container_id: String, image: &str, command: &str)
        requires
            old(self).wf(),
        ensures
            final(self).wf(),
            final(self).docker_path == old(self).docker_path,
            container_for(final(self).containers@, run_id) matches Some(c) && c.container_id == container_id
                && c.state is Running && c.image@ == image@ && c.command@ == command@,
            forall|r: i64| r != run_id ==> container_for(final(self).containers@, r) == container_for(old(self).containers@, r),
    {
        let c = TrackedContainer {
            container_id,
            run_id,
            state: ContainerState::Running,
            image: owned(image),
            command: owned(command),
        };
        match self.find(run_id) {
            Some(i) => {
                let ghost before = self.containers@;
                self.containers.set(i, c);
                proof {
                    lemma_container_for_update(before, i as int, c);
                }
            },
            None => {
                let ghost before = self.containers@;
                self.containers.push(c);
                proof {
                    lemma_container_for_push(before, c);
                }
            },
        }
    }

    /// Sets the state of the run's container, when one is tracked.
    pub fn set_state(&mut self, run_id: i64, state: ContainerState)
        requires
            old(self).wf(),
        ensures
            final(self).wf(),
            final(self).docker_path == old(self).docker_path,
            match container_for(old(self).containers@, run_id) {
                Some(c) => container_for(final(self).containers@, run_id) == Some(TrackedContainer { state, ..c }),
                None => container_for(final(self).containers@, run_id) is None,
            },
            forall|r: i64| r != run_id ==> container_for(final(self).containers@, r) == container_for(old(self).containers@, r),
    {
        match self.find(run_id) {
            Some(i) => {
                let ghost before = self.containers@;
                let old_c = &self.containers[i];
                let c = TrackedContainer {
                    container_id: old_c.container_id.clone(),
                    run_id: old_c.run_id,
                    state,
                    image: old_c.image.clone(),
                    command: old_c.command.clone(),
                };
                self.containers.set(i, c);
                proof {
                    lemma_container_for_update(before, i as int, c);
                }
            },
            None => {},
        }
    }

    /// The runs with a tracked container, each once, in the order their
    /// containers were first tracked.
    pub fn run_ids(&self) -> (ids: Vec<i64>)
        ensures
            ids@ == self.containers@.map_values(|c: TrackedContainer| c.run_id),
    {
        let mut ids: Vec<i64> = Vec::new();
        let mut i: usize = 0;
        while i < self.containers.len()
            invariant
                i <= self.containers@.len(),
                ids@ == self.containers@.take(i as int).map_values(|c: TrackedContainer| c.run_id),
            decreases self.containers@.len() - i,
        {
            ids.push(self.containers[i].run_id);
            i = i + 1;
            assert(self.containers@.take(i as int) == self.containers@.take(i - 1).push(self.containers@[i - 1]));
        }
        assert(self.containers@.take(self.containers@.len() as int) == self.containers@);
        ids
    }

    /// The running containers, to be polled: each run and its container id.
    pub fn running_containers(&self) -> (r: Vec<(i64, String)>)
        ensures
            r@.map_values(|p: (i64, String)| (p.0, p.1@)) == running_of(self.containers@),
    {
        let mut r: Vec<(i64, String)> = Vec::new();
        let mut i: usize = 0;
        while i < self.containers.len()
            invariant
                i <= self.containers@.len(),
                r@.map_values(|p: (i64, String)| (p.0, p.1@)) == running_of(self.containers@.take(i as int)),
            decreases self.containers@.len() - i,
        {
            assert(self.containers@.take(i + 1).drop_last() == self.containers@.take(i as int));
            let c = &self.containers[i];
            match c.state {
                ContainerState::Running => {
                    let ghost before = r@;
                    r.push((c.run_id, c.container_id.clone()));
                    assert(r@.map_values(|p: (i64, String)| (p.0, p.1@)) == before.map_values(
                        |p: (i64, String)| (p.0, p.1@),
                    ).push((c.run_id, c.container_id@)));
                },
                _ => {},
            }
            i = i + 1;
        }
        assert(self.containers@.take(self.containers@.len() as int) == self.containers@);
        r
    }

    /// Records a polled state for a running container: a state other than
    /// running replaces the tracked one and is reported back (`true`).
    pub fn poll_update(&mut self, run_id: i64, state: ContainerState) -> (changed: bool)
        requires
            old(self).wf(),
        ensures
            final(self).wf(),
            changed == !(state is Running),
            changed ==> match container_for(old(self).containers@, run_id) {
                Some(c) => container_for(final(self).containers@, run_id) == Some(TrackedContainer { state, ..c }),
                None => container_for(final(self).containers@, run_id) is None,
            },
            changed ==> forall|r: i64| r != run_id ==> container_for(final(self).containers@, r) == container_for(old(self).containers@, r),
            !changed ==> final(self).containers == old(self).containers,
            final(self).docker_path == old(self).docker_path,
    {
        match state {
            ContainerState::Running => false,
            _ => {
                self.set_state(run_id, state);
                true
            },
        }
    }
}

/// The running containers of a table, as run ids and container ids.
pub open spec fn running_of(cs: Seq<TrackedContainer>) -> Seq<(i64, Seq<char>)>
    decreases cs.len(),
{
    if cs.len() == 0 {
        seq![]
    } else if cs.last().state is Running {
        running_of(cs.drop_last()).push((cs.last().run_id, cs.last().container_id@))
    } else {
        running_of(cs.drop_last())
    }
}

/// Replacing a run's container by another for the same run changes only
/// what is found for that run.
pub proof fn lemma_container_for_update(cs: Seq<TrackedContainer>, i: int, c: TrackedContainer)
    requires
        distinct_runs(cs),
        0 <= i < cs.len(),
        cs[i].run_id == c.run_id,
    ensures
        distinct_runs(cs.update(i, c)),
        container_for(cs.update(i, c), c.run_id) == Some(c),
        forall|r: i64| r != c.run_id ==> container_for(cs.update(i, c), r) == container_for(cs, r),
    decreases cs.len(),
{
    let n = cs.update(i, c);
    assert forall|a: int, b: int| 0 <= a < b < n.len() implies n[a].run_id != n[b].run_id by {
        if a != i && b != i {
            assert(n[a] == cs[a] && n[b] == cs[b]);
        } else if a == i {
            assert(n[b] == cs[b]);
        } else {
            assert(n[a] == cs[a]);
        }
    }
    if i == cs.len() - 1 {
        assert(n.drop_last() == cs.drop_last());
        assert(n.last() == c);
        assert(cs.last().run_id == c.run_id);
        assert forall|r: i64| r != c.run_id implies container_for(n, r) == container_for(cs, r) by {
            assert(container_for(n, r) == container_for(n.drop_last(), r));
            assert(container_for(cs, r) == container_for(cs.drop_last(), r));
        }
    } else {
        assert(n.drop_last() == cs.drop_last().update(i, c));
        assert(n.last() == cs.last());
        assert(distinct_runs(cs.drop_last()));
        lemma_container_for_update(cs.drop_last(), i, c);
        assert(cs.last().run_id != c.run_id) by {
            assert(cs[cs.len() - 1].run_id != cs[i].run_id);
        }
        assert forall|r: i64| r != c.run_id implies container_for(n, r) == container_for(cs, r) by {
            if cs.last().run_id != r {
                assert(container_for(n, r) == container_for(n.drop_last(), r));
                assert(container_for(cs, r) == container_for(cs.drop_last(), r));
                assert(container_for(cs.drop_last().update(i, c), r) == container_for(cs.drop_last(), r));
            }
        }
    }
}

/// Tracking a container for a run that had none adds it.
pub proof fn lemma_container_for_push(cs: Seq<TrackedContainer>, c: TrackedContainer)
    requires
        distinct_runs(cs),
        container_for(cs, c.run_id) is None,
    ensures
        distinct_runs(cs.push(c)),
        container_for(cs.push(c), c.run_id) == Some(c),
        forall|r: i64| r != c.run_id ==> container_for(cs.push(c), r) == container_for(cs, r),
{
    assert(cs.push(c).drop_last() == cs);
    assert forall|a: int, b: int| 0 <= a < b < cs.push(c).len() implies cs.push(c)[a].run_id
        != cs.push(c)[b].run_id by {
        if b == cs.len() {
            lemma_container_for_absent(cs, c.run_id, a);
        }
    }
}

/// When nothing is found for a run, no container has that run.
pub proof fn lemma_container_for_absent(cs: Seq<TrackedContainer>, run_id: i64, a: int)
    requires
        container_for(cs, run_id) is None,
        0 <= a < cs.len(),
    ensures
        cs[a].run_id != run_id,
    decreases cs.len(),
{
    if a < cs.len() - 1 {
        lemma_container_for_absent(cs.drop_last(), run_id, a);
    }
}

/// The state that `docker inspect` reports: "running" stays running,
/// "exited" gives the exit code (read from its text, -1 when unreadable or
/// missing), anything else is a failure "Unexpected state: <status>".
pub open spec fn inspected_state(status: Seq<char>, exit_code: Option<Seq<char>>) -> ContainerState {
    let s = trim(status);
    if s == "running"@ {
        ContainerState::Running
    } else if s == "exited"@ {
        ContainerState::Exited(match exit_code {
            Some(t) => match parse_i32_spec(trim(t)) {
                Some(c) => c,
                None => -1i32,
            },
            None => -1i32,
        })
    } else {
        ContainerState::Failed(arbitrary())
    }
}

/// Whether `st` is the state `docker inspect` output describes (see
/// `inspected_state`; a failure carries "Unexpected state: <status>").
pub open spec fn inspected_state_is(st: ContainerState, status: Seq<char>, exit_code: Option<Seq<char>>) -> bool {
    let s = trim(status);
    if s == "running"@ || s == "exited"@ {
        st == inspected_state(status, exit_code)
    } else {
        st matches ContainerState::Failed(m) && m@ == "Unexpected state: "@ + s
    }
}

/// The state of a container from `docker inspect`'s status output and,
/// for an exited container, its exit-code output.
pub fn state_from_inspect(status_out: &str, exit_code_out: Option<&str>) -> (st: ContainerState)
    ensures
        inspected_state_is(st, status_out@, crate::config::opt_view(exit_code_out)),
{
    let s = trim_chars(&chars_of(status_out));
    let ss = string_of(&s);
    if crate::text::str_eq(ss.as_str(), "running") {
        ContainerState::Running
    } else if crate::text::str_eq(ss.as_str(), "exited") {
        let code = match exit_code_out {
            Some(t) => match parse_i32(&trim_chars(&chars_of(t))) {
                Some(c) => c,
                None => -1,
            },
            None => -1,
        };
        ContainerState::Exited(code)
    } else {
        let mut m = owned("Unexpected state: ");
        push_str(&mut m, ss.as_str());
        ContainerState::Failed(m)
    }
}

/// The run status a finished container leads to: exit code 0 completes
/// the run, any other exit or a failure fails it; other states change
/// nothing.
pub open spec fn run_status_after(st: ContainerState) -> Option<RunStatus> {
    match st {
        ContainerState::Exited(code) => if code == 0 {
            Some(RunStatus::Completed)
        } else {
            Some(RunStatus::Failed)
        },
        ContainerState::Failed(_) => Some(RunStatus::Failed),
        _ => None,
    }
}

/// The run status a finished container leads to (see `run_status_after`).
pub fn run_status_for(st: &ContainerState) -> (r: Option<RunStatus>)
    ensures
        r == run_status_after(*st),
{
    match st {
        ContainerState::Exited(code) => if *code == 0 {
            Some(RunStatus::Completed)
        } else {
            Some(RunStatus::Failed)
        },
        ContainerState::Failed(_) => Some(RunStatus::Failed),
        _ => None,
    }
}

/// The status-bar message for a container's new state.
pub open spec fn container_message(st: ContainerState) -> Seq<char> {
    match st {
        ContainerState::Exited(code) => "Container exited (code "@ + int_text(code as int) + ")"@,
        ContainerState::Failed(m) => "Container failed: "@ + m@,
        _ => "Container stopped"@,
    }
}

/// The status-bar message for a container's new state: "Container exited
/// (code N)", "Container failed: <reason>", else "Container stopped".
pub fn container_status_message(st: &ContainerState) -> (m: String)
    ensures
        m@ == container_message(*st),
{
    match st {
        ContainerState::Exited(code) => {
            let mut m = owned("Container exited (code ");
            push_i64(&mut m, *code as i64);
            push_str(&mut m, ")");
            m
        },
        ContainerState::Failed(reason) => {
            let mut m = owned("Container failed: ");
            push_str(&mut m, reason.as_str());
            m
        },
        _ => owned("Container stopped"),
    }
}

/// The image names in `docker images` output: the trimmed lines, without
/// blank ones and those holding "<none>".
pub open spec fn image_names(ls: Seq<Seq<char>>) -> Seq<Seq<char>>
    decreases ls.len(),
{
    if ls.len() == 0 {
        seq![]
    } else {
        let t = trim(ls.last());
        if t.len() > 0 && !contains_seq(t, "<none>"@) {
            image_names(ls.drop_last()).push(t)
        } else {
            image_names(ls.drop_last())
        }
    }
}

/// The images listed in `docker images` output (see `image_names`).
pub fn list_images(out: &str) -> (images: Vec<String>)
    ensures
        texts(images@) == image_names(lines_of(out@)),
{
    let ls = lines(out);
    let ghost lv = lines_of(out@);
    let none = chars_of("<none>");
    let mut images: Vec<String> = Vec::new();
    let mut i: usize = 0;
    while i < ls.len()
        invariant
            i <= ls@.len(),
            lv == lines_of(out@),
            ls@.len() == lv.len(),
            forall|k: int| 0 <= k < ls@.len() ==> #[trigger] ls@[k]@ == lv[k],
            none@ == "<none>"@,
            texts(images@) == image_names(lv.take(i as int)),
        decreases ls@.len() - i,
    {
        assert(lv.take(i + 1).drop_last() == lv.take(i as int));
        let t = trim_chars(&ls[i]);
        if t.len() > 0 && !contains_chars(&t, &none) {
            images.push(string_of(&t));
        }
        i = i + 1;
    }
    assert(lv.take(ls@.len() as int) == lv);
    images
}

/// A container's log text: its standard output, then its standard error.
pub fn logs_text(stdout: &str, stderr: &str) -> (t: String)
    ensures
        t@ == stdout@ + stderr@,
{
    let mut t = owned(stdout);
    push_str(&mut t, stderr);
    t
}

/// The error for logs asked of a run without a container.
pub fn no_container_message(run_id: i64) -> (m: String)
    ensures
        m@ == "No container found for run "@ + int_text(run_id as int),
{
    let mut m = owned("No container found for run ");
    push_i64(&mut m, run_id);
    m
}

impl DockerInfo {
    /// What the health checks found: Docker is installed when `docker
    /// --version` printed something (its trimmed output is the version),
    /// running as `docker info` succeeded, and GPU-capable only when running
    /// and the test container with GPU access succeeded.
    pub fn from_checks(version_out: &str, info_ok: bool, gpu_run_ok: bool) -> (d: DockerInfo)
        ensures
            d.version@ == trim(version_out@),
            d.installed == (trim(version_out@).len() > 0),
            d.running == info_ok,
            d.gpu_support == (info_ok && gpu_run_ok),
    {
        let v = string_of(&trim_chars(&chars_of(version_out)));
        let installed = !v.as_str().is_empty();
        DockerInfo { installed, running: info_ok, gpu_support: info_ok && gpu_run_ok, version: v }
    }
}

/// Why a Docker run cannot start, checked in order: no Docker, the daemon
/// known not to run, GPU access asked for without GPU support.
pub open spec fn precheck_error(use_gpu: bool, docker_available: bool, info: Option<DockerInfo>) -> Option<Seq<char>> {
    if !docker_available {
        Some("Docker not available"@)
    } else {
        match info {
            Some(i) => if !i.running {
                Some("Docker daemon is not running"@)
            } else if use_gpu && !i.gpu_support {
                Some("Docker GPU support not available. Install nvidia-container-toolkit."@)
            } else {
                None
            },
            None => None,
        }
    }
}

/// The checks made before a run starts (see `precheck_error`).
pub fn run_precheck(dialog: &RunDialogState, docker_available: bool, info: &Option<DockerInfo>) -> (r: Result<(), String>)
    ensures
        match precheck_error(dialog.use_gpu, docker_available, *info) {
            Some(m) => r matches Err(e) && e@ == m,
            None => r is Ok,
        },
{
    if !docker_available {
        return Err(owned("Docker not available"));
    }
    match info {
        Some(i) => {
            if !i.running {
                return Err(owned("Docker daemon is not running"));
            }
            if dialog.use_gpu && !i.gpu_support {
                return Err(owned("Docker GPU support not available. Install nvidia-container-toolkit."));
            }
            Ok(())
        },
        None => Ok(()),
    }
}

/// Where a Docker run puts its files and how it is named: the output
/// directory with '~' expanded, the run's name derived from it, the log
/// file "metrics.jsonl" in it, and the directory it is mounted on in the
/// container.
#[derive(Debug, Clone)]
pub struct RunPlan {
    pub output_dir: String,
    pub run_name: String,
    pub log_path: String,
    pub container_workdir: String,
}

/// The container directory that the output is mounted on: the configured
/// one, else "/workspace/output".
pub open spec fn workdir_for(config: crate::config::AppConfig) -> Seq<char> {
    match config.docker {
        Some(d) => d.container_workdir@,
        None => "/workspace/output"@,
    }
}

/// The plan of a Docker run from the dialog (see `RunPlan`); `home` is the
/// home directory '~' stands for.
pub fn plan_run(dialog: &RunDialogState, config: &crate::config::AppConfig, home: &str) -> (p: RunPlan)
    ensures
        p.output_dir@ == crate::platform::expand_path_text(dialog.output_dir@, home@),
        p.run_name@ == crate::control::state::run_name_for(p.output_dir@),
        p.log_path@ == crate::paths::path_join(p.output_dir@, "metrics.jsonl"@),
        p.container_workdir@ == workdir_for(*config),
{
    let output_dir = crate::platform::expand_path(dialog.output_dir.as_str(), home);
    let run_name = crate::control::state::derive_run_name(output_dir.as_str());
    let log_path = crate::paths::join_path(output_dir.as_str(), "metrics.jsonl");
    let container_workdir = match &config.docker {
        Some(d) => d.container_workdir.clone(),
        None => owned("/workspace/output"),
    };
    RunPlan { output_dir, run_name, log_path, container_workdir }
}

/// What `docker run -d` answered: the container's id (its trimmed output)
/// when it succeeded, else "Docker run failed: <trimmed error output>".
pub fn run_outcome(success: bool, stdout: &str, stderr: &str) -> (r: Result<String, String>)
    ensures
        success ==> (r matches Ok(id) && id@ == trim(stdout@)),
        !success ==> (r matches Err(e) && e@ == "Docker run failed: "@ + trim(stderr@)),
{
    if success {
        Ok(string_of(&trim_chars(&chars_of(stdout))))
    } else {
        let mut e = owned("Docker run failed: ");
        crate::text::push_chars(&mut e, &trim_chars(&chars_of(stderr)));
        Err(e)
    }
}

} // verus!
