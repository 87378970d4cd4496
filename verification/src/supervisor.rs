//! The generator supervisor's decisions: the messages that announce registry
//! changes, which running task a message stops, and which generators a
//! supervision cycle starts and which tasks it keeps.
use vstd::prelude::*;
use vstd::string::*;
use crate::config::GeneratorConfig;
use crate::text::{has_prefix, str_eq, strip_prefix};

verus! {

/// What a supervisor message announces.
#[derive(Debug, Clone, Copy, PartialEq, Eq, Structural)]
pub enum CommandKind {
    New,
    Update,
    Remove,
    Resume,
    Pause,
}

/// The prefix of a supervisor message of kind `k`.
pub open spec fn command_prefix(k: CommandKind) -> Seq<char> {
    match k {
        CommandKind::New => "new:"@,
        CommandKind::Update => "update:"@,
        CommandKind::Remove => "remove:"@,
        CommandKind::Resume => "resume:"@,
        CommandKind::Pause => "pause:"@,
    }
}

/// The supervisor message `{kind}:{id}`.
pub fn command_message(kind: CommandKind, id: &str) -> (m: String)
    ensures
        m@ == command_prefix(kind) + id@,
{
    let mut m = String::from_str(
        match kind {
            CommandKind::New => "new:",
            CommandKind::Update => "update:",
            CommandKind::Remove => "remove:",
            CommandKind::Resume => "resume:",
            CommandKind::Pause => "pause:",
        },
    );
    m.append(id);
    m
}

/// The generator whose task a message makes the supervisor stop: the id
/// after an `update:` or `remove:` prefix.
pub open spec fn restart_id(msg: Seq<char>) -> Option<Seq<char>> {
    if has_prefix(msg, "update:"@) {
        Some(msg.subrange("update:"@.len() as int, msg.len() as int))
    } else if has_prefix(msg, "remove:"@) {
        Some(msg.subrange("remove:"@.len() as int, msg.len() as int))
    } else {
        None
    }
}

/// The id of the generator whose task `msg` stops, if it stops one.
pub fn restart_target(msg: &str) -> (r: Option<&str>)
    ensures
        r matches Some(t) ==> restart_id(msg@) == Some(t@),
        r is None ==> restart_id(msg@) is None,
{
    match strip_prefix(msg, "update:") {
        Some(t) => Some(t),
        None => strip_prefix(msg, "remove:"),
    }
}

/// A message stops the task of the generator it names exactly when it
/// announces an update or a removal.
pub proof fn lemma_restart_id_of_command(k: CommandKind, id: Seq<char>)
    ensures
        restart_id(command_prefix(k) + id) == (if k == CommandKind::Update || k == CommandKind::Remove {
            Some(id)
        } else {
            None
        }),
{
    reveal_strlit("new:");
    reveal_strlit("update:");
    reveal_strlit("remove:");
    reveal_strlit("resume:");
    reveal_strlit("pause:");
    let m = command_prefix(k) + id;
    let p = command_prefix(k);
    assert(m.subrange(0, p.len() as int) =~= p);
    assert(m.subrange(p.len() as int, m.len() as int) =~= id);
    if k != CommandKind::Update {
        assert(m[0] != 'u' || m[1] != 'p');
        assert(!has_prefix(m, "update:"@)) by {
            if has_prefix(m, "update:"@) {
                assert(m.subrange(0, 7)[0] == "update:"@[0]);
                assert(m.subrange(0, 7)[1] == "update:"@[1]);
            }
        }
    }
    if k != CommandKind::Remove && k != CommandKind::Update {
        assert(!has_prefix(m, "remove:"@)) by {
            if has_prefix(m, "remove:"@) {
                assert(m.subrange(0, 7)[0] == "remove:"@[0]);
                assert(m.subrange(0, 7)[1] == "remove:"@[1]);
                assert(m.subrange(0, 7)[2] == "remove:"@[2]);
            }
        }
    }
}

/// `i` is the first position of `x` in `v`.
pub open spec fn is_first_index(v: Seq<Seq<char>>, x: Seq<char>, i: int) -> bool {
    &&& 0 <= i < v.len()
    &&& v[i] == x
    &&& forall|k: int| 0 <= k < i ==> v[k] != x
}

/// Position of the task a message stops among the tasks named `task_ids`:
/// the first task of the generator the message names.
pub fn restart_position(task_ids: &Vec<String>, msg: &str) -> (r: Option<usize>)
    ensures
        r matches Some(i) ==> restart_id(msg@) matches Some(t) && is_first_index(
            task_ids@.map_values(|s: String| s@),
            t,
            i as int,
        ),
        r is None ==> (restart_id(msg@) is None || forall|k: int|
            0 <= k < task_ids@.len() ==> task_ids@[k]@ != restart_id(msg@)->0),
{
    let target = match restart_target(msg) {
        Some(t) => t,
        None => return None,
    };
    let n = task_ids.len();
    let mut i: usize = 0;
    while i < n
        invariant
            n == task_ids@.len(),
            i <= n,
            restart_id(msg@) == Some(target@),
            forall|k: int| 0 <= k < i ==> task_ids@[k]@ != target@,
        decreases n - i,
    {
        if str_eq(task_ids[i].as_str(), target) {
            return Some(i);
        }
        i = i + 1;
    }
    None
}

/// A task of the supervisor: the id of its generator and whether it has finished.
pub open spec fn task_view(t: (String, bool)) -> (Seq<char>, bool) {
    (t.0@, t.1)
}

/// Some unfinished task in `tasks` runs generator `id`.
pub open spec fn has_live_task(tasks: Seq<(Seq<char>, bool)>, id: Seq<char>) -> bool {
    exists|j: int| 0 <= j < tasks.len() && tasks[j].0 == id && !tasks[j].1
}

/// The supervisor's pass over the first `n` generators: which of them it
/// starts (their positions) and the task list afterwards.  An enabled
/// generator is started when no unfinished task runs it yet; its new task
/// joins the list at the end.
pub open spec fn start_upto<F>(gens: Seq<GeneratorConfig<F>>, tasks: Seq<(Seq<char>, bool)>, n: int) -> (Seq<int>, Seq<(Seq<char>, bool)>)
    decreases n,
{
    if n <= 0 {
        (Seq::<int>::empty(), tasks)
    } else {
        let (started, list) = start_upto(gens, tasks, n - 1);
        let g = gens[n - 1];
        if g.enabled && !has_live_task(list, g.id@) {
            (started.push(n - 1), list.push((g.id@, false)))
        } else {
            (started, list)
        }
    }
}

/// Some enabled generator has id `id`.
pub open spec fn is_active<F>(gens: Seq<GeneratorConfig<F>>, id: Seq<char>) -> bool {
    exists|i: int| 0 <= i < gens.len() && gens[i].enabled && gens[i].id@ == id
}

/// What one supervision cycle does: the positions of the generators to
/// start, in order, and for every task (the running ones, then the started
/// ones) whether it is kept.
pub struct CyclePlan {
    pub start: Vec<usize>,
    pub keep: Vec<bool>,
}

/// Whether an unfinished task in `ids`/`finished` runs generator `id`.
fn live_task(ids: &Vec<String>, finished: &Vec<bool>, id: &str) -> (b: bool)
    requires
        ids@.len() == finished@.len(),
    ensures
        b == exists|j: int| 0 <= j < ids@.len() && ids@[j]@ == id@ && !finished@[j],
{
    let n = ids.len();
    let mut j: usize = 0;
    while j < n
        invariant
            n == ids@.len(),
            n == finished@.len(),
            j <= n,
            forall|k: int| 0 <= k < j ==> !(ids@[k]@ == id@ && !finished@[k]),
        decreases n - j,
    {
        if !finished[j] && str_eq(ids[j].as_str(), id) {
            return true;
        }
        j = j + 1;
    }
    false
}

/// Whether some enabled generator has id `id`.
fn active_id<F>(gens: &Vec<GeneratorConfig<F>>, id: &str) -> (b: bool)
    ensures
        b == is_active(gens@, id@),
{
    let n = gens.len();
    let mut i: usize = 0;
    while i < n
        invariant
            n == gens@.len(),
            i <= n,
            forall|k: int| 0 <= k < i ==> !(gens@[k].enabled && gens@[k].id@ == id@),
        decreases n - i,
    {
        if gens[i].enabled && str_eq(gens[i].id.as_str(), id) {
            return true;
        }
        i = i + 1;
    }
    false
}

/// The tasks as (id, finished) views, from parallel vectors.
pub open spec fn tasks_of(ids: Seq<String>, finished: Seq<bool>) -> Seq<(Seq<char>, bool)> {
    Seq::new(ids.len(), |j: int| (ids[j]@, finished[j]))
}

/// Plan one supervision cycle over the generators and the running tasks
/// (`(generator id, finished)`): start every enabled generator that no
/// unfinished task runs, then keep exactly the tasks whose generator is
/// enabled.
pub fn plan_cycle<F>(gens: &Vec<GeneratorConfig<F>>, tasks: &Vec<(String, bool)>) -> (plan: CyclePlan)
    ensures
        ({
            let (started, list) = start_upto(gens@, tasks@.map_values(|t: (String, bool)| task_view(t)), gens@.len() as int);
            &&& plan.start@.len() == started.len()
            &&& forall|k: int| 0 <= k < started.len() ==> plan.start@[k] as int == started[k]
            &&& plan.keep@.len() == list.len()
            &&& forall|j: int| 0 <= j < list.len() ==> plan.keep@[j] == is_active(gens@, list[j].0)
            &&& forall|j: int| 0 <= j < list.len() ==> (plan.keep@[j] <==> exists|i: int|
                0 <= i < gens@.len() && gens@[i].enabled && #[trigger] gens@[i].id@ == list[j].0)
        }),
        forall|k: int|
            0 <= k < plan.start@.len() ==> plan.start@[k] < gens@.len() && gens@[#[trigger] plan.start@[k] as int].enabled,
{
    proof {
        lemma_started_are_enabled(
            gens@,
            tasks@.map_values(|t: (String, bool)| task_view(t)),
            gens@.len() as int,
        );
    }
    let ghost tv = tasks@.map_values(|t: (String, bool)| task_view(t));
    let mut ids: Vec<String> = Vec::new();
    let mut finished: Vec<bool> = Vec::new();
    let m = tasks.len();
    let mut j: usize = 0;
    while j < m
        invariant
            m == tasks@.len(),
            tv == tasks@.map_values(|t: (String, bool)| task_view(t)),
            j <= m,
            ids@.len() == j,
            finished@.len() == j,
            tasks_of(ids@, finished@) =~= tv.take(j as int),
        decreases m - j,
    {
        ids.push(String::from_str(tasks[j].0.as_str()));
        finished.push(tasks[j].1);
        j = j + 1;
    }
    assert(tv.take(m as int) =~= tv);
    let n = gens.len();
    let mut start: Vec<usize> = Vec::new();
    let mut i: usize = 0;
    while i < n
        invariant
            n == gens@.len(),
            tv == tasks@.map_values(|t: (String, bool)| task_view(t)),
            i <= n,
            ids@.len() == finished@.len(),
            ({
                let (started, list) = start_upto(gens@, tv, i as int);
                &&& tasks_of(ids@, finished@) == list
                &&& start@.len() == started.len()
                &&& forall|k: int| 0 <= k < started.len() ==> start@[k] as int == started[k]
            }),
        decreases n - i,
    {
        let ghost list = tasks_of(ids@, finished@);
        let live = live_task(&ids, &finished, gens[i].id.as_str());
        assert(live == has_live_task(list, gens@[i as int].id@)) by {
            if live {
                let j = choose|j: int| 0 <= j < ids@.len() && ids@[j]@ == gens@[i as int].id@ && !finished@[j];
                assert(list[j].0 == gens@[i as int].id@ && !list[j].1);
            }
        }
        if gens[i].enabled && !live {
            start.push(i);
            ids.push(String::from_str(gens[i].id.as_str()));
            finished.push(false);
            assert(tasks_of(ids@, finished@) =~= list.push((gens@[i as int].id@, false)));
        }
        i = i + 1;
    }
    let ghost list = tasks_of(ids@, finished@);
    let total = ids.len();
    let mut keep: Vec<bool> = Vec::new();
    let mut k: usize = 0;
    while k < total
        invariant
            total == ids@.len(),
            list == tasks_of(ids@, finished@),
            k <= total,
            keep@.len() == k,
            forall|q: int| 0 <= q < k ==> keep@[q] == is_active(gens@, list[q].0),
        decreases total - k,
    {
        keep.push(active_id(gens, ids[k].as_str()));
        k = k + 1;
    }
    proof {
        let started = start_upto(gens@, tv, n as int).0;
        assert forall|q: int| 0 <= q < start@.len() implies start@[q] < gens@.len() && gens@[start@[q] as int].enabled by {
            assert(start@[q] as int == started[q]);
        }
    }
    CyclePlan { start, keep }
}

/// A cycle starts only enabled generators: every position it starts is that
/// of an enabled generator among those it went over.
pub proof fn lemma_started_are_enabled<F>(gens: Seq<GeneratorConfig<F>>, tasks: Seq<(Seq<char>, bool)>, n: int)
    requires
        0 <= n <= gens.len(),
    ensures
        forall|k: int|
            0 <= k < start_upto(gens, tasks, n).0.len() ==> 0 <= #[trigger] start_upto(gens, tasks, n).0[k] < n
                && gens[start_upto(gens, tasks, n).0[k]].enabled,
    decreases n,
{
    if n > 0 {
        lemma_started_are_enabled(gens, tasks, n - 1);
    }
}

/// Once a cycle is planned, every enabled generator has an unfinished task
/// that the cycle keeps (a started task counts as unfinished), and every kept
/// task belongs to an enabled generator.
pub proof fn lemma_cycle_covers_enabled<F>(gens: Seq<GeneratorConfig<F>>, tasks: Seq<(Seq<char>, bool)>, n: int)
    requires
        0 <= n <= gens.len(),
    ensures
        ({
            let list = start_upto(gens, tasks, n).1;
            &&& forall|i: int| 0 <= i < n && #[trigger] gens[i].enabled ==> exists|j: int|
                0 <= j < list.len() && list[j].0 == gens[i].id@ && !list[j].1 && is_active(gens, list[j].0)
            &&& list.len() >= tasks.len()
            &&& forall|j: int| 0 <= j < tasks.len() ==> list[j] == tasks[j]
        }),
    decreases n,
{
    if n > 0 {
        lemma_cycle_covers_enabled(gens, tasks, n - 1);
        let (started, prev) = start_upto(gens, tasks, n - 1);
        let list = start_upto(gens, tasks, n).1;
        let g = gens[n - 1];
        assert forall|i: int| 0 <= i < n && #[trigger] gens[i].enabled implies exists|j: int|
            0 <= j < list.len() && list[j].0 == gens[i].id@ && !list[j].1 && is_active(gens, list[j].0) by {
            assert(is_active(gens, gens[i].id@));
            if i < n - 1 {
                let j = choose|j: int|
                    0 <= j < prev.len() && prev[j].0 == gens[i].id@ && !prev[j].1 && is_active(gens, prev[j].0);
                assert(list[j] == prev[j]);
            } else if has_live_task(prev, g.id@) {
                let j = choose|j: int| 0 <= j < prev.len() && prev[j].0 == g.id@ && !prev[j].1;
                assert(list[j] == prev[j]);
            } else {
                assert(list[prev.len() as int] == (g.id@, false));
            }
        }
    }
}

/// The supervisor messages start with "new:", "update:", "remove:",
/// "resume:" and "pause:", one per kind, and messages of different kinds
/// never share their prefix.
pub proof fn lemma_command_prefixes()
    ensures
        command_prefix(CommandKind::New) == "new:"@,
        command_prefix(CommandKind::Update) == "update:"@,
        command_prefix(CommandKind::Remove) == "remove:"@,
        command_prefix(CommandKind::Resume) == "resume:"@,
        command_prefix(CommandKind::Pause) == "pause:"@,
        forall|a: CommandKind, b: CommandKind| a != b ==> command_prefix(a) != command_prefix(b),
{
    reveal_strlit("new:");
    reveal_strlit("update:");
    reveal_strlit("remove:");
    reveal_strlit("resume:");
    reveal_strlit("pause:");
    assert forall|a: CommandKind, b: CommandKind| a != b implies command_prefix(a) != command_prefix(b) by {
        let x = command_prefix(a);
        let y = command_prefix(b);
        if x.len() == y.len() {
            assert(x[0] != y[0] || x[2] != y[2]);
        }
    }
}

} // verus!
