//! Eradication of a condemned process tree: who is terminated, and in which order.

use crate::text::{contains, decimal, law_contains_means_a_part, push_decimal};
use vstd::prelude::*;

verus! {

/// What the process table tells of one process.
#[derive(Clone, Copy)]
pub struct ProcessInfo {
    /// Its identifier.
    pub pid: u32,
    /// Its parent, where it has one.
    pub parent: Option<u32>,
    /// When it started, in seconds since the epoch; zero when unknown.
    pub start_time: u64,
}

/// One step of an eradication.
#[derive(Clone, Copy)]
pub enum Remediation {
    /// Terminate a child of the orchestrator.
    KillWorker(u32),
    /// Terminate the orchestrator itself.
    KillOrchestrator(u32),
    /// Spare the process that now bears the orchestrator's identifier.
    SpareRecycled(u32),
}

/// The steps against the children of `target`, in the order of the process table.
pub open spec fn worker_steps(table: Seq<ProcessInfo>, target: u32) -> Seq<Remediation>
    decreases table.len(),
{
    if table.len() == 0 {
        Seq::empty()
    } else {
        let steps = worker_steps(table.drop_last(), target);
        if table.last().parent == Some(target) {
            steps.push(Remediation::KillWorker(table.last().pid))
        } else {
            steps
        }
    }
}

/// The first process of the table with identifier `pid`.
pub open spec fn lookup(table: Seq<ProcessInfo>, pid: u32) -> Option<ProcessInfo>
    decreases table.len(),
{
    if table.len() == 0 {
        None
    } else if table[0].pid == pid {
        Some(table[0])
    } else {
        lookup(table.drop_first(), pid)
    }
}

/// The step against the orchestrator: it is terminated only if it started in the past.
pub open spec fn orchestrator_step(table: Seq<ProcessInfo>, target: u32, epoch: u64) -> Seq<
    Remediation,
> {
    match lookup(table, target) {
        Some(process) => if 0 < process.start_time < epoch {
            seq![Remediation::KillOrchestrator(target)]
        } else {
            seq![Remediation::SpareRecycled(target)]
        },
        None => Seq::empty(),
    }
}

/// All steps against the tree of `target`: its children first, then the orchestrator.
pub open spec fn eradication(table: Seq<ProcessInfo>, target: u32, epoch: u64) -> Seq<Remediation> {
    worker_steps(table, target) + orchestrator_step(table, target, epoch)
}

/// Plans the eradication of the tree of `target_ppid`, from a process table and the current time.
pub fn neutralize_threat_tree(table: &[ProcessInfo], target_ppid: u32, epoch: u64) -> (r: Vec<
    Remediation,
>)
    ensures
        r@ == eradication(table@, target_ppid, epoch),
{
    let mut steps: Vec<Remediation> = Vec::new();
    let mut i: usize = 0;
    assert(table@.take(0) =~= Seq::<ProcessInfo>::empty());
    while i < table.len()
        invariant
            i <= table@.len(),
            steps@ == worker_steps(table@.take(i as int), target_ppid),
        decreases table@.len() - i,
    {
        assert(table@.take(i + 1).drop_last() =~= table@.take(i as int));
        if let Some(parent) = table[i].parent {
            if parent == target_ppid {
                steps.push(Remediation::KillWorker(table[i].pid));
            }
        }
        i = i + 1;
    }
    assert(table@.take(i as int) =~= table@);
    let mut k: usize = 0;
    assert(table@.skip(0) =~= table@);
    while k < table.len()
        invariant
            k <= table@.len(),
            steps@ == worker_steps(table@, target_ppid),
            lookup(table@.skip(k as int), target_ppid) == lookup(table@, target_ppid),
        decreases table@.len() - k,
    {
        assert(table@.skip(k as int).drop_first() =~= table@.skip(k + 1));
        if table[k].pid == target_ppid {
            if 0 < table[k].start_time && table[k].start_time < epoch {
                steps.push(Remediation::KillOrchestrator(target_ppid));
            } else {
                steps.push(Remediation::SpareRecycled(target_ppid));
            }
            assert(steps@ =~= eradication(table@, target_ppid, epoch));
            return steps;
        }
        k = k + 1;
    }
    assert(steps@ =~= eradication(table@, target_ppid, epoch));
    steps
}

/// A step against the orchestrator is the last one: by then every child has been dealt with, so
/// that none escapes by being reparented.
pub proof fn law_workers_before_orchestrator(
    table: Seq<ProcessInfo>,
    target: u32,
    epoch: u64,
    k: int,
)
    requires
        0 <= k < eradication(table, target, epoch).len(),
        !(eradication(table, target, epoch)[k] is KillWorker),
    ensures
        k == eradication(table, target, epoch).len() - 1,
        k == worker_steps(table, target).len(),
{
    lemma_worker_steps(table, target);
}

proof fn lemma_worker_steps(table: Seq<ProcessInfo>, target: u32)
    ensures
        forall|k: int|
            0 <= k < worker_steps(table, target).len() ==> {
                &&& (#[trigger] worker_steps(table, target)[k]) is KillWorker
                &&& exists|i: int|
                    0 <= i < table.len() && (#[trigger] table[i]).parent == Some(target)
                        && worker_steps(table, target)[k] == Remediation::KillWorker(table[i].pid)
            },
    decreases table.len(),
{
    if table.len() > 0 {
        let shorter = table.drop_last();
        lemma_worker_steps(shorter, target);
        assert forall|k: int| 0 <= k < worker_steps(table, target).len() implies {
            &&& (#[trigger] worker_steps(table, target)[k]) is KillWorker
            &&& exists|i: int|
                0 <= i < table.len() && (#[trigger] table[i]).parent == Some(target)
                    && worker_steps(table, target)[k] == Remediation::KillWorker(table[i].pid)
        } by {
            if k < worker_steps(shorter, target).len() {
                assert(worker_steps(table, target)[k] == worker_steps(shorter, target)[k]);
                let i = choose|i: int|
                    0 <= i < shorter.len() && (#[trigger] shorter[i]).parent == Some(target)
                        && worker_steps(shorter, target)[k] == Remediation::KillWorker(
                        shorter[i].pid,
                    );
                assert(table[i] == shorter[i]);
            } else {
                assert(table[table.len() - 1] == table.last());
            }
        }
    }
}

/// Every child of the orchestrator in the process table is terminated.
pub proof fn law_no_worker_is_spared(table: Seq<ProcessInfo>, target: u32, epoch: u64, i: int)
    requires
        0 <= i < table.len(),
        table[i].parent == Some(target),
    ensures
        eradication(table, target, epoch).contains(Remediation::KillWorker(table[i].pid)),
{
    lemma_worker_included(table, target, i);
    let k = choose|k: int|
        0 <= k < worker_steps(table, target).len() && worker_steps(table, target)[k]
            == Remediation::KillWorker(table[i].pid);
    assert(eradication(table, target, epoch)[k] == Remediation::KillWorker(table[i].pid));
}

proof fn lemma_worker_included(table: Seq<ProcessInfo>, target: u32, i: int)
    requires
        0 <= i < table.len(),
        table[i].parent == Some(target),
    ensures
        worker_steps(table, target).contains(Remediation::KillWorker(table[i].pid)),
    decreases table.len(),
{
    let shorter = table.drop_last();
    if i == table.len() - 1 {
        assert(worker_steps(table, target).last() == Remediation::KillWorker(table[i].pid));
    } else {
        lemma_worker_included(shorter, target, i);
        let k = choose|k: int|
            0 <= k < worker_steps(shorter, target).len() && worker_steps(shorter, target)[k]
                == Remediation::KillWorker(table[i].pid);
        assert(worker_steps(table, target)[k] == worker_steps(shorter, target)[k]);
    }
}

/// A process that is neither the orchestrator nor one of its children is left alone.
pub proof fn law_bystanders_are_spared(
    table: Seq<ProcessInfo>,
    target: u32,
    epoch: u64,
    bystander: u32,
)
    requires
        bystander != target,
        forall|i: int|
            0 <= i < table.len() && (#[trigger] table[i]).parent == Some(target) ==> table[i].pid
                != bystander,
    ensures
        !eradication(table, target, epoch).contains(Remediation::KillWorker(bystander)),
        !eradication(table, target, epoch).contains(Remediation::KillOrchestrator(bystander)),
{
    lemma_worker_steps(table, target);
    let steps = eradication(table, target, epoch);
    let workers = worker_steps(table, target);
    assert forall|k: int| 0 <= k < steps.len() implies steps[k] != Remediation::KillWorker(
        bystander,
    ) && steps[k] != Remediation::KillOrchestrator(bystander) by {
        if k < workers.len() {
            assert(steps[k] == workers[k]);
        }
    }
}

/// An identifier that was recycled by a process of unknown or future start is not terminated as
/// the orchestrator.
pub proof fn law_recycled_pid_is_spared(table: Seq<ProcessInfo>, target: u32, epoch: u64)
    requires
        lookup(table, target) matches Some(p) && !(0 < p.start_time < epoch),
    ensures
        !eradication(table, target, epoch).contains(Remediation::KillOrchestrator(target)),
        eradication(table, target, epoch).last() == Remediation::SpareRecycled(target),
{
    lemma_worker_steps(table, target);
    let steps = eradication(table, target, epoch);
    let workers = worker_steps(table, target);
    assert forall|k: int| 0 <= k < steps.len() implies steps[k] != Remediation::KillOrchestrator(
        target,
    ) by {
        if k < workers.len() {
            assert(steps[k] == workers[k]);
        }
    }
}

/// The line for a step, in the model; terminating the orchestrator leaves none.
pub open spec fn step_text(step: Remediation) -> Option<Seq<char>> {
    match step {
        Remediation::KillWorker(pid) => Some(
            "Bouclier Bleu [REMEDIATION]: Collateral worker terminated -> PID: "@ + decimal(
                pid as nat,
            ),
        ),
        Remediation::KillOrchestrator(_) => None,
        Remediation::SpareRecycled(pid) => Some(
            "Bouclier Bleu [WARNING]: Aborted orchestrator termination. PID "@ + decimal(
                pid as nat,
            ) + " was recycled."@,
        ),
    }
}

/// The line that reports a step, where one is due.
pub fn step_notice(step: Remediation) -> (r: Option<String>)
    ensures
        r is Some <==> step_text(step) is Some,
        r matches Some(line) ==> Some(line@) == step_text(step),
{
    match step {
        Remediation::KillWorker(pid) => {
            let mut out =
                "Bouclier Bleu [REMEDIATION]: Collateral worker terminated -> PID: ".to_owned();
            push_decimal(&mut out, pid as u64);
            Some(out)
        },
        Remediation::KillOrchestrator(_) => None,
        Remediation::SpareRecycled(pid) => {
            let mut out =
                "Bouclier Bleu [WARNING]: Aborted orchestrator termination. PID ".to_owned();
            push_decimal(&mut out, pid as u64);
            out.append(" was recycled.");
            Some(out)
        },
    }
}

proof fn lemma_lookup(table: Seq<ProcessInfo>, target: u32, i: int)
    requires
        0 <= i < table.len(),
        table[i].pid == target,
        forall|j: int| 0 <= j < i ==> (#[trigger] table[j]).pid != target,
    ensures
        lookup(table, target) == Some(table[i]),
    decreases table.len(),
{
    if i > 0 {
        assert(table[0].pid != target);
        let rest = table.drop_first();
        assert forall|j: int| 0 <= j < i - 1 implies (#[trigger] rest[j]).pid != target by {
            assert(table[j + 1].pid != target);
        }
        lemma_lookup(rest, target, i - 1);
    }
}

proof fn lemma_lookup_misses(table: Seq<ProcessInfo>, target: u32)
    requires
        forall|j: int| 0 <= j < table.len() ==> (#[trigger] table[j]).pid != target,
    ensures
        lookup(table, target) is None,
    decreases table.len(),
{
    if table.len() > 0 {
        assert(table[0].pid != target);
        let rest = table.drop_first();
        assert forall|j: int| 0 <= j < rest.len() implies (#[trigger] rest[j]).pid != target by {
            assert(table[j + 1].pid != target);
        }
        lemma_lookup_misses(rest, target);
    }
}

/// The orchestrator does not outlive its workers: whenever the process table holds it with a start
/// time that is known and lies before the current second, however recent, its termination is the
/// last step, and it is not spared.
pub proof fn law_running_orchestrator_is_terminated(
    table: Seq<ProcessInfo>,
    target: u32,
    epoch: u64,
    i: int,
)
    requires
        0 <= i < table.len(),
        table[i].pid == target,
        forall|j: int| 0 <= j < i ==> (#[trigger] table[j]).pid != target,
        0 < table[i].start_time,
        table[i].start_time < epoch,
    ensures
        eradication(table, target, epoch).len() > 0,
        eradication(table, target, epoch).last() == Remediation::KillOrchestrator(target),
        eradication(table, target, epoch).contains(Remediation::KillOrchestrator(target)),
        !eradication(table, target, epoch).contains(Remediation::SpareRecycled(target)),
{
    lemma_lookup(table, target, i);
    lemma_worker_steps(table, target);
    let steps = eradication(table, target, epoch);
    let workers = worker_steps(table, target);
    assert(steps[steps.len() - 1] == Remediation::KillOrchestrator(target));
    assert forall|k: int| 0 <= k < steps.len() implies steps[k] != Remediation::SpareRecycled(
        target,
    ) by {
        if k < workers.len() {
            assert(steps[k] == workers[k]);
        }
    }
}

/// A process that bears the orchestrator's identifier but started at an unknown time, in the current
/// second or later is spared, and its sparing is the last step.
pub proof fn law_later_bearer_of_the_identifier_is_spared(
    table: Seq<ProcessInfo>,
    target: u32,
    epoch: u64,
    i: int,
)
    requires
        0 <= i < table.len(),
        table[i].pid == target,
        forall|j: int| 0 <= j < i ==> (#[trigger] table[j]).pid != target,
        table[i].start_time == 0 || table[i].start_time >= epoch,
    ensures
        eradication(table, target, epoch).len() > 0,
        eradication(table, target, epoch).last() == Remediation::SpareRecycled(target),
        !eradication(table, target, epoch).contains(Remediation::KillOrchestrator(target)),
{
    lemma_lookup(table, target, i);
    law_recycled_pid_is_spared(table, target, epoch);
}

/// Terminating the workers comes first and takes exactly one step for each child that the process
/// table holds, in its order; only a target that the table holds gets one more step.
pub proof fn law_each_child_is_terminated_once(table: Seq<ProcessInfo>, target: u32, epoch: u64)
    ensures
        ({
            let children = table.filter(|p: ProcessInfo| p.parent == Some(target));
            let steps = eradication(table, target, epoch);
            &&& steps.len() >= children.len()
            &&& forall|k: int|
                0 <= k < children.len() ==> #[trigger] steps[k] == Remediation::KillWorker(
                    children[k].pid,
                )
            &&& steps.len() == children.len() + if exists|i: int|
                0 <= i < table.len() && (#[trigger] table[i]).pid == target {
                1int
            } else {
                0int
            }
        }),
{
    lemma_children(table, target);
    if exists|i: int| 0 <= i < table.len() && (#[trigger] table[i]).pid == target {
        let i = choose|i: int| 0 <= i < table.len() && (#[trigger] table[i]).pid == target;
        lemma_lookup_finds(table, target, i);
    } else {
        lemma_lookup_misses(table, target);
    }
}

proof fn lemma_lookup_finds(table: Seq<ProcessInfo>, target: u32, i: int)
    requires
        0 <= i < table.len(),
        table[i].pid == target,
    ensures
        lookup(table, target) is Some,
    decreases table.len(),
{
    if table[0].pid != target {
        assert(table.drop_first()[i - 1] == table[i]);
        lemma_lookup_finds(table.drop_first(), target, i - 1);
    }
}

proof fn lemma_children(table: Seq<ProcessInfo>, target: u32)
    ensures
        worker_steps(table, target) == table.filter(
            |p: ProcessInfo| p.parent == Some(target),
        ).map_values(|p: ProcessInfo| Remediation::KillWorker(p.pid)),
    decreases table.len(),
{
    reveal(Seq::filter);
    let is_child = |p: ProcessInfo| p.parent == Some(target);
    let kill = |p: ProcessInfo| Remediation::KillWorker(p.pid);
    if table.len() > 0 {
        let shorter = table.drop_last();
        lemma_children(shorter, target);
        if table.last().parent == Some(target) {
            assert(table.filter(is_child) == shorter.filter(is_child).push(table.last()));
            assert(shorter.filter(is_child).push(table.last()).map_values(kill)
                =~= shorter.filter(is_child).map_values(kill).push(kill(table.last())));
        }
    } else {
        assert(table.filter(is_child).map_values(kill) =~= Seq::<Remediation>::empty());
    }
}

/// A worker that was terminated and a process that was spared are reported by their identifiers, and
/// nothing else is.
pub proof fn law_steps_are_reported_by_identifier(step: Remediation)
    ensures
        step_text(step) is None <==> step is KillOrchestrator,
        step matches Remediation::KillWorker(pid) ==> contains(step_text(step)->0, decimal(pid as nat)),
        step matches Remediation::SpareRecycled(pid) ==> contains(
            step_text(step)->0,
            decimal(pid as nat),
        ),
{
    match step {
        Remediation::KillWorker(pid) => {
            let head = "Bouclier Bleu [REMEDIATION]: Collateral worker terminated -> PID: "@;
            let digits = decimal(pid as nat);
            assert(head + digits =~= head + digits + Seq::<char>::empty());
            law_contains_means_a_part(head + digits, digits);
        },
        Remediation::SpareRecycled(pid) => {
            law_contains_means_a_part(step_text(step)->0, decimal(pid as nat));
        },
        Remediation::KillOrchestrator(_) => {},
    }
}

} // verus!
