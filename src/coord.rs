//! The coordination block that the tasks of a step share on one node.
//!
//! Each method is one critical section: the caller holds the block's lock
//! for the whole call, so calls from different tasks apply one after the
//! other, in the order the lock was taken.
use vstd::prelude::*;

use crate::naming::{plugin_string, tagged, RunContext};

verus! {

/// Who imports the image on this node, and how that went.
#[derive(Clone, Copy, PartialEq, Eq, Structural, Debug)]
pub enum ImportStatus {
    Unclaimed,
    InProgress(u32),
    Finished(bool),
}

/// What a task learns when it tries to claim the import.
#[derive(Clone, Copy, PartialEq, Eq, Structural, Debug)]
pub enum ImportRole {
    /// The caller imports; the others wait for it.
    Owner,
    /// Another task imports; wait for its outcome.
    Wait,
    /// The import is over, with this outcome.
    Done(bool),
}

/// Whether the backing container is running, and as which process.
#[derive(Clone, Copy, PartialEq, Eq, Structural, Debug)]
pub enum StartStatus {
    Pending,
    Running(u64),
    Failed,
}

/// The shared coordination state of one step on one node.
#[derive(Clone, Copy, PartialEq, Eq, Structural, Debug)]
pub struct SharedState {
    pub import_status: ImportStatus,
    pub start_status: StartStatus,
    pub stop_count: u32,
}

/// One claim of the import by `task`: the first claim wins, later ones
/// leave the state as it is.
pub open spec fn claim_spec(s: ImportStatus, task: u32) -> (ImportStatus, ImportRole) {
    match s {
        ImportStatus::Unclaimed => (ImportStatus::InProgress(task), ImportRole::Owner),
        ImportStatus::InProgress(_) => (s, ImportRole::Wait),
        ImportStatus::Finished(ok) => (s, ImportRole::Done(ok)),
    }
}

/// The owner `task` reports the outcome of its import; a report from any
/// other task, or a second report, changes nothing.
pub open spec fn finish_spec(s: ImportStatus, task: u32, success: bool) -> ImportStatus {
    match s {
        ImportStatus::InProgress(owner) => if owner == task {
            ImportStatus::Finished(success)
        } else {
            s
        },
        _ => s,
    }
}

/// The start outcome is written once, by the first report.
pub open spec fn publish_spec(s: StartStatus, pid: Option<u64>) -> StartStatus {
    match s {
        StartStatus::Pending => match pid {
            Some(p) => StartStatus::Running(p),
            None => StartStatus::Failed,
        },
        _ => s,
    }
}

/// One task's exit: the count rises up to `task_count`, and the task whose
/// exit makes it reach `task_count` is the last one.
pub open spec fn exit_spec(count: u32, task_count: u32) -> (u32, bool) {
    if count < task_count {
        ((count + 1) as u32, count + 1 == task_count)
    } else {
        (count, false)
    }
}

impl SharedState {
    /// The state of a node before any task has come.
    pub fn new() -> (r: SharedState)
        ensures
            r.import_status == ImportStatus::Unclaimed,
            r.start_status == StartStatus::Pending,
            r.stop_count == 0,
    {
        SharedState {
            import_status: ImportStatus::Unclaimed,
            start_status: StartStatus::Pending,
            stop_count: 0,
        }
    }

    /// `task` tries to claim the import.
    pub fn claim_import(&mut self, task: u32) -> (r: ImportRole)
        ensures
            (final(self).import_status, r) == claim_spec(old(self).import_status, task),
            final(self).start_status == old(self).start_status,
            final(self).stop_count == old(self).stop_count,
    {
        match self.import_status {
            ImportStatus::Unclaimed => {
                self.import_status = ImportStatus::InProgress(task);
                ImportRole::Owner
            },
            ImportStatus::InProgress(_) => ImportRole::Wait,
            ImportStatus::Finished(ok) => ImportRole::Done(ok),
        }
    }

    /// The owner `task` reports how its import went.
    pub fn finish_import(&mut self, task: u32, success: bool)
        ensures
            final(self).import_status == finish_spec(old(self).import_status, task, success),
            final(self).start_status == old(self).start_status,
            final(self).stop_count == old(self).stop_count,
    {
        match self.import_status {
            ImportStatus::InProgress(owner) => {
                if owner == task {
                    self.import_status = ImportStatus::Finished(success);
                }
            },
            _ => {},
        }
    }

    /// The import's outcome, once it is known.
    pub fn import_outcome(&self) -> (r: Option<bool>)
        ensures
            r == match self.import_status {
                ImportStatus::Finished(ok) => Some(ok),
                _ => None::<bool>,
            },
    {
        match self.import_status {
            ImportStatus::Finished(ok) => Some(ok),
            _ => None,
        }
    }

    /// The starter reports the container's process id, or `None` where the
    /// start failed.
    pub fn publish_start(&mut self, pid: Option<u64>)
        ensures
            final(self).start_status == publish_spec(old(self).start_status, pid),
            final(self).import_status == old(self).import_status,
            final(self).stop_count == old(self).stop_count,
    {
        if self.start_status == StartStatus::Pending {
            self.start_status = match pid {
                Some(p) => StartStatus::Running(p),
                None => StartStatus::Failed,
            };
        }
    }

    /// A task of the `task_count` local tasks signals its exit; `true` for
    /// the one task that must tear the container down.
    pub fn register_exit(&mut self, task_count: u32) -> (r: bool)
        ensures
            (final(self).stop_count, r) == exit_spec(old(self).stop_count, task_count),
            final(self).import_status == old(self).import_status,
            final(self).start_status == old(self).start_status,
    {
        if self.stop_count < task_count {
            self.stop_count = self.stop_count + 1;
            self.stop_count == task_count
        } else {
            false
        }
    }
}

/// Whether `local_task_id` starts the node's container: local task 0 does.
pub open spec fn starts_container_spec(local_task_id: u32) -> bool {
    local_task_id == 0
}

/// Whether the task with the given local id starts the container.
pub fn starts_container(local_task_id: u32) -> (r: bool)
    ensures
        r == starts_container_spec(local_task_id),
{
    local_task_id == 0
}

/// A task's context once the start outcome is known: it takes the
/// published process id, or fails where the start failed.
pub fn adopt_start(run: RunContext, status: StartStatus) -> (r: Result<RunContext, String>)
    ensures
        status matches StartStatus::Running(pid) ==> (r matches Ok(n) && n.pid == Some(pid)
            && n.name == run.name && n.tmp_path == run.tmp_path && n.syncfile_path
            == run.syncfile_path),
        status is Failed ==> (r matches Err(e) && e@ == tagged("container start failed"@)),
        status is Pending ==> (r matches Err(e) && e@ == tagged("container start not published"@)),
{
    match status {
        StartStatus::Running(pid) => Ok(run.with_pid(pid)),
        StartStatus::Failed => Err(plugin_string("container start failed")),
        StartStatus::Pending => Err(plugin_string("container start not published")),
    }
}

/// The error with which a task fails when its node's import failed: on
/// node 0, which imports, the import failed; on any other node, which reads
/// node 0's marker, the pull there failed.
pub open spec fn import_failure_view(node_id: u32) -> Seq<char> {
    if node_id == 0 {
        tagged("image import failed"@)
    } else {
        tagged("podman pull error"@)
    }
}

/// What a task makes of its node's import outcome.
pub fn import_result(outcome: bool, node_id: u32) -> (r: Result<(), String>)
    ensures
        outcome <==> r is Ok,
        r matches Err(e) ==> e@ == import_failure_view(node_id),
{
    if outcome {
        Ok(())
    } else if node_id == 0 {
        Err(plugin_string("image import failed"))
    } else {
        Err(plugin_string("podman pull error"))
    }
}

/// What a task does about its node's import.
#[derive(Clone, Copy, PartialEq, Eq, Structural, Debug)]
pub enum ImportAction {
    /// Import the image and write the marker for the other nodes.
    Import,
    /// Wait for node 0's marker and report its outcome to the node.
    AwaitMarker,
    /// Wait for the node's importer to report.
    AwaitOwner,
    /// The import is over, with this outcome.
    Finished(bool),
}

/// The task's import action, given the role its claim returned, or `None`
/// where the shared block could not be used: the task then acts as if it
/// were alone, that is as the owner.
pub open spec fn import_action_spec(role: Option<ImportRole>, node_id: u32) -> ImportAction {
    match role {
        Some(ImportRole::Wait) => ImportAction::AwaitOwner,
        Some(ImportRole::Done(ok)) => ImportAction::Finished(ok),
        _ => if node_id == 0 {
            ImportAction::Import
        } else {
            ImportAction::AwaitMarker
        },
    }
}

/// Decides a task's import action.
pub fn import_action(role: Option<ImportRole>, node_id: u32) -> (r: ImportAction)
    ensures
        r == import_action_spec(role, node_id),
{
    match role {
        Some(ImportRole::Wait) => ImportAction::AwaitOwner,
        Some(ImportRole::Done(ok)) => ImportAction::Finished(ok),
        _ => if node_id == 0 {
            ImportAction::Import
        } else {
            ImportAction::AwaitMarker
        },
    }
}

/// Whether a task starts the container or waits for the start: local task
/// 0 starts it, and so does a task that cannot use the shared block, as if
/// it were alone.
pub fn start_role(local_task_id: u32, shared_available: bool) -> (r: bool)
    ensures
        r == (starts_container_spec(local_task_id) || !shared_available),
{
    local_task_id == 0 || !shared_available
}

/// The start status the starter adopts: the one the shared block holds
/// after its report, or, where the block could not be used, the one its
/// own report would have published.
pub fn start_outcome(shared: Option<StartStatus>, pid: Option<u64>) -> (r: StartStatus)
    ensures
        r == match shared {
            Some(s) => s,
            None => publish_spec(StartStatus::Pending, pid),
        },
{
    match shared {
        Some(s) => s,
        None => match pid {
            Some(p) => StartStatus::Running(p),
            None => StartStatus::Failed,
        },
    }
}

/// Whether a task tears the container down at its exit, given what its
/// exit registration returned, or `None` where the shared block could not
/// be used: the task then acts as if it were alone, that is as the last.
pub fn stop_decision(registered: Option<bool>) -> (r: bool)
    ensures
        r == match registered {
            Some(last) => last,
            None => true,
        },
{
    match registered {
        Some(last) => last,
        None => true,
    }
}

/// One critical section on the import status, as it happens in a race.
pub enum ImportEvent {
    Claim(u32),
    Finish(u32, bool),
}

/// The status after an event, and whether the event made its task owner.
pub open spec fn import_event(s: ImportStatus, e: ImportEvent) -> (ImportStatus, bool) {
    match e {
        ImportEvent::Claim(t) => (claim_spec(s, t).0, claim_spec(s, t).1 == ImportRole::Owner),
        ImportEvent::Finish(t, ok) => (finish_spec(s, t, ok), false),
    }
}

/// The status after a run of events.
pub open spec fn run_import(s: ImportStatus, tr: Seq<ImportEvent>) -> ImportStatus
    decreases tr.len(),
{
    if tr.len() == 0 {
        s
    } else {
        run_import(import_event(s, tr[0]).0, tr.drop_first())
    }
}

/// How many events of a run made their task owner.
pub open spec fn owners(s: ImportStatus, tr: Seq<ImportEvent>) -> nat
    decreases tr.len(),
{
    if tr.len() == 0 {
        0
    } else {
        (if import_event(s, tr[0]).1 {
            1nat
        } else {
            0nat
        }) + owners(import_event(s, tr[0]).0, tr.drop_first())
    }
}

proof fn lemma_no_second_owner(s: ImportStatus, tr: Seq<ImportEvent>)
    requires
        s != ImportStatus::Unclaimed,
    ensures
        owners(s, tr) == 0,
        run_import(s, tr) != ImportStatus::Unclaimed,
    decreases tr.len(),
{
    if tr.len() > 0 {
        lemma_no_second_owner(import_event(s, tr[0]).0, tr.drop_first());
    }
}

/// However the tasks of a node interleave their claims and reports, at most
/// one claim makes its task the importer, and once any task has claimed,
/// exactly one has.
pub proof fn lemma_single_import(tr: Seq<ImportEvent>)
    ensures
        owners(ImportStatus::Unclaimed, tr) <= 1,
        (exists|i: int| 0 <= i < tr.len() && tr[i] is Claim) ==> owners(
            ImportStatus::Unclaimed,
            tr,
        ) == 1,
    decreases tr.len(),
{
    if tr.len() > 0 {
        let s1 = import_event(ImportStatus::Unclaimed, tr[0]).0;
        match tr[0] {
            ImportEvent::Claim(t) => {
                lemma_no_second_owner(s1, tr.drop_first());
            },
            ImportEvent::Finish(t, ok) => {
                lemma_single_import(tr.drop_first());
                if exists|i: int| 0 <= i < tr.len() && tr[i] is Claim {
                    let i = choose|i: int| 0 <= i < tr.len() && tr[i] is Claim;
                    assert(tr.drop_first()[i - 1] is Claim);
                }
            },
        }
    }
}

/// Once the import is finished its outcome never changes, and every later
/// claim reports that outcome: when the importer fails, every task fails.
pub proof fn lemma_outcome_final(ok: bool, tr: Seq<ImportEvent>)
    ensures
        run_import(ImportStatus::Finished(ok), tr) == ImportStatus::Finished(ok),
        forall|t: u32|
            claim_spec(run_import(ImportStatus::Finished(ok), tr), t).1 == ImportRole::Done(ok),
    decreases tr.len(),
{
    if tr.len() > 0 {
        lemma_outcome_final(ok, tr.drop_first());
    }
}

/// The start status after a run of reports.
pub open spec fn run_publish(s: StartStatus, reports: Seq<Option<u64>>) -> StartStatus
    decreases reports.len(),
{
    if reports.len() == 0 {
        s
    } else {
        run_publish(publish_spec(s, reports[0]), reports.drop_first())
    }
}

proof fn lemma_published_stays(s: StartStatus, reports: Seq<Option<u64>>)
    requires
        s != StartStatus::Pending,
    ensures
        run_publish(s, reports) == s,
    decreases reports.len(),
{
    if reports.len() > 0 {
        lemma_published_stays(s, reports.drop_first());
    }
}

/// Among the local tasks `0..n` of a node exactly one starts the container,
/// and the first start report fixes the status that every task reads from
/// then on: all tasks that adopt it get the same process id, the one the
/// starter reported.
pub proof fn lemma_single_start(n: u32, reports: Seq<Option<u64>>, i: int, j: int)
    requires
        n >= 1,
        1 <= i <= j <= reports.len(),
    ensures
        Set::new(|t: u32| t < n && starts_container_spec(t)) == set![0u32],
        run_publish(StartStatus::Pending, reports.subrange(0, i)) == publish_spec(
            StartStatus::Pending,
            reports[0],
        ),
        run_publish(StartStatus::Pending, reports.subrange(0, i)) == run_publish(
            StartStatus::Pending,
            reports.subrange(0, j),
        ),
        forall|p: u64|
            reports[0] == Some(p) ==> run_publish(StartStatus::Pending, reports.subrange(0, i))
                == StartStatus::Running(p),
{
    assert(Set::new(|t: u32| t < n && starts_container_spec(t)) =~= set![0u32]);
    let first = publish_spec(StartStatus::Pending, reports[0]);
    lemma_published_stays(first, reports.subrange(0, i).drop_first());
    lemma_published_stays(first, reports.subrange(0, j).drop_first());
}

/// What each of `k` successive exits returns, from a count of `count`.
pub open spec fn exits(count: u32, task_count: u32, k: nat) -> Seq<bool>
    decreases k,
{
    if k == 0 {
        Seq::empty()
    } else {
        seq![exit_spec(count, task_count).1] + exits(exit_spec(count, task_count).0, task_count, (
        k - 1) as nat)
    }
}

proof fn lemma_exits_from(count: u32, task_count: u32, k: nat)
    requires
        count <= task_count,
    ensures
        exits(count, task_count, k).len() == k,
        forall|i: int|
            0 <= i < k ==> (#[trigger] exits(count, task_count, k)[i] <==> count + i + 1
                == task_count),
    decreases k,
{
    if k > 0 {
        let next = exit_spec(count, task_count).0;
        lemma_exits_from(next, task_count, (k - 1) as nat);
        assert forall|i: int| 0 <= i < k implies (#[trigger] exits(count, task_count, k)[i]
            <==> count + i + 1 == task_count) by {
            if i > 0 {
                assert(exits(count, task_count, k)[i] == exits(next, task_count, (k - 1) as nat)[i
                    - 1]);
            }
        }
    }
}

/// However many exits are signalled, the teardown fires for exactly one of
/// them: the `task_count`-th, after all local tasks have signalled.
pub proof fn lemma_stop_barrier(task_count: u32, k: nat)
    requires
        task_count >= 1,
    ensures
        exits(0, task_count, k).len() == k,
        forall|i: int| 0 <= i < k ==> (#[trigger] exits(0, task_count, k)[i] <==> i == task_count - 1),
{
    lemma_exits_from(0, task_count, k);
}

/// The role each event of a run returns: claims return theirs, reports
/// none.
pub open spec fn import_roles(s: ImportStatus, tr: Seq<ImportEvent>) -> Seq<Option<ImportRole>>
    decreases tr.len(),
{
    if tr.len() == 0 {
        Seq::empty()
    } else {
        let role = match tr[0] {
            ImportEvent::Claim(t) => Some(claim_spec(s, t).1),
            ImportEvent::Finish(_, _) => None,
        };
        seq![role] + import_roles(import_event(s, tr[0]).0, tr.drop_first())
    }
}

/// The task of the first claim of a run.
pub open spec fn first_claimant(tr: Seq<ImportEvent>) -> Option<u32>
    decreases tr.len(),
{
    if tr.len() == 0 {
        None
    } else {
        match tr[0] {
            ImportEvent::Claim(t) => Some(t),
            ImportEvent::Finish(_, _) => first_claimant(tr.drop_first()),
        }
    }
}

proof fn lemma_done_matches_final(s: ImportStatus, tr: Seq<ImportEvent>)
    ensures
        import_roles(s, tr).len() == tr.len(),
        forall|i: int|
            0 <= i < tr.len() ==> match #[trigger] import_roles(s, tr)[i] {
                Some(ImportRole::Done(ok)) => run_import(s, tr) == ImportStatus::Finished(ok),
                _ => true,
            },
    decreases tr.len(),
{
    if tr.len() > 0 {
        let next = import_event(s, tr[0]).0;
        lemma_done_matches_final(next, tr.drop_first());
        let first = match tr[0] {
            ImportEvent::Claim(t) => Some(claim_spec(s, t).1),
            ImportEvent::Finish(_, _) => None,
        };
        assert forall|i: int| 0 <= i < tr.len() implies match #[trigger] import_roles(s, tr)[i] {
            Some(ImportRole::Done(ok)) => run_import(s, tr) == ImportStatus::Finished(ok),
            _ => true,
        } by {
            if i == 0 {
                if let Some(ImportRole::Done(ok)) = first {
                    assert(s == ImportStatus::Finished(ok));
                    lemma_outcome_final(ok, tr);
                }
            } else {
                assert(import_roles(s, tr)[i] == import_roles(next, tr.drop_first())[i - 1]);
            }
        }
    }
}

proof fn lemma_reported_by(o: u32, ok: bool, tr: Seq<ImportEvent>)
    requires
        run_import(ImportStatus::InProgress(o), tr) == ImportStatus::Finished(ok),
    ensures
        exists|j: int| 0 <= j < tr.len() && tr[j] == ImportEvent::Finish(o, ok),
    decreases tr.len(),
{
    match tr[0] {
        ImportEvent::Finish(t, b) => {
            if t == o {
                lemma_outcome_final(b, tr.drop_first());
                assert(tr[0] == ImportEvent::Finish(o, ok));
            } else {
                lemma_reported_by(o, ok, tr.drop_first());
                let j = choose|j: int| 0 <= j < tr.len() - 1 && tr.drop_first()[j] == ImportEvent::Finish(o, ok);
                assert(tr[j + 1] == ImportEvent::Finish(o, ok));
            }
        },
        ImportEvent::Claim(_) => {
            lemma_reported_by(o, ok, tr.drop_first());
            let j = choose|j: int| 0 <= j < tr.len() - 1 && tr.drop_first()[j] == ImportEvent::Finish(o, ok);
            assert(tr[j + 1] == ImportEvent::Finish(o, ok));
        },
    }
}

proof fn lemma_reported_by_first(ok: bool, tr: Seq<ImportEvent>)
    requires
        run_import(ImportStatus::Unclaimed, tr) == ImportStatus::Finished(ok),
    ensures
        first_claimant(tr) matches Some(o) && exists|j: int|
            0 <= j < tr.len() && tr[j] == ImportEvent::Finish(o, ok),
    decreases tr.len(),
{
    match tr[0] {
        ImportEvent::Claim(t) => {
            lemma_reported_by(t, ok, tr.drop_first());
            let j = choose|j: int| 0 <= j < tr.len() - 1 && tr.drop_first()[j] == ImportEvent::Finish(t, ok);
            assert(tr[j + 1] == ImportEvent::Finish(t, ok));
        },
        ImportEvent::Finish(_, _) => {
            lemma_reported_by_first(ok, tr.drop_first());
            let o = first_claimant(tr.drop_first()).unwrap();
            let j = choose|j: int| 0 <= j < tr.len() - 1 && tr.drop_first()[j] == ImportEvent::Finish(o, ok);
            assert(tr[j + 1] == ImportEvent::Finish(o, ok));
        },
    }
}

/// However the tasks of a node interleave, they all end with one outcome,
/// the one the importer reported: where the import ends finished, the
/// first task to claim it reported that outcome, every task that found it
/// finished read that outcome, and every task that waited reads it from
/// the final state. So when the importer fails, every task fails.
pub proof fn lemma_import_agreement(tr: Seq<ImportEvent>, ok: bool)
    requires
        run_import(ImportStatus::Unclaimed, tr) == ImportStatus::Finished(ok),
    ensures
        first_claimant(tr) matches Some(o) && exists|j: int|
            0 <= j < tr.len() && tr[j] == ImportEvent::Finish(o, ok),
        forall|i: int|
            0 <= i < tr.len() ==> match #[trigger] import_roles(ImportStatus::Unclaimed, tr)[i] {
                Some(ImportRole::Done(b)) => b == ok,
                _ => true,
            },
{
    lemma_reported_by_first(ok, tr);
    lemma_done_matches_final(ImportStatus::Unclaimed, tr);
}

} // verus!
