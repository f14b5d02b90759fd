use skybox::coord::{
    adopt_start, import_action, import_result, start_outcome, start_role, starts_container,
    stop_decision, ImportAction, ImportRole, ImportStatus, SharedState, StartStatus,
};
use skybox::engine::import_ctx;
use skybox::import::{EngineCall, ImportRun};
use skybox::naming::{proc_entry, RunContext};
use skybox::wait::{exhausted_error, Poll, PollAction, PIDFILE_WAIT_ATTEMPTS};

#[test]
fn first_claim_owns_the_import() {
    let mut s = SharedState::new();
    assert_eq!(s.claim_import(2), ImportRole::Owner);
    assert_eq!(s.import_status, ImportStatus::InProgress(2));
    assert_eq!(s.claim_import(0), ImportRole::Wait);
    assert_eq!(s.claim_import(1), ImportRole::Wait);
    assert_eq!(s.import_outcome(), None);
    // a report from a task that does not own the import changes nothing
    s.finish_import(0, false);
    assert_eq!(s.import_status, ImportStatus::InProgress(2));
    s.finish_import(2, true);
    assert_eq!(s.import_outcome(), Some(true));
    assert_eq!(s.claim_import(3), ImportRole::Done(true));
    s.finish_import(2, false);
    assert_eq!(s.import_outcome(), Some(true));
}

#[test]
fn owner_failure_fails_every_task() {
    let mut s = SharedState::new();
    let roles: Vec<ImportRole> = (0..4).map(|t| s.claim_import(t)).collect();
    assert_eq!(roles.iter().filter(|r| **r == ImportRole::Owner).count(), 1);
    s.finish_import(0, false);
    for _ in 0..4 {
        let outcome = s.import_outcome().unwrap();
        assert_eq!(import_result(outcome, 0), Err(String::from("[skybox] image import failed")));
    }
    assert_eq!(s.claim_import(9), ImportRole::Done(false));
}

#[test]
fn start_outcome_written_once() {
    let mut s = SharedState::new();
    s.publish_start(Some(4711));
    s.publish_start(Some(1));
    s.publish_start(None);
    assert_eq!(s.start_status, StartStatus::Running(4711));
    let mut f = SharedState::new();
    f.publish_start(None);
    f.publish_start(Some(3));
    assert_eq!(f.start_status, StartStatus::Failed);
}

#[test]
fn only_local_task_zero_starts() {
    let starters: Vec<u32> = (0..8).filter(|t| starts_container(*t)).collect();
    assert_eq!(starters, vec![0]);
}

#[test]
fn adopting_the_start_outcome() {
    let run = RunContext::new("/tmp", "/store", 1, 2, None);
    let run = adopt_start(run, StartStatus::Running(99)).unwrap();
    assert_eq!(run.pid, Some(99));
    let run2 = RunContext::new("/tmp", "/store", 1, 2, None);
    assert_eq!(
        adopt_start(run2, StartStatus::Failed).unwrap_err(),
        "[skybox] container start failed"
    );
    let run3 = RunContext::new("/tmp", "/store", 1, 2, None);
    assert!(adopt_start(run3, StartStatus::Pending).is_err());
}

#[test]
fn stop_fires_after_last_exit_only() {
    let mut s = SharedState::new();
    let fired: Vec<bool> = (0..6).map(|_| s.register_exit(4)).collect();
    assert_eq!(fired, vec![false, false, false, true, false, false]);
    assert_eq!(s.stop_count, 4);
}

#[test]
fn single_task_stops_at_once() {
    let mut s = SharedState::new();
    assert!(s.register_exit(1));
    assert!(!s.register_exit(1));
}

#[test]
fn zero_task_count_never_fires() {
    let mut s = SharedState::new();
    assert!(!s.register_exit(0));
    assert_eq!(s.stop_count, 0);
}

#[test]
fn pidfile_wait_is_bounded() {
    let mut p = Poll::new(PIDFILE_WAIT_ATTEMPTS, 25);
    let mut retries = 0;
    let mut logged = 0;
    loop {
        match p.next(false) {
            PollAction::Retry(log) => {
                retries += 1;
                if log {
                    logged += 1;
                }
            }
            PollAction::Exhausted => break,
            PollAction::Ready => panic!("nothing was found"),
        }
        assert!(retries <= PIDFILE_WAIT_ATTEMPTS);
    }
    assert_eq!(retries, PIDFILE_WAIT_ATTEMPTS);
    assert_eq!(logged, 12);
    assert_eq!(
        exhausted_error("pidfile", 3, retries),
        "[skybox] task 3 - pidfile not found after 300 attempts"
    );
}

#[test]
fn poll_logs_first_attempt_and_stops_when_found() {
    let mut p = Poll::new(5, 2);
    assert_eq!(p.next(false), PollAction::Retry(true));
    assert_eq!(p.next(false), PollAction::Retry(false));
    assert_eq!(p.next(false), PollAction::Retry(true));
    assert_eq!(p.next(true), PollAction::Ready);
    assert_eq!(p.attempts, 3);
    let mut z = Poll::new(0, 1);
    assert_eq!(z.next(false), PollAction::Exhausted);
}

/// A fake engine for one node: which stores hold the image, and what was
/// called.
struct FakeEngine {
    shared: bool,
    local: bool,
    pulls: u32,
    migrations: u32,
}

impl FakeEngine {
    fn call(&mut self, c: EngineCall) -> bool {
        match c {
            EngineCall::ImageExistsShared => self.shared,
            EngineCall::ImageExistsLocal => self.local,
            EngineCall::Pull => {
                self.pulls += 1;
                self.local = true;
                true
            }
            EngineCall::Migrate => {
                self.migrations += 1;
                self.shared = true;
                true
            }
            EngineCall::RemoveLocal => {
                self.local = false;
                true
            }
        }
    }
}

fn run_import(engine: &mut FakeEngine) -> Result<(), String> {
    let mut run = ImportRun::new();
    while let Some(c) = run.next_call() {
        let ok = engine.call(c);
        run.record(ok);
    }
    run.outcome().unwrap()
}

#[test]
fn four_tasks_one_node_full_lifecycle() {
    let mut shm = SharedState::new();
    let mut engine = FakeEngine { shared: false, local: false, pulls: 0, migrations: 0 };
    let mut starts = 0;
    // import race in lock order 1, 3, 0, 2
    for t in [1u32, 3, 0, 2] {
        if shm.claim_import(t) == ImportRole::Owner {
            let ok = run_import(&mut engine).is_ok();
            shm.finish_import(t, ok);
        }
    }
    assert_eq!(shm.import_outcome(), Some(true));
    assert_eq!(engine.pulls, 1);
    assert_eq!(engine.migrations, 1);
    // start by local task 0, all tasks adopt the published pid
    for t in 0..4u32 {
        if starts_container(t) {
            starts += 1;
            shm.publish_start(Some(5150));
        }
    }
    assert_eq!(starts, 1);
    let mut joins = Vec::new();
    for _ in 0..4 {
        let run = adopt_start(RunContext::new("/dev/shm", "/store", 8, 0, None), shm.start_status)
            .unwrap();
        joins.push(proc_entry(run.pid.unwrap(), "ns/mnt"));
    }
    assert_eq!(joins.len(), 4);
    assert!(joins.iter().all(|j| j == "/proc/5150/ns/mnt"));
    // exits in any order: exactly the fourth tears down
    let stops: Vec<bool> = (0..4).map(|_| shm.register_exit(4)).collect();
    assert_eq!(stops.iter().filter(|s| **s).count(), 1);
    assert!(stops[3]);
}

#[test]
fn second_import_does_no_engine_work() {
    let mut engine = FakeEngine { shared: false, local: false, pulls: 0, migrations: 0 };
    assert!(run_import(&mut engine).is_ok());
    assert_eq!((engine.pulls, engine.migrations), (1, 1));
    assert!(run_import(&mut engine).is_ok());
    assert_eq!((engine.pulls, engine.migrations), (1, 1));
}

#[test]
fn import_contexts_used_by_calls() {
    let d = skybox_test_descriptor();
    let run = RunContext::new("/dev/shm", "/store", 8, 0, None);
    let shared = import_ctx(EngineCall::ImageExistsShared, &d, &run);
    assert_eq!(shared.ro_store.as_deref(), Some("/capstor/store"));
    assert_eq!(shared.runroot.as_deref(), Some("/dev/shm/skybox_8.0/runroot"));
    let migrate = import_ctx(EngineCall::Migrate, &d, &run);
    assert_eq!(migrate.runroot, None);
    assert_eq!(migrate.ro_store.as_deref(), Some("/capstor/store"));
    assert_eq!(migrate.graphroot.as_deref(), Some("/dev/shm/skybox_8.0/graphroot"));
    let pull = import_ctx(EngineCall::Pull, &d, &run);
    assert_eq!(pull.ro_store, None);
    assert_eq!(pull.module, None);
    assert_eq!(pull.podman_path, "/usr/bin/podman");
}

fn skybox_test_descriptor() -> skybox::config::Descriptor {
    skybox::config::Descriptor {
        image: String::from("ubuntu:24.04"),
        podman_path: String::from("/usr/bin/podman"),
        podman_module: String::from("hpc"),
        podman_tmp_path: String::from("/dev/shm"),
        parallax_enable: true,
        parallax_imagestore: String::from("/capstor/store"),
        parallax_mount_program: String::from("/usr/bin/squashfuse_ll"),
        parallax_path: String::from("/usr/bin/parallax"),
        workdir: String::new(),
        env: Vec::new(),
    }
}

#[test]
fn import_failure_message_by_node() {
    assert_eq!(import_result(true, 0), Ok(()));
    assert_eq!(import_result(true, 3), Ok(()));
    assert_eq!(import_result(false, 0), Err(String::from("[skybox] image import failed")));
    assert_eq!(import_result(false, 1), Err(String::from("[skybox] podman pull error")));
}

#[test]
fn import_actions_from_roles() {
    assert_eq!(import_action(Some(ImportRole::Owner), 0), ImportAction::Import);
    assert_eq!(import_action(Some(ImportRole::Owner), 1), ImportAction::AwaitMarker);
    assert_eq!(import_action(Some(ImportRole::Wait), 0), ImportAction::AwaitOwner);
    assert_eq!(import_action(Some(ImportRole::Done(false)), 2), ImportAction::Finished(false));
    // without the shared block a task acts as the owner
    assert_eq!(import_action(None, 0), ImportAction::Import);
    assert_eq!(import_action(None, 5), ImportAction::AwaitMarker);
}

#[test]
fn second_node_tasks_all_fail_with_pull_error() {
    // node 1: the owner reads a failed marker, the waiters read its report
    let mut shm = SharedState::new();
    let mut results = Vec::new();
    let roles: Vec<ImportRole> = (0..3).map(|t| shm.claim_import(t)).collect();
    for (t, role) in roles.iter().enumerate() {
        let outcome = match import_action(Some(*role), 1) {
            ImportAction::AwaitMarker => {
                let ok = skybox::import::marker_result("125\n").is_ok();
                shm.finish_import(t as u32, ok);
                ok
            }
            _ => continue,
        };
        results.push(import_result(outcome, 1));
    }
    for t in 1..3u32 {
        assert_eq!(import_action(Some(roles[t as usize]), 1), ImportAction::AwaitOwner);
        results.push(import_result(shm.import_outcome().unwrap(), 1));
    }
    assert_eq!(results.len(), 3);
    assert!(results.iter().all(|r| *r == Err(String::from("[skybox] podman pull error"))));
}

#[test]
fn start_role_and_fallbacks() {
    assert!(start_role(0, true));
    assert!(!start_role(2, true));
    assert!(start_role(2, false));
    assert_eq!(start_outcome(Some(StartStatus::Running(7)), Some(9)), StartStatus::Running(7));
    assert_eq!(start_outcome(None, Some(9)), StartStatus::Running(9));
    assert_eq!(start_outcome(None, None), StartStatus::Failed);
}

#[test]
fn stop_decision_fails_soft() {
    assert!(stop_decision(Some(true)));
    assert!(!stop_decision(Some(false)));
    assert!(stop_decision(None));
}
