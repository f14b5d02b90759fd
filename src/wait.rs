//! Bounded waits. Every wait of a task is a poll with an attempt ceiling:
//! the caller checks for what it waits for, asks the poll what to do, and
//! sleeps between attempts; past the ceiling the wait fails.
use vstd::prelude::*;

use crate::naming::{plugin_string, tagged};
use crate::text::{dec, push_decimal};

verus! {

/// Attempts of the wait for the engine's pidfile.
pub const PIDFILE_WAIT_ATTEMPTS: u32 = 300;

/// Attempts of the wait for the container's working directory.
pub const CWD_WAIT_ATTEMPTS: u32 = 300;

/// Attempts of the wait for another task's import on the same node.
pub const IMPORT_WAIT_ATTEMPTS: u32 = 9000;

/// Attempts of the wait for the importing node's marker file.
pub const MARKER_WAIT_ATTEMPTS: u32 = 9000;

/// Attempts of the wait for the node-local scratch directory at step exit.
pub const SCRATCH_WAIT_ATTEMPTS: u32 = 50;

/// Attempts of the grace period between the stop signal and the kill.
pub const STOP_GRACE_ATTEMPTS: u32 = 25;

/// Milliseconds between two attempts of a wait.
pub const WAIT_INTERVAL_MS: u64 = 200;

/// A wait logs on its first attempt and then on every this many.
pub const LOG_EVERY: u32 = 25;

/// The progress of one bounded wait.
#[derive(Clone, Copy, PartialEq, Eq, Structural, Debug)]
pub struct Poll {
    pub attempts: u32,
    pub ceiling: u32,
    pub log_every: u32,
}

/// What the waiting task does next.
#[derive(Clone, Copy, PartialEq, Eq, Structural, Debug)]
pub enum PollAction {
    /// What it waited for is there.
    Ready,
    /// Sleep and check again; log this attempt where the flag is set.
    Retry(bool),
    /// The ceiling is reached: fail.
    Exhausted,
}

/// One check of a wait, where `found` says whether the awaited thing is
/// there.
pub open spec fn poll_spec(p: Poll, found: bool) -> (Poll, PollAction) {
    if found {
        (p, PollAction::Ready)
    } else if p.attempts >= p.ceiling {
        (p, PollAction::Exhausted)
    } else {
        (Poll { attempts: (p.attempts + 1) as u32, ..p }, PollAction::Retry(p.attempts % p.log_every == 0))
    }
}

/// The wait after `k` checks that all came back empty.
pub open spec fn misses(p: Poll, k: nat) -> Poll
    decreases k,
{
    if k == 0 {
        p
    } else {
        poll_spec(misses(p, (k - 1) as nat), false).0
    }
}

impl Poll {
    /// A wait of at most `ceiling` retries that logs every `log_every`.
    pub fn new(ceiling: u32, log_every: u32) -> (r: Poll)
        requires
            log_every > 0,
        ensures
            r == (Poll { attempts: 0, ceiling, log_every }),
    {
        Poll { attempts: 0, ceiling, log_every }
    }

    /// Records one check and says what to do.
    pub fn next(&mut self, found: bool) -> (r: PollAction)
        requires
            old(self).log_every > 0,
        ensures
            (*final(self), r) == poll_spec(*old(self), found),
    {
        if found {
            PollAction::Ready
        } else if self.attempts >= self.ceiling {
            PollAction::Exhausted
        } else {
            let log = self.attempts % self.log_every == 0;
            self.attempts = self.attempts + 1;
            PollAction::Retry(log)
        }
    }
}

/// The error of a wait that ran out: `task <id> - <what> not found after
/// <n> attempts`.
pub open spec fn exhausted_view(what: Seq<char>, task: u32, attempts: u32) -> Seq<char> {
    tagged("task "@ + dec(task as nat) + " - "@ + what + " not found after "@ + dec(
        attempts as nat,
    ) + " attempts"@)
}

/// The error that a wait reports when it runs out.
pub fn exhausted_error(what: &str, task: u32, attempts: u32) -> (r: String)
    ensures
        r@ == exhausted_view(what@, task, attempts),
{
    let mut msg = String::from_str("task ");
    push_decimal(&mut msg, task as u64);
    msg.append(" - ");
    msg.append(what);
    msg.append(" not found after ");
    push_decimal(&mut msg, attempts as u64);
    msg.append(" attempts");
    plugin_string(msg.as_str())
}

proof fn lemma_misses(p: Poll, k: nat)
    requires
        p.attempts == 0,
        k <= p.ceiling,
    ensures
        misses(p, k) == (Poll { attempts: k as u32, ..p }),
    decreases k,
{
    if k > 0 {
        lemma_misses(p, (k - 1) as nat);
    }
}

/// A wait whose awaited thing never appears retries exactly `ceiling`
/// times, logging on its first attempt, and then gives up: it never hangs.
pub proof fn lemma_bounded_wait(ceiling: u32, log_every: u32, k: nat)
    requires
        log_every > 0,
    ensures
        k < ceiling ==> poll_spec(misses(Poll { attempts: 0, ceiling, log_every }, k), false).1 is Retry,
        ceiling > 0 ==> poll_spec(Poll { attempts: 0, ceiling, log_every }, false).1 == PollAction::Retry(true),
        poll_spec(misses(Poll { attempts: 0, ceiling, log_every }, ceiling as nat), false).1
            == PollAction::Exhausted,
{
    let p = Poll { attempts: 0, ceiling, log_every };
    if k < ceiling {
        lemma_misses(p, k);
    }
    lemma_misses(p, ceiling as nat);
}

} // verus!
