//! Importing the step's image into the shared image store.
//!
//! On the node that imports, the owner task runs a short procedure of
//! engine calls: look for the image in the shared store and stop there if
//! it is present; else pull it into the node-local store, check it arrived,
//! migrate it to the shared store, remove the local copy and check the
//! shared store again. The procedure is a state machine fed with the answer
//! of each call, so that the calls are decided here and made by the caller.
//!
//! Across nodes, node 0 imports and writes the engine's exit code to a
//! marker file in the shared store; the other nodes wait for the marker and
//! read the code back.
use vstd::prelude::*;

use crate::naming::{plugin_string, tagged};
use crate::text::{
    decimal_line, lemma_signed_round_trip, parse_decimal_line, parse_signed_digits, push_signed,
    signed_dec, signed_digits, signed_value,
};

verus! {

/// An engine call of the import procedure.
#[derive(Clone, Copy, PartialEq, Eq, Structural, Debug)]
pub enum EngineCall {
    /// Is the image in the shared (read-only) store?
    ImageExistsShared,
    /// Pull the image into the node-local store.
    Pull,
    /// Is the image in the node-local store?
    ImageExistsLocal,
    /// Migrate the image from the node-local store to the shared one.
    Migrate,
    /// Remove the image from the node-local store.
    RemoveLocal,
}

/// Where the import procedure stands.
#[derive(Clone, Copy, PartialEq, Eq, Structural, Debug)]
pub enum ImportStage {
    CheckShared,
    Pull,
    CheckLocal,
    Migrate,
    RemoveLocal,
    Verify,
    Done,
    NotLocalAfterPull,
    MigrateFailed,
    NotSharedAfterMigrate,
}

/// The call a stage makes; none once the procedure is over.
pub open spec fn stage_call(s: ImportStage) -> Option<EngineCall> {
    match s {
        ImportStage::CheckShared => Some(EngineCall::ImageExistsShared),
        ImportStage::Pull => Some(EngineCall::Pull),
        ImportStage::CheckLocal => Some(EngineCall::ImageExistsLocal),
        ImportStage::Migrate => Some(EngineCall::Migrate),
        ImportStage::RemoveLocal => Some(EngineCall::RemoveLocal),
        ImportStage::Verify => Some(EngineCall::ImageExistsShared),
        _ => None,
    }
}

/// The stage after the current call answered `ok`. The answers of a pull
/// and of a removal are not relied on: the check that follows decides.
pub open spec fn advance(s: ImportStage, ok: bool) -> ImportStage {
    match s {
        ImportStage::CheckShared => if ok {
            ImportStage::Done
        } else {
            ImportStage::Pull
        },
        ImportStage::Pull => ImportStage::CheckLocal,
        ImportStage::CheckLocal => if ok {
            ImportStage::Migrate
        } else {
            ImportStage::NotLocalAfterPull
        },
        ImportStage::Migrate => if ok {
            ImportStage::RemoveLocal
        } else {
            ImportStage::MigrateFailed
        },
        ImportStage::RemoveLocal => ImportStage::Verify,
        ImportStage::Verify => if ok {
            ImportStage::Done
        } else {
            ImportStage::NotSharedAfterMigrate
        },
        _ => s,
    }
}

/// One run of the import procedure.
#[derive(Clone, Copy, PartialEq, Eq, Structural, Debug)]
pub struct ImportRun {
    pub stage: ImportStage,
}

impl ImportRun {
    /// A run that has made no call yet.
    pub fn new() -> (r: ImportRun)
        ensures
            r.stage == ImportStage::CheckShared,
    {
        ImportRun { stage: ImportStage::CheckShared }
    }

    /// The next engine call to make, or `None` once the run is over.
    pub fn next_call(&self) -> (r: Option<EngineCall>)
        ensures
            r == stage_call(self.stage),
    {
        match self.stage {
            ImportStage::CheckShared => Some(EngineCall::ImageExistsShared),
            ImportStage::Pull => Some(EngineCall::Pull),
            ImportStage::CheckLocal => Some(EngineCall::ImageExistsLocal),
            ImportStage::Migrate => Some(EngineCall::Migrate),
            ImportStage::RemoveLocal => Some(EngineCall::RemoveLocal),
            ImportStage::Verify => Some(EngineCall::ImageExistsShared),
            _ => None,
        }
    }

    /// Records the answer of the call that `next_call` asked for.
    pub fn record(&mut self, ok: bool)
        ensures
            final(self).stage == advance(old(self).stage, ok),
    {
        self.stage = match self.stage {
            ImportStage::CheckShared => if ok {
                ImportStage::Done
            } else {
                ImportStage::Pull
            },
            ImportStage::Pull => ImportStage::CheckLocal,
            ImportStage::CheckLocal => if ok {
                ImportStage::Migrate
            } else {
                ImportStage::NotLocalAfterPull
            },
            ImportStage::Migrate => if ok {
                ImportStage::RemoveLocal
            } else {
                ImportStage::MigrateFailed
            },
            ImportStage::RemoveLocal => ImportStage::Verify,
            ImportStage::Verify => if ok {
                ImportStage::Done
            } else {
                ImportStage::NotSharedAfterMigrate
            },
            s => s,
        };
    }

    /// The outcome of a finished run; `None` while calls remain.
    pub fn outcome(&self) -> (r: Option<Result<(), String>>)
        ensures
            stage_call(self.stage) is Some <==> r is None,
            self.stage == ImportStage::Done <==> r == Some(Ok::<(), String>(())),
            self.stage == ImportStage::NotLocalAfterPull ==> (r matches Some(Err(e)) && e@ == tagged(
                "couldn't find image locally after pull"@,
            )),
            self.stage == ImportStage::MigrateFailed ==> (r matches Some(Err(e)) && e@ == tagged(
                "image migration failed"@,
            )),
            self.stage == ImportStage::NotSharedAfterMigrate ==> (r matches Some(Err(e)) && e@
                == tagged("couldn't find image on shared imagestore after migration"@)),
    {
        match self.stage {
            ImportStage::Done => Some(Ok(())),
            ImportStage::NotLocalAfterPull => Some(
                Err(plugin_string("couldn't find image locally after pull")),
            ),
            ImportStage::MigrateFailed => Some(Err(plugin_string("image migration failed"))),
            ImportStage::NotSharedAfterMigrate => Some(
                Err(plugin_string("couldn't find image on shared imagestore after migration")),
            ),
            _ => None,
        }
    }
}

/// The calls a run makes from stage `s` when the calls answer `replies` in
/// turn.
pub open spec fn calls(s: ImportStage, replies: Seq<bool>) -> Seq<EngineCall>
    decreases replies.len(),
{
    if replies.len() == 0 || stage_call(s) is None {
        Seq::empty()
    } else {
        seq![stage_call(s).unwrap()] + calls(advance(s, replies[0]), replies.drop_first())
    }
}

/// How many times `c` occurs in `cs`.
pub open spec fn count_call(cs: Seq<EngineCall>, c: EngineCall) -> nat
    decreases cs.len(),
{
    if cs.len() == 0 {
        0
    } else {
        (if cs[0] == c {
            1nat
        } else {
            0nat
        }) + count_call(cs.drop_first(), c)
    }
}

/// The position of a stage in the procedure.
pub open spec fn rank(s: ImportStage) -> int {
    match s {
        ImportStage::CheckShared => 0,
        ImportStage::Pull => 1,
        ImportStage::CheckLocal => 2,
        ImportStage::Migrate => 3,
        ImportStage::RemoveLocal => 4,
        ImportStage::Verify => 5,
        _ => 6,
    }
}

proof fn lemma_calls_bounded(s: ImportStage, replies: Seq<bool>)
    ensures
        count_call(calls(s, replies), EngineCall::Pull) <= if rank(s) <= 1 {
            1nat
        } else {
            0nat
        },
        count_call(calls(s, replies), EngineCall::Migrate) <= if rank(s) <= 3 {
            1nat
        } else {
            0nat
        },
    decreases replies.len(),
{
    if replies.len() > 0 && stage_call(s) is Some {
        let rest = calls(advance(s, replies[0]), replies.drop_first());
        lemma_calls_bounded(advance(s, replies[0]), replies.drop_first());
        assert((seq![stage_call(s).unwrap()] + rest).drop_first() =~= rest);
    }
}

/// Whatever the engine answers, one run pulls at most once and migrates at
/// most once.
pub proof fn lemma_single_pull(replies: Seq<bool>)
    ensures
        count_call(calls(ImportStage::CheckShared, replies), EngineCall::Pull) <= 1,
        count_call(calls(ImportStage::CheckShared, replies), EngineCall::Migrate) <= 1,
{
    lemma_calls_bounded(ImportStage::CheckShared, replies);
}

/// Where the image is already in the shared store, a run makes the one
/// check and nothing else: no pull and no migration. So a second import of
/// an image that the first one stored does no engine work.
pub proof fn lemma_import_idempotent(replies: Seq<bool>)
    requires
        replies.len() >= 1,
        replies[0],
    ensures
        calls(ImportStage::CheckShared, replies) == seq![EngineCall::ImageExistsShared],
        count_call(calls(ImportStage::CheckShared, replies), EngineCall::Pull) == 0,
        count_call(calls(ImportStage::CheckShared, replies), EngineCall::Migrate) == 0,
{
    let cs = calls(ImportStage::CheckShared, replies);
    assert(calls(ImportStage::Done, replies.drop_first()) =~= Seq::empty());
    assert(cs =~= seq![EngineCall::ImageExistsShared]);
    assert(cs.drop_first() =~= Seq::empty());
    assert(count_call(cs.drop_first(), EngineCall::Pull) == 0);
    assert(count_call(cs.drop_first(), EngineCall::Migrate) == 0);
}

/// Where the image is missing from the shared store and the engine's pull,
/// local check, migration and final check all succeed, a run makes the
/// whole procedure once: exactly one pull and exactly one migration, and it
/// ends done.
pub proof fn lemma_fresh_import(replies: Seq<bool>)
    requires
        replies.len() >= 6,
        !replies[0],
        replies[2],
        replies[3],
        replies[5],
    ensures
        calls(ImportStage::CheckShared, replies) == seq![
            EngineCall::ImageExistsShared,
            EngineCall::Pull,
            EngineCall::ImageExistsLocal,
            EngineCall::Migrate,
            EngineCall::RemoveLocal,
            EngineCall::ImageExistsShared,
        ],
        count_call(calls(ImportStage::CheckShared, replies), EngineCall::Pull) == 1,
        count_call(calls(ImportStage::CheckShared, replies), EngineCall::Migrate) == 1,
{
    let r1 = replies.drop_first();
    let r2 = r1.drop_first();
    let r3 = r2.drop_first();
    let r4 = r3.drop_first();
    let r5 = r4.drop_first();
    let r6 = r5.drop_first();
    assert(calls(ImportStage::Done, r6) =~= Seq::empty());
    assert(calls(ImportStage::Verify, r5) =~= seq![EngineCall::ImageExistsShared]);
    assert(calls(ImportStage::RemoveLocal, r4) =~= seq![
        EngineCall::RemoveLocal,
        EngineCall::ImageExistsShared,
    ]);
    assert(calls(ImportStage::Migrate, r3) =~= seq![
        EngineCall::Migrate,
        EngineCall::RemoveLocal,
        EngineCall::ImageExistsShared,
    ]);
    assert(calls(ImportStage::CheckLocal, r2) =~= seq![
        EngineCall::ImageExistsLocal,
        EngineCall::Migrate,
        EngineCall::RemoveLocal,
        EngineCall::ImageExistsShared,
    ]);
    assert(calls(ImportStage::Pull, r1) =~= seq![
        EngineCall::Pull,
        EngineCall::ImageExistsLocal,
        EngineCall::Migrate,
        EngineCall::RemoveLocal,
        EngineCall::ImageExistsShared,
    ]);
    let cs = calls(ImportStage::CheckShared, replies);
    assert(cs =~= seq![
        EngineCall::ImageExistsShared,
        EngineCall::Pull,
        EngineCall::ImageExistsLocal,
        EngineCall::Migrate,
        EngineCall::RemoveLocal,
        EngineCall::ImageExistsShared,
    ]);
    let c1 = cs.drop_first();
    let c2 = c1.drop_first();
    let c3 = c2.drop_first();
    let c4 = c3.drop_first();
    let c5 = c4.drop_first();
    let c6 = c5.drop_first();
    assert(c6 =~= Seq::<EngineCall>::empty());
    assert(count_call(c6, EngineCall::Pull) == 0);
    assert(count_call(c6, EngineCall::Migrate) == 0);
    assert(count_call(c5, EngineCall::Pull) == 0);
    assert(count_call(c5, EngineCall::Migrate) == 0);
    assert(count_call(c4, EngineCall::Pull) == 0);
    assert(count_call(c4, EngineCall::Migrate) == 0);
    assert(count_call(c3, EngineCall::Pull) == 0);
    assert(count_call(c3, EngineCall::Migrate) == 1);
    assert(count_call(c2, EngineCall::Pull) == 0);
    assert(count_call(c2, EngineCall::Migrate) == 1);
    assert(count_call(c1, EngineCall::Pull) == 1);
    assert(count_call(c1, EngineCall::Migrate) == 1);
}

/// Whether a node imports the image for the whole step: node 0 does; the
/// others wait for its marker.
pub fn node_imports(node_id: u32) -> (r: bool)
    ensures
        r == (node_id == 0),
{
    node_id == 0
}

/// The content of the import marker: the exit code on a line of its own.
pub open spec fn marker_view(code: i32) -> Seq<char> {
    signed_dec(code as int) + "\n"@
}

/// The code that a marker's first line holds.
pub open spec fn marker_code(s: Seq<char>) -> Option<int> {
    match decimal_line(s) {
        Some(p) => Some(signed_value(p)),
        None => None,
    }
}

/// Writes the import marker for an exit code.
pub fn marker_line(code: i32) -> (r: String)
    ensures
        r@ == marker_view(code),
{
    let mut s = String::new();
    push_signed(&mut s, code as i64);
    s.append("\n");
    s
}

/// Reads an import marker: the code, or `None` where the first line is not
/// an integer of the `i32` range.
pub fn parse_marker(content: &str) -> (r: Option<i32>)
    ensures
        r matches Some(c) ==> marker_code(content@) == Some(c as int),
        r is None ==> (marker_code(content@) is None || marker_code(content@).unwrap() < i32::MIN
            || marker_code(content@).unwrap() > i32::MAX),
{
    match parse_decimal_line(content) {
        Some((neg, m)) => {
            if neg {
                if m <= 2147483648u64 {
                    Some((-(m as i64)) as i32)
                } else {
                    None
                }
            } else if m <= 2147483647u64 {
                Some(m as i32)
            } else {
                None
            }
        },
        None => None,
    }
}

/// A marker reads back as the code it was written for.
pub proof fn lemma_marker_round_trip(code: i32)
    ensures
        marker_code(marker_view(code)) == Some(code as int),
{
    reveal_strlit("\n");
    lemma_signed_round_trip(code as int, "\n"@);
}

/// What a waiting node makes of the importing node's exit code.
pub fn marker_outcome(code: i32) -> (r: Result<(), String>)
    ensures
        code == 0 <==> r is Ok,
        code != 0 ==> (r matches Err(e) && e@ == tagged("podman pull error"@)),
{
    if code == 0 {
        Ok(())
    } else {
        Err(plugin_string("podman pull error"))
    }
}

/// The marker the importing node writes: code 0 for a successful import,
/// 1 for a failed one.
pub fn import_marker(success: bool) -> (r: String)
    ensures
        r@ == marker_view(if success { 0i32 } else { 1i32 }),
{
    marker_line(if success { 0 } else { 1 })
}

/// What a waiting node makes of the marker it read: success only where the
/// marker holds code 0; any other code, or a marker that holds no code, is
/// a failed import.
pub fn marker_result(content: &str) -> (r: Result<(), String>)
    ensures
        r is Ok <==> marker_code(content@) == Some(0int),
        r matches Err(e) ==> e@ == tagged("podman pull error"@),
{
    match parse_marker(content) {
        Some(code) => marker_outcome(code),
        None => Err(plugin_string("podman pull error")),
    }
}

/// The process id that a pidfile holds, read as `u64` text: an optional
/// `+`, then decimal digits and nothing else.
pub open spec fn pid_text(s: Seq<char>) -> Option<int> {
    match signed_digits(s, '+') {
        Some(p) => if p.1 <= u64::MAX {
            Some(p.1)
        } else {
            None
        },
        None => None,
    }
}

/// The process id that a pidfile holds.
pub fn parse_pid(content: &str) -> (r: Result<u64, String>)
    ensures
        r matches Ok(p) ==> pid_text(content@) == Some(p as int),
        r is Err <==> pid_text(content@) is None,
        r matches Err(e) ==> e@ == tagged("cannot convert "@ + content@ + " to number"@),
{
    match parse_signed_digits(content, '+') {
        Some((_, p)) => Ok(p),
        None => {
            let mut msg = String::from_str("cannot convert ");
            msg.append(content);
            msg.append(" to number");
            Err(plugin_string(msg.as_str()))
        },
    }
}

/// What the exit status of the engine's detached run means: an exit code
/// of 0 is success, any other code or none (killed by a signal) a failure.
pub fn run_status(code: Option<i32>) -> (r: Result<(), String>)
    ensures
        r is Ok <==> code == Some(0i32),
        forall|rc: i32|
            code == Some(rc) && rc != 0 ==> (r matches Err(e) && e@ == tagged(
                "podman run exited with "@ + signed_dec(rc as int),
            )),
        code is None ==> (r matches Err(e) && e@ == tagged("podman run failed badly"@)),
{
    match code {
        Some(0) => Ok(()),
        Some(rc) => {
            let mut msg = String::from_str("podman run exited with ");
            push_signed(&mut msg, rc as i64);
            Err(plugin_string(msg.as_str()))
        },
        None => Err(plugin_string("podman run failed badly")),
    }
}

} // verus!
