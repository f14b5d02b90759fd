//! How the container engine is invoked: the settings each call runs with,
//! and how its captured output is logged.
use vstd::prelude::*;

use crate::config::Descriptor;
use crate::env::{split_at_char, split_on, strings_view};
use crate::import::EngineCall;
use crate::naming::{child_view, RunContext};

verus! {

/// The settings one engine invocation runs with.
#[derive(Clone, Debug)]
pub struct EngineCtx {
    pub podman_path: String,
    pub module: Option<String>,
    pub graphroot: Option<String>,
    pub runroot: Option<String>,
    pub mount_program: Option<String>,
    pub ro_store: Option<String>,
}

/// An optional string's view.
pub open spec fn opt_view(o: Option<String>) -> Option<Seq<char>> {
    match o {
        Some(s) => Some(s@),
        None => None,
    }
}

/// Which of the shared store, the graph root and the run root a context
/// uses.
pub open spec fn ctx_shape(
    x: EngineCtx,
    d: Descriptor,
    run: RunContext,
    with_runroot: bool,
    with_store: bool,
) -> bool {
    &&& x.podman_path@ == d.podman_path@
    &&& x.module is None
    &&& x.mount_program is None
    &&& opt_view(x.graphroot) == Some(child_view(run.tmp_path@, "graphroot"@))
    &&& opt_view(x.runroot) == if with_runroot {
        Some(child_view(run.tmp_path@, "runroot"@))
    } else {
        None
    }
    &&& opt_view(x.ro_store) == if with_store {
        Some(d.parallax_imagestore@)
    } else {
        None
    }
}

/// The context of an import call: the shared-store check sees the shared
/// store, the migration writes into it without a run root, and the pull,
/// the local check and the removal work on the node-local store alone.
pub open spec fn import_ctx_spec(call: EngineCall, x: EngineCtx, d: Descriptor, run: RunContext) -> bool {
    match call {
        EngineCall::ImageExistsShared => ctx_shape(x, d, run, true, true),
        EngineCall::Migrate => ctx_shape(x, d, run, false, true),
        _ => ctx_shape(x, d, run, true, false),
    }
}

/// The settings an import call runs with.
pub fn import_ctx(call: EngineCall, d: &Descriptor, run: &RunContext) -> (r: EngineCtx)
    ensures
        import_ctx_spec(call, r, *d, *run),
{
    let with_runroot = match call {
        EngineCall::Migrate => false,
        _ => true,
    };
    let with_store = match call {
        EngineCall::ImageExistsShared => true,
        EngineCall::Migrate => true,
        _ => false,
    };
    EngineCtx {
        podman_path: d.podman_path.clone(),
        module: None,
        graphroot: Some(run.graphroot()),
        runroot: if with_runroot {
            Some(run.runroot())
        } else {
            None
        },
        mount_program: None,
        ro_store: if with_store {
            Some(d.parallax_imagestore.clone())
        } else {
            None
        },
    }
}

/// The settings the container's start runs with: the descriptor's module
/// and mount program, over the shared store.
pub fn start_ctx(d: &Descriptor, run: &RunContext) -> (r: EngineCtx)
    ensures
        r.podman_path@ == d.podman_path@,
        opt_view(r.module) == Some(d.podman_module@),
        opt_view(r.graphroot) == Some(child_view(run.tmp_path@, "graphroot"@)),
        opt_view(r.runroot) == Some(child_view(run.tmp_path@, "runroot"@)),
        opt_view(r.mount_program) == Some(d.parallax_mount_program@),
        opt_view(r.ro_store) == Some(d.parallax_imagestore@),
{
    EngineCtx {
        podman_path: d.podman_path.clone(),
        module: Some(d.podman_module.clone()),
        graphroot: Some(run.graphroot()),
        runroot: Some(run.runroot()),
        mount_program: Some(d.parallax_mount_program.clone()),
        ro_store: Some(d.parallax_imagestore.clone()),
    }
}

/// How the backing container is run: detached, under the step's name,
/// with its process id written to the pidfile, parked on a command that
/// never ends.
#[derive(Clone, Debug)]
pub struct StartRequest {
    pub name: String,
    pub interactive: bool,
    pub detach: bool,
    pub set_env: bool,
    pub pidfile: String,
    pub command: Vec<String>,
}

/// The start request of a step's container.
pub fn start_request(run: &RunContext) -> (r: StartRequest)
    ensures
        r.name == run.name,
        !r.interactive && r.detach && r.set_env,
        r.pidfile@ == child_view(run.tmp_path@, "pidfile"@),
        strings_view(r.command@) == seq!["sleep"@, "infinity"@],
{
    let command = vec![String::from_str("sleep"), String::from_str("infinity")];
    assert(strings_view(command@) =~= seq!["sleep"@, "infinity"@]);
    StartRequest {
        name: run.name.clone(),
        interactive: false,
        detach: true,
        set_env: true,
        pidfile: run.pidfile(),
        command,
    }
}

/// The label that an engine call's log lines carry.
pub open spec fn call_label_view(call: EngineCall) -> Seq<char> {
    match call {
        EngineCall::ImageExistsShared => "podman image exists"@,
        EngineCall::ImageExistsLocal => "podman image exists"@,
        EngineCall::Pull => "podman pull"@,
        EngineCall::Migrate => "parallax_migrate"@,
        EngineCall::RemoveLocal => "podman rmi"@,
    }
}

/// The label of an engine call in the log.
pub fn call_label(call: EngineCall) -> (r: String)
    ensures
        r@ == call_label_view(call),
{
    match call {
        EngineCall::ImageExistsShared => String::from_str("podman image exists"),
        EngineCall::ImageExistsLocal => String::from_str("podman image exists"),
        EngineCall::Pull => String::from_str("podman pull"),
        EngineCall::Migrate => String::from_str("parallax_migrate"),
        EngineCall::RemoveLocal => String::from_str("podman rmi"),
    }
}

/// The lines of a captured output: one final newline is dropped, and an
/// empty output has no lines.
pub open spec fn log_lines(s: Seq<char>) -> Seq<Seq<char>> {
    let t = if s.len() > 0 && s.last() == '\n' {
        s.drop_last()
    } else {
        s
    };
    if t.len() == 0 {
        Seq::empty()
    } else {
        split_on(t, '\n')
    }
}

/// Splits a captured output into the lines to log.
pub fn output_lines(out: &str) -> (r: Vec<String>)
    ensures
        strings_view(r@) == log_lines(out@),
{
    let n = out.unicode_len();
    let trimmed = if n > 0 && out.get_char(n - 1) == '\n' {
        out.substring_char(0, n - 1)
    } else {
        out
    };
    assert(out@.drop_last() =~= out@.subrange(0, out@.len() - 1));
    if trimmed.unicode_len() == 0 {
        let r: Vec<String> = Vec::new();
        assert(strings_view(r@) =~= Seq::empty());
        r
    } else {
        split_at_char(trimmed, '\n')
    }
}

} // verus!
