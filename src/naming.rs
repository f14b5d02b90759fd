//! Names and paths that every task of a step derives the same way.
use vstd::prelude::*;

use crate::text::{dec, push_decimal};

verus! {

/// The tag that prefixes every message of the plugin.
pub open spec fn plugin_name_view() -> Seq<char> {
    "skybox"@
}

/// A message carrying the plugin tag: `[skybox] <message>`.
pub open spec fn tagged(msg: Seq<char>) -> Seq<char> {
    "["@ + plugin_name_view() + "] "@ + msg
}

/// The plugin's name.
pub fn get_plugin_name() -> (r: String)
    ensures
        r@ == plugin_name_view(),
{
    String::from_str("skybox")
}

/// A message with the plugin tag in front of it.
pub fn plugin_string(s: &str) -> (r: String)
    ensures
        r@ == tagged(s@),
{
    let mut r = String::from_str("[");
    let name = get_plugin_name();
    r.append(name.as_str());
    r.append("] ");
    r.append(s);
    r
}

/// The tagged message as an error.
pub fn plugin_err(s: &str) -> (r: Result<(), String>)
    ensures
        r matches Err(e) && e@ == tagged(s@),
{
    Err(plugin_string(s))
}

/// The container name of a step: `skybox_<job>.<step>`.
pub open spec fn container_name_view(jobid: u32, stepid: u32) -> Seq<char> {
    "skybox_"@ + dec(jobid as nat) + "."@ + dec(stepid as nat)
}

/// The name of the step's container; the same on every node and task.
pub fn container_name(jobid: u32, stepid: u32) -> (r: String)
    ensures
        r@ == container_name_view(jobid, stepid),
{
    let mut r = String::from_str("skybox_");
    push_decimal(&mut r, jobid as u64);
    r.append(".");
    push_decimal(&mut r, stepid as u64);
    r
}

/// `/proc/<pid>/<leaf>`.
pub open spec fn proc_entry_view(pid: u64, leaf: Seq<char>) -> Seq<char> {
    "/proc/"@ + dec(pid as nat) + "/"@ + leaf
}

/// A path under the proc tree of a process (`ns/user`, `ns/mnt`, `cwd`,
/// `environ`).
pub fn proc_entry(pid: u64, leaf: &str) -> (r: String)
    ensures
        r@ == proc_entry_view(pid, leaf@),
{
    let mut r = String::from_str("/proc/");
    push_decimal(&mut r, pid);
    r.append("/");
    r.append(leaf);
    r
}

/// The runtime directory of a user: `/run/user/<uid>`.
pub fn user_runtime_dir(uid: u32) -> (r: String)
    ensures
        r@ == "/run/user/"@ + dec(uid as nat),
{
    let mut r = String::from_str("/run/user/");
    push_decimal(&mut r, uid as u64);
    r
}

/// What one node knows of the step it runs: the container's name, its
/// scratch directory, the cross-node import marker and, once the container
/// is started, its process id.
#[derive(Clone, Debug)]
pub struct RunContext {
    pub name: String,
    pub pid: Option<u64>,
    pub tmp_path: String,
    pub syncfile_path: String,
}

/// `<tmp_root>/<name>`.
pub open spec fn tmp_path_view(tmp_root: Seq<char>, name: Seq<char>) -> Seq<char> {
    tmp_root + "/"@ + name
}

/// `<store>/.<name>_import.done`.
pub open spec fn syncfile_view(store: Seq<char>, name: Seq<char>) -> Seq<char> {
    store + "/."@ + name + "_import.done"@
}

/// `<base>/<leaf>`.
pub open spec fn child_view(base: Seq<char>, leaf: Seq<char>) -> Seq<char> {
    base + "/"@ + leaf
}

/// `<tmp>/completed/task_<id>.exit`.
pub open spec fn exit_marker_view(tmp: Seq<char>, task_id: u32) -> Seq<char> {
    child_view(tmp, "completed"@) + "/task_"@ + dec(task_id as nat) + ".exit"@
}

fn child(base: &String, leaf: &str) -> (r: String)
    ensures
        r@ == child_view(base@, leaf@),
{
    let mut r = base.clone();
    r.append("/");
    r.append(leaf);
    r
}

impl RunContext {
    /// The context of step `jobid.stepid`, with scratch space under
    /// `tmp_root` and the import marker in the shared image store.
    pub fn new(tmp_root: &str, image_store: &str, jobid: u32, stepid: u32, pid: Option<u64>) -> (r: RunContext)
        ensures
            r.name@ == container_name_view(jobid, stepid),
            r.tmp_path@ == tmp_path_view(tmp_root@, container_name_view(jobid, stepid)),
            r.syncfile_path@ == syncfile_view(image_store@, container_name_view(jobid, stepid)),
            r.pid == pid,
    {
        let name = container_name(jobid, stepid);
        let mut tmp_path = String::from_str(tmp_root);
        tmp_path.append("/");
        tmp_path.append(name.as_str());
        let mut syncfile_path = String::from_str(image_store);
        syncfile_path.append("/.");
        syncfile_path.append(name.as_str());
        syncfile_path.append("_import.done");
        RunContext { name, pid, tmp_path, syncfile_path }
    }

    /// The engine's image graph root: `<tmp>/graphroot`.
    pub fn graphroot(&self) -> (r: String)
        ensures
            r@ == child_view(self.tmp_path@, "graphroot"@),
    {
        child(&self.tmp_path, "graphroot")
    }

    /// The engine's run root: `<tmp>/runroot`.
    pub fn runroot(&self) -> (r: String)
        ensures
            r@ == child_view(self.tmp_path@, "runroot"@),
    {
        child(&self.tmp_path, "runroot")
    }

    /// The file the engine writes the container's process id to.
    pub fn pidfile(&self) -> (r: String)
        ensures
            r@ == child_view(self.tmp_path@, "pidfile"@),
    {
        child(&self.tmp_path, "pidfile")
    }

    /// The directory that collects the tasks' exit markers.
    pub fn completed_dir(&self) -> (r: String)
        ensures
            r@ == child_view(self.tmp_path@, "completed"@),
    {
        child(&self.tmp_path, "completed")
    }

    /// The exit marker of one local task.
    pub fn exit_marker(&self, task_id: u32) -> (r: String)
        ensures
            r@ == exit_marker_view(self.tmp_path@, task_id),
    {
        let mut r = self.completed_dir();
        r.append("/task_");
        push_decimal(&mut r, task_id as u64);
        r.append(".exit");
        r
    }

    /// The same context with the container's process id recorded.
    pub fn with_pid(self, pid: u64) -> (r: RunContext)
        ensures
            r.pid == Some(pid),
            r.name == self.name,
            r.tmp_path == self.tmp_path,
            r.syncfile_path == self.syncfile_path,
    {
        RunContext { pid: Some(pid), ..self }
    }
}

} // verus!
