//! What the scheduler tells a task about its job, and the plain-text
//! inputs the plugin reads from it.
use vstd::prelude::*;

use crate::env::{assoc_map, lookup, pairs_view, split_at_char, split_on, strings_view};
use crate::naming::{plugin_string, tagged};

verus! {

/// A task's view of its job step.
#[derive(Clone, Debug)]
pub struct JobContext {
    pub uid: u32,
    pub gid: u32,
    pub jobid: u32,
    pub stepid: u32,
    pub local_task_id: u32,
    pub global_task_id: u32,
    pub nodeid: u32,
    pub local_task_count: u32,
    pub total_task_count: u32,
    pub cwd: String,
}

impl JobContext {
    /// The context of a step before its task ids are known; the step's
    /// working directory must be known.
    pub fn new(
        uid: u32,
        gid: u32,
        jobid: u32,
        stepid: u32,
        nodeid: u32,
        local_task_count: u32,
        total_task_count: u32,
        cwd: String,
    ) -> (r: Result<JobContext, String>)
        ensures
            cwd@.len() == 0 <==> r is Err,
            r matches Err(e) ==> e@ == tagged("couldn't get job cwd path"@),
            r matches Ok(j) ==> (j.uid == uid && j.gid == gid && j.jobid == jobid && j.stepid
                == stepid && j.nodeid == nodeid && j.local_task_count == local_task_count
                && j.total_task_count == total_task_count && j.cwd == cwd && j.local_task_id
                == u32::MAX && j.global_task_id == u32::MAX),
    {
        if cwd.unicode_len() == 0 {
            return Err(plugin_string("couldn't get job cwd path"));
        }
        Ok(JobContext {
            uid,
            gid,
            jobid,
            stepid,
            local_task_id: u32::MAX,
            global_task_id: u32::MAX,
            nodeid,
            local_task_count,
            total_task_count,
            cwd,
        })
    }

    /// Records the task's local and global ids.
    pub fn set_task(&mut self, local_task_id: u32, global_task_id: u32)
        ensures
            final(self).local_task_id == local_task_id,
            final(self).global_task_id == global_task_id,
            final(self).jobid == old(self).jobid,
            final(self).stepid == old(self).stepid,
            final(self).nodeid == old(self).nodeid,
            final(self).uid == old(self).uid,
            final(self).gid == old(self).gid,
            final(self).local_task_count == old(self).local_task_count,
            final(self).total_task_count == old(self).total_task_count,
            final(self).cwd == old(self).cwd,
    {
        self.local_task_id = local_task_id;
        self.global_task_id = global_task_id;
    }
}

/// Whether the task is local task 0; `false` where the job is unknown.
pub fn is_local_task_0(job: &Option<JobContext>) -> (r: bool)
    ensures
        r == (job matches Some(j) && j.local_task_id == 0),
{
    match job {
        Some(j) => j.local_task_id == 0,
        None => false,
    }
}

/// Whether the task is global task 0; `false` where the job is unknown.
pub fn is_global_task_0(job: &Option<JobContext>) -> (r: bool)
    ensures
        r == (job matches Some(j) && j.global_task_id == 0),
{
    match job {
        Some(j) => j.global_task_id == 0,
        None => false,
    }
}

/// Whether the task runs on node 0; `false` where the job is unknown.
pub fn is_node_0(job: &Option<JobContext>) -> (r: bool)
    ensures
        r == (job matches Some(j) && j.nodeid == 0),
{
    match job {
        Some(j) => j.nodeid == 0,
        None => false,
    }
}

/// The `config_path` that the plugin's arguments give, the last one where
/// several do: an argument `config_path=<value>[=...]` gives its second
/// `=`-separated field.
pub open spec fn config_path_of(args: Seq<Seq<char>>) -> Option<Seq<char>>
    decreases args.len(),
{
    if args.len() == 0 {
        None
    } else {
        let f = split_on(args.last(), '=');
        if f.len() >= 2 && f[0] == "config_path"@ {
            Some(f[1])
        } else {
            config_path_of(args.drop_last())
        }
    }
}

/// Finds the configuration path among the plugin's arguments.
pub fn resolve_config_path(args: &Vec<String>) -> (r: Option<String>)
    ensures
        match r {
            Some(p) => config_path_of(strings_view(args@)) == Some(p@),
            None => config_path_of(strings_view(args@)) is None,
        },
{
    let mut found: Option<String> = None;
    let key = String::from_str("config_path");
    let mut i: usize = 0;
    while i < args.len()
        invariant
            0 <= i <= args.len(),
            key@ == "config_path"@,
            match found {
                Some(p) => config_path_of(strings_view(args@).subrange(0, i as int)) == Some(p@),
                None => config_path_of(strings_view(args@).subrange(0, i as int)) is None,
            },
        decreases args.len() - i,
    {
        let fields = split_at_char(args[i].as_str(), '=');
        proof {
            assert(strings_view(args@).subrange(0, i + 1).drop_last() =~= strings_view(
                args@,
            ).subrange(0, i as int));
        }
        if fields.len() >= 2 && fields[0] == key {
            found = Some(fields[1].clone());
        }
        i = i + 1;
    }
    assert(strings_view(args@).subrange(0, args.len() as int) =~= strings_view(args@));
    found
}

/// The variables of a job environment given as `KEY=VALUE` entries: an
/// entry with two or three `=`-separated fields gives its first two, any
/// other is skipped.
pub open spec fn job_env_pairs(entries: Seq<Seq<char>>) -> Seq<(Seq<char>, Seq<char>)>
    decreases entries.len(),
{
    if entries.len() == 0 {
        Seq::empty()
    } else {
        let f = split_on(entries.last(), '=');
        let rest = job_env_pairs(entries.drop_last());
        if 2 <= f.len() <= 3 {
            rest.push((f[0], f[1]))
        } else {
            rest
        }
    }
}

/// Reads a job environment into its variables, in order.
pub fn parse_job_env(entries: &Vec<String>) -> (r: Vec<(String, String)>)
    ensures
        pairs_view(r@) == job_env_pairs(strings_view(entries@)),
{
    let mut vars: Vec<(String, String)> = Vec::new();
    let mut i: usize = 0;
    while i < entries.len()
        invariant
            0 <= i <= entries.len(),
            pairs_view(vars@) == job_env_pairs(strings_view(entries@).subrange(0, i as int)),
        decreases entries.len() - i,
    {
        let fields = split_at_char(entries[i].as_str(), '=');
        let ghost before = vars@;
        proof {
            assert(strings_view(entries@).subrange(0, i + 1).drop_last() =~= strings_view(
                entries@,
            ).subrange(0, i as int));
        }
        if fields.len() >= 2 && fields.len() <= 3 {
            vars.push((fields[0].clone(), fields[1].clone()));
            assert(pairs_view(vars@) =~= pairs_view(before).push(
                (strings_view(fields@)[0], strings_view(fields@)[1]),
            ));
        }
        i = i + 1;
    }
    assert(strings_view(entries@).subrange(0, entries.len() as int) =~= strings_view(entries@));
    vars
}

/// The value a map gives `k`, or `default`.
pub open spec fn value_or(
    m: Map<Seq<char>, Seq<char>>,
    k: Seq<char>,
    default: Seq<char>,
) -> Seq<char> {
    if m.contains_key(k) {
        m[k]
    } else {
        default
    }
}

fn get_or(vars: &Vec<(String, String)>, k: &str, default: &str) -> (r: String)
    ensures
        r@ == value_or(assoc_map(pairs_view(vars@)), k@, default@),
{
    let key = String::from_str(k);
    match lookup(vars, &key) {
        Some(i) => vars[i].1.clone(),
        None => String::from_str(default),
    }
}

/// What the dynamic configuration service is told about a job: its id,
/// cluster, account and user, each from the job environment with a
/// default where it is missing.
pub fn dynconf_job_input(vars: &Vec<(String, String)>) -> (r: Vec<(String, String)>)
    ensures
        pairs_view(r@) == seq![
            ("job"@, value_or(assoc_map(pairs_view(vars@)), "SLURM_JOB_ID"@, "0"@)),
            ("system"@, value_or(assoc_map(pairs_view(vars@)), "SLURM_CLUSTER_NAME"@, "UNKNOWN"@)),
            ("account"@, value_or(assoc_map(pairs_view(vars@)), "SLURM_JOB_ACCOUNT"@, "UNKNOWN"@)),
            ("user"@, value_or(assoc_map(pairs_view(vars@)), "SLURM_JOB_USER"@, "UNKNOWN"@)),
        ],
{
    let r = vec![
        (String::from_str("job"), get_or(vars, "SLURM_JOB_ID", "0")),
        (String::from_str("system"), get_or(vars, "SLURM_CLUSTER_NAME", "UNKNOWN")),
        (String::from_str("account"), get_or(vars, "SLURM_JOB_ACCOUNT", "UNKNOWN")),
        (String::from_str("user"), get_or(vars, "SLURM_JOB_USER", "UNKNOWN")),
    ];
    assert(pairs_view(r@) =~= seq![
        ("job"@, value_or(assoc_map(pairs_view(vars@)), "SLURM_JOB_ID"@, "0"@)),
        ("system"@, value_or(assoc_map(pairs_view(vars@)), "SLURM_CLUSTER_NAME"@, "UNKNOWN"@)),
        ("account"@, value_or(assoc_map(pairs_view(vars@)), "SLURM_JOB_ACCOUNT"@, "UNKNOWN"@)),
        ("user"@, value_or(assoc_map(pairs_view(vars@)), "SLURM_JOB_USER"@, "UNKNOWN"@)),
    ]);
    r
}

/// A job's command line joined with spaces; empty words at the start add
/// no space.
pub open spec fn joined(words: Seq<Seq<char>>) -> Seq<char>
    decreases words.len(),
{
    if words.len() == 0 {
        Seq::empty()
    } else {
        let j = joined(words.drop_last());
        if j.len() == 0 {
            words.last()
        } else {
            j + " "@ + words.last()
        }
    }
}

/// Joins a job's command line for the usage record.
pub fn join_command(argv: &Vec<String>) -> (r: String)
    ensures
        r@ == joined(strings_view(argv@)),
{
    let mut command = String::new();
    let mut i: usize = 0;
    while i < argv.len()
        invariant
            0 <= i <= argv.len(),
            command@ == joined(strings_view(argv@).subrange(0, i as int)),
        decreases argv.len() - i,
    {
        proof {
            assert(strings_view(argv@).subrange(0, i + 1).drop_last() =~= strings_view(
                argv@,
            ).subrange(0, i as int));
        }
        if command.unicode_len() > 0 {
            command.append(" ");
        }
        command.append(argv[i].as_str());
        i = i + 1;
    }
    assert(strings_view(argv@).subrange(0, argv.len() as int) =~= strings_view(argv@));
    command
}

} // verus!
