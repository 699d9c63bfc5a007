//! Batching of jobs and their dispatch to a batch backend: resource
//! resolution, the manifest, the scheduler command line, and the reading of
//! crash markers after a failed submission.

use vstd::prelude::*;
use crate::config::{Config, ConfigError};
use crate::job::Job;
use crate::params::{lookup, ParamValue};
use crate::step::{step_named, PipelineStep};
use crate::text::{ends_with, ends_with_spec, i128_text, int_text, path_join, path_join_spec, str_eq};

verus! {

/// A batch backend.
#[derive(Clone, Copy, Debug, PartialEq, Eq, Structural)]
pub enum ParallelManager {
    /// A workflow engine fed with the manifest.
    Nextflow,
    /// A cluster scheduler fed with the manifest.
    Para,
    /// Declared, not available.
    Snakemake,
    /// Declared, not available.
    Local,
}

/// Why a dispatch could not be prepared.
#[derive(Debug)]
pub enum ExecError {
    /// The configuration lacks what the submission needs.
    Config(ConfigError),
    /// The backend is declared but not available.
    Unimplemented(ParallelManager),
}

/// Everything the caller needs to perform one submission: write `manifest`
/// to `manifest_path`, run `command` in a shell, and on a non-zero exit,
/// when `checked`, look for crash markers in `crash_dir` and abort.
#[derive(Debug)]
pub struct Submission {
    pub manifest_path: String,
    pub manifest: String,
    pub command: String,
    pub checked: bool,
    pub crash_dir: Option<String>,
}

/// The queue of jobs of the current batch and extra backend arguments.
#[derive(Debug)]
pub struct ParallelExecutor {
    pub manager: ParallelManager,
    pub jobs: Vec<Job>,
    pub args: Vec<String>,
}

/// What `str::to_lowercase` gives for a text.
pub uninterp spec fn lower_of(s: Seq<char>) -> Seq<char>;

/// Relies on `str::to_lowercase`: the result depends on the characters alone.
#[verifier::external_body]
fn lowercase(s: &str) -> (r: String)
    ensures
        r@ == lower_of(s@),
{
    s.to_lowercase()
}

/// The backend with a given (lower-case) name.
pub open spec fn manager_named(s: Seq<char>) -> Option<ParallelManager> {
    if s == "nextflow"@ {
        Some(ParallelManager::Nextflow)
    } else if s == "para"@ {
        Some(ParallelManager::Para)
    } else if s == "snakemake"@ {
        Some(ParallelManager::Snakemake)
    } else if s == "local"@ {
        Some(ParallelManager::Local)
    } else {
        None
    }
}

/// Whether the backend can take submissions.
pub open spec fn available(m: ParallelManager) -> bool {
    m == ParallelManager::Nextflow || m == ParallelManager::Para
}

/// Each command followed by a newline.
pub open spec fn manifest_text(jobs: Seq<Job>) -> Seq<char>
    decreases jobs.len(),
{
    if jobs.len() == 0 {
        Seq::empty()
    } else {
        manifest_text(jobs.drop_last()) + jobs.last().cmd@ + "\n"@
    }
}

/// Integer content of a value; zero for other kinds.
pub open spec fn int_of(v: ParamValue) -> int {
    match v {
        ParamValue::Int(i) => i as int,
        _ => 0,
    }
}

/// The value that sets a stage's memory: its own `memory`, else the global
/// `default_memory`.
pub open spec fn memory_source(c: Config, step: PipelineStep) -> Option<ParamValue> {
    match lookup(c.table(step), "memory"@) {
        Some(v) => Some(v),
        None => lookup(c.global@, "default_memory"@),
    }
}

/// The value that sets a stage's thread count: its own `num-threads`, else
/// its `t`, else the global `default_threads`.
pub open spec fn threads_source(c: Config, step: PipelineStep) -> Option<ParamValue> {
    match lookup(c.table(step), "num-threads"@) {
        Some(v) => Some(v),
        None => match lookup(c.table(step), "t"@) {
            Some(v) => Some(v),
            None => lookup(c.global@, "default_threads"@),
        },
    }
}

/// The cluster scheduler's command line.
pub open spec fn para_command(
    package: Seq<char>,
    name: Seq<char>,
    run_id: Seq<char>,
    jobs: Seq<char>,
    queue: Seq<char>,
    memory: int,
    threads: int,
) -> Seq<char> {
    "module load "@ + package + " && para make "@ + name + "_"@ + run_id + " "@ + jobs + " -q "@
        + queue + " -memoryMb "@ + int_text(memory * 1024) + " -numCores "@ + int_text(threads)
}

/// The workflow engine's command line.
pub open spec fn nextflow_command(package: Seq<char>, jobs: Seq<char>, memory: int, threads: int) -> Seq<
    char,
> {
    "module load "@ + package + " && nextflow run assets/execute_joblist.nf --jobs "@ + jobs
        + " --mem "@ + int_text(memory) + " --threads "@ + int_text(threads)
}

/// Where the cluster scheduler leaves the crash markers of a submission.
pub open spec fn crash_dir_of(name: Seq<char>, run_id: Seq<char>) -> Seq<char> {
    ".para/"@ + name + "_"@ + run_id + "/1"@
}

/// Suffix of a crash-marker file.
pub open spec fn is_crash_marker(name: Seq<char>) -> bool {
    ends_with_spec(name, ".crashed"@)
}

impl ParallelManager {
    /// The backend's name.
    pub open spec fn name(self) -> Seq<char> {
        match self {
            ParallelManager::Nextflow => "nextflow"@,
            ParallelManager::Para => "para"@,
            ParallelManager::Snakemake => "snakemake"@,
            ParallelManager::Local => "local"@,
        }
    }

    /// The backend's name.
    pub fn as_str(&self) -> (r: &'static str)
        ensures
            r@ == self.name(),
    {
        match self {
            ParallelManager::Nextflow => "nextflow",
            ParallelManager::Para => "para",
            ParallelManager::Snakemake => "snakemake",
            ParallelManager::Local => "local",
        }
    }

    /// The backend with exactly this name.
    pub fn from_name(s: &str) -> (r: Option<Self>)
        ensures
            r == manager_named(s@),
    {
        if str_eq(s, "nextflow") {
            Some(ParallelManager::Nextflow)
        } else if str_eq(s, "para") {
            Some(ParallelManager::Para)
        } else if str_eq(s, "snakemake") {
            Some(ParallelManager::Snakemake)
        } else if str_eq(s, "local") {
            Some(ParallelManager::Local)
        } else {
            None
        }
    }

    /// The backend named `manager`, in any letter case.
    pub fn new(manager: &str) -> (r: Result<Self, String>)
        ensures
            match manager_named(lower_of(manager@)) {
                Some(m) => r == Ok::<Self, String>(m),
                None => r matches Err(e) && e@ == "ERROR: Unknown parallel manager: "@ + manager@,
            },
    {
        let lower = lowercase(manager);
        match Self::from_name(lower.as_str()) {
            Some(m) => Ok(m),
            None => {
                let msg = String::from_str("ERROR: Unknown parallel manager: ");
                Err(msg.concat(manager))
            },
        }
    }

    /// An executor on this backend; a backend that is declared but not
    /// available is refused here, before any work is queued.
    pub fn init(&self) -> (r: Result<ParallelExecutor, ExecError>)
        ensures
            available(*self) ==> (r matches Ok(e) && e.manager == *self && e.jobs@.len() == 0
                && e.args@.len() == 0),
            !available(*self) ==> (r matches Err(ExecError::Unimplemented(m)) && m == *self),
    {
        match self {
            ParallelManager::Nextflow | ParallelManager::Para => Ok(self.as_executor()),
            _ => Err(ExecError::Unimplemented(*self)),
        }
    }

    /// An empty executor on this backend.
    pub fn as_executor(&self) -> (r: ParallelExecutor)
        ensures
            r.manager == *self,
            r.jobs@.len() == 0,
            r.args@.len() == 0,
    {
        ParallelExecutor { manager: *self, jobs: Vec::new(), args: Vec::new() }
    }
}

/// The manifest for a list of jobs: one command per line.
pub fn manifest_of(jobs: &Vec<Job>) -> (r: String)
    ensures
        r@ == manifest_text(jobs@),
{
    let mut out = String::new();
    let mut i: usize = 0;
    assert(jobs@.take(0) =~= Seq::<Job>::empty());
    while i < jobs.len()
        invariant
            i <= jobs@.len(),
            out@ == manifest_text(jobs@.take(i as int)),
        decreases jobs@.len() - i,
    {
        out.append(jobs[i].cmd.as_str());
        out.append("\n");
        proof {
            assert(jobs@.take(i + 1).drop_last() =~= jobs@.take(i as int));
        }
        i = i + 1;
    }
    assert(jobs@.take(jobs@.len() as int) =~= jobs@);
    out
}

/// Position of the first crash marker among the file names of a
/// submission's working directory.
pub fn crash_marker(names: &Vec<String>) -> (r: Option<usize>)
    ensures
        match r {
            Some(i) => i < names@.len() && is_crash_marker(names@[i as int]@) && forall|j: int|
                0 <= j < i ==> !is_crash_marker(#[trigger] names@[j]@),
            None => forall|j: int| 0 <= j < names@.len() ==> !is_crash_marker(#[trigger] names@[j]@),
        },
{
    let mut i: usize = 0;
    while i < names.len()
        invariant
            i <= names@.len(),
            forall|j: int| 0 <= j < i ==> !is_crash_marker(#[trigger] names@[j]@),
        decreases names@.len() - i,
    {
        if ends_with(names[i].as_str(), ".crashed") {
            return Some(i);
        }
        i = i + 1;
    }
    None
}

fn append_int(out: &mut String, v: i128)
    requires
        v > i128::MIN,
    ensures
        final(out)@ == old(out)@ + int_text(v as int),
{
    let t = i128_text(v);
    out.append(t.as_str());
}

fn global_text(config: &Config, key: &str) -> (r: Result<String, ConfigError>)
    requires
        config.wf(),
    ensures
        match lookup(config.global@, key@) {
            Some(v) => r matches Ok(s) && s@ == v.text(),
            None => r matches Err(ConfigError::MissingGlobal { key: k }) && k@ == key@,
        },
{
    match config.get_global_param(key) {
        Some(v) => Ok(v.to_string()),
        None => Err(ConfigError::MissingGlobal { key: String::from_str(key) }),
    }
}

impl ParallelExecutor {
    /// An empty executor on a backend.
    pub fn new(manager: ParallelManager) -> (r: Self)
        ensures
            r.manager == manager,
            r.jobs@.len() == 0,
            r.args@.len() == 0,
    {
        ParallelExecutor { manager, jobs: Vec::new(), args: Vec::new() }
    }

    /// Queues one job.
    pub fn add_job(&mut self, job: Job)
        ensures
            final(self).jobs@ == old(self).jobs@.push(job),
            final(self).args == old(self).args,
            final(self).manager == old(self).manager,
    {
        self.jobs.push(job);
    }

    /// Queues jobs, in order.
    pub fn add_jobs(&mut self, jobs: Vec<Job>) -> (r: &mut Self)
        ensures
            r.jobs@ == old(self).jobs@ + jobs@,
            r.args == old(self).args,
            r.manager == old(self).manager,
            *final(self) == *final(r),
    {
        let mut jobs = jobs;
        self.jobs.append(&mut jobs);
        self
    }

    /// Adds backend arguments, in order.
    pub fn add_args(&mut self, args: Vec<String>)
        ensures
            final(self).args@ == old(self).args@ + args@,
            final(self).jobs == old(self).jobs,
            final(self).manager == old(self).manager,
    {
        let mut args = args;
        self.args.append(&mut args);
    }

    /// Adds one backend argument.
    pub fn add_arg(&mut self, arg: String)
        ensures
            final(self).args@ == old(self).args@.push(arg),
            final(self).jobs == old(self).jobs,
            final(self).manager == old(self).manager,
    {
        self.args.push(arg);
    }

    /// Empties the job queue and the argument list.
    pub fn reset(&mut self)
        ensures
            final(self).jobs@.len() == 0,
            final(self).args@.len() == 0,
            final(self).manager == old(self).manager,
    {
        self.jobs.clear();
        self.args.clear();
    }

    /// The cluster-scheduler submission of the queued jobs under `name`,
    /// with the manifest in `dir`.
    fn para(
        &self,
        config: &Config,
        name: &str,
        dir: &str,
        threads: i128,
        memory: i128,
        package: &str,
    ) -> (r: Result<Submission, ConfigError>)
        requires
            config.wf(),
            -0x1000_0000_0000_0000_0000 < memory < 0x1000_0000_0000_0000_0000,
            threads > i128::MIN,
        ensures
            match lookup(config.metadata@, "run_id"@) {
                None => r matches Err(ConfigError::MissingMetadata { key }) && key@ == "run_id"@,
                Some(run_id) => match lookup(config.global@, "short_queue"@) {
                    None => r matches Err(ConfigError::MissingGlobal { key }) && key@
                        == "short_queue"@,
                    Some(queue) => r matches Ok(sub) && para_submission(
                        sub,
                        self.jobs@,
                        package@,
                        name@,
                        run_id@,
                        dir@,
                        queue.text(),
                        memory as int,
                        threads as int,
                    ),
                },
            },
    {
        let run_id = config.get_run_id()?;
        let queue = global_text(config, "short_queue")?;
        let jobs_path = path_join(dir, "jobs");
        let manifest = manifest_of(&self.jobs);
        let mut cmd = String::from_str("module load ");
        cmd.append(package);
        cmd.append(" && para make ");
        cmd.append(name);
        cmd.append("_");
        cmd.append(run_id.as_str());
        cmd.append(" ");
        cmd.append(jobs_path.as_str());
        cmd.append(" -q ");
        cmd.append(queue.as_str());
        cmd.append(" -memoryMb ");
        append_int(&mut cmd, memory * 1024);
        cmd.append(" -numCores ");
        append_int(&mut cmd, threads);
        let crash_dir = match PipelineStep::from_str(name) {
            Ok(_) => {
                let mut d = String::from_str(".para/");
                d.append(name);
                d.append("_");
                d.append(run_id.as_str());
                d.append("/1");
                Some(d)
            },
            Err(_) => None,
        };
        Ok(Submission { manifest_path: jobs_path, manifest, command: cmd, checked: true, crash_dir })
    }

    /// Prepares the submission of the queued jobs of a stage and empties the
    /// queue. Memory comes from the stage's `memory`, else the global
    /// `default_memory`; threads from `num-threads`, else `t`, else the
    /// global `default_threads`. The manifest goes in `global_output_dir`.
    /// On any error nothing changes.
    pub fn execute(&mut self, config: &Config, step: &PipelineStep, global_output_dir: &str) -> (r:
        Result<Submission, ExecError>)
        requires
            config.wf(),
        ensures
            final(self).manager == old(self).manager,
            r is Err ==> *final(self) == *old(self),
            r is Ok ==> final(self).jobs@.len() == 0 && final(self).args@.len() == 0,
            !available(old(self).manager) ==> (r matches Err(ExecError::Unimplemented(m)) && m
                == old(self).manager),
            available(old(self).manager) ==> match package_of(*config, *step) {
                Err(key) => r matches Err(ExecError::Config(ConfigError::MissingPackage { name }))
                    && name@ == key,
                Ok(pkg) => if !config.configured(*step) {
                    r matches Err(ExecError::Config(ConfigError::StepNotConfigured { step: s }))
                        && s == *step
                } else {
                    match memory_source(*config, *step) {
                        None => r matches Err(ExecError::Config(ConfigError::MissingGlobal { key }))
                            && key@ == "default_memory"@,
                        Some(mv) => match threads_source(*config, *step) {
                            None => r matches Err(
                                ExecError::Config(ConfigError::MissingGlobal { key }),
                            ) && key@ == "default_threads"@,
                            Some(tv) => if old(self).manager == ParallelManager::Para {
                                match lookup(config.metadata@, "run_id"@) {
                                    None => r matches Err(
                                        ExecError::Config(ConfigError::MissingMetadata { key }),
                                    ) && key@ == "run_id"@,
                                    Some(run_id) => match lookup(config.global@, "short_queue"@) {
                                        None => r matches Err(
                                            ExecError::Config(ConfigError::MissingGlobal { key }),
                                        ) && key@ == "short_queue"@,
                                        Some(queue) => r matches Ok(sub) && para_submission(
                                            sub,
                                            old(self).jobs@,
                                            pkg,
                                            step.unique_name(),
                                            run_id@,
                                            global_output_dir@,
                                            queue.text(),
                                            int_of(mv),
                                            int_of(tv),
                                        ),
                                    },
                                }
                            } else {
                                r matches Ok(sub) && nextflow_submission(
                                    sub,
                                    old(self).jobs@,
                                    pkg,
                                    global_output_dir@,
                                    int_of(mv),
                                    int_of(tv),
                                )
                            },
                        },
                    }
                },
            },
    {
        if !(self.manager == ParallelManager::Nextflow || self.manager == ParallelManager::Para) {
            return Err(ExecError::Unimplemented(self.manager));
        }
        let package = match config.get_package_from_step(step) {
            Ok(p) => p,
            Err(e) => {
                return Err(ExecError::Config(e));
            },
        };
        if let Err(e) = config.get_param(*step, "memory") {
            return Err(ExecError::Config(e));
        }
        let memory = match resolve_memory(config, *step) {
            Ok(m) => m,
            Err(e) => {
                return Err(ExecError::Config(e));
            },
        };
        let threads = match resolve_threads(config, *step) {
            Ok(t) => t,
            Err(e) => {
                return Err(ExecError::Config(e));
            },
        };
        let sub = if self.manager == ParallelManager::Para {
            let name = step.to_unique_str();
            match self.para(
                config,
                name.as_str(),
                global_output_dir,
                threads as i128,
                memory as i128,
                package.as_str(),
            ) {
                Ok(s) => s,
                Err(e) => {
                    return Err(ExecError::Config(e));
                },
            }
        } else {
            let jobs_path = path_join(global_output_dir, "jobs");
            let manifest = manifest_of(&self.jobs);
            let mut cmd = String::from_str("module load ");
            cmd.append(package.as_str());
            cmd.append(" && nextflow run assets/execute_joblist.nf --jobs ");
            cmd.append(jobs_path.as_str());
            cmd.append(" --mem ");
            append_int(&mut cmd, memory as i128);
            cmd.append(" --threads ");
            append_int(&mut cmd, threads as i128);
            Submission {
                manifest_path: jobs_path,
                manifest,
                command: cmd,
                checked: false,
                crash_dir: None,
            }
        };
        self.reset();
        Ok(sub)
    }

    /// Prepares a cluster-scheduler submission of whatever is queued, under
    /// a caller-chosen name, directory, resources and package. The queue is
    /// left as it is.
    pub fn and_send(
        &mut self,
        config: &Config,
        step: &str,
        dir: &str,
        threads: u32,
        memory: u32,
        package: String,
    ) -> (r: Result<Submission, ExecError>)
        requires
            config.wf(),
        ensures
            *final(self) == *old(self),
            old(self).manager != ParallelManager::Para ==> (r matches Err(
                ExecError::Unimplemented(m),
            ) && m == old(self).manager),
            old(self).manager == ParallelManager::Para ==> match lookup(
                config.metadata@,
                "run_id"@,
            ) {
                None => r matches Err(ExecError::Config(ConfigError::MissingMetadata { key }))
                    && key@ == "run_id"@,
                Some(run_id) => match lookup(config.global@, "short_queue"@) {
                    None => r matches Err(ExecError::Config(ConfigError::MissingGlobal { key }))
                        && key@ == "short_queue"@,
                    Some(queue) => r matches Ok(sub) && para_submission(
                        sub,
                        old(self).jobs@,
                        package@,
                        step@,
                        run_id@,
                        dir@,
                        queue.text(),
                        memory as int,
                        threads as int,
                    ),
                },
            },
    {
        if self.manager != ParallelManager::Para {
            return Err(ExecError::Unimplemented(self.manager));
        }
        match self.para(config, step, dir, threads as i128, memory as i128, package.as_str()) {
            Ok(s) => Ok(s),
            Err(e) => Err(ExecError::Config(e)),
        }
    }
}

/// `sub` submits `jobs` to the cluster scheduler.
pub open spec fn para_submission(
    sub: Submission,
    jobs: Seq<Job>,
    package: Seq<char>,
    name: Seq<char>,
    run_id: Seq<char>,
    dir: Seq<char>,
    queue: Seq<char>,
    memory: int,
    threads: int,
) -> bool {
    &&& sub.manifest_path@ == path_join_spec(dir, "jobs"@)
    &&& sub.manifest@ == manifest_text(jobs)
    &&& sub.command@ == para_command(
        package,
        name,
        run_id,
        path_join_spec(dir, "jobs"@),
        queue,
        memory,
        threads,
    )
    &&& sub.checked
    &&& step_named(name) is Some ==> (sub.crash_dir matches Some(d) && d@ == crash_dir_of(
        name,
        run_id,
    ))
    &&& step_named(name) is None ==> sub.crash_dir is None
}

/// `sub` submits `jobs` to the workflow engine.
pub open spec fn nextflow_submission(
    sub: Submission,
    jobs: Seq<Job>,
    package: Seq<char>,
    dir: Seq<char>,
    memory: int,
    threads: int,
) -> bool {
    &&& sub.manifest_path@ == path_join_spec(dir, "jobs"@)
    &&& sub.manifest@ == manifest_text(jobs)
    &&& sub.command@ == nextflow_command(package, path_join_spec(dir, "jobs"@), memory, threads)
    &&& !sub.checked
    &&& sub.crash_dir is None
}

/// `package/version` of a stage's package, or the manifest key that is missing.
pub open spec fn package_of(c: Config, step: PipelineStep) -> Result<Seq<char>, Seq<char>> {
    if step == PipelineStep::Minimap {
        Ok("minimap2"@)
    } else {
        match lookup(c.packages@, crate::config::package_key(step)) {
            Some(v) => Ok(crate::config::package_key(step) + "/"@ + v@),
            None => Err(crate::config::package_key(step)),
        }
    }
}

fn resolve_memory(config: &Config, step: PipelineStep) -> (r: Result<i64, ConfigError>)
    requires
        config.wf(),
        config.configured(step),
    ensures
        match memory_source(*config, step) {
            Some(v) => r == Ok::<i64, ConfigError>(int_of(v) as i64),
            None => r matches Err(ConfigError::MissingGlobal { key }) && key@ == "default_memory"@,
        },
{
    let own = config.get_param(step, "memory");
    match own {
        Ok(Some(v)) => Ok(v.to_int()),
        _ => match config.get_global_param("default_memory") {
            Some(v) => Ok(v.to_int()),
            None => Err(ConfigError::MissingGlobal { key: String::from_str("default_memory") }),
        },
    }
}

fn resolve_threads(config: &Config, step: PipelineStep) -> (r: Result<i64, ConfigError>)
    requires
        config.wf(),
        config.configured(step),
    ensures
        match threads_source(*config, step) {
            Some(v) => r == Ok::<i64, ConfigError>(int_of(v) as i64),
            None => r matches Err(ConfigError::MissingGlobal { key }) && key@ == "default_threads"@,
        },
{
    match config.get_param(step, "num-threads") {
        Ok(Some(v)) => {
            return Ok(v.to_int());
        },
        _ => {},
    }
    match config.get_param(step, "t") {
        Ok(Some(v)) => {
            return Ok(v.to_int());
        },
        _ => {},
    }
    match config.get_global_param("default_threads") {
        Some(v) => Ok(v.to_int()),
        None => Err(ConfigError::MissingGlobal { key: String::from_str("default_threads") }),
    }
}

/// What to do once a submission's command has returned.
#[derive(Debug)]
pub enum Outcome {
    /// Go on with the run.
    Completed,
    /// End the run; first report the crash marker found in `crash_dir`, if
    /// one is given.
    Abort { crash_dir: Option<String> },
}

/// The decision after a submission returned: a checked submission whose
/// command failed ends the run; anything else goes on.
pub fn outcome(sub: &Submission, exit_ok: bool) -> (r: Outcome)
    ensures
        (exit_ok || !sub.checked) ==> r is Completed,
        (!exit_ok && sub.checked) ==> (r matches Outcome::Abort { crash_dir } && crash_dir
            == sub.crash_dir),
{
    if exit_ok || !sub.checked {
        Outcome::Completed
    } else {
        let crash_dir = match &sub.crash_dir {
            Some(d) => Some(d.clone()),
            None => None,
        };
        Outcome::Abort { crash_dir }
    }
}

/// The error line that reports a crash marker's content.
pub fn crash_message(content: &str) -> (r: String)
    ensures
        r@ == "ERROR: "@ + content@,
{
    let msg = String::from_str("ERROR: ");
    msg.concat(content)
}

} // verus!
