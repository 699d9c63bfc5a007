use isopipe::config::{Config, ConfigError};
use isopipe::executor::{
    crash_marker, crash_message, manifest_of, outcome, ExecError, Outcome, ParallelExecutor,
    ParallelManager,
};
use isopipe::job::Job;
use isopipe::params::{ParamValue, StepParams};
use isopipe::step::PipelineStep;

fn store() -> Config {
    let mut c = Config::new();
    c.metadata.insert("run_id".to_string(), "ABCD".to_string());
    c.packages.insert("pbccs".to_string(), "6.4.0".to_string());
    c.global.insert("default_memory".to_string(), ParamValue::Int(16));
    c.global.insert("default_threads".to_string(), ParamValue::Int(4));
    c.global.insert("short_queue".to_string(), ParamValue::Str("shortmed".to_string()));
    let mut ccs = StepParams::new();
    ccs.insert("memory".to_string(), ParamValue::Int(32));
    c.add_param(PipelineStep::Ccs, ccs);
    let mut mm = StepParams::new();
    mm.insert("t".to_string(), ParamValue::Int(8));
    c.add_param(PipelineStep::Minimap, mm);
    c
}

fn jobs() -> Vec<Job> {
    vec![
        Job::new().task(PipelineStep::Ccs).arg("a.bam"),
        Job::from("echo b && echo c".to_string()),
    ]
}

#[test]
fn job_building() {
    let j = Job::new().task(PipelineStep::Refine).arg("in.bam").args(&["x", "y"]);
    assert_eq!(j.cmd(), "isoseq refine in.bam x y");
    assert_eq!(Job::new().task(PipelineStep::Polya).cmd(), "");
}

#[test]
fn manifest_has_one_line_per_job() {
    assert_eq!(manifest_of(&jobs()), "ccs a.bam\necho b && echo c\n");
    assert_eq!(manifest_of(&Vec::new()), "");
}

#[test]
fn para_submission_for_stage() {
    let c = store();
    let mut ex = ParallelExecutor::new(ParallelManager::Para);
    ex.add_jobs(jobs()).add_arg("--x".to_string());
    let sub = ex.execute(&c, &PipelineStep::Ccs, "/runs/r1").unwrap();
    assert_eq!(sub.manifest_path, "/runs/r1/jobs");
    assert_eq!(sub.manifest, "ccs a.bam\necho b && echo c\n");
    assert_eq!(
        sub.command,
        "module load pbccs/6.4.0 && para make ccs_ABCD /runs/r1/jobs -q shortmed -memoryMb 32768 -numCores 4"
    );
    assert!(sub.checked);
    assert_eq!(sub.crash_dir.as_deref(), Some(".para/ccs_ABCD/1"));
    assert!(ex.jobs.is_empty());
    assert!(ex.args.is_empty());
}

#[test]
fn thread_alias_and_default_memory() {
    let c = store();
    let mut ex = ParallelExecutor::new(ParallelManager::Para);
    ex.add_job(Job::from("minimap2 x".to_string()));
    let sub = ex.execute(&c, &PipelineStep::Minimap, "/o").unwrap();
    assert_eq!(
        sub.command,
        "module load minimap2 && para make minimap2_ABCD /o/jobs -q shortmed -memoryMb 16384 -numCores 8"
    );
}

#[test]
fn nextflow_submission_is_unchecked() {
    let c = store();
    let mut ex = ParallelExecutor::new(ParallelManager::Nextflow);
    ex.add_jobs(jobs());
    let sub = ex.execute(&c, &PipelineStep::Ccs, "/o").unwrap();
    assert_eq!(
        sub.command,
        "module load pbccs/6.4.0 && nextflow run assets/execute_joblist.nf --jobs /o/jobs --mem 32 --threads 4"
    );
    assert!(!sub.checked);
    assert!(sub.crash_dir.is_none());
}

#[test]
fn unavailable_backends_are_refused() {
    let c = store();
    let mut ex = ParallelExecutor::new(ParallelManager::Local);
    ex.add_jobs(jobs());
    assert!(matches!(
        ex.execute(&c, &PipelineStep::Ccs, "/o"),
        Err(ExecError::Unimplemented(ParallelManager::Local))
    ));
    assert_eq!(ex.jobs.len(), 2);
    assert!(matches!(
        ParallelManager::Snakemake.init(),
        Err(ExecError::Unimplemented(ParallelManager::Snakemake))
    ));
    assert!(ParallelManager::Para.init().is_ok());
}

#[test]
fn missing_configuration_is_reported() {
    let c = store();
    let mut ex = ParallelExecutor::new(ParallelManager::Para);
    match ex.execute(&c, &PipelineStep::Lima, "/o") {
        Err(ExecError::Config(ConfigError::MissingPackage { name })) => assert_eq!(name, "lima"),
        other => panic!("unexpected {:?}", other),
    }
    let mut bare = store();
    bare.packages.insert("lima".to_string(), "2".to_string());
    match ex.execute(&bare, &PipelineStep::Lima, "/o") {
        Err(ExecError::Config(ConfigError::StepNotConfigured { step })) => {
            assert_eq!(step, PipelineStep::Lima)
        }
        other => panic!("unexpected {:?}", other),
    }
}

#[test]
fn auxiliary_submission_keeps_queue() {
    let c = store();
    let mut ex = ParallelExecutor::new(ParallelManager::Para);
    ex.add_jobs(jobs());
    let sub = ex
        .and_send(&c, "samtools", "/in", 16, 8, "samtools/1.17".to_string())
        .unwrap();
    assert_eq!(
        sub.command,
        "module load samtools/1.17 && para make samtools_ABCD /in/jobs -q shortmed -memoryMb 8192 -numCores 16"
    );
    assert!(sub.crash_dir.is_none());
    assert_eq!(ex.jobs.len(), 2);
    let mut nf = ParallelExecutor::new(ParallelManager::Nextflow);
    assert!(nf.and_send(&c, "x", "/in", 1, 1, String::new()).is_err());
}

#[test]
fn crash_marker_is_first_crashed_file() {
    let names: Vec<String> = vec!["a.log", "b.crashed.txt", "c.crashed", "d.crashed"]
        .into_iter()
        .map(String::from)
        .collect();
    assert_eq!(crash_marker(&names), Some(2));
    assert_eq!(crash_marker(&vec!["x".to_string()]), None);
}

#[test]
fn manager_names() {
    assert_eq!(ParallelManager::new("PARA").unwrap(), ParallelManager::Para);
    assert_eq!(ParallelManager::new("NextFlow").unwrap(), ParallelManager::Nextflow);
    assert_eq!(
        ParallelManager::new("slurm").unwrap_err(),
        "ERROR: Unknown parallel manager: slurm"
    );
    assert_eq!(ParallelManager::from_name("PARA"), None);
    assert_eq!(ParallelManager::Snakemake.as_str(), "snakemake");
    let ex = ParallelManager::Local.as_executor();
    assert_eq!(ex.manager, ParallelManager::Local);
}

#[test]
fn reset_empties_queues() {
    let mut ex = ParallelExecutor::new(ParallelManager::Para);
    ex.add_jobs(jobs());
    ex.add_args(vec!["a".to_string(), "b".to_string()]);
    ex.reset();
    assert!(ex.jobs.is_empty() && ex.args.is_empty());
}

#[test]
fn failed_checked_submission_reports_crash() {
    let c = store();
    let mut ex = ParallelExecutor::new(ParallelManager::Para);
    ex.add_jobs(jobs());
    let sub = ex.execute(&c, &PipelineStep::Ccs, "/o").unwrap();
    match outcome(&sub, false) {
        Outcome::Abort { crash_dir } => assert_eq!(crash_dir.as_deref(), Some(".para/ccs_ABCD/1")),
        other => panic!("unexpected {:?}", other),
    }
    assert!(matches!(outcome(&sub, true), Outcome::Completed));
    let names = vec!["job1.out".to_string(), "job1.crashed".to_string()];
    assert_eq!(crash_marker(&names), Some(1));
    let line = crash_message("OOM");
    assert_eq!(line, "ERROR: OOM");
    assert!(line.contains("OOM"));
}

#[test]
fn unchecked_submission_never_aborts() {
    let c = store();
    let mut ex = ParallelExecutor::new(ParallelManager::Nextflow);
    ex.add_jobs(jobs());
    let sub = ex.execute(&c, &PipelineStep::Ccs, "/o").unwrap();
    assert!(matches!(outcome(&sub, false), Outcome::Completed));
}
