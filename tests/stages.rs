use isopipe::config::{Config, ConfigError};
use isopipe::executor::{ParallelExecutor, ParallelManager};
use isopipe::params::{ParamValue, StepParams};
use isopipe::stages::{
    aggregate_fusions, bam_entries, ccs, cluster, fusion_calls, get_genome, group_key, is_bam, lima,
    merge, merge_plan, merged_bam, minimap2, pbindex, polya, refine, scan_groups, split_spaces_exec,
};
use isopipe::step::PipelineStep;

fn s(v: &str) -> ParamValue {
    ParamValue::Str(v.to_string())
}

fn with(step: PipelineStep, pairs: Vec<(&str, ParamValue)>) -> Config {
    let mut c = Config::new();
    let mut p = StepParams::new();
    for (k, v) in pairs {
        p.insert(k.to_string(), v);
    }
    c.add_param(step, p);
    c
}

fn strings(v: &[&str]) -> Vec<String> {
    v.iter().map(|x| x.to_string()).collect()
}

fn cmds(jobs: &[isopipe::job::Job]) -> Vec<String> {
    jobs.iter().map(|j| j.cmd.clone()).collect()
}

#[test]
fn alignment_files_by_extension() {
    assert!(is_bam("/x/a.bam"));
    assert!(is_bam("/x/a.BAM"));
    assert!(!is_bam("/x/a.bam.pbi"));
    assert!(!is_bam("/x/.bam"));
    assert!(!is_bam("/x/bam"));
    let found = bam_entries(&strings(&["/x/a.bam", "/x/b.txt", "/x/c.Bam"]));
    assert_eq!(found, strings(&["/x/a.bam", "/x/c.Bam"]));
}

#[test]
fn barcode_jobs() {
    let c = with(
        PipelineStep::Lima,
        vec![("primers", s("p.fa")), ("peek", ParamValue::Int(3)), ("input_dir", s("/in"))],
    );
    let jobs = lima(&PipelineStep::Lima, &c, &strings(&["/in/s1.ccs.bam"]), "/out").unwrap();
    assert_eq!(
        cmds(&jobs),
        strings(&["lima --peek 3 /in/s1.ccs.bam p.fa /out/s1.ccs.fl.bam"])
    );
    let bare = with(PipelineStep::Lima, vec![]);
    match lima(&PipelineStep::Lima, &bare, &strings(&["/in/a.bam"]), "/out") {
        Err(ConfigError::MissingRequiredParam { key, .. }) => assert_eq!(key, "primers"),
        other => panic!("unexpected {:?}", other.map(|j| cmds(&j))),
    }
}

#[test]
fn refine_jobs() {
    let c = with(
        PipelineStep::Refine,
        vec![("primers", s("p.fa")), ("require-polya", ParamValue::Bool(true))],
    );
    let jobs = refine(&PipelineStep::Refine, &c, &strings(&["/in/x.fl.bam"]), "/out").unwrap();
    assert_eq!(
        cmds(&jobs),
        strings(&["isoseq refine /in/x.fl.bam p.fa /out/x.fl.flnc.bam --require-polya true"])
    );
}

#[test]
fn consensus_chunks() {
    let c = with(
        PipelineStep::Ccs,
        vec![
            ("chunk", ParamValue::Int(2)),
            ("report-file", s("rep")),
            ("min-rq", ParamValue::Float("0.9".to_string())),
        ],
    );
    let jobs = ccs(&PipelineStep::Ccs, &c, &strings(&["/raw/m1.bam"]), "/out", "sample").unwrap();
    assert_eq!(
        cmds(&jobs),
        strings(&[
            "ccs /raw/m1.bam /out/sample.m1.ccs.1.bam --chunk 1/2 --min-rq 0.9 --report-file /out/rep_1.txt",
            "ccs /raw/m1.bam /out/sample.m1.ccs.2.bam --chunk 2/2 --min-rq 0.9 --report-file /out/rep_2.txt",
        ])
    );
    let bad = with(PipelineStep::Ccs, vec![("chunk", s("x")), ("report-file", s("rep"))]);
    match ccs(&PipelineStep::Ccs, &bad, &strings(&["/raw/m1.bam"]), "/out", "p") {
        Err(ConfigError::InvalidNumber { key, .. }) => assert_eq!(key, "chunk"),
        other => panic!("unexpected {:?}", other.map(|j| cmds(&j))),
    }
    assert!(ccs(&PipelineStep::Ccs, &bad, &Vec::new(), "/out", "p").unwrap().is_empty());
}

#[test]
fn clustering_plan() {
    let c = with(
        PipelineStep::Cluster,
        vec![("log-file", s("log.txt")), ("use-qvs", ParamValue::Bool(true))],
    );
    let plan = cluster(&PipelineStep::Cluster, &c, "/in", "/out").unwrap();
    assert_eq!(plan.listing, "ls /in/*flnc.bam > /out/all.flnc.fofn");
    assert_eq!(
        cmds(&plan.jobs),
        strings(&["isoseq cluster /out/all.flnc.fofn /out/all.clustered.bam --use-qvs true --log-file /out/log.txt"])
    );
}

#[test]
fn alignment_jobs_for_present_categories() {
    let c = with(PipelineStep::Minimap, vec![("genome", s("g.fa")), ("ax", s("splice"))]);
    let jobs = minimap2(&PipelineStep::Minimap, &c, "/in", "/out", "g.fa", &vec![true, false, true]).unwrap();
    assert_eq!(
        cmds(&jobs),
        strings(&[
            "minimap2 -ax splice -o /out/all.clustered.aligned.hq.sam g.fa /in/all.clustered.hq.fasta.gz",
            "minimap2 -ax splice -o /out/all.clustered.aligned.singletons.sam g.fa /in/all.clustered.singletons.fasta.gz",
        ])
    );
    let g = get_genome(&c, &PipelineStep::Minimap, "/out").unwrap();
    assert_eq!(g.fasta, "g.fa");
    assert!(g.convert_from.is_none());
    let t = with(PipelineStep::Minimap, vec![("genome", s("/g/hg38.2bit"))]);
    let g = get_genome(&t, &PipelineStep::Minimap, "/out").unwrap();
    assert_eq!(g.fasta, "/out/genome.fa");
    assert_eq!(g.convert_from.as_deref(), Some("/g/hg38.2bit"));
}

#[test]
fn polya_chains() {
    let c = with(
        PipelineStep::Polya,
        vec![("toga", s("t.bed")), ("assembly", s("hg38")), ("perID", ParamValue::Int(96))],
    );
    let jobs = polya(&PipelineStep::Polya, &c, "/in", "/out", "/a").unwrap();
    assert_eq!(jobs.len(), 2);
    assert_eq!(
        jobs[0].cmd,
        "/a/filter_minimap_qual.perl /in/all.clustered.aligned.hq.sam --perID 96 --outdir /out/polya_first_pass && \
python3 /a/correct_minimap.py t.bed /out/polya_first_pass/all.clustered.aligned.hq.good.sam hg38 /out/all.clustered.aligned.hq.corrected.sam && \
/a/filter_minimap_qual.perl /out/all.clustered.aligned.hq.corrected.sam -polyAReadSuffix 30 --outdir /out && \
bedtools bamtobed -i /out/all.clustered.aligned.hq.corrected.good.sam -bed12 > /out/all.clustered.aligned.hq.corrected.good.bed"
    );
    assert!(jobs[1].cmd.contains("all.clustered.aligned.singletons.sam"));
}

#[test]
fn fusion_gathering() {
    assert_eq!(
        cmds(&aggregate_fusions("/f")),
        strings(&[
            "cat /f/*/*.free.bed > /f/fusions.free.bed",
            "cat /f/*/fusions.bed > /f/fusions.fusions.bed",
            "cat /f/*/*.review.bed > /f/fusions.review.bed",
            "cat /f/*/*.fakes.bed > /f/fusions.fakes.bed",
        ])
    );
}

#[test]
fn sample_keys_and_groups() {
    assert_eq!(group_key("/data/run.s1.ccs.1.bam").as_deref(), Some("s1"));
    assert_eq!(group_key("/d/x.y").as_deref(), Some("y"));
    assert_eq!(group_key("/d/a"), None);
    let groups = scan_groups(&strings(&["/d/p.s1.ccs.1.bam", "/d/p.s2.ccs.1.bam", "/d/p.s1.ccs.2.bam"])).unwrap();
    assert_eq!(groups.len(), 2);
    assert_eq!(groups[0].0, "s1");
    assert_eq!(groups[0].1, strings(&["/d/p.s1.ccs.1.bam", "/d/p.s1.ccs.2.bam"]));
    assert_eq!(groups[1].0, "s2");
    assert_eq!(scan_groups(&strings(&["/d/a"])).unwrap_err(), "/d/a");
}

fn dispatch_store() -> Config {
    let mut c = Config::new();
    c.metadata.insert("run_id".to_string(), "ABCD".to_string());
    c.metadata.insert("samtools".to_string(), "1.17".to_string());
    c.metadata.insert("pbindex".to_string(), "1.7.0".to_string());
    c.global.insert("short_queue".to_string(), s("q"));
    c
}

#[test]
fn merge_plans_and_dispatch() {
    let groups = vec![
        ("s1".to_string(), strings(&["/d/p.s1.1.bam", "/d/p.s1.2.bam"])),
        ("s2".to_string(), strings(&["/d/p.s2.1.bam"])),
    ];
    let (jobs, merged) = merge_plan("/d", &groups, &vec![false, false]);
    assert_eq!(
        cmds(&jobs),
        strings(&["samtools merge -@16 /d/s1.ccs.merged.bam /d/s1*bam && rm /d/s1*bam"])
    );
    assert_eq!(merged, strings(&["/d/s1.ccs.merged.bam"]));
    assert_eq!(merged_bam("/d", "s2"), "/d/s2.ccs.merged.bam");
    assert!(merge_plan("/d", &groups, &vec![true, false]).0.is_empty());

    let c = dispatch_store();
    let mut ex = ParallelExecutor::new(ParallelManager::Para);
    let subs = merge("/d", &mut ex, &c, &groups, &vec![false, false]).unwrap();
    assert_eq!(subs.len(), 2);
    assert_eq!(
        subs[0].command,
        "module load samtools/1.17 && para make samtools_ABCD /d/jobs -q q -memoryMb 8192 -numCores 16"
    );
    assert_eq!(
        subs[1].command,
        "module load pbindex/1.7.0 && para make pbindex_ABCD /d/jobs -q q -memoryMb 8192 -numCores 1"
    );
    assert_eq!(
        subs[1].manifest,
        "samtools merge -@16 /d/s1.ccs.merged.bam /d/s1*bam && rm /d/s1*bam\npbindex /d/s1.ccs.merged.bam\n"
    );
    let mut idle = ParallelExecutor::new(ParallelManager::Para);
    assert!(merge("/d", &mut idle, &c, &groups, &vec![true, true]).unwrap().is_empty());
    assert!(idle.jobs.is_empty());
}

#[test]
fn index_submission() {
    let c = dispatch_store();
    let mut ex = ParallelExecutor::new(ParallelManager::Para);
    let sub = pbindex(&strings(&["/d/a.bam"]), &c, &mut ex, "/out").unwrap();
    assert_eq!(sub.manifest, "pbindex /d/a.bam\n");
    assert_eq!(sub.manifest_path, "/out/jobs");
    assert_eq!(ex.jobs.len(), 1);
    let mut none = Config::new();
    none.metadata.insert("run_id".to_string(), "A".to_string());
    assert!(pbindex(&strings(&["/d/a.bam"]), &none, &mut ex, "/out").is_err());
}

#[test]
fn splitting_at_spaces_keeps_empty_pieces() {
    assert_eq!(split_spaces_exec("a b  c"), strings(&["a", "b", "", "c"]));
    assert_eq!(split_spaces_exec(""), strings(&[""]));
}

#[test]
fn fusion_call_arguments() {
    let c = with(
        PipelineStep::Polya,
        vec![("input_dir", s("/x")), ("min-len", ParamValue::Int(5))],
    );
    let calls = fusion_calls(&PipelineStep::Polya, &c, "/in", "/out").unwrap();
    assert_eq!(calls.len(), 2);
    assert_eq!(calls[0].prefix, "/out/hq");
    assert_eq!(
        calls[0].args,
        strings(&[
            "--query",
            "/in/all.clustered.aligned.hq.corrected.good.bed",
            "--prefix",
            "/out/hq",
            "--min-len",
            "5",
        ])
    );
    assert_eq!(calls[1].prefix, "/out/singletons");
    assert!(fusion_calls(&PipelineStep::Refine, &c, "/in", "/out").is_err());
}
