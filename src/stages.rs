//! The stage compilers: from a stage's parameters and the files it finds,
//! the command lines of its jobs. Listing directories and probing files is
//! the caller's part; what is decided from the names is here.

use vstd::prelude::*;
use crate::config::{Config, ConfigError};
use crate::executor::{para_submission, ExecError, ParallelExecutor, ParallelManager, Submission};
use crate::job::{task_command, Job};
use crate::params::{flat_spec, lookup, str_texts};
use crate::step::PipelineStep;
use crate::text::{ends_with, ends_with_spec, parse_usize, parse_usize_spec, path_join, path_join_spec, u64_text, nat_text};

verus! {

/// What `Path::extension` gives for a path, as text.
pub uninterp spec fn extension_of(p: Seq<char>) -> Option<Seq<char>>;

/// What `Path::file_stem` gives for a path, as text.
pub uninterp spec fn stem_of(p: Seq<char>) -> Option<Seq<char>>;

/// Relies on `Path::extension`: the extension of the path's file name, if any.
#[verifier::external_body]
fn path_extension(p: &str) -> (r: Option<String>)
    ensures
        match r {
            Some(e) => extension_of(p@) == Some(e@),
            None => extension_of(p@) is None,
        },
{
    match std::path::Path::new(p).extension() {
        Some(e) => Some(e.to_string_lossy().into_owned()),
        None => None,
    }
}

/// Relies on `Path::file_stem`: the path's file name without its extension.
#[verifier::external_body]
fn path_file_stem(p: &str) -> (r: Option<String>)
    ensures
        match r {
            Some(s) => stem_of(p@) == Some(s@),
            None => stem_of(p@) is None,
        },
{
    match std::path::Path::new(p).file_stem() {
        Some(s) => Some(s.to_string_lossy().into_owned()),
        None => None,
    }
}

/// The file stem of a path; empty when it has no file name.
pub open spec fn stem_text(p: Seq<char>) -> Seq<char> {
    match stem_of(p) {
        Some(s) => s,
        None => Seq::empty(),
    }
}

/// `bam` in any letter case.
pub open spec fn is_bam_ext(e: Seq<char>) -> bool {
    &&& e.len() == 3
    &&& (e[0] == 'b' || e[0] == 'B')
    &&& (e[1] == 'a' || e[1] == 'A')
    &&& (e[2] == 'm' || e[2] == 'M')
}

/// Whether a path names an alignment file by its extension.
pub open spec fn is_bam_path(p: Seq<char>) -> bool {
    extension_of(p) matches Some(e) && is_bam_ext(e)
}

pub open spec fn bam_pred() -> spec_fn(Seq<char>) -> bool {
    |p: Seq<char>| is_bam_path(p)
}

pub open spec fn texts(v: Seq<String>) -> Seq<Seq<char>> {
    v.map_values(|s: String| s@)
}

pub open spec fn cmds(v: Seq<Job>) -> Seq<Seq<char>> {
    v.map_values(|j: Job| j.cmd@)
}

/// Whether the path's extension is `bam`, in any letter case.
pub fn is_bam(path: &str) -> (r: bool)
    ensures
        r == is_bam_path(path@),
{
    match path_extension(path) {
        Some(e) => {
            let s = e.as_str();
            if s.unicode_len() != 3 {
                return false;
            }
            let a = s.get_char(0);
            let b = s.get_char(1);
            let c = s.get_char(2);
            (a == 'b' || a == 'B') && (b == 'a' || b == 'A') && (c == 'm' || c == 'M')
        },
        None => false,
    }
}

/// The alignment files among the entries of a directory, in order.
pub fn bam_entries(entries: &Vec<String>) -> (r: Vec<String>)
    ensures
        texts(r@) == texts(entries@).filter(bam_pred()),
{
    let ghost all = texts(entries@);
    let mut out: Vec<String> = Vec::new();
    let mut i: usize = 0;
    proof {
        reveal(Seq::filter);
        assert(all.take(0) =~= Seq::<Seq<char>>::empty());
        assert(texts(out@) =~= Seq::<Seq<char>>::empty());
    }
    while i < entries.len()
        invariant
            i <= entries@.len(),
            all == texts(entries@),
            texts(out@) == all.take(i as int).filter(bam_pred()),
        decreases entries@.len() - i,
    {
        proof {
            assert(all.take(i + 1) =~= all.take(i as int).push(all[i as int]));
            all.take(i as int).lemma_filter_push(all[i as int], bam_pred());
        }
        if is_bam(entries[i].as_str()) {
            let ghost before = out@;
            out.push(entries[i].clone());
            assert(texts(out@) =~= texts(before).push(all[i as int]));
        }
        i = i + 1;
    }
    assert(all.take(entries@.len() as int) =~= all);
    out
}

/// The keys a stage's flags leave out for the barcode stage.
pub open spec fn lima_excluded() -> Seq<Seq<char>> {
    seq!["input_dir"@, "prefix"@, "output_dir"@, "memory"@, "time"@, "primers"@]
}

/// The keys left out for the refinement stage.
pub open spec fn refine_excluded() -> Seq<Seq<char>> {
    seq!["input_dir"@, "output_dir"@, "memory"@, "time"@, "primers"@]
}

/// The barcode stage's command for one file.
pub open spec fn lima_cmd(
    step: PipelineStep,
    args: Seq<char>,
    bam: Seq<char>,
    primers: Seq<char>,
    out_dir: Seq<char>,
) -> Seq<char> {
    task_command(step) + " "@ + args + " "@ + bam + " "@ + primers + " "@ + path_join_spec(
        out_dir,
        stem_text(bam) + ".fl.bam"@,
    )
}

/// The refinement stage's command for one file.
pub open spec fn refine_cmd(
    step: PipelineStep,
    args: Seq<char>,
    bam: Seq<char>,
    primers: Seq<char>,
    out_dir: Seq<char>,
) -> Seq<char> {
    task_command(step) + " "@ + bam + " "@ + primers + " "@ + path_join_spec(
        out_dir,
        stem_text(bam) + ".flnc.bam"@,
    ) + " "@ + args
}

fn stem_string(p: &str) -> (r: String)
    ensures
        r@ == stem_text(p@),
{
    match path_file_stem(p) {
        Some(s) => s,
        None => String::new(),
    }
}

/// The primers field and the flags of a stage, as the barcode and
/// refinement stages read them.
fn primers_and_args(config: &Config, step: &PipelineStep, exclude: Vec<&str>) -> (r: Result<
    (String, String),
    ConfigError,
>)
    requires
        config.wf(),
    ensures
        !config.configured(*step) ==> (r matches Err(ConfigError::StepNotConfigured { step: s })
            && s == *step),
        config.configured(*step) ==> match lookup(config.table(*step), "primers"@) {
            None => r matches Err(ConfigError::MissingRequiredParam { step: s, key }) && s == *step
                && key@ == "primers"@,
            Some(p) => r matches Ok(pa) && pa.0@ == p.text() && pa.1@ == flat_spec(
                config.table(*step),
                str_texts(exclude@),
            ),
        },
{
    let fields = config.get_step_custom_fields(step, vec!["primers"])?;
    proof {
        reveal_strlit("primers");
    }
    let primers = fields[0].clone();
    let args = config.get_step_args(step, exclude)?;
    Ok((primers, args))
}

/// The barcode stage: one job per alignment file.
pub fn lima(step: &PipelineStep, config: &Config, bams: &Vec<String>, step_output_dir: &str) -> (r:
    Result<Vec<Job>, ConfigError>)
    requires
        config.wf(),
    ensures
        !config.configured(*step) ==> (r matches Err(ConfigError::StepNotConfigured { step: s })
            && s == *step),
        config.configured(*step) ==> match lookup(config.table(*step), "primers"@) {
            None => r matches Err(ConfigError::MissingRequiredParam { step: s, key }) && s == *step
                && key@ == "primers"@,
            Some(p) => r matches Ok(jobs) && jobs@.len() == bams@.len() && forall|i: int|
                0 <= i < bams@.len() ==> (#[trigger] jobs@[i]).cmd@ == lima_cmd(
                    *step,
                    flat_spec(config.table(*step), lima_excluded()),
                    bams@[i]@,
                    p.text(),
                    step_output_dir@,
                ),
        },
{
    let ex = vec!["input_dir", "prefix", "output_dir", "memory", "time", "primers"];
    assert(str_texts(ex@) =~= lima_excluded());
    let (primers, args) = primers_and_args(config, step, ex)?;
    let mut jobs: Vec<Job> = Vec::new();
    let mut i: usize = 0;
    while i < bams.len()
        invariant
            i <= bams@.len(),
            jobs@.len() == i,
            forall|j: int|
                0 <= j < i ==> (#[trigger] jobs@[j]).cmd@ == lima_cmd(
                    *step,
                    args@,
                    bams@[j]@,
                    primers@,
                    step_output_dir@,
                ),
        decreases bams@.len() - i,
    {
        let bam = bams[i].as_str();
        let mut name = stem_string(bam);
        name.append(".fl.bam");
        let out = path_join(step_output_dir, name.as_str());
        let job = Job::new().task(*step).arg(args.as_str()).arg(bam).arg(primers.as_str()).arg(
            out.as_str(),
        );
        assert(job.cmd@ =~= lima_cmd(*step, args@, bams@[i as int]@, primers@, step_output_dir@));
        jobs.push(job);
        i = i + 1;
    }
    Ok(jobs)
}

/// The refinement stage: one job per alignment file.
pub fn refine(step: &PipelineStep, config: &Config, bams: &Vec<String>, step_output_dir: &str) -> (r:
    Result<Vec<Job>, ConfigError>)
    requires
        config.wf(),
    ensures
        !config.configured(*step) ==> (r matches Err(ConfigError::StepNotConfigured { step: s })
            && s == *step),
        config.configured(*step) ==> match lookup(config.table(*step), "primers"@) {
            None => r matches Err(ConfigError::MissingRequiredParam { step: s, key }) && s == *step
                && key@ == "primers"@,
            Some(p) => r matches Ok(jobs) && jobs@.len() == bams@.len() && forall|i: int|
                0 <= i < bams@.len() ==> (#[trigger] jobs@[i]).cmd@ == refine_cmd(
                    *step,
                    flat_spec(config.table(*step), refine_excluded()),
                    bams@[i]@,
                    p.text(),
                    step_output_dir@,
                ),
        },
{
    let ex = vec!["input_dir", "output_dir", "memory", "time", "primers"];
    assert(str_texts(ex@) =~= refine_excluded());
    let (primers, args) = primers_and_args(config, step, ex)?;
    let mut jobs: Vec<Job> = Vec::new();
    let mut i: usize = 0;
    while i < bams.len()
        invariant
            i <= bams@.len(),
            jobs@.len() == i,
            forall|j: int|
                0 <= j < i ==> (#[trigger] jobs@[j]).cmd@ == refine_cmd(
                    *step,
                    args@,
                    bams@[j]@,
                    primers@,
                    step_output_dir@,
                ),
        decreases bams@.len() - i,
    {
        let bam = bams[i].as_str();
        let mut name = stem_string(bam);
        name.append(".flnc.bam");
        let out = path_join(step_output_dir, name.as_str());
        let job = Job::new().task(*step).arg(bam).arg(primers.as_str()).arg(out.as_str()).arg(
            args.as_str(),
        );
        assert(job.cmd@ =~= refine_cmd(*step, args@, bams@[i as int]@, primers@, step_output_dir@));
        jobs.push(job);
        i = i + 1;
    }
    Ok(jobs)
}

/// The four kinds of fusion call, each gathered into one file.
pub open spec fn fusion_types() -> Seq<Seq<char>> {
    seq!["free"@, "fusions"@, "review"@, "fakes"@]
}

/// The command that gathers one kind of fusion call from every category.
pub open spec fn aggregate_cmd(dir: Seq<char>, ty: Seq<char>) -> Seq<char> {
    let pattern = if ty == "fusions"@ {
        dir + "/*/"@ + ty + ".bed"@
    } else {
        dir + "/*/*."@ + ty + ".bed"@
    };
    "cat "@ + pattern + " > "@ + dir + "/fusions."@ + ty + ".bed"@
}

fn aggregate_one(dir: &str, ty: &str) -> (r: Job)
    ensures
        r.cmd@ == aggregate_cmd(dir@, ty@),
{
    let mut cmd = String::from_str("cat ");
    cmd.append(dir);
    if crate::text::str_eq(ty, "fusions") {
        cmd.append("/*/");
    } else {
        cmd.append("/*/*.");
    }
    cmd.append(ty);
    cmd.append(".bed > ");
    cmd.append(dir);
    cmd.append("/fusions.");
    cmd.append(ty);
    cmd.append(".bed");
    proof {
        reveal_strlit(".bed > ");
        reveal_strlit(".bed");
        reveal_strlit(" > ");
    }
    assert(cmd@ =~= aggregate_cmd(dir@, ty@));
    Job::from(cmd)
}

/// Jobs that gather each kind of fusion call from the per-category
/// directories into one file.
pub fn aggregate_fusions(step_output_dir: &str) -> (r: Vec<Job>)
    ensures
        r@.len() == 4,
        forall|i: int| 0 <= i < 4 ==> (#[trigger] r@[i]).cmd@ == aggregate_cmd(
            step_output_dir@,
            fusion_types()[i],
        ),
{
    let mut jobs: Vec<Job> = Vec::new();
    jobs.push(aggregate_one(step_output_dir, "free"));
    jobs.push(aggregate_one(step_output_dir, "fusions"));
    jobs.push(aggregate_one(step_output_dir, "review"));
    jobs.push(aggregate_one(step_output_dir, "fakes"));
    jobs
}

/// The index command for one alignment file.
pub open spec fn pbindex_cmd(bam: Seq<char>) -> Seq<char> {
    "pbindex "@ + bam
}

/// One index job per alignment file.
pub fn pbindex_jobs(bams: &Vec<String>) -> (r: Vec<Job>)
    ensures
        r@.len() == bams@.len(),
        forall|i: int| 0 <= i < bams@.len() ==> (#[trigger] r@[i]).cmd@ == pbindex_cmd(bams@[i]@),
{
    let mut jobs: Vec<Job> = Vec::new();
    let mut i: usize = 0;
    while i < bams.len()
        invariant
            i <= bams@.len(),
            jobs@.len() == i,
            forall|j: int| 0 <= j < i ==> (#[trigger] jobs@[j]).cmd@ == pbindex_cmd(bams@[j]@),
        decreases bams@.len() - i,
    {
        let mut cmd = String::from_str("pbindex ");
        cmd.append(bams[i].as_str());
        jobs.push(Job::from(cmd));
        i = i + 1;
    }
    jobs
}

/// Where a stage's genome comes from: a FASTA path as given, or a `.2bit`
/// file to be converted into `genome.fa` in the stage's output directory.
pub struct Genome {
    pub fasta: String,
    pub convert_from: Option<String>,
}

/// The genome a stage names in its `genome` parameter.
pub fn get_genome(config: &Config, step: &PipelineStep, step_output_dir: &str) -> (r: Result<
    Genome,
    ConfigError,
>)
    requires
        config.wf(),
    ensures
        !config.configured(*step) ==> (r matches Err(ConfigError::StepNotConfigured { step: s })
            && s == *step),
        config.configured(*step) ==> match lookup(config.table(*step), "genome"@) {
            None => r matches Err(ConfigError::MissingRequiredParam { step: s, key }) && s == *step
                && key@ == "genome"@,
            Some(g) => r matches Ok(genome) && if ends_with_spec(g.text(), ".2bit"@) {
                genome.convert_from matches Some(src) && src@ == g.text() && genome.fasta@
                    == path_join_spec(step_output_dir@, "genome.fa"@)
            } else {
                genome.convert_from is None && genome.fasta@ == g.text()
            },
        },
{
    let fields = config.get_step_custom_fields(step, vec!["genome"])?;
    proof {
        reveal_strlit("genome");
    }
    let file = fields[0].clone();
    if ends_with(file.as_str(), ".2bit") {
        Ok(Genome { fasta: path_join(step_output_dir, "genome.fa"), convert_from: Some(file) })
    } else {
        Ok(Genome { fasta: file, convert_from: None })
    }
}

/// The clustering categories, in order.
pub open spec fn categories() -> Seq<Seq<char>> {
    seq!["hq"@, "lq"@, "singletons"@]
}

/// The clustered reads of a category.
pub open spec fn clustered_reads_path(input_dir: Seq<char>, category: Seq<char>) -> Seq<char> {
    path_join_spec(input_dir, "all.clustered."@ + category + ".fasta.gz"@)
}

/// The clustered reads of a category.
pub fn clustered_reads(input_dir: &str, category: &str) -> (r: String)
    ensures
        r@ == clustered_reads_path(input_dir@, category@),
{
    let mut name = String::from_str("all.clustered.");
    name.append(category);
    name.append(".fasta.gz");
    path_join(input_dir, name.as_str())
}

/// The aligner's command for one category.
pub open spec fn minimap_cmd(
    step: PipelineStep,
    args: Seq<char>,
    out_dir: Seq<char>,
    genome: Seq<char>,
    input_dir: Seq<char>,
    category: Seq<char>,
) -> Seq<char> {
    task_command(step) + " "@ + args + " "@ + "-o "@ + path_join_spec(
        out_dir,
        "all.clustered.aligned."@ + category + ".sam"@,
    ) + " "@ + genome + " "@ + clustered_reads_path(input_dir, category)
}

/// The keys left out for the aligner.
pub open spec fn minimap_excluded() -> Seq<Seq<char>> {
    seq!["input_dir"@, "output_dir"@, "memory"@, "time"@, "genome"@]
}

/// The aligner stage: one job per category whose reads are present (in
/// `present`, one flag per category in order).
pub fn minimap2(
    step: &PipelineStep,
    config: &Config,
    input_dir: &str,
    step_output_dir: &str,
    genome: &str,
    present: &Vec<bool>,
) -> (r: Result<Vec<Job>, ConfigError>)
    requires
        config.wf(),
        present@.len() == 3,
    ensures
        !config.configured(*step) ==> (r matches Err(ConfigError::StepNotConfigured { step: s })
            && s == *step),
        config.configured(*step) ==> (r matches Ok(jobs) && cmds(jobs@) == categories().filter(
            category_present(present@),
        ).map_values(
            minimap_for(
                *step,
                flat_spec(config.table(*step), minimap_excluded()),
                step_output_dir@,
                genome@,
                input_dir@,
            ),
        )),
{
    let ex = vec!["input_dir", "output_dir", "memory", "time", "genome"];
    assert(str_texts(ex@) =~= minimap_excluded());
    let args = config.get_step_args(step, ex)?;
    let cats = vec!["hq", "lq", "singletons"];
    proof {
        reveal_strlit("hq");
        reveal_strlit("lq");
        reveal_strlit("singletons");
        reveal(Seq::filter);
    }
    let ghost p = category_present(present@);
    let ghost f = minimap_for(
        *step,
        flat_spec(config.table(*step), minimap_excluded()),
        step_output_dir@,
        genome@,
        input_dir@,
    );
    let mut jobs: Vec<Job> = Vec::new();
    let mut i: usize = 0;
    assert(categories().take(0) =~= Seq::<Seq<char>>::empty());
    assert(cmds(jobs@) =~= Seq::<Seq<char>>::empty());
    while i < 3
        invariant
            i <= 3,
            present@.len() == 3,
            cats@.len() == 3,
            forall|k: int| 0 <= k < 3 ==> (#[trigger] cats@[k])@ == categories()[k],
            args@ == flat_spec(config.table(*step), minimap_excluded()),
            p == category_present(present@),
            f == minimap_for(
                *step,
                flat_spec(config.table(*step), minimap_excluded()),
                step_output_dir@,
                genome@,
                input_dir@,
            ),
            cmds(jobs@) == categories().take(i as int).filter(p).map_values(f),
        decreases 3 - i,
    {
        let cat = cats[i];
        proof {
            reveal_strlit("hq");
            reveal_strlit("lq");
            reveal_strlit("singletons");
            assert("hq"@.len() == 2 && "lq"@.len() == 2 && "singletons"@.len() == 10);
            assert("hq"@[0] != "lq"@[0]);
            assert(categories().take(i + 1) =~= categories().take(i as int).push(categories()[i as int]));
            categories().take(i as int).lemma_filter_push(categories()[i as int], p);
            assert(category_index(categories()[i as int]) == i);
        }
        if present[i] {
            let mut name = String::from_str("all.clustered.aligned.");
            name.append(cat);
            name.append(".sam");
            let alignment = path_join(step_output_dir, name.as_str());
            let mut o = String::from_str("-o ");
            o.append(alignment.as_str());
            let reads = clustered_reads(input_dir, cat);
            let job = Job::new().task(*step).arg(args.as_str()).arg(o.as_str()).arg(genome).arg(
                reads.as_str(),
            );
            let ghost before = jobs@;
            assert(job.cmd@ =~= f(categories()[i as int]));
            jobs.push(job);
            assert(cmds(jobs@) =~= cmds(before).push(job.cmd@));
            assert(categories().take(i as int).filter(p).push(categories()[i as int]).map_values(f)
                =~= categories().take(i as int).filter(p).map_values(f).push(f(categories()[i as int])));
        }
        i = i + 1;
    }
    assert(categories().take(3) =~= categories());
    Ok(jobs)
}

/// Whether a category's reads are present, by its flag.
pub open spec fn category_present(present: Seq<bool>) -> spec_fn(Seq<char>) -> bool {
    |c: Seq<char>| present[category_index(c)]
}

/// The aligner's command for each category.
pub open spec fn minimap_for(
    step: PipelineStep,
    args: Seq<char>,
    out_dir: Seq<char>,
    genome: Seq<char>,
    input_dir: Seq<char>,
) -> spec_fn(Seq<char>) -> Seq<char> {
    |c: Seq<char>| minimap_cmd(step, args, out_dir, genome, input_dir, c)
}

/// Position of a category in `categories()`.
pub open spec fn category_index(c: Seq<char>) -> int {
    if c == "hq"@ {
        0
    } else if c == "lq"@ {
        1
    } else {
        2
    }
}

/// The keys left out for the consensus stage.
pub open spec fn ccs_excluded() -> Seq<Seq<char>> {
    seq![
        "input_dir"@,
        "prefix"@,
        "output_dir"@,
        "chunk"@,
        "memory"@,
        "time"@,
        "report-file"@,
        "num-cores"@,
    ]
}

/// The consensus command for chunk `i` of `n` of one file.
pub open spec fn ccs_chunk_cmd(
    bam: Seq<char>,
    i: nat,
    n: nat,
    prefix: Seq<char>,
    out_dir: Seq<char>,
    args: Seq<char>,
    report: Seq<char>,
) -> Seq<char> {
    "ccs"@ + " "@ + bam + " "@ + path_join_spec(
        out_dir,
        prefix + "."@ + stem_text(bam) + ".ccs."@ + nat_text(i) + ".bam"@,
    ) + " "@ + "--chunk "@ + nat_text(i) + "/"@ + nat_text(n) + " "@ + args + " "@
        + "--report-file "@ + out_dir + "/"@ + report + "_"@ + nat_text(i) + ".txt"@
}

/// The chunk commands of one file, chunks numbered from 1.
pub open spec fn ccs_file_cmds(
    bam: Seq<char>,
    n: nat,
    prefix: Seq<char>,
    out_dir: Seq<char>,
    args: Seq<char>,
    report: Seq<char>,
) -> Seq<Seq<char>> {
    Seq::new(n, |k: int| ccs_chunk_cmd(bam, (k + 1) as nat, n, prefix, out_dir, args, report))
}

/// The consensus commands of all files, file by file.
pub open spec fn ccs_cmds(
    bams: Seq<Seq<char>>,
    n: nat,
    prefix: Seq<char>,
    out_dir: Seq<char>,
    args: Seq<char>,
    report: Seq<char>,
) -> Seq<Seq<char>>
    decreases bams.len(),
{
    if bams.len() == 0 {
        Seq::empty()
    } else {
        ccs_cmds(bams.drop_last(), n, prefix, out_dir, args, report) + ccs_file_cmds(
            bams.last(),
            n,
            prefix,
            out_dir,
            args,
            report,
        )
    }
}

fn ccs_chunk(
    bam: &str,
    i: usize,
    n: usize,
    prefix: &str,
    out_dir: &str,
    args: &str,
    report: &str,
) -> (r: Job)
    ensures
        r.cmd@ == ccs_chunk_cmd(bam@, i as nat, n as nat, prefix@, out_dir@, args@, report@),
{
    let it = u64_text(i as u64);
    let nt = u64_text(n as u64);
    let mut name = String::from_str(prefix);
    name.append(".");
    name.append(stem_string(bam).as_str());
    name.append(".ccs.");
    name.append(it.as_str());
    name.append(".bam");
    let out_bam = path_join(out_dir, name.as_str());
    let mut chunks = String::from_str("--chunk ");
    chunks.append(it.as_str());
    chunks.append("/");
    chunks.append(nt.as_str());
    let mut rep = String::from_str("--report-file ");
    rep.append(out_dir);
    rep.append("/");
    rep.append(report);
    rep.append("_");
    rep.append(it.as_str());
    rep.append(".txt");
    let job = Job::new().task(PipelineStep::Ccs).arg(bam).arg(out_bam.as_str()).arg(
        chunks.as_str(),
    ).arg(args).arg(rep.as_str());
    assert(job.cmd@ =~= ccs_chunk_cmd(bam@, i as nat, n as nat, prefix@, out_dir@, args@, report@));
    job
}

/// The consensus stage: every file is split into `chunk` chunks, one job
/// each, with a report per chunk.
pub fn ccs(
    step: &PipelineStep,
    config: &Config,
    bams: &Vec<String>,
    step_output_dir: &str,
    prefix: &str,
) -> (r: Result<Vec<Job>, ConfigError>)
    requires
        config.wf(),
    ensures
        !config.configured(*step) ==> (r matches Err(ConfigError::StepNotConfigured { step: s })
            && s == *step),
        config.configured(*step) ==> match lookup(config.table(*step), "chunk"@) {
            None => r matches Err(ConfigError::MissingRequiredParam { step: s, key }) && s == *step
                && key@ == "chunk"@,
            Some(chunk) => match lookup(config.table(*step), "report-file"@) {
                None => r matches Err(ConfigError::MissingRequiredParam { step: s, key }) && s
                    == *step && key@ == "report-file"@,
                Some(report) => if bams@.len() == 0 {
                    r matches Ok(jobs) && jobs@.len() == 0
                } else {
                    match parse_usize_spec(chunk.text()) {
                        None => r matches Err(ConfigError::InvalidNumber { step: s, key }) && s
                            == *step && key@ == "chunk"@,
                        Some(n) => r matches Ok(jobs) && cmds(jobs@) == ccs_cmds(
                            texts(bams@),
                            n,
                            prefix@,
                            step_output_dir@,
                            flat_spec(config.table(*step), ccs_excluded()),
                            report.text(),
                        ),
                    }
                },
            },
        },
{
    let fields = config.get_step_custom_fields(step, vec!["chunk", "report-file"])?;
    proof {
        reveal_strlit("chunk");
        reveal_strlit("report-file");
    }
    let ex = vec!["input_dir", "prefix", "output_dir", "chunk", "memory", "time", "report-file", "num-cores"];
    assert(str_texts(ex@) =~= ccs_excluded());
    let args = config.get_step_args(step, ex)?;
    let mut jobs: Vec<Job> = Vec::new();
    if bams.len() == 0 {
        return Ok(jobs);
    }
    let n = match parse_usize(fields[0].as_str()) {
        Some(n) => n,
        None => {
            return Err(ConfigError::InvalidNumber { step: *step, key: String::from_str("chunk") });
        },
    };
    let report = fields[1].as_str();
    let ghost all = texts(bams@);
    let mut b: usize = 0;
    assert(all.take(0) =~= Seq::<Seq<char>>::empty());
    assert(cmds(jobs@) =~= Seq::<Seq<char>>::empty());
    while b < bams.len()
        invariant
            b <= bams@.len(),
            all == texts(bams@),
            cmds(jobs@) == ccs_cmds(all.take(b as int), n as nat, prefix@, step_output_dir@, args@, report@),
        decreases bams@.len() - b,
    {
        let bam = bams[b].as_str();
        let ghost base = cmds(jobs@);
        let mut c: usize = 0;
        assert(base + ccs_file_cmds(bam@, n as nat, prefix@, step_output_dir@, args@, report@).take(0) =~= base);
        while c < n
            invariant
                c <= n,
                bam@ == all[b as int],
                cmds(jobs@) == base + ccs_file_cmds(bam@, n as nat, prefix@, step_output_dir@, args@, report@).take(c as int),
            decreases n - c,
        {
            let job = ccs_chunk(bam, c + 1, n, prefix, step_output_dir, args.as_str(), report);
            let ghost before = jobs@;
            jobs.push(job);
            proof {
                let fc = ccs_file_cmds(bam@, n as nat, prefix@, step_output_dir@, args@, report@);
                assert(fc.take(c + 1) =~= fc.take(c as int).push(fc[c as int]));
                assert(cmds(jobs@) =~= cmds(before).push(job.cmd@));
            }
            c = c + 1;
        }
        proof {
            let fc = ccs_file_cmds(bam@, n as nat, prefix@, step_output_dir@, args@, report@);
            assert(fc.take(n as int) =~= fc);
            assert(all.take(b + 1).drop_last() =~= all.take(b as int));
        }
        b = b + 1;
    }
    assert(all.take(bams@.len() as int) =~= all);
    Ok(jobs)
}

/// A clustering run: first the shell command that lists the refined reads
/// into a file-of-files, then the clustering job.
pub struct ClusterPlan {
    pub listing: String,
    pub jobs: Vec<Job>,
}

/// The keys left out for the clustering stage.
pub open spec fn cluster_excluded() -> Seq<Seq<char>> {
    seq!["input_dir"@, "output_dir"@, "memory"@, "time"@, "log-file"@]
}

/// The shell command that lists the refined reads.
pub open spec fn cluster_listing(input_dir: Seq<char>, out_dir: Seq<char>) -> Seq<char> {
    "ls "@ + input_dir + "/*flnc.bam"@ + " > "@ + out_dir + "/all.flnc.fofn"@
}

/// The clustering command.
pub open spec fn cluster_cmd(step: PipelineStep, out_dir: Seq<char>, args: Seq<char>, log: Seq<char>) -> Seq<
    char,
> {
    task_command(step) + " "@ + out_dir + "/all.flnc.fofn"@ + " "@ + out_dir + "/all.clustered.bam"@
        + " "@ + args + " "@ + "--log-file "@ + out_dir + "/"@ + log
}

/// The clustering stage.
pub fn cluster(step: &PipelineStep, config: &Config, input_dir: &str, step_output_dir: &str) -> (r:
    Result<ClusterPlan, ConfigError>)
    requires
        config.wf(),
    ensures
        !config.configured(*step) ==> (r matches Err(ConfigError::StepNotConfigured { step: s })
            && s == *step),
        config.configured(*step) ==> match lookup(config.table(*step), "log-file"@) {
            None => r matches Err(ConfigError::MissingRequiredParam { step: s, key }) && s == *step
                && key@ == "log-file"@,
            Some(log) => r matches Ok(plan) && plan.listing@ == cluster_listing(
                input_dir@,
                step_output_dir@,
            ) && plan.jobs@.len() == 1 && plan.jobs@[0].cmd@ == cluster_cmd(
                *step,
                step_output_dir@,
                flat_spec(config.table(*step), cluster_excluded()),
                log.text(),
            ),
        },
{
    let mut listing = String::from_str("ls ");
    listing.append(input_dir);
    listing.append("/*flnc.bam");
    listing.append(" > ");
    listing.append(step_output_dir);
    listing.append("/all.flnc.fofn");
    let ex = vec!["input_dir", "output_dir", "memory", "time", "log-file"];
    assert(str_texts(ex@) =~= cluster_excluded());
    let args = config.get_step_args(step, ex)?;
    let fields = config.get_step_custom_fields(step, vec!["log-file"])?;
    proof {
        reveal_strlit("log-file");
    }
    let mut fofn = String::from_str(step_output_dir);
    fofn.append("/all.flnc.fofn");
    let mut out_bam = String::from_str(step_output_dir);
    out_bam.append("/all.clustered.bam");
    let mut log = String::from_str("--log-file ");
    log.append(step_output_dir);
    log.append("/");
    log.append(fields[0].as_str());
    let job = Job::new().task(*step).arg(fofn.as_str()).arg(out_bam.as_str()).arg(args.as_str()).arg(
        log.as_str(),
    );
    assert(job.cmd@ =~= cluster_cmd(*step, step_output_dir@, args@, fields@[0]@));
    let mut jobs: Vec<Job> = Vec::new();
    jobs.push(job);
    Ok(ClusterPlan { listing, jobs })
}

/// The keys left out for the poly-A stage.
pub open spec fn polya_excluded() -> Seq<Seq<char>> {
    seq!["input_dir"@, "output_dir"@, "memory"@, "time"@, "toga"@, "assembly"@]
}

pub open spec fn polya_base(category: Seq<char>) -> Seq<char> {
    "all.clustered.aligned."@ + category
}

/// First filtering pass of the poly-A pipeline.
pub open spec fn polya_first(assets: Seq<char>, input_dir: Seq<char>, out_dir: Seq<char>, args: Seq<char>, category: Seq<char>) -> Seq<char> {
    path_join_spec(assets, "filter_minimap_qual.perl"@) + " "@ + path_join_spec(
        input_dir,
        polya_base(category) + ".sam"@,
    ) + " "@ + args + " --outdir "@ + path_join_spec(out_dir, "polya_first_pass"@)
}

/// Correction of the reads that passed the first filter.
pub open spec fn polya_fix(assets: Seq<char>, out_dir: Seq<char>, toga: Seq<char>, assembly: Seq<char>, category: Seq<char>) -> Seq<char> {
    "python3 "@ + path_join_spec(assets, "correct_minimap.py"@) + " "@ + toga + " "@ + path_join_spec(
        path_join_spec(out_dir, "polya_first_pass"@),
        polya_base(category) + ".good.sam"@,
    ) + " "@ + assembly + " "@ + path_join_spec(out_dir, polya_base(category) + ".corrected.sam"@)
}

/// Second filtering pass, on the corrected reads.
pub open spec fn polya_second(assets: Seq<char>, out_dir: Seq<char>, category: Seq<char>) -> Seq<char> {
    path_join_spec(assets, "filter_minimap_qual.perl"@) + " "@ + path_join_spec(
        out_dir,
        polya_base(category) + ".corrected.sam"@,
    ) + " -polyAReadSuffix 30 --outdir "@ + out_dir
}

/// Conversion of the good corrected reads to BED.
pub open spec fn polya_convert(out_dir: Seq<char>, category: Seq<char>) -> Seq<char> {
    "bedtools bamtobed -i "@ + path_join_spec(out_dir, polya_base(category) + ".corrected.good.sam"@)
        + " -bed12 > "@ + path_join_spec(out_dir, polya_base(category) + ".corrected.good.bed"@)
}

/// The poly-A pipeline for one category: filter, correct, filter again,
/// convert to BED, chained with `&&`.
pub open spec fn polya_cmd(
    assets: Seq<char>,
    input_dir: Seq<char>,
    out_dir: Seq<char>,
    args: Seq<char>,
    toga: Seq<char>,
    assembly: Seq<char>,
    category: Seq<char>,
) -> Seq<char> {
    polya_first(assets, input_dir, out_dir, args, category) + " && "@ + polya_fix(
        assets,
        out_dir,
        toga,
        assembly,
        category,
    ) + " && "@ + polya_second(assets, out_dir, category) + " && "@ + polya_convert(
        out_dir,
        category,
    )
}

fn with_suffix(base: &str, suffix: &str) -> (r: String)
    ensures
        r@ == base@ + suffix@,
{
    let mut s = String::from_str(base);
    s.append(suffix);
    s
}

fn polya_first_exec(assets: &str, input_dir: &str, out_dir: &str, args: &str, category: &str) -> (r: String)
    ensures
        r@ == polya_first(assets@, input_dir@, out_dir@, args@, category@),
{
    let base = with_suffix("all.clustered.aligned.", category);
    let sam = with_suffix(base.as_str(), ".sam");
    let mut cmd = path_join(assets, "filter_minimap_qual.perl");
    cmd.append(" ");
    cmd.append(path_join(input_dir, sam.as_str()).as_str());
    cmd.append(" ");
    cmd.append(args);
    cmd.append(" --outdir ");
    cmd.append(path_join(out_dir, "polya_first_pass").as_str());
    assert(cmd@ =~= polya_first(assets@, input_dir@, out_dir@, args@, category@));
    cmd
}

fn polya_fix_exec(assets: &str, out_dir: &str, toga: &str, assembly: &str, category: &str) -> (r: String)
    ensures
        r@ == polya_fix(assets@, out_dir@, toga@, assembly@, category@),
{
    let base = with_suffix("all.clustered.aligned.", category);
    let good = with_suffix(base.as_str(), ".good.sam");
    let corrected = with_suffix(base.as_str(), ".corrected.sam");
    let first_pass_dir = path_join(out_dir, "polya_first_pass");
    let mut cmd = String::from_str("python3 ");
    cmd.append(path_join(assets, "correct_minimap.py").as_str());
    cmd.append(" ");
    cmd.append(toga);
    cmd.append(" ");
    cmd.append(path_join(first_pass_dir.as_str(), good.as_str()).as_str());
    cmd.append(" ");
    cmd.append(assembly);
    cmd.append(" ");
    cmd.append(path_join(out_dir, corrected.as_str()).as_str());
    assert(cmd@ =~= polya_fix(assets@, out_dir@, toga@, assembly@, category@));
    cmd
}

fn polya_second_exec(assets: &str, out_dir: &str, category: &str) -> (r: String)
    ensures
        r@ == polya_second(assets@, out_dir@, category@),
{
    let base = with_suffix("all.clustered.aligned.", category);
    let corrected = with_suffix(base.as_str(), ".corrected.sam");
    let mut cmd = path_join(assets, "filter_minimap_qual.perl");
    cmd.append(" ");
    cmd.append(path_join(out_dir, corrected.as_str()).as_str());
    cmd.append(" -polyAReadSuffix 30 --outdir ");
    cmd.append(out_dir);
    assert(cmd@ =~= polya_second(assets@, out_dir@, category@));
    cmd
}

fn polya_convert_exec(out_dir: &str, category: &str) -> (r: String)
    ensures
        r@ == polya_convert(out_dir@, category@),
{
    let base = with_suffix("all.clustered.aligned.", category);
    let good_sam = with_suffix(base.as_str(), ".corrected.good.sam");
    let good_bed = with_suffix(base.as_str(), ".corrected.good.bed");
    let mut cmd = String::from_str("bedtools bamtobed -i ");
    cmd.append(path_join(out_dir, good_sam.as_str()).as_str());
    cmd.append(" -bed12 > ");
    cmd.append(path_join(out_dir, good_bed.as_str()).as_str());
    assert(cmd@ =~= polya_convert(out_dir@, category@));
    cmd
}

fn polya_one(
    assets: &str,
    input_dir: &str,
    out_dir: &str,
    args: &str,
    toga: &str,
    assembly: &str,
    category: &str,
) -> (r: Job)
    ensures
        r.cmd@ == polya_cmd(assets@, input_dir@, out_dir@, args@, toga@, assembly@, category@),
{
    let mut cmd = polya_first_exec(assets, input_dir, out_dir, args, category);
    cmd.append(" && ");
    cmd.append(polya_fix_exec(assets, out_dir, toga, assembly, category).as_str());
    cmd.append(" && ");
    cmd.append(polya_second_exec(assets, out_dir, category).as_str());
    cmd.append(" && ");
    cmd.append(polya_convert_exec(out_dir, category).as_str());
    assert(cmd@ =~= polya_cmd(assets@, input_dir@, out_dir@, args@, toga@, assembly@, category@));
    Job::from(cmd)
}

/// The poly-A stage: one chained job for the high-quality reads and one for
/// the singletons; `assets_dir` holds the helper scripts.
pub fn polya(
    step: &PipelineStep,
    config: &Config,
    input_dir: &str,
    output_dir: &str,
    assets_dir: &str,
) -> (r: Result<Vec<Job>, ConfigError>)
    requires
        config.wf(),
    ensures
        !config.configured(*step) ==> (r matches Err(ConfigError::StepNotConfigured { step: s })
            && s == *step),
        config.configured(*step) ==> match lookup(config.table(*step), "toga"@) {
            None => r matches Err(ConfigError::MissingRequiredParam { step: s, key }) && s == *step
                && key@ == "toga"@,
            Some(toga) => match lookup(config.table(*step), "assembly"@) {
                None => r matches Err(ConfigError::MissingRequiredParam { step: s, key }) && s
                    == *step && key@ == "assembly"@,
                Some(assembly) => r matches Ok(jobs) && jobs@.len() == 2 && jobs@[0].cmd@
                    == polya_cmd(
                    assets_dir@,
                    input_dir@,
                    output_dir@,
                    flat_spec(config.table(*step), polya_excluded()),
                    toga.text(),
                    assembly.text(),
                    "hq"@,
                ) && jobs@[1].cmd@ == polya_cmd(
                    assets_dir@,
                    input_dir@,
                    output_dir@,
                    flat_spec(config.table(*step), polya_excluded()),
                    toga.text(),
                    assembly.text(),
                    "singletons"@,
                ),
            },
        },
{
    let ex = vec!["input_dir", "output_dir", "memory", "time", "toga", "assembly"];
    assert(str_texts(ex@) =~= polya_excluded());
    let args = config.get_step_args(step, ex)?;
    let fields = config.get_step_custom_fields(step, vec!["toga", "assembly"])?;
    proof {
        reveal_strlit("toga");
        reveal_strlit("assembly");
    }
    let mut jobs: Vec<Job> = Vec::new();
    jobs.push(
        polya_one(
            assets_dir,
            input_dir,
            output_dir,
            args.as_str(),
            fields[0].as_str(),
            fields[1].as_str(),
            "hq",
        ),
    );
    jobs.push(
        polya_one(
            assets_dir,
            input_dir,
            output_dir,
            args.as_str(),
            fields[0].as_str(),
            fields[1].as_str(),
            "singletons",
        ),
    );
    Ok(jobs)
}

/// Queues one index job per alignment file and prepares their submission
/// as an auxiliary batch named `pbindex` (one thread, 8 GB), with the
/// manifest in `step_output_dir`. The package version comes from the metadata.
pub fn pbindex(
    bams: &Vec<String>,
    config: &Config,
    executor: &mut ParallelExecutor,
    step_output_dir: &str,
) -> (r: Result<Submission, ExecError>)
    requires
        config.wf(),
    ensures
        match lookup(config.metadata@, "pbindex"@) {
            None => r matches Err(ExecError::Config(ConfigError::MissingMetadata { key })) && key@
                == "pbindex"@ && *final(executor) == *old(executor),
            Some(version) => queued_after(old(executor).jobs@, final(executor).jobs@, bams@)
                && final(executor).manager == old(executor).manager && final(executor).args
                == old(executor).args && (old(executor).manager != ParallelManager::Para ==> (
            r matches Err(ExecError::Unimplemented(m)) && m == old(executor).manager)) && (
            old(executor).manager == ParallelManager::Para ==> match lookup(
                config.metadata@,
                "run_id"@,
            ) {
                None => r matches Err(ExecError::Config(ConfigError::MissingMetadata { key }))
                    && key@ == "run_id"@,
                Some(run_id) => match lookup(config.global@, "short_queue"@) {
                    None => r matches Err(ExecError::Config(ConfigError::MissingGlobal { key }))
                        && key@ == "short_queue"@,
                    Some(queue) => r matches Ok(sub) && para_submission(
                        sub,
                        final(executor).jobs@,
                        "pbindex"@ + "/"@ + version@,
                        "pbindex"@,
                        run_id@,
                        step_output_dir@,
                        queue.text(),
                        8,
                        1,
                    ),
                },
            }),
        },
{
    let package = match config.get_custom_package("pbindex") {
        Ok(p) => p,
        Err(e) => {
            return Err(ExecError::Config(e));
        },
    };
    proof {
        reveal_strlit("pbindex");
    }
    let jobs = pbindex_jobs(bams);
    let ghost before = executor.jobs@;
    let ghost added = jobs@;
    executor.add_jobs(jobs);
    assert(executor.jobs@ =~= before + added);
    assert(executor.jobs@.take(before.len() as int) =~= before);
    assert forall|i: int| 0 <= i < bams@.len() implies (#[trigger] executor.jobs@[before.len() + i]).cmd@ == pbindex_cmd(bams@[i]@) by {
        assert(executor.jobs@[before.len() + i] == added[i]);
    }
    executor.and_send(config, "pbindex", step_output_dir, 1, 8, package)
}

/// `after` is `before` followed by one index job per file.
pub open spec fn queued_after(before: Seq<Job>, after: Seq<Job>, bams: Seq<String>) -> bool {
    &&& after.len() == before.len() + bams.len()
    &&& after.take(before.len() as int) == before
    &&& forall|i: int|
        0 <= i < bams.len() ==> (#[trigger] after[before.len() + i]).cmd@ == pbindex_cmd(bams[i]@)
}

/// The text after the first dot, if there is a dot.
pub open spec fn after_first_dot(s: Seq<char>) -> Option<Seq<char>>
    decreases s.len(),
{
    if s.len() == 0 {
        None
    } else if s[0] == '.' {
        Some(s.drop_first())
    } else {
        after_first_dot(s.drop_first())
    }
}

/// The text up to the first dot, or all of it.
pub open spec fn before_dot(s: Seq<char>) -> Seq<char>
    decreases s.len(),
{
    if s.len() == 0 {
        s
    } else if s[0] == '.' {
        Seq::empty()
    } else {
        seq![s[0]] + before_dot(s.drop_first())
    }
}

/// The sample a file belongs to: the second dot-separated field of its path.
pub open spec fn group_key_spec(p: Seq<char>) -> Option<Seq<char>> {
    match after_first_dot(p) {
        Some(rest) => Some(before_dot(rest)),
        None => None,
    }
}

proof fn lemma_after_skip(s: Seq<char>, k: int)
    requires
        0 <= k <= s.len(),
        forall|j: int| 0 <= j < k ==> s[j] != '.',
    ensures
        after_first_dot(s) == after_first_dot(s.skip(k)),
    decreases k,
{
    if k == 0 {
        assert(s.skip(0) =~= s);
    } else {
        assert(s.drop_first().skip(k - 1) =~= s.skip(k));
        lemma_after_skip(s.drop_first(), k - 1);
    }
}

proof fn lemma_before_take(s: Seq<char>, m: int)
    requires
        0 <= m <= s.len(),
        forall|j: int| 0 <= j < m ==> s[j] != '.',
        m == s.len() || s[m] == '.',
    ensures
        before_dot(s) == s.take(m),
    decreases m,
{
    if m == 0 {
        assert(s.take(0) =~= Seq::<char>::empty());
    } else {
        lemma_before_take(s.drop_first(), m - 1);
        assert(seq![s[0]] + s.drop_first().take(m - 1) =~= s.take(m));
    }
}

/// The sample a file belongs to (see `group_key_spec`).
pub fn group_key(p: &str) -> (r: Option<String>)
    ensures
        match group_key_spec(p@) {
            Some(k) => r matches Some(t) && t@ == k,
            None => r is None,
        },
{
    let n = p.unicode_len();
    let mut i: usize = 0;
    while i < n && p.get_char(i) != '.'
        invariant
            i <= n,
            n == p@.len(),
            forall|j: int| 0 <= j < i ==> p@[j] != '.',
        decreases n - i,
    {
        i = i + 1;
    }
    proof {
        lemma_after_skip(p@, i as int);
    }
    if i == n {
        assert(p@.skip(n as int) =~= Seq::<char>::empty());
        return None;
    }
    assert(p@.skip(i as int).drop_first() =~= p@.skip(i + 1));
    let mut j: usize = i + 1;
    while j < n && p.get_char(j) != '.'
        invariant
            i < j <= n,
            n == p@.len(),
            forall|t: int| i < t < j ==> p@[t] != '.',
        decreases n - j,
    {
        j = j + 1;
    }
    let ghost rest = p@.skip(i + 1);
    proof {
        lemma_before_take(rest, j - i - 1);
        assert(rest.take(j - i - 1) =~= p@.subrange(i + 1, j as int));
    }
    Some(String::from_str(p.substring_char(i + 1, j)))
}

fn find_group(groups: &Vec<(String, Vec<String>)>, key: &str) -> (r: Option<usize>)
    ensures
        match r {
            Some(g) => g < groups@.len() && groups@[g as int].0@ == key@,
            None => forall|h: int| 0 <= h < groups@.len() ==> groups@[h].0@ != key@,
        },
{
    let mut g: usize = 0;
    while g < groups.len()
        invariant
            g <= groups@.len(),
            forall|h: int| 0 <= h < g ==> groups@[h].0@ != key@,
        decreases groups@.len() - g,
    {
        if crate::text::str_eq(groups[g].0.as_str(), key) {
            return Some(g);
        }
        g = g + 1;
    }
    None
}

/// Whether some group has the given key.
pub open spec fn has_group(groups: Seq<(String, Vec<String>)>, key: Option<Seq<char>>) -> bool {
    exists|g: int| 0 <= g < groups.len() && Some(#[trigger] groups[g].0@) == key
}

/// The files of one sample, in order.
pub open spec fn members_of(bams: Seq<Seq<char>>, key: Seq<char>) -> Seq<Seq<char>> {
    bams.filter(|b: Seq<char>| group_key_spec(b) == Some(key))
}

/// Groups the files by sample, samples in order of first appearance. A file
/// whose path has no dot gives the error, with its path.
pub fn scan_groups(bams: &Vec<String>) -> (r: Result<Vec<(String, Vec<String>)>, String>)
    ensures
        match r {
            Ok(groups) => (forall|i: int| 0 <= i < bams@.len() ==> #[trigger] group_key_spec(bams@[i]@)
                is Some) && (forall|g: int, h: int|
                0 <= g < groups@.len() && 0 <= h < groups@.len() && g != h ==> groups@[g].0@
                    != groups@[h].0@) && (forall|g: int|
                0 <= g < groups@.len() ==> texts((#[trigger] groups@[g]).1@) == members_of(
                    texts(bams@),
                    groups@[g].0@,
                ) && texts(groups@[g].1@).len() > 0) && (forall|i: int|
                0 <= i < bams@.len() ==> #[trigger] has_group(groups@, group_key_spec(bams@[i]@))),
            Err(p) => exists|i: int|
                0 <= i < bams@.len() && group_key_spec(bams@[i]@) is None && p@ == bams@[i]@,
        },
{
    let ghost all = texts(bams@);
    let mut groups: Vec<(String, Vec<String>)> = Vec::new();
    let mut i: usize = 0;
    proof {
        reveal(Seq::filter);
    }
    while i < bams.len()
        invariant
            i <= bams@.len(),
            all == texts(bams@),
            forall|j: int| 0 <= j < i ==> #[trigger] group_key_spec(bams@[j]@) is Some,
            forall|g: int, h: int|
                0 <= g < groups@.len() && 0 <= h < groups@.len() && g != h ==> groups@[g].0@
                    != groups@[h].0@,
            forall|g: int|
                0 <= g < groups@.len() ==> texts((#[trigger] groups@[g]).1@) == members_of(
                    all.take(i as int),
                    groups@[g].0@,
                ) && texts(groups@[g].1@).len() > 0,
            forall|j: int|
                0 <= j < i ==> #[trigger] has_group(groups@, group_key_spec(bams@[j]@)),
        decreases bams@.len() - i,
    {
        let key = match group_key(bams[i].as_str()) {
            Some(k) => k,
            None => {
                return Err(bams[i].clone());
            },
        };
        let ghost b = all[i as int];
        proof {
            assert(all.take(i + 1) =~= all.take(i as int).push(b));
            assert forall|k: Seq<char>| #[trigger] members_of(all.take(i + 1), k) == if group_key_spec(b) == Some(k) {
                members_of(all.take(i as int), k).push(b)
            } else {
                members_of(all.take(i as int), k)
            } by {
                all.take(i as int).lemma_filter_push(b, |x: Seq<char>| group_key_spec(x) == Some(k));
            }
        }
        let ghost before = groups@;
        let slot = find_group(&groups, key.as_str());
        if let Some(g) = slot {
            let (k, mut members) = groups.remove(g);
            let ghost mb = members@;
            members.push(bams[i].clone());
            assert(texts(members@) =~= texts(mb).push(b));
            groups.insert(g, (k, members));
            proof {
                assert forall|h: int| 0 <= h < groups@.len() && h != g implies groups@[h] == before[h] by {}
                assert forall|j: int| 0 <= j < i + 1 implies #[trigger] has_group(groups@, group_key_spec(bams@[j]@)) by {
                    if j < i {
                        assert(has_group(before, group_key_spec(bams@[j]@)));
                        let h0 = choose|h: int| 0 <= h < before.len() && Some(#[trigger] before[h].0@) == group_key_spec(bams@[j]@);
                        assert(groups@[h0].0@ == before[h0].0@);
                    } else {
                        assert(groups@[g as int].0@ == key@);
                    }
                }
            }
        } else {
            let mut members: Vec<String> = Vec::new();
            members.push(bams[i].clone());
            let ghost kv = key@;
            groups.push((key, members));
            proof {
                assert(texts(groups@[groups@.len() - 1].1@) =~= seq![b]);
                assert(members_of(all.take(i as int), kv) =~= Seq::<Seq<char>>::empty()) by {
                    let f = members_of(all.take(i as int), kv);
                    broadcast use vstd::seq_lib::group_filter_ensures;
                    if f.len() > 0 {
                        assert(f.contains(f[0]));
                        all.take(i as int).lemma_filter_contains_rev(|x: Seq<char>| group_key_spec(x) == Some(kv), f[0]);
                        let j = choose|j: int| 0 <= j < i && all.take(i as int)[j] == f[0];
                        assert(group_key_spec(f[0]) == Some(kv));
                        assert(all[j] == bams@[j]@);
                        assert(has_group(before, group_key_spec(bams@[j]@)));
                        let h0 = choose|h: int| 0 <= h < before.len() && Some(#[trigger] before[h].0@) == group_key_spec(bams@[j]@);
                        assert(before[h0].0@ == kv);
                    }
                }
                assert(members_of(all.take(i + 1), kv) =~= seq![b]);
                assert forall|j: int| 0 <= j < i + 1 implies #[trigger] has_group(groups@, group_key_spec(bams@[j]@)) by {
                    if j < i {
                        assert(has_group(before, group_key_spec(bams@[j]@)));
                        let h0 = choose|h: int| 0 <= h < before.len() && Some(#[trigger] before[h].0@) == group_key_spec(bams@[j]@);
                        assert(groups@[h0] == before[h0]);
                    } else {
                        assert(groups@[before.len() as int].0@ == kv);
                    }
                }
            }
        }
        i = i + 1;
    }
    assert(all.take(bams@.len() as int) =~= all);
    Ok(groups)
}

/// The merged file of a sample.
pub open spec fn merged_path(input_dir: Seq<char>, group: Seq<char>) -> Seq<char> {
    path_join_spec(input_dir, group + ".ccs.merged.bam"@)
}

/// The merge command of a sample: merge its chunk files, then remove them.
pub open spec fn merge_cmd(input_dir: Seq<char>, group: Seq<char>) -> Seq<char> {
    let wildcard = path_join_spec(input_dir, group + "*bam"@);
    "samtools merge -@16 "@ + merged_path(input_dir, group) + " "@ + wildcard + " && rm "@
        + wildcard
}

/// The merged file of a sample.
pub fn merged_bam(input_dir: &str, group: &str) -> (r: String)
    ensures
        r@ == merged_path(input_dir@, group@),
{
    path_join(input_dir, with_suffix(group, ".ccs.merged.bam").as_str())
}

/// The samples to merge: those with more than one file and no merged file
/// yet (`merged_exists`, one flag per group).
pub open spec fn merge_targets(
    groups: Seq<(String, Vec<String>)>,
    merged_exists: Seq<bool>,
) -> Seq<Seq<char>>
    decreases groups.len(),
{
    if groups.len() == 0 || merged_exists.len() != groups.len() {
        Seq::empty()
    } else {
        let prev = merge_targets(groups.drop_last(), merged_exists.drop_last());
        if groups.last().1@.len() > 1 && !merged_exists.last() {
            prev.push(groups.last().0@)
        } else {
            prev
        }
    }
}

pub open spec fn merge_cmd_for(input_dir: Seq<char>) -> spec_fn(Seq<char>) -> Seq<char> {
    |g: Seq<char>| merge_cmd(input_dir, g)
}

pub open spec fn merged_path_for(input_dir: Seq<char>) -> spec_fn(Seq<char>) -> Seq<char> {
    |g: Seq<char>| merged_path(input_dir, g)
}

/// The merge jobs and the merged files they produce, in group order.
pub fn merge_plan(input_dir: &str, groups: &Vec<(String, Vec<String>)>, merged_exists: &Vec<bool>) -> (r: (
    Vec<Job>,
    Vec<String>,
))
    requires
        merged_exists@.len() == groups@.len(),
    ensures
        cmds(r.0@) == merge_targets(groups@, merged_exists@).map_values(merge_cmd_for(input_dir@)),
        texts(r.1@) == merge_targets(groups@, merged_exists@).map_values(
            merged_path_for(input_dir@),
        ),
{
    let mut jobs: Vec<Job> = Vec::new();
    let mut merged: Vec<String> = Vec::new();
    let mut g: usize = 0;
    assert(groups@.take(0) =~= Seq::<(String, Vec<String>)>::empty());
    assert(cmds(jobs@) =~= Seq::<Seq<char>>::empty());
    assert(texts(merged@) =~= Seq::<Seq<char>>::empty());
    while g < groups.len()
        invariant
            g <= groups@.len(),
            merged_exists@.len() == groups@.len(),
            cmds(jobs@) == merge_targets(groups@.take(g as int), merged_exists@.take(g as int)).map_values(
                merge_cmd_for(input_dir@),
            ),
            texts(merged@) == merge_targets(groups@.take(g as int), merged_exists@.take(g as int)).map_values(
                merged_path_for(input_dir@),
            ),
        decreases groups@.len() - g,
    {
        proof {
            assert(groups@.take(g + 1).drop_last() =~= groups@.take(g as int));
            assert(merged_exists@.take(g + 1).drop_last() =~= merged_exists@.take(g as int));
        }
        let ghost prev = merge_targets(groups@.take(g as int), merged_exists@.take(g as int));
        if groups[g].1.len() > 1 && !merged_exists[g] {
            let name = groups[g].0.as_str();
            let out = merged_bam(input_dir, name);
            let wildcard = path_join(input_dir, with_suffix(name, "*bam").as_str());
            let mut cmd = String::from_str("samtools merge -@16 ");
            cmd.append(out.as_str());
            cmd.append(" ");
            cmd.append(wildcard.as_str());
            cmd.append(" && rm ");
            cmd.append(wildcard.as_str());
            assert(cmd@ =~= merge_cmd(input_dir@, name@));
            let ghost jb = jobs@;
            let ghost mb = merged@;
            jobs.push(Job::from(cmd));
            merged.push(out);
            proof {
                assert(cmds(jobs@) =~= cmds(jb).push(merge_cmd(input_dir@, name@)));
                assert(texts(merged@) =~= texts(mb).push(merged_path(input_dir@, name@)));
                assert(prev.push(name@).map_values(merge_cmd_for(input_dir@)) =~= prev.map_values(
                    merge_cmd_for(input_dir@),
                ).push(merge_cmd(input_dir@, name@)));
                assert(prev.push(name@).map_values(merged_path_for(input_dir@)) =~= prev.map_values(
                    merged_path_for(input_dir@),
                ).push(merged_path(input_dir@, name@)));
            }
        }
        g = g + 1;
    }
    assert(groups@.take(groups@.len() as int) =~= groups@);
    assert(merged_exists@.take(groups@.len() as int) =~= merged_exists@);
    (jobs, merged)
}

/// The two submissions of a merge: the merge jobs queued after what was
/// there, submitted under `samtools`; then one index job per merged file
/// queued after them, everything submitted under `pbindex`.
pub open spec fn merge_dispatched(
    before: ParallelExecutor,
    after: ParallelExecutor,
    config: Config,
    input_dir: Seq<char>,
    targets: Seq<Seq<char>>,
    subs: Seq<Submission>,
) -> bool {
    let n = before.jobs@.len();
    let m = targets.len();
    &&& subs.len() == 2
    &&& before.manager == ParallelManager::Para
    &&& after.manager == before.manager
    &&& after.jobs@.len() == n + 2 * m
    &&& after.jobs@.take(n as int) == before.jobs@
    &&& forall|i: int|
        0 <= i < m ==> (#[trigger] after.jobs@[n + i]).cmd@ == merge_cmd(input_dir, targets[i])
    &&& forall|i: int|
        0 <= i < m ==> (#[trigger] after.jobs@[n + m + i]).cmd@ == pbindex_cmd(
            merged_path(input_dir, targets[i]),
        )
    &&& exists|version: String, index_version: String, run_id: String, queue: crate::params::ParamValue|
        {
            &&& lookup(config.metadata@, "samtools"@) == Some(version)
            &&& lookup(config.metadata@, "pbindex"@) == Some(index_version)
            &&& lookup(config.metadata@, "run_id"@) == Some(run_id)
            &&& lookup(config.global@, "short_queue"@) == Some(queue)
            &&& para_submission(
                subs[0],
                after.jobs@.take((n + m) as int),
                "samtools"@ + "/"@ + version@,
                "samtools"@,
                run_id@,
                input_dir,
                queue.text(),
                8,
                16,
            )
            &&& para_submission(
                subs[1],
                after.jobs@,
                "pbindex"@ + "/"@ + index_version@,
                "pbindex"@,
                run_id@,
                input_dir,
                queue.text(),
                8,
                1,
            )
        }
}

/// Merges the chunk files of each sample that needs it, then indexes the
/// merged files: two auxiliary submissions, merge first. Nothing is queued
/// when no sample needs merging. The package version comes from the metadata.
pub fn merge(
    input_dir: &str,
    executor: &mut ParallelExecutor,
    config: &Config,
    groups: &Vec<(String, Vec<String>)>,
    merged_exists: &Vec<bool>,
) -> (r: Result<Vec<Submission>, ExecError>)
    requires
        config.wf(),
        merged_exists@.len() == groups@.len(),
    ensures
        final(executor).manager == old(executor).manager,
        lookup(config.metadata@, "samtools"@) is None ==> (r matches Err(
            ExecError::Config(ConfigError::MissingMetadata { key }),
        ) && key@ == "samtools"@ && *final(executor) == *old(executor)),
        lookup(config.metadata@, "samtools"@) is Some && merge_targets(groups@, merged_exists@).len()
            == 0 ==> (r matches Ok(subs) && subs@.len() == 0 && *final(executor) == *old(executor)),
        r matches Ok(subs) ==> (subs@.len() > 0 ==> merge_dispatched(
            *old(executor),
            *final(executor),
            *config,
            input_dir@,
            merge_targets(groups@, merged_exists@),
            subs@,
        )),
        old(executor).manager == ParallelManager::Para && merge_targets(groups@, merged_exists@).len()
            > 0 && lookup(config.metadata@, "samtools"@) is Some && lookup(
            config.metadata@,
            "pbindex"@,
        ) is Some && lookup(config.metadata@, "run_id"@) is Some && lookup(
            config.global@,
            "short_queue"@,
        ) is Some ==> (r matches Ok(subs) && subs@.len() == 2),
        old(executor).manager != ParallelManager::Para && merge_targets(
            groups@,
            merged_exists@,
        ).len() > 0 ==> r is Err,
{
    let package = match config.get_custom_package("samtools") {
        Ok(p) => p,
        Err(e) => {
            return Err(ExecError::Config(e));
        },
    };
    proof {
        reveal_strlit("samtools");
    }
    let (jobs, merged) = merge_plan(input_dir, groups, merged_exists);
    if jobs.len() == 0 {
        assert(cmds(jobs@).len() == 0);
        assert(merge_targets(groups@, merged_exists@).map_values(merge_cmd_for(input_dir@)).len()
            == merge_targets(groups@, merged_exists@).len());
        assert(merge_targets(groups@, merged_exists@).len() == 0);
        return Ok(Vec::new());
    }
    let ghost before = executor.jobs@;
    let ghost added = jobs@;
    executor.add_jobs(jobs);
    let ghost queued = executor.jobs@;
    assert(queued.take((before.len() + added.len()) as int) =~= queued);
    assert(cmds(queued) =~= cmds(before) + cmds(added));
    let first = executor.and_send(config, "samtools", input_dir, 16, 8, package)?;
    let ghost merged_v = merged@;
    let second = pbindex(&merged, config, executor, input_dir)?;
    proof {
        let n = before.len();
        let m = added.len();
        let targets = merge_targets(groups@, merged_exists@);
        assert(executor.jobs@.take(queued.len() as int) =~= queued);
        assert(executor.jobs@.take(n as int) =~= before);
        assert(cmds(added).len() == m);
        assert forall|i: int| 0 <= i < m implies (#[trigger] executor.jobs@[n + i]).cmd@ == merge_cmd(input_dir@, targets[i]) by {
            assert(executor.jobs@[n + i] == queued[n + i]);
            assert(queued[n + i] == added[i]);
            assert(cmds(added)[i] == added[i].cmd@);
        }
        assert(targets.map_values(merge_cmd_for(input_dir@)).len() == targets.len());
        assert(targets.map_values(merged_path_for(input_dir@)).len() == targets.len());
        assert(texts(merged_v).len() == merged_v.len());
        assert(m == targets.len());
        assert(merged_v.len() == m);
        assert(queued.len() == n + m);
        assert forall|i: int| 0 <= i < m implies (#[trigger] executor.jobs@[n + m + i]).cmd@ == pbindex_cmd(merged_path(input_dir@, targets[i])) by {
            assert(texts(merged_v)[i] == merged_v[i]@);
            assert(texts(merged_v)[i] == targets.map_values(merged_path_for(input_dir@))[i]);
            assert(executor.jobs@[queued.len() + i].cmd@ == pbindex_cmd(merged_v[i]@));
        }
    }
    let ghost first_v = first;
    let ghost second_v = second;
    let mut subs: Vec<Submission> = Vec::new();
    subs.push(first);
    subs.push(second);
    proof {
        let version = lookup(config.metadata@, "samtools"@)->Some_0;
        let index_version = lookup(config.metadata@, "pbindex"@)->Some_0;
        let run_id = lookup(config.metadata@, "run_id"@)->Some_0;
        let queue = lookup(config.global@, "short_queue"@)->Some_0;
        let n = before.len();
        let m = added.len();
        assert(subs@[0] == first_v && subs@[1] == second_v);
        assert(executor.jobs@.take((n + m) as int) =~= queued);
        assert(para_submission(
            subs@[0],
            executor.jobs@.take((n + m) as int),
            "samtools"@ + "/"@ + version@,
            "samtools"@,
            run_id@,
            input_dir@,
            queue.text(),
            8,
            16,
        ));
        assert(para_submission(
            subs@[1],
            executor.jobs@,
            "pbindex"@ + "/"@ + index_version@,
            "pbindex"@,
            run_id@,
            input_dir@,
            queue.text(),
            8,
            1,
        ));
    }
    Ok(subs)
}

/// Splitting at each single space, empty pieces kept, as `str::split(" ")`
/// does; `cur` is the piece read so far.
pub open spec fn split_from(s: Seq<char>, cur: Seq<char>) -> Seq<Seq<char>>
    decreases s.len(),
{
    if s.len() == 0 {
        seq![cur]
    } else if s[0] == ' ' {
        seq![cur] + split_from(s.drop_first(), Seq::empty())
    } else {
        split_from(s.drop_first(), cur.push(s[0]))
    }
}

/// The pieces of a text between single spaces.
pub open spec fn split_spaces(s: Seq<char>) -> Seq<Seq<char>> {
    split_from(s, Seq::empty())
}

/// The pieces of a text between single spaces, empty pieces kept.
pub fn split_spaces_exec(s: &str) -> (r: Vec<String>)
    ensures
        texts(r@) == split_spaces(s@),
{
    let n = s.unicode_len();
    let mut out: Vec<String> = Vec::new();
    let mut cur = String::new();
    let mut i: usize = 0;
    assert(s@.skip(0) =~= s@);
    assert(texts(out@) =~= Seq::<Seq<char>>::empty());
    while i < n
        invariant
            i <= n,
            n == s@.len(),
            texts(out@) + split_from(s@.skip(i as int), cur@) == split_spaces(s@),
        decreases n - i,
    {
        let c = s.get_char(i);
        let ghost rest = s@.skip(i as int);
        assert(rest[0] == c);
        assert(rest.drop_first() =~= s@.skip(i + 1));
        if c == ' ' {
            let ghost before = out@;
            let ghost piece = cur@;
            assert(split_from(rest, piece) == seq![piece] + split_from(rest.drop_first(), Seq::empty()));
            out.push(cur);
            cur = String::new();
            assert(texts(out@) =~= texts(before).push(piece));
            assert(texts(before) + (seq![piece] + split_from(s@.skip(i + 1), Seq::empty()))
                =~= texts(out@) + split_from(s@.skip(i + 1), cur@));
        } else {
            let ghost old_cur = cur@;
            assert(split_from(rest, old_cur) == split_from(rest.drop_first(), old_cur.push(c)));
            cur.append(s.substring_char(i, i + 1));
            assert(s@.subrange(i as int, i + 1) =~= seq![c]);
            assert(cur@ =~= old_cur.push(c));
        }
        i = i + 1;
    }
    let ghost before = out@;
    let ghost piece = cur@;
    assert(s@.skip(n as int) =~= Seq::<char>::empty());
    out.push(cur);
    assert(texts(out@) =~= texts(before).push(piece));
    assert(texts(before) + seq![piece] =~= texts(out@));
    out
}

/// The keys left out for the fusion caller.
pub open spec fn fusion_excluded() -> Seq<Seq<char>> {
    seq!["input_dir"@, "prefix"@, "output_dir"@, "memory"@, "time"@, "prefix"@]
}

/// The fusion caller's arguments for one category: the corrected BED of the
/// category as query, a per-category output prefix, then the stage's flags
/// split at spaces.
pub open spec fn fusion_call(
    input_dir: Seq<char>,
    out_dir: Seq<char>,
    args: Seq<char>,
    category: Seq<char>,
) -> Seq<Seq<char>> {
    seq![
        "--query"@,
        input_dir + "/"@ + "all.clustered.aligned."@ + category + ".corrected.good.bed"@,
        "--prefix"@,
        path_join_spec(out_dir, category),
    ] + split_spaces(args)
}

/// A per-category call of the fusion caller: its output directory and its
/// arguments.
pub struct FusionCall {
    pub prefix: String,
    pub args: Vec<String>,
}

fn fusion_one(input_dir: &str, out_dir: &str, args: &str, category: &str) -> (r: FusionCall)
    ensures
        texts(r.args@) == fusion_call(input_dir@, out_dir@, args@, category@),
        r.prefix@ == path_join_spec(out_dir@, category@),
{
    let mut query = String::from_str(input_dir);
    query.append("/");
    query.append("all.clustered.aligned.");
    query.append(category);
    query.append(".corrected.good.bed");
    let prefix = path_join(out_dir, category);
    let mut v: Vec<String> = Vec::new();
    v.push(String::from_str("--query"));
    v.push(query);
    v.push(String::from_str("--prefix"));
    v.push(prefix.clone());
    let ghost head = v@;
    let mut parts = split_spaces_exec(args);
    let ghost tail = parts@;
    v.append(&mut parts);
    assert(texts(v@) =~= texts(head) + texts(tail));
    assert(texts(head) =~= seq![
        "--query"@,
        input_dir@ + "/"@ + "all.clustered.aligned."@ + category@ + ".corrected.good.bed"@,
        "--prefix"@,
        path_join_spec(out_dir@, category@),
    ]);
    FusionCall { prefix, args: v }
}

/// The fusion stage's calls: one for the high-quality reads and one for the
/// singletons. The calls themselves are made by the fusion caller; the
/// gathering jobs come from `aggregate_fusions`.
pub fn fusion_calls(step: &PipelineStep, config: &Config, input_dir: &str, step_output_dir: &str) -> (r:
    Result<Vec<FusionCall>, ConfigError>)
    requires
        config.wf(),
    ensures
        !config.configured(*step) ==> (r matches Err(ConfigError::StepNotConfigured { step: s })
            && s == *step),
        config.configured(*step) ==> (r matches Ok(calls) && calls@.len() == 2 && texts(
            calls@[0].args@,
        ) == fusion_call(
            input_dir@,
            step_output_dir@,
            flat_spec(config.table(*step), fusion_excluded()),
            "hq"@,
        ) && texts(calls@[1].args@) == fusion_call(
            input_dir@,
            step_output_dir@,
            flat_spec(config.table(*step), fusion_excluded()),
            "singletons"@,
        )),
{
    let ex = vec!["input_dir", "prefix", "output_dir", "memory", "time", "prefix"];
    assert(str_texts(ex@) =~= fusion_excluded());
    let args = config.get_step_args(step, ex)?;
    let mut calls: Vec<FusionCall> = Vec::new();
    calls.push(fusion_one(input_dir, step_output_dir, args.as_str(), "hq"));
    calls.push(fusion_one(input_dir, step_output_dir, args.as_str(), "singletons"));
    Ok(calls)
}

} // verus!
