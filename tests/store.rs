use isopipe::cli::StepArgs;
use isopipe::config::{Config, ConfigError};
use isopipe::params::{Dict, ParamValue, StepParams};
use isopipe::step::PipelineStep;

fn table(pairs: Vec<(&str, ParamValue)>) -> StepParams {
    let mut p = StepParams::new();
    for (k, v) in pairs {
        p.insert(k.to_string(), v);
    }
    p
}

fn s(v: &str) -> ParamValue {
    ParamValue::Str(v.to_string())
}

fn words(text: &str) -> Vec<String> {
    text.split(' ').map(String::from).collect()
}

#[test]
fn flat_renders_prefixes_and_separators() {
    let p = table(vec![
        ("t", ParamValue::Int(8)),
        ("min-rq", ParamValue::Float("0.99".to_string())),
        ("secondary", ParamValue::Bool(false)),
        ("ax", s("splice:hq")),
    ]);
    assert_eq!(
        p.flat(None),
        "-t 8 --min-rq 0.99 --secondary=false -ax splice:hq"
    );
}

#[test]
fn flat_leaves_out_excluded_keys() {
    let p = table(vec![
        ("input_dir", s("/in")),
        ("memory", ParamValue::Int(16)),
        ("top-n", ParamValue::Int(-3)),
    ]);
    let out = p.flat(Some(vec!["input_dir", "memory"]));
    assert_eq!(out, "--top-n -3");
    assert!(!out.contains("input_dir"));
    assert_eq!(p.flat(Some(vec!["input_dir", "memory", "top-n"])), "");
}

#[test]
fn flat_renders_each_key_once() {
    let mut p = table(vec![("a", ParamValue::Int(1)), ("bb", ParamValue::Int(2))]);
    p.insert("a".to_string(), ParamValue::Int(5));
    let out = p.flat(None);
    assert_eq!(out, "-a 5 -bb 2");
    assert_eq!(words(&out).iter().filter(|w| *w == "-a").count(), 1);
}

#[test]
fn value_accessors_coerce() {
    assert_eq!(ParamValue::Int(7).to_int(), 7);
    assert_eq!(s("7").to_int(), 0);
    assert!(ParamValue::Bool(true).to_bool());
    assert!(!ParamValue::Int(1).to_bool());
    assert_eq!(s("/data").to_path_buf(), "/data");
    assert_eq!(ParamValue::Int(3).to_path_buf(), "");
    assert_eq!(ParamValue::Bool(true).to_string(), "true");
    assert_eq!(ParamValue::Int(-12).to_string(), "-12");
}

#[test]
fn dict_insert_replace_remove() {
    let mut d: Dict<String> = Dict::new();
    d.insert("a".to_string(), "1".to_string());
    d.insert("b".to_string(), "2".to_string());
    d.insert("a".to_string(), "3".to_string());
    assert_eq!(d.len(), 2);
    assert_eq!(d.get("a").unwrap(), "3");
    assert_eq!(d.key_at(0), "a");
    d.remove("a");
    assert!(!d.contains_key("a"));
    assert_eq!(d.len(), 1);
}

fn store() -> Config {
    let mut c = Config::new();
    c.metadata.insert("run_id".to_string(), "XXXX".to_string());
    c.metadata.insert("pbindex".to_string(), "1.7.0".to_string());
    c.packages.insert("pbccs".to_string(), "6.4.0".to_string());
    c.packages.insert("lima".to_string(), "2.7.1".to_string());
    c.packages.insert("isoseq".to_string(), "4.0.0".to_string());
    c.packages.insert("isotools".to_string(), "0.1".to_string());
    c.packages.insert("samtools".to_string(), "1.17".to_string());
    c.global.insert("global_output_dir".to_string(), s("/runs"));
    c.global.insert("data_prefix".to_string(), s("sample"));
    c.add_param(
        PipelineStep::Ccs,
        table(vec![("input_dir", s("/raw")), ("output_dir", s("ccs")), ("chunk", ParamValue::Int(2))]),
    );
    c.add_param(PipelineStep::Lima, table(vec![("primers", s("p.fa"))]));
    c.add_param(PipelineStep::Polya, table(vec![("toga", s("t.bed"))]));
    c
}

fn args(from: &str, to: &str, only: Option<Vec<&str>>) -> StepArgs {
    StepArgs {
        config: String::new(),
        from: from.to_string(),
        to: to.to_string(),
        only: only.map(|v| v.into_iter().map(String::from).collect()),
        skip: None,
        dry_run: false,
        verbose: false,
        quiet: false,
    }
}

fn package_keys(c: &Config) -> Vec<String> {
    (0..c.packages().len()).map(|i| c.packages().key_at(i).clone()).collect()
}

#[test]
fn aware_keeps_only_what_selection_needs() {
    let mut c = store();
    c.aware(args("2", "4", None)).unwrap();
    assert_eq!(
        c.steps(),
        &vec![PipelineStep::Lima, PipelineStep::Refine, PipelineStep::Cluster]
    );
    assert_eq!(package_keys(&c), vec!["lima".to_string(), "isoseq".to_string()]);
    let kept: Vec<PipelineStep> = c.params().iter().map(|e| e.0).collect();
    assert_eq!(kept, vec![PipelineStep::Lima]);
}

#[test]
fn aware_adds_index_package_with_consensus() {
    let mut c = store();
    c.aware(args("1", "7", Some(vec!["ccs"]))).unwrap();
    assert_eq!(package_keys(&c), vec!["pbccs".to_string(), "pbindex".to_string()]);
    assert_eq!(c.packages().get("pbindex").unwrap(), "1.7.0");
}

#[test]
fn aware_keeps_existing_index_version() {
    let mut c = store();
    c.packages.insert("pbindex".to_string(), "1.8.0".to_string());
    c.aware(args("1", "2", None)).unwrap();
    assert_eq!(c.packages().get("pbindex").unwrap(), "1.8.0");
    assert_eq!(c.packages().len(), 3);
}

#[test]
fn aware_on_empty_store() {
    let mut c = Config::default();
    c.aware(args("3", "6", None)).unwrap();
    assert_eq!(c.steps().len(), 4);
    assert_eq!(c.packages().len(), 0);
    assert_eq!(c.params().len(), 0);
}

#[test]
fn aware_rejects_bad_request_unchanged() {
    let mut c = store();
    assert!(c.aware(args("3", "3", None)).is_err());
    assert_eq!(c.packages().len(), 5);
    assert_eq!(c.steps().len(), 0);
}

#[test]
fn param_lookups() {
    let c = store();
    assert_eq!(c.get_param(PipelineStep::Ccs, "chunk").unwrap().unwrap().to_int(), 2);
    assert!(c.get_param(PipelineStep::Ccs, "nope").unwrap().is_none());
    match c.get_param(PipelineStep::Minimap, "t") {
        Err(ConfigError::StepNotConfigured { step }) => assert_eq!(step, PipelineStep::Minimap),
        other => panic!("unexpected {:?}", other),
    }
    assert!(c.get_global_param("missing").is_none());
    assert_eq!(c.get_data_prefix().unwrap(), "sample");
}

#[test]
fn step_dirs_join_output_root() {
    let c = store();
    let (input, output) = c.get_step_dirs(&PipelineStep::Ccs, "/runs/r1").unwrap();
    assert_eq!(input, "/raw");
    assert_eq!(output, "/runs/r1/ccs");
    match c.get_step_dirs(&PipelineStep::Lima, "/runs/r1") {
        Err(ConfigError::MissingRequiredParam { step, key }) => {
            assert_eq!(step, PipelineStep::Lima);
            assert_eq!(key, "input_dir");
        }
        other => panic!("unexpected {:?}", other),
    }
}

#[test]
fn custom_fields_and_args() {
    let c = store();
    let f = c
        .get_step_custom_fields(&PipelineStep::Ccs, vec!["chunk", "output_dir"])
        .unwrap();
    assert_eq!(f, vec!["2".to_string(), "ccs".to_string()]);
    match c.get_step_custom_fields(&PipelineStep::Ccs, vec!["chunk", "report-file"]) {
        Err(ConfigError::MissingRequiredParam { key, .. }) => assert_eq!(key, "report-file"),
        other => panic!("unexpected {:?}", other),
    }
    assert_eq!(
        c.get_step_args(&PipelineStep::Ccs, vec!["input_dir", "output_dir"]).unwrap(),
        "--chunk 2"
    );
}

#[test]
fn packages_for_steps() {
    let c = store();
    assert_eq!(c.get_package_from_step(&PipelineStep::Ccs).unwrap(), "pbccs/6.4.0");
    assert_eq!(c.get_package_from_step(&PipelineStep::Cluster).unwrap(), "isoseq/4.0.0");
    assert_eq!(c.get_package_from_step(&PipelineStep::Minimap).unwrap(), "minimap2");
    match c.get_package_from_step(&PipelineStep::Polya) {
        Err(ConfigError::MissingPackage { name }) => assert_eq!(name, "polya"),
        other => panic!("unexpected {:?}", other),
    }
    assert_eq!(c.get_custom_package("pbindex").unwrap(), "pbindex/1.7.0");
    assert!(c.get_custom_package("samtools").is_err());
}

#[test]
fn run_id_from_clock() {
    let mut c = store();
    c.set_run_id(0).unwrap();
    assert_eq!(c.get_run_id().unwrap(), "AAAA");
    c.set_run_id(37).unwrap();
    assert_eq!(c.get_run_id().unwrap(), "BFAA");
    c.set_run_id(35 + 36 * 1000).unwrap();
    assert_eq!(c.get_run_id().unwrap(), "99P7");
    c.set_run_id(123456789).unwrap();
    assert_eq!(c.get_run_id().unwrap(), "J64E");
    let mut bare = Config::new();
    match bare.set_run_id(5) {
        Err(ConfigError::MissingMetadata { key }) => assert_eq!(key, "run_id"),
        other => panic!("unexpected {:?}", other),
    }
}

#[test]
fn load_reports_fusion_tool() {
    let mut c = store();
    assert!(c.load(1).unwrap());
    c.remove_package("isotools".to_string());
    assert!(!c.load(1).unwrap());
}

#[test]
fn output_root_with_stamp() {
    let c = store();
    assert_eq!(c.output_dir_at("202401011200").unwrap(), "/runs/isopipe_run_202401011200");
    let stamped = c.global_output_dir().unwrap();
    assert!(stamped.starts_with("/runs/isopipe_run_"));
    assert_eq!(stamped.len(), "/runs/isopipe_run_".len() + 12);
}

#[test]
fn step_list_edits() {
    let mut c = Config::new();
    c.add_step(PipelineStep::Ccs);
    c.add_step(PipelineStep::Lima);
    c.add_step(PipelineStep::Ccs);
    c.remove_step(PipelineStep::Ccs);
    assert_eq!(c.steps(), &vec![PipelineStep::Lima]);
}

#[test]
fn param_value_edits() {
    let mut c = store();
    c.add_param_value(PipelineStep::Lima, "peek".to_string(), ParamValue::Int(3)).unwrap();
    assert_eq!(c.get_param(PipelineStep::Lima, "peek").unwrap().unwrap().to_int(), 3);
    c.remove_param(PipelineStep::Lima, "peek").unwrap();
    assert!(c.get_param(PipelineStep::Lima, "peek").unwrap().is_none());
    assert!(c.remove_param(PipelineStep::Refine, "x").is_err());
    c.remove_step_param(PipelineStep::Lima);
    assert!(c.get_param(PipelineStep::Lima, "primers").is_err());
}
