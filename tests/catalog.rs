use isopipe::step::PipelineStep;
use isopipe::text::{i64_text, parse_usize, path_join};

const ALL: [PipelineStep; 7] = [
    PipelineStep::Ccs,
    PipelineStep::Lima,
    PipelineStep::Refine,
    PipelineStep::Cluster,
    PipelineStep::Minimap,
    PipelineStep::Polya,
    PipelineStep::LoadGenome,
];

#[test]
fn index_and_name_round_trip() {
    for (i, s) in ALL.iter().enumerate() {
        assert_eq!(s.to_int(), i + 1);
        assert_eq!(PipelineStep::from_int(s.to_int()).unwrap(), *s);
        assert_eq!(PipelineStep::from_str(&s.to_unique_str()).unwrap(), *s);
    }
}

#[test]
fn package_names_collapse() {
    assert_eq!(PipelineStep::Refine.to_str(), "isoseq");
    assert_eq!(PipelineStep::Cluster.to_str(), "isoseq");
    assert_eq!(PipelineStep::Refine.to_unique_str(), "refine");
    assert_eq!(PipelineStep::Minimap.to_str(), "minimap2");
}

#[test]
fn invalid_lookups_fail() {
    assert_eq!(
        PipelineStep::from_int(0).unwrap_err(),
        "ERROR: Invalid pipeline step: 0"
    );
    assert_eq!(
        PipelineStep::from_int(8).unwrap_err(),
        "ERROR: Invalid pipeline step: 8"
    );
    assert_eq!(
        PipelineStep::from_str("CCS").unwrap_err(),
        "ERROR: Invalid pipeline step: CCS"
    );
}

#[test]
fn vectors_convert_in_order() {
    let v = PipelineStep::from_vec_str(vec!["polya".to_string(), "ccs".to_string()]).unwrap();
    assert_eq!(v, vec![PipelineStep::Polya, PipelineStep::Ccs]);
    let e = PipelineStep::from_vec_str(vec!["ccs".to_string(), "x".to_string()]).unwrap_err();
    assert_eq!(e, "ERROR: Invalid pipeline step: x");
    let v = PipelineStep::from_vec_int(vec![7, 1]).unwrap();
    assert_eq!(v, vec![PipelineStep::LoadGenome, PipelineStep::Ccs]);
    assert!(PipelineStep::from_vec_int(vec![1, 9]).is_err());
}

#[test]
fn decimal_text_and_parsing() {
    assert_eq!(i64_text(0), "0");
    assert_eq!(i64_text(-1024), "-1024");
    assert_eq!(i64_text(i64::MIN), "-9223372036854775808");
    assert_eq!(parse_usize("42"), Some(42));
    assert_eq!(parse_usize("+7"), Some(7));
    assert_eq!(parse_usize("007"), Some(7));
    assert_eq!(parse_usize(""), None);
    assert_eq!(parse_usize("+"), None);
    assert_eq!(parse_usize("-1"), None);
    assert_eq!(parse_usize("4a"), None);
    assert_eq!(parse_usize("99999999999999999999999"), None);
}

#[test]
fn path_joining() {
    assert_eq!(path_join("/out", "ccs"), "/out/ccs");
    assert_eq!(path_join("/out/", "ccs"), "/out/ccs");
    assert_eq!(path_join("/out", "/abs"), "/abs");
    assert_eq!(path_join("", "rel"), "rel");
}
