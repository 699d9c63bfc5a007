use isopipe::cli::{selects_whole_catalog, Field, SelectionError, StepArgs};
use isopipe::step::PipelineStep;

fn request(from: &str, to: &str, only: Option<Vec<&str>>, skip: Option<Vec<&str>>) -> StepArgs {
    StepArgs {
        config: "config.toml".to_string(),
        from: from.to_string(),
        to: to.to_string(),
        only: only.map(|v| v.into_iter().map(String::from).collect()),
        skip: skip.map(|v| v.into_iter().map(String::from).collect()),
        dry_run: false,
        verbose: false,
        quiet: false,
    }
}

fn indices(steps: &[PipelineStep]) -> Vec<usize> {
    steps.iter().map(|s| s.to_int()).collect()
}

#[test]
fn range_two_to_four() {
    let steps = request("2", "4", None, None).abs_steps().unwrap();
    assert_eq!(indices(&steps), vec![2, 3, 4]);
}

#[test]
fn only_list_is_sorted() {
    let steps = request("1", "7", Some(vec!["5", "3"]), None).abs_steps().unwrap();
    assert_eq!(indices(&steps), vec![3, 5]);
}

#[test]
fn skip_one_of_full_range() {
    let steps = request("1", "7", None, Some(vec!["4"])).abs_steps().unwrap();
    assert_eq!(indices(&steps), vec![1, 2, 3, 5, 6, 7]);
    assert!(!selects_whole_catalog(&steps));
}

#[test]
fn full_range_is_whole_catalog() {
    let steps = request("1", "7", None, None).abs_steps().unwrap();
    assert_eq!(indices(&steps), vec![1, 2, 3, 4, 5, 6, 7]);
    assert!(selects_whole_catalog(&steps));
}

#[test]
fn range_by_names() {
    let steps = request("lima", "cluster", None, None).abs_steps().unwrap();
    assert_eq!(
        steps,
        vec![PipelineStep::Lima, PipelineStep::Refine, PipelineStep::Cluster]
    );
}

#[test]
fn equal_bounds_rejected() {
    for (a, b) in [("4", "4"), ("1", "1"), ("7", "7"), ("2", "lima")] {
        let e = request(a, b, None, None).abs_steps().unwrap_err();
        assert!(matches!(e, SelectionError::EqualBounds));
    }
}

#[test]
fn inverted_range_rejected() {
    let e = request("5", "2", None, None).abs_steps().unwrap_err();
    assert!(matches!(e, SelectionError::InvertedRange));
}

#[test]
fn only_ignores_bounds() {
    let steps = request("junk", "9", Some(vec!["polya", "2"]), None)
        .abs_steps()
        .unwrap();
    assert_eq!(indices(&steps), vec![2, 6]);
}

#[test]
fn only_duplicates_collapse() {
    let steps = request("1", "7", Some(vec!["3", "refine", "+3"]), None)
        .abs_steps()
        .unwrap();
    assert_eq!(indices(&steps), vec![3]);
}

#[test]
fn skipping_everything_is_empty() {
    let e = request("2", "3", None, Some(vec!["2", "refine"]))
        .abs_steps()
        .unwrap_err();
    assert!(matches!(e, SelectionError::EmptySelection));
}

#[test]
fn unknown_token_is_invalid() {
    match request("ccs", "nothing", None, None).abs_steps().unwrap_err() {
        SelectionError::InvalidStep { token } => assert_eq!(token, "nothing"),
        other => panic!("unexpected {:?}", other),
    }
}

#[test]
fn index_zero_is_invalid() {
    match request("0", "3", None, None).abs_steps().unwrap_err() {
        SelectionError::InvalidStep { token } => assert_eq!(token, "0"),
        other => panic!("unexpected {:?}", other),
    }
}

#[test]
fn index_above_catalog_is_out_of_range() {
    match request("1", "8", None, None).abs_steps().unwrap_err() {
        SelectionError::OutOfRange { field } => assert_eq!(field, Field::To),
        other => panic!("unexpected {:?}", other),
    }
    match request("1", "3", None, Some(vec!["12"])).abs_steps().unwrap_err() {
        SelectionError::OutOfRange { field } => assert_eq!(field, Field::Skip),
        other => panic!("unexpected {:?}", other),
    }
}

#[test]
fn bad_only_token_reported_first() {
    match request("1", "7", Some(vec!["2", "bogus", "99"]), None)
        .abs_steps()
        .unwrap_err()
    {
        SelectionError::InvalidStep { token } => assert_eq!(token, "bogus"),
        other => panic!("unexpected {:?}", other),
    }
}
