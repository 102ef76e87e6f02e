use clusterprep::analyzer::analyze_text;
use clusterprep::errors::PipelineError;

fn average_of(stats: &clusterprep::analyzer::ClusterStatistics) -> f64 {
    let (num, den) = stats.average_size_fraction();
    num as f64 / den as f64
}

#[test]
fn three_records_two_clusters() {
    let (records, stats) = analyze_text("C1 P1\nC1 P2\nC2 P3\n").unwrap();
    assert_eq!(stats.cluster_count, 2);
    assert_eq!(stats.total_members, 3);
    assert!((average_of(&stats) - 1.5).abs() < 1e-9);
    assert_eq!(stats.singleton_count, 1);
    assert_eq!(stats.non_singleton_count, 1);
    assert_eq!(stats.centroid_set, vec!["C1".to_string(), "C2".to_string()]);
    assert_eq!(records.keys, vec!["C1".to_string(), "C2".to_string()]);
    assert_eq!(records.members[0], vec!["P1".to_string(), "P2".to_string()]);
    assert_eq!(records.members[1], vec!["P3".to_string()]);
}

#[test]
fn single_record() {
    let (records, stats) = analyze_text("C1 P1\n").unwrap();
    assert_eq!(stats.cluster_count, 1);
    assert!((average_of(&stats) - 1.0).abs() < 1e-9);
    assert_eq!(stats.singleton_count, 1);
    assert_eq!(stats.non_singleton_count, 0);
    assert_eq!(records.keys, vec!["C1".to_string()]);
}

#[test]
fn malformed_single_field_line() {
    let err = analyze_text("C1\n").unwrap_err();
    match err {
        PipelineError::Parse { line, content } => {
            assert_eq!(line, 1);
            assert_eq!(content, "C1");
        }
        _ => panic!("expected a parse error"),
    }
}

#[test]
fn empty_input_is_not_an_error() {
    let (records, stats) = analyze_text("").unwrap();
    assert_eq!(stats.cluster_count, 0);
    assert_eq!(stats.total_members, 0);
    assert!(average_of(&stats).abs() < 1e-9);
    assert_eq!(stats.singleton_count, 0);
    assert_eq!(stats.non_singleton_count, 0);
    assert!(stats.centroid_set.is_empty());
    assert!(records.keys.is_empty());
}

#[test]
fn total_members_counts_every_line() {
    let (_, stats) = analyze_text("A x\nB y\nA z\nC w\nB v\n").unwrap();
    assert_eq!(stats.total_members, 5);
    assert_eq!(stats.cluster_count, 3);
    assert_eq!(stats.singleton_count + stats.non_singleton_count, stats.cluster_count);
}

#[test]
fn no_trailing_newline() {
    let (_, stats) = analyze_text("C1 P1\nC2 P2").unwrap();
    assert_eq!(stats.cluster_count, 2);
    assert_eq!(stats.total_members, 2);
}

#[test]
fn extra_fields_are_ignored() {
    let (records, stats) = analyze_text("C1 P1 99.5 extra\nC1 P2 1\n").unwrap();
    assert_eq!(stats.cluster_count, 1);
    assert_eq!(stats.total_members, 2);
    assert_eq!(records.members[0], vec!["P1".to_string(), "P2".to_string()]);
}

#[test]
fn windows_line_endings() {
    let (records, stats) = analyze_text("C1 P1\r\nC2 P2\r\n").unwrap();
    assert_eq!(stats.cluster_count, 2);
    assert_eq!(records.keys, vec!["C1".to_string(), "C2".to_string()]);
    assert_eq!(records.members[1], vec!["P2".to_string()]);
}

#[test]
fn tabs_and_repeated_spaces_separate_fields() {
    let (records, stats) = analyze_text("C1\tP1\nC2   P2\n").unwrap();
    assert_eq!(stats.total_members, 2);
    assert_eq!(records.keys, vec!["C1".to_string(), "C2".to_string()]);
}

#[test]
fn malformed_second_line_reports_position_and_content() {
    let err = analyze_text("C1 P1\nbroken\nC2 P2\n").unwrap_err();
    match err {
        PipelineError::Parse { line, content } => {
            assert_eq!(line, 2);
            assert_eq!(content, "broken");
        }
        _ => panic!("expected a parse error"),
    }
}

#[test]
fn empty_middle_line_is_malformed() {
    let err = analyze_text("C1 P1\n\nC2 P2\n").unwrap_err();
    match err {
        PipelineError::Parse { line, content } => {
            assert_eq!(line, 2);
            assert_eq!(content, "");
        }
        _ => panic!("expected a parse error"),
    }
}

#[test]
fn members_accumulate_across_interleaved_records() {
    let (records, stats) = analyze_text("A x\nB y\nA z\n").unwrap();
    assert_eq!(stats.cluster_count, 2);
    assert_eq!(records.keys, vec!["A".to_string(), "B".to_string()]);
    assert_eq!(records.members[0], vec!["x".to_string(), "z".to_string()]);
    assert_eq!(records.members[1], vec!["y".to_string()]);
    assert_eq!(stats.singleton_count, 1);
    assert_eq!(stats.non_singleton_count, 1);
}

#[test]
fn leading_whitespace_is_skipped() {
    let (records, stats) = analyze_text("  C1 P1\n\tC2 P2\n").unwrap();
    assert_eq!(records.len(), 2);
    assert_eq!(records.keys, vec!["C1".to_string(), "C2".to_string()]);
    assert_eq!(stats.total_members, 2);
}

#[test]
fn average_is_exact_fraction() {
    let (_, stats) = analyze_text("A x\nA y\nA z\nB w\n").unwrap();
    let (num, den) = stats.average_size_fraction();
    assert_eq!((num, den), (4, 2));
    assert!((average_of(&stats) - 2.0).abs() < 1e-9);
}
