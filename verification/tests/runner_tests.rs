use clusterprep::checkpoint::ArtifactObservation;
use clusterprep::checkpoint::is_valid;
use clusterprep::errors::PipelineError;
use clusterprep::runner::Action;
use clusterprep::runner::StageRunner;
use clusterprep::runner::command_line;
use clusterprep::stages::Producer;
use clusterprep::stages::default_stages;

fn valid_obs() -> ArtifactObservation {
    ArtifactObservation { exists: true, size: 1 }
}

fn missing_obs() -> ArtifactObservation {
    ArtifactObservation { exists: false, size: 0 }
}

#[test]
fn validity_needs_existence_and_size() {
    assert!(!is_valid(&ArtifactObservation { exists: false, size: 0 }));
    assert!(!is_valid(&ArtifactObservation { exists: false, size: 7 }));
    assert!(!is_valid(&ArtifactObservation { exists: true, size: 0 }));
    assert!(is_valid(&ArtifactObservation { exists: true, size: 7 }));
}

#[test]
fn stage_sequence_is_fixed() {
    let stages = default_stages();
    assert_eq!(stages.len(), 6);
    let names: Vec<&str> = stages.iter().map(|s| s.name.as_str()).collect();
    assert_eq!(names, vec!["fetch", "convert", "makedb", "cluster", "realign", "recluster"]);
    let outputs: Vec<&str> = stages.iter().map(|s| s.output.as_str()).collect();
    assert_eq!(
        outputs,
        vec![
            "uniprot_sprot.fasta.gz",
            "uniprot_sprot.sfasta",
            "uniprot_sprot.dmnd",
            "clusters",
            "clusters.realign",
            "clusters.recluster",
        ]
    );
    match &stages[0].producer {
        Producer::Fetch { url } => {
            assert_eq!(
                url,
                "https://ftp.uniprot.org/pub/databases/uniprot/current_release/knowledgebase/complete/uniprot_sprot.fasta.gz"
            );
        }
        _ => panic!("the first stage fetches"),
    }
    match &stages[1].producer {
        Producer::Convert { input, threads } => {
            assert_eq!(input, "uniprot_sprot.fasta.gz");
            assert_eq!(*threads, 16);
        }
        _ => panic!("the second stage converts"),
    }
    match &stages[3].producer {
        Producer::Tool { program, args } => {
            assert_eq!(program, "diamond");
            assert_eq!(
                args,
                &vec![
                    "cluster",
                    "--db",
                    "uniprot_sprot.dmnd",
                    "--approx-id",
                    "50",
                    "--threads",
                    "16",
                    "--member-cover",
                    "80",
                    "-o",
                    "clusters",
                ]
                .into_iter()
                .map(String::from)
                .collect::<Vec<String>>()
            );
        }
        _ => panic!("the fourth stage runs the external tool"),
    }
}

#[test]
fn all_artifacts_valid_means_zero_producer_calls() {
    let mut runner = StageRunner::new(default_stages());
    loop {
        match runner.next_action() {
            Action::CheckArtifact { .. } => runner.handle_validity(&valid_obs()),
            Action::Finished => break,
            _ => panic!("a valid artifact never demands a producer"),
        }
    }
    assert_eq!(runner.producer_calls, 0);
}

#[test]
fn missing_artifacts_demand_each_producer_once() {
    let mut runner = StageRunner::new(default_stages());
    let mut produced = 0u64;
    loop {
        match runner.next_action() {
            Action::CheckArtifact { .. } => runner.handle_validity(&missing_obs()),
            Action::RunProducer { .. } => {
                produced += 1;
                assert!(runner.handle_producer(true, String::new()).is_none());
            }
            Action::Finished => break,
            Action::Halted => panic!("no producer failed"),
        }
    }
    assert_eq!(produced, 6);
    assert_eq!(runner.producer_calls, 6);
}

#[test]
fn valid_artifact_skips_its_producer() {
    let mut runner = StageRunner::new(default_stages());
    assert!(matches!(runner.next_action(), Action::CheckArtifact { index: 0 }));
    runner.handle_validity(&valid_obs());
    assert_eq!(runner.producer_calls, 0);
    assert!(matches!(runner.next_action(), Action::CheckArtifact { index: 1 }));
}

#[test]
fn failed_fetch_is_a_network_error_and_halts() {
    let mut runner = StageRunner::new(default_stages());
    runner.handle_validity(&missing_obs());
    assert!(matches!(runner.next_action(), Action::RunProducer { index: 0 }));
    let err = runner.handle_producer(false, "connection refused".to_string()).unwrap();
    match err {
        PipelineError::Network { detail } => assert_eq!(detail, "connection refused"),
        _ => panic!("a failed fetch is a network error"),
    }
    assert!(matches!(runner.next_action(), Action::Halted));
}

#[test]
fn failed_tool_error_names_stage_command_and_stderr() {
    let mut runner = StageRunner::new(default_stages());
    runner.handle_validity(&valid_obs());
    runner.handle_validity(&valid_obs());
    runner.handle_validity(&missing_obs());
    assert!(matches!(runner.next_action(), Action::RunProducer { index: 2 }));
    let err = runner.handle_producer(false, "makedb exploded".to_string()).unwrap();
    match err {
        PipelineError::ExternalTool { stage, command, stderr } => {
            assert_eq!(stage, "makedb");
            assert_eq!(
                command,
                "diamond makedb --db uniprot_sprot.dmnd --in uniprot_sprot.fasta.gz"
            );
            assert_eq!(stderr, "makedb exploded");
        }
        _ => panic!("a failed tool is an external-tool error"),
    }
    assert!(matches!(runner.next_action(), Action::Halted));
}

#[test]
fn failed_conversion_is_an_io_error() {
    let mut runner = StageRunner::new(default_stages());
    runner.handle_validity(&valid_obs());
    runner.handle_validity(&missing_obs());
    let err = runner.handle_producer(false, "bad archive".to_string()).unwrap();
    assert!(matches!(err, PipelineError::Io { .. }));
}

#[test]
fn second_run_after_success_skips_everything() {
    let mut first = StageRunner::new(default_stages());
    loop {
        match first.next_action() {
            Action::CheckArtifact { .. } => first.handle_validity(&missing_obs()),
            Action::RunProducer { .. } => {
                first.handle_producer(true, String::new());
            }
            Action::Finished => break,
            Action::Halted => panic!("no producer failed"),
        }
    }
    // Every producer succeeded, so every artifact is now valid; the second
    // invocation sees only valid artifacts and performs zero producer calls.
    let mut second = StageRunner::new(default_stages());
    loop {
        match second.next_action() {
            Action::CheckArtifact { .. } => second.handle_validity(&valid_obs()),
            Action::Finished => break,
            _ => panic!("the second run must skip every stage"),
        }
    }
    assert_eq!(second.producer_calls, 0);
}

#[test]
fn command_line_joins_program_and_args() {
    let args: Vec<String> = vec!["a".to_string(), "b".to_string(), "c".to_string()];
    assert_eq!(command_line(&"tool".to_string(), &args), "tool a b c");
    assert_eq!(command_line(&"tool".to_string(), &Vec::new()), "tool");
}
