use mcmappings_sqlite::mapping::{
    append_mappings, detect_platform, AppendProgress, AppendStep, MappingError, MappingType,
};

#[test]
fn extensions_name_the_platform() {
    assert_eq!(detect_platform("joined.srg").unwrap(), MappingType::Forge);
    assert_eq!(detect_platform("joined.tsrg").unwrap(), MappingType::Forge);
    assert_eq!(detect_platform("client.txt").unwrap(), MappingType::Vanilla);
    assert_eq!(detect_platform("server.mappings").unwrap(), MappingType::Vanilla);
    assert_eq!(detect_platform("yarn.tiny").unwrap(), MappingType::Fabric);
}

#[test]
fn unknown_extension_is_an_error_naming_the_path() {
    match detect_platform("notes.md") {
        Err(MappingError::UnknownMappingType(p)) => assert_eq!(p, "notes.md"),
        other => panic!("unexpected {:?}", other),
    }
    assert!(detect_platform("srg").is_err());
    assert!(detect_platform("").is_err());
}

#[test]
fn run_processes_inputs_in_order_and_stops_at_unknown() {
    let inputs = vec!["a.txt".to_string(), "b.tiny".to_string(), "c.zip".to_string(), "d.srg".to_string()];
    let mut progress = AppendProgress::new();
    match append_mappings(&inputs, &progress) {
        AppendStep::Process { index, kind } => {
            assert_eq!(index, 0);
            assert_eq!(kind, MappingType::Vanilla);
        }
        other => panic!("unexpected {:?}", other),
    }
    progress = progress.record_processed(10);
    match append_mappings(&inputs, &progress) {
        AppendStep::Process { index, kind } => {
            assert_eq!(index, 1);
            assert_eq!(kind, MappingType::Fabric);
        }
        other => panic!("unexpected {:?}", other),
    }
    progress = progress.record_processed(5);
    assert_eq!(progress.total_lines, 15);
    match append_mappings(&inputs, &progress) {
        AppendStep::Failed(MappingError::UnknownMappingType(p)) => assert_eq!(p, "c.zip"),
        other => panic!("unexpected {:?}", other),
    }
}

#[test]
fn run_finishes_with_the_total() {
    let inputs = vec!["a.srg".to_string()];
    let progress = AppendProgress::new().record_processed(7);
    match append_mappings(&inputs, &progress) {
        AppendStep::Finished { total_lines } => assert_eq!(total_lines, 7),
        other => panic!("unexpected {:?}", other),
    }
    match append_mappings(&Vec::new(), &AppendProgress::new()) {
        AppendStep::Finished { total_lines } => assert_eq!(total_lines, 0),
        other => panic!("unexpected {:?}", other),
    }
}

#[test]
fn total_wraps_around_like_release_arithmetic() {
    let p = AppendProgress { next: 0, total_lines: usize::MAX }.record_processed(2);
    assert_eq!(p.total_lines, 1);
    assert_eq!(p.next, 1);
}

#[test]
fn run_reads_every_known_input_then_finishes() {
    let inputs = vec!["a.srg".to_string(), "b.tsrg".to_string(), "c.mappings".to_string()];
    let mut progress = AppendProgress::new();
    let mut kinds = Vec::new();
    loop {
        match append_mappings(&inputs, &progress) {
            AppendStep::Process { index, kind } => {
                assert_eq!(index, kinds.len());
                kinds.push(kind);
                progress = progress.record_processed(index + 1);
            }
            AppendStep::Finished { total_lines } => {
                assert_eq!(total_lines, 6);
                break;
            }
            AppendStep::Failed(e) => panic!("unexpected {:?}", e),
        }
    }
    assert_eq!(kinds, vec![MappingType::Forge, MappingType::Forge, MappingType::Vanilla]);
}
