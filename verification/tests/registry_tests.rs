use lang_judge::language::Language;
use lang_judge::registry::{Languages, ParseOutcome, SkipReason};

fn lang(uuid: u128, name: &str) -> Language {
    Language {
        uuid,
        name: name.to_string(),
        version: "1".to_string(),
        exec_cmd: "./{file}".to_string(),
        compile_exec: "cc".to_string(),
        compile_args: "{infile} -o {outfile}".to_string(),
        entry_source: "main.c".to_string(),
        add_mem_limit: 64,
        add_time_limit: 2,
    }
}

#[test]
fn load_skips_malformed_file_and_keeps_valid_ones() {
    let entries = vec![
        ParseOutcome::Parsed(lang(1, "c")),
        ParseOutcome::Malformed,
        ParseOutcome::Parsed(lang(2, "cpp")),
    ];
    let (registry, report) = Languages::load(entries).unwrap();
    assert_eq!(registry.len(), 2);
    assert_eq!(registry.get(1).unwrap().name, "c");
    assert_eq!(registry.get(2).unwrap().name, "cpp");
    assert_eq!(report.skipped, vec![(1usize, SkipReason::Malformed)]);
}

#[test]
fn get_returns_the_descriptor_whose_id_matches() {
    let entries = vec![ParseOutcome::Parsed(lang(7, "java")), ParseOutcome::Parsed(lang(9, "py"))];
    let (registry, _) = Languages::load(entries).unwrap();
    let d = registry.get(7).unwrap();
    assert_eq!(d.uuid, 7);
    assert_eq!(d.name, "java");
}

#[test]
fn get_returns_none_for_an_id_in_no_definition_file() {
    let entries = vec![ParseOutcome::Parsed(lang(7, "java"))];
    let (registry, _) = Languages::load(entries).unwrap();
    assert!(registry.get(8).is_none());
}

#[test]
fn load_rejects_duplicate_identifiers_with_the_offending_id() {
    let entries = vec![
        ParseOutcome::Parsed(lang(5, "first")),
        ParseOutcome::Parsed(lang(5, "second")),
    ];
    let err = match Languages::load(entries) {
        Err(e) => e,
        Ok(_) => panic!("duplicate identifiers must be rejected"),
    };
    assert_eq!(err.uuid, 5);
}

#[test]
fn load_skips_descriptors_with_invalid_templates_and_reports_them() {
    let mut bad = lang(3, "broken");
    bad.exec_cmd = "./{binary}".to_string();
    let entries = vec![ParseOutcome::Parsed(lang(1, "ok")), ParseOutcome::Parsed(bad)];
    let (registry, report) = Languages::load(entries).unwrap();
    assert_eq!(registry.len(), 1);
    assert!(registry.get(3).is_none());
    assert_eq!(report.skipped, vec![(1usize, SkipReason::InvalidTemplate)]);
}

#[test]
fn load_of_nothing_gives_an_empty_registry() {
    let (registry, report) = Languages::load(Vec::new()).unwrap();
    assert_eq!(registry.len(), 0);
    assert!(registry.get(0).is_none());
    assert!(report.skipped.is_empty());
}
