use lang_judge::language::{classify_attempt, CompileFault, CompileResult, Language};
use lang_judge::logger::MaxLevel;
use lang_judge::template::TemplateError;

fn sample_lang() -> Language {
    Language {
        uuid: 42,
        name: "C (gcc)".to_string(),
        version: "13".to_string(),
        exec_cmd: "./{file}".to_string(),
        compile_exec: "gcc".to_string(),
        compile_args: "{infile} -O2 -o {outfile}".to_string(),
        entry_source: "main.c".to_string(),
        add_mem_limit: 256,
        add_time_limit: 5,
    }
}

#[test]
fn parse_exec_cmd_substitutes_binary_path() {
    let lang = sample_lang();
    let r = lang.parse_exec_cmd("/tmp/prog".to_string());
    assert_eq!(r, Ok(".//tmp/prog".to_string()));
}

#[test]
fn parse_compile_args_substitutes_both_paths() {
    let lang = sample_lang();
    let r = lang.parse_compile_args("main.c".to_string(), "prog".to_string());
    assert_eq!(r, Ok("main.c -O2 -o prog".to_string()));
}

#[test]
fn parse_compile_args_reports_unknown_placeholder() {
    let mut lang = sample_lang();
    lang.compile_args = "{input} -o {outfile}".to_string();
    let r = lang.parse_compile_args("a".to_string(), "b".to_string());
    assert_eq!(r, Err(TemplateError::UnknownPlaceholder));
}

#[test]
fn compile_argv_renders_one_argument_per_token() {
    let lang = sample_lang();
    let argv = lang.compile_argv("main.c".to_string(), "prog".to_string()).unwrap();
    assert_eq!(argv, vec!["main.c", "-O2", "-o", "prog"]);
}

#[test]
fn compile_argv_keeps_spaces_inside_substituted_paths() {
    let lang = sample_lang();
    let argv = lang.compile_argv("my dir/main.c".to_string(), "out dir/prog".to_string()).unwrap();
    assert_eq!(argv, vec!["my dir/main.c", "-O2", "-o", "out dir/prog"]);
}

#[test]
fn compile_argv_collapses_runs_of_whitespace() {
    let mut lang = sample_lang();
    lang.compile_args = "  {infile}\t\t-o\n{outfile}  ".to_string();
    let argv = lang.compile_argv("a".to_string(), "b".to_string()).unwrap();
    assert_eq!(argv, vec!["a", "-o", "b"]);
}

#[test]
fn compile_command_plans_paths_program_and_args() {
    let lang = sample_lang();
    let plan = lang.compile_command("/ws", "/out/prog").unwrap();
    assert_eq!(plan.source_path, "/ws/main.c");
    assert_eq!(plan.program, "gcc");
    assert_eq!(plan.args, vec!["/ws/main.c", "-O2", "-o", "/out/prog"]);
}

#[test]
fn entry_path_joins_workspace_and_entry_source() {
    let lang = sample_lang();
    assert_eq!(lang.entry_path("/ws"), "/ws/main.c");
}

#[test]
fn templates_valid_accepts_declared_slots_only() {
    let lang = sample_lang();
    assert!(lang.templates_valid());
}

#[test]
fn templates_valid_rejects_bad_exec_template() {
    let mut lang = sample_lang();
    lang.exec_cmd = "./{binary}".to_string();
    assert!(!lang.templates_valid());
}

#[test]
fn templates_valid_rejects_bad_compile_template() {
    let mut lang = sample_lang();
    lang.compile_args = "{infile} -o {outfile".to_string();
    assert!(!lang.templates_valid());
}

#[test]
fn classify_attempt_zero_exit_is_success_with_stdout() {
    let r = classify_attempt(true, true, Some("warnings: none".to_string()), Some(String::new()));
    match r {
        Ok(CompileResult::Success(out)) => assert_eq!(out, "warnings: none"),
        other => panic!("expected success, got {:?}", other),
    }
}

#[test]
fn classify_attempt_nonzero_exit_is_error_with_stderr() {
    let r = classify_attempt(true, false, Some(String::new()), Some("syntax error".to_string()));
    match r {
        Ok(CompileResult::Error(err)) => {
            assert!(!err.is_empty());
            assert_eq!(err, "syntax error");
        },
        other => panic!("expected compiler error, got {:?}", other),
    }
}

#[test]
fn classify_attempt_spawn_failure_is_a_distinct_fault() {
    let r = classify_attempt(false, false, None, None);
    assert_eq!(r.unwrap_err(), CompileFault::SpawnFailure);
}

#[test]
fn classify_attempt_undecodable_output_is_a_distinct_fault() {
    let r = classify_attempt(true, true, None, Some(String::new()));
    assert_eq!(r.unwrap_err(), CompileFault::OutputEncoding);
    let r = classify_attempt(true, false, Some(String::new()), None);
    assert_eq!(r.unwrap_err(), CompileFault::OutputEncoding);
}

#[test]
fn to_level_filter_picks_the_matching_variant() {
    assert_eq!(MaxLevel::Debug.to_level_filter(), log::LevelFilter::Debug);
    assert_eq!(MaxLevel::Info.to_level_filter(), log::LevelFilter::Info);
    assert_eq!(MaxLevel::Error.to_level_filter(), log::LevelFilter::Error);
    assert_eq!(MaxLevel::Trace.to_level_filter(), log::LevelFilter::Trace);
}
