use llm_fuzz_sanitize::batch::CheckRun;
use llm_fuzz_sanitize::error::{keeps_workdir, ProgramError};
use llm_fuzz_sanitize::executor::{
    worker_verdict, Executor, RecheckAction, RunOutcome, Stage, StageStep, WorkerExit,
    COVERAGE_MESSAGE,
};
use llm_fuzz_sanitize::toolchain::{asan_options, profile_flags, sanitizer_flags, Compile};
use llm_fuzz_sanitize::workdir::cleanup_plan;

fn executor() -> Executor {
    Executor::new(
        "cJSON".to_string(),
        "-Idata/cJSON/include".to_string(),
        "output/cJSON/corpus".to_string(),
    )
}

fn run_pipeline(ex: &Executor, outcomes: Vec<Option<ProgramError>>) -> (Option<ProgramError>, Vec<Stage>) {
    let mut stage = Stage::Syntax;
    let mut ran = Vec::new();
    let mut outcomes = outcomes.into_iter();
    loop {
        ran.push(stage);
        let outcome = outcomes.next().unwrap();
        match ex.check_program_is_correct(stage, outcome) {
            StageStep::Run(next) => stage = next,
            StageStep::Done(v) => return (v, ran),
        }
    }
}

#[test]
fn test_coverage_sanitize() {
    let ex = executor();
    // a driver that passes every stage is accepted and its work directory kept
    let (verdict, ran) = run_pipeline(&ex, vec![None, None, None, None, None]);
    assert!(verdict.is_none());
    assert_eq!(ran.len(), 5);
    let names = vec!["99999.cc".to_string(), "99999.out".to_string(), "99999.cost".to_string(), "corpus".to_string()];
    let plan = cleanup_plan(&verdict, &names);
    assert!(!plan.remove_workdir);

    // a driver that misses the targeted callees is rejected by coverage
    let cov = ex.is_program_coverage_correct(true, "cJSON_Parse: 0/12");
    let (verdict, _) = run_pipeline(&ex, vec![None, None, None, None, cov]);
    assert!(verdict.is_some());
    match &verdict {
        Some(ProgramError::Coverage(m)) => {
            assert_eq!(m, &format!("{COVERAGE_MESSAGE}\ncJSON_Parse: 0/12"));
        }
        _ => panic!("Should not fail on other sanitization"),
    }
    let plan = cleanup_plan(&verdict, &names);
    assert!(plan.remove_workdir);
}

#[test]
fn accepted_workdir_keeps_only_debug_files() {
    let names = vec![
        "seed.cc".to_string(),
        "seed.out".to_string(),
        "seed.cov.out".to_string(),
        "default.profraw".to_string(),
        "default.profdata".to_string(),
        "fuzz.log".to_string(),
        "merge_control_file".to_string(),
        "crash-abc".to_string(),
        ".hidden".to_string(),
        "time.cost".to_string(),
    ];
    let plan = cleanup_plan(&None, &names);
    assert!(!plan.remove_workdir);
    assert_eq!(
        plan.delete,
        vec![
            "default.profraw".to_string(),
            "merge_control_file".to_string(),
            "crash-abc".to_string(),
            ".hidden".to_string(),
        ]
    );
}

#[test]
fn workdir_kept_only_for_accept_hang_and_fuzzer() {
    assert!(keeps_workdir(&None));
    assert!(keeps_workdir(&Some(ProgramError::Hang("t".into()))));
    assert!(keeps_workdir(&Some(ProgramError::Fuzzer("f".into()))));
    assert!(!keeps_workdir(&Some(ProgramError::Syntax("s".into()))));
    assert!(!keeps_workdir(&Some(ProgramError::Link("l".into()))));
    assert!(!keeps_workdir(&Some(ProgramError::Execute("e".into()))));
    assert!(!keeps_workdir(&Some(ProgramError::Coverage("c".into()))));
}

#[test]
fn missing_header_is_a_syntax_error() {
    let ex = executor();
    let stderr = "new_test.cc:3:5: error: use of undeclared identifier 'cJSON_Parse'".to_string();
    let syntax = ex.is_program_syntax_correct(false, stderr.clone());
    let (verdict, ran) = run_pipeline(&ex, vec![syntax]);
    assert_eq!(verdict, Some(ProgramError::Syntax(stderr)));
    assert_eq!(ran, vec![Stage::Syntax]);
    assert!(ex.is_program_syntax_correct(true, String::new()).is_none());
    assert!(cleanup_plan(&verdict, &vec![]).remove_workdir);
}

#[test]
fn uninitialized_read_is_an_execute_error() {
    let ex = executor();
    let runs = vec![
        RunOutcome::Passed,
        RunOutcome::Failed("==1==WARNING: MemorySanitizer: use-of-uninitialized-value; exit code 168".into()),
        RunOutcome::TimedOut("late".into()),
    ];
    let exec = ex.is_program_execute_correct(&runs);
    match &exec {
        Some(ProgramError::Execute(m)) => assert!(m.contains("168")),
        other => panic!("unexpected {other:?}"),
    }
    let (verdict, ran) = run_pipeline(&ex, vec![None, None, exec]);
    assert!(matches!(verdict, Some(ProgramError::Execute(_))));
    assert_eq!(ran, vec![Stage::Syntax, Stage::Link, Stage::Execute]);
    assert!(ex.is_program_execute_correct(&vec![RunOutcome::Passed]).is_none());
    assert!(ex.is_program_execute_correct(&vec![]).is_none());
}

#[test]
fn endless_sleep_is_a_hang_and_keeps_workdir() {
    let ex = executor();
    let runs = vec![RunOutcome::TimedOut("timeout after 180s".into()), RunOutcome::Failed("x".into())];
    let exec = ex.is_program_execute_correct(&runs);
    assert_eq!(exec, Some(ProgramError::Hang("timeout after 180s".into())));
    let (verdict, _) = run_pipeline(&ex, vec![None, None, exec]);
    assert!(!cleanup_plan(&verdict, &vec!["a.cc".to_string()]).remove_workdir);
}

#[test]
fn link_and_fuzz_errors_carry_their_message() {
    let ex = executor();
    assert_eq!(ex.is_program_link_correct(Err("undefined reference".into())), Some(ProgramError::Link("undefined reference".into())));
    assert_eq!(ex.is_program_link_correct(Ok(())), None);
    assert_eq!(ex.is_program_fuzz_correct(Err("deadly signal".into())), Some(ProgramError::Fuzzer("deadly signal".into())));
    assert_eq!(ex.is_program_fuzz_correct(Ok(())), None);
    assert_eq!(ex.is_program_coverage_correct(false, "x"), None);
}

#[test]
fn worker_exit_decoding() {
    assert_eq!(worker_verdict(true, None, "noise".into()), None);
    assert_eq!(
        worker_verdict(false, Some(ProgramError::Link("l".into())), "{\"Link\":\"l\"}".into()),
        Some(ProgramError::Link("l".into()))
    );
    assert_eq!(worker_verdict(false, None, "panic".into()), Some(ProgramError::Fuzzer("panic".into())));
    let ex = executor();
    let v = ex.concurrent_check_batch(vec![
        WorkerExit { success: true, decoded: None, stderr: String::new() },
        WorkerExit { success: false, decoded: None, stderr: "boom".into() },
        WorkerExit { success: false, decoded: Some(ProgramError::Hang("h".into())), stderr: "x".into() },
    ]);
    assert_eq!(v, vec![None, Some(ProgramError::Fuzzer("boom".into())), Some(ProgramError::Hang("h".into()))]);
}

#[test]
fn worker_and_syntax_arguments() {
    let ex = executor();
    assert_eq!(
        ex.worker_args("output/cJSON/work/3/3.cc"),
        vec!["run", "-q", "--bin", "harness", "--", "cJSON", "check", "output/cJSON/work/3/3.cc"]
    );
    assert_eq!(ex.syntax_check_args("a.cc"), vec!["-fsyntax-only", "-Idata/cJSON/include", "a.cc"]);
}

#[test]
fn batches_keep_input_order_and_length() {
    let ex = executor();
    let programs: Vec<String> = (0..7).map(|i| format!("drv{i}.cc")).collect();
    let mut run: CheckRun = ex.concurrent_check(programs.clone(), 3);
    let mut sizes = Vec::new();
    while !run.is_done() {
        let batch = run.next_batch();
        sizes.push(batch.len());
        let verdicts = batch.iter().map(|p| if p == "drv4.cc" { Some(ProgramError::Hang(p.clone())) } else { None }).collect();
        run.record_batch(verdicts);
    }
    assert_eq!(sizes, vec![3, 3, 1]);
    let verdicts = run.into_verdicts();
    assert_eq!(verdicts.len(), programs.len());
    assert_eq!(verdicts[4], Some(ProgramError::Hang("drv4.cc".into())));
    assert!(verdicts.iter().enumerate().all(|(i, v)| (i == 4) == v.is_some()));
}

#[test]
fn empty_check_is_done_at_once() {
    let ex = executor();
    let run = ex.concurrent_check(Vec::new(), 2);
    assert!(run.is_done());
    assert!(run.into_verdicts().is_empty());
}

#[test]
fn cleanup_plans_after_a_batch() {
    let ex = executor();
    let mut run = ex.concurrent_check(vec!["w1/a.cc".to_string(), "w2/b.cc".to_string()], 1);
    run.record_batch(vec![None]);
    run.record_batch(vec![Some(ProgramError::Syntax("s".into()))]);
    let names = vec![vec!["a.cc".to_string(), "x.tmp".to_string()], vec!["b.cc".to_string()]];
    let (verdicts, plans) = ex.check_programs_are_correct(run, &names);
    assert_eq!(verdicts, vec![None, Some(ProgramError::Syntax("s".into()))]);
    assert_eq!(plans.len(), 2);
    assert!(!plans[0].remove_workdir);
    assert_eq!(plans[0].delete, vec!["x.tmp".to_string()]);
    assert!(plans[1].remove_workdir);
    assert!(plans[1].delete.is_empty());
}

#[test]
fn recheck_demotes_failing_seeds() {
    let ex = executor();
    assert_eq!(ex.recheck_seed(&None, true), RecheckAction::Keep);
    assert_eq!(
        ex.recheck_seed(&Some(ProgramError::Execute("e".into())), true),
        RecheckAction::Demote { drop_from_queue: true }
    );
    assert_eq!(
        ex.recheck_seed(&Some(ProgramError::Hang("h".into())), false),
        RecheckAction::Demote { drop_from_queue: false }
    );
}

#[test]
fn error_message_accessor() {
    assert_eq!(ProgramError::Coverage("c".into()).message(), "c");
    assert_eq!(ProgramError::Execute("e".into()).message(), "e");
}

#[test]
fn build_profiles_and_sanitizer_options() {
    assert_eq!(
        profile_flags(Compile::FUZZER, "").join(" "),
        "-fsanitize=fuzzer -O1 -g -fsanitize=address,undefined -ftrivial-auto-var-init=zero -enable-trivial-auto-var-init-zero-knowing-it-will-be-removed-from-clang"
    );
    let min = profile_flags(Compile::Minimize, "-fsanitize-coverage-ignorelist=bl");
    assert_eq!(min.len(), 7);
    assert_eq!(min[6], "-fsanitize-coverage-ignorelist=bl");
    let cov = profile_flags(Compile::COVERAGE, "x");
    assert!(cov.contains(&"-fprofile-instr-generate".to_string()) && cov.contains(&"-fcoverage-mapping".to_string()));
    assert_eq!(cov.len(), 10);
    let san = sanitizer_flags();
    assert_eq!(&san[6..], &["-fsanitize-trap=undefined".to_string(), "-fno-sanitize-recover=undefined".to_string()]);
    assert_eq!(asan_options(), "exitcode=168:alloc_dealloc_mismatch=0");
}
