use vstd::prelude::*;
use vstd::string::StringExecFns;
use crate::error::{ProgramError, spec_keeps_workdir};
use crate::workdir::{CleanupPlan, cleanup_plan, spec_to_delete};
use crate::batch::CheckRun;

verus! {

/// First line of the diagnostic of a driver rejected for missing coverage.
pub const COVERAGE_MESSAGE: &'static str = "The program cannot cover the callees along the path that contains maximum callees.";

/// The five sanitization stages, in the order in which they run.
#[derive(Clone, Copy, Debug, PartialEq, Eq, Structural)]
pub enum Stage {
    Syntax,
    Link,
    Execute,
    Fuzz,
    Coverage,
}

/// What the pipeline does once a stage has reported.
#[derive(Clone, Debug, PartialEq, Eq)]
pub enum StageStep {
    /// Run this stage next.
    Run(Stage),
    /// The pipeline is over, with this verdict (`None`: accepted).
    Done(Option<ProgramError>),
}

/// The stage after `s`, or `None` after the last one.
pub open spec fn spec_next_stage(s: Stage) -> Option<Stage> {
    match s {
        Stage::Syntax => Some(Stage::Link),
        Stage::Link => Some(Stage::Execute),
        Stage::Execute => Some(Stage::Fuzz),
        Stage::Fuzz => Some(Stage::Coverage),
        Stage::Coverage => None,
    }
}

/// The decision after stage `s` reported `outcome`: the first failure ends the
/// pipeline, and success after the last stage accepts the candidate.
pub open spec fn spec_stage_step(s: Stage, outcome: Option<ProgramError>) -> StageStep {
    match outcome {
        Some(e) => StageStep::Done(Some(e)),
        None => match spec_next_stage(s) {
            Some(n) => StageStep::Run(n),
            None => StageStep::Done(None),
        },
    }
}

/// Stages by position: 0 is `Syntax`, 4 is `Coverage`.
pub open spec fn stage_at(i: int) -> Stage {
    if i <= 0 {
        Stage::Syntax
    } else if i == 1 {
        Stage::Link
    } else if i == 2 {
        Stage::Execute
    } else if i == 3 {
        Stage::Fuzz
    } else {
        Stage::Coverage
    }
}

/// The verdict of the whole pipeline when stage `i` onwards report `outcomes[i]`:
/// the first failure, or acceptance.
pub open spec fn pipeline_verdict(outcomes: Seq<Option<ProgramError>>, i: int) -> Option<ProgramError>
    decreases 5 - i,
{
    if i >= 5 || i >= outcomes.len() {
        None
    } else if outcomes[i] is Some {
        outcomes[i]
    } else {
        pipeline_verdict(outcomes, i + 1)
    }
}

/// The result of running the step decision from stage `i` on, feeding stage
/// `k` the outcome `outcomes[k]`.
pub open spec fn run_steps(outcomes: Seq<Option<ProgramError>>, i: int) -> Option<ProgramError>
    decreases 5 - i,
{
    if i >= 5 || i >= outcomes.len() {
        None
    } else {
        match spec_stage_step(stage_at(i), outcomes[i]) {
            StageStep::Done(v) => v,
            StageStep::Run(_) => run_steps(outcomes, i + 1),
        }
    }
}

/// Stages run in their fixed order and the first failing one decides: driving
/// the pipeline by its step decision yields the first failure among the five
/// stage outcomes, or acceptance when all five pass.
pub proof fn lemma_pipeline_first_failure(outcomes: Seq<Option<ProgramError>>)
    requires
        outcomes.len() == 5,
    ensures
        run_steps(outcomes, 0) == pipeline_verdict(outcomes, 0),
{
    lemma_steps_from(outcomes, 4);
    lemma_steps_from(outcomes, 3);
    lemma_steps_from(outcomes, 2);
    lemma_steps_from(outcomes, 1);
    lemma_steps_from(outcomes, 0);
}

proof fn lemma_steps_from(outcomes: Seq<Option<ProgramError>>, i: int)
    requires
        outcomes.len() == 5,
        0 <= i < 5,
        i < 4 ==> run_steps(outcomes, i + 1) == pipeline_verdict(outcomes, i + 1),
    ensures
        run_steps(outcomes, i) == pipeline_verdict(outcomes, i),
{
    assert(run_steps(outcomes, 5) == None::<ProgramError>);
    assert(pipeline_verdict(outcomes, 5) == None::<ProgramError>);
}

/// One run of the driver binary on one corpus input.
#[derive(Clone, Debug, PartialEq, Eq)]
pub enum RunOutcome {
    Passed,
    /// The run exceeded the execution timeout.
    TimedOut(String),
    /// The run exited with a non-zero status; its standard error.
    Failed(String),
}

/// The verdict of the Execute stage over runs `i..` : the first run that did
/// not pass decides.
pub open spec fn spec_execute_verdict(runs: Seq<RunOutcome>, i: int) -> Option<ProgramError>
    decreases runs.len() - i,
{
    if i < 0 || i >= runs.len() {
        None
    } else {
        match runs[i] {
            RunOutcome::Passed => spec_execute_verdict(runs, i + 1),
            RunOutcome::TimedOut(m) => Some(ProgramError::Hang(m)),
            RunOutcome::Failed(m) => Some(ProgramError::Execute(m)),
        }
    }
}

/// The verdict of a worker process: success accepts; otherwise the decoded
/// error when standard error held one, else a fuzzer error with the raw text.
pub open spec fn spec_worker_verdict(
    success: bool,
    decoded: Option<ProgramError>,
    stderr: String,
) -> Option<ProgramError> {
    if success {
        None
    } else {
        match decoded {
            Some(e) => Some(e),
            None => Some(ProgramError::Fuzzer(stderr)),
        }
    }
}

/// The views of a sequence of strings.
pub open spec fn views(v: Seq<String>) -> Seq<Seq<char>> {
    v.map_values(|s: String| s@)
}

/// Runs the sanitization stages for one target library.
pub struct Executor {
    /// The target library's name.
    pub library_name: String,
    /// The header search flag handed to the syntax check.
    pub header_cmd: String,
    /// The library's shared corpus directory.
    pub shared_corpus_dir: String,
}

impl Executor {
    pub fn new(library_name: String, header_cmd: String, shared_corpus_dir: String) -> (r: Executor)
        ensures
            r.library_name == library_name,
            r.header_cmd == header_cmd,
            r.shared_corpus_dir == shared_corpus_dir,
    {
        Executor { library_name, header_cmd, shared_corpus_dir }
    }

    /// The compiler arguments of the Syntax stage: syntax only, with the header
    /// search flag, on the candidate's source.
    pub fn syntax_check_args(&self, program_path: &str) -> (r: Vec<String>)
        ensures
            views(r@) == seq!["-fsyntax-only"@, self.header_cmd@, program_path@],
    {
        let mut r: Vec<String> = Vec::new();
        r.push(String::from_str("-fsyntax-only"));
        r.push(self.header_cmd.clone());
        r.push(String::from_str(program_path));
        assert(views(r@) =~= seq!["-fsyntax-only"@, self.header_cmd@, program_path@]);
        r
    }

    /// The arguments of a worker process: `harness <library> check <program>`
    /// run through cargo.
    pub fn worker_args(&self, program_path: &str) -> (r: Vec<String>)
        ensures
            views(r@) == seq![
                "run"@,
                "-q"@,
                "--bin"@,
                "harness"@,
                "--"@,
                self.library_name@,
                "check"@,
                program_path@,
            ],
    {
        let mut r: Vec<String> = Vec::new();
        r.push(String::from_str("run"));
        r.push(String::from_str("-q"));
        r.push(String::from_str("--bin"));
        r.push(String::from_str("harness"));
        r.push(String::from_str("--"));
        r.push(self.library_name.clone());
        r.push(String::from_str("check"));
        r.push(String::from_str(program_path));
        assert(views(r@) =~= seq![
            "run"@,
            "-q"@,
            "--bin"@,
            "harness"@,
            "--"@,
            self.library_name@,
            "check"@,
            program_path@,
        ]);
        r
    }

    /// Syntax stage: a failed syntax-only compile rejects with its standard error.
    pub fn is_program_syntax_correct(&self, success: bool, stderr: String) -> (r: Option<ProgramError>)
        ensures
            success ==> r is None,
            !success ==> r == Some(ProgramError::Syntax(stderr)),
    {
        if success {
            None
        } else {
            Some(ProgramError::Syntax(stderr))
        }
    }

    /// Link stage: a failed build under the fuzzer profile rejects with the
    /// build's message.
    pub fn is_program_link_correct(&self, built: Result<(), String>) -> (r: Option<ProgramError>)
        ensures
            built is Ok ==> r is None,
            built matches Err(m) ==> r == Some(ProgramError::Link(m)),
    {
        match built {
            Ok(()) => None,
            Err(m) => Some(ProgramError::Link(m)),
        }
    }

    /// Execute stage: the runs over the shared corpus, in order; the first
    /// timeout is a hang and the first non-zero exit an execution error.
    pub fn is_program_execute_correct(&self, runs: &Vec<RunOutcome>) -> (r: Option<ProgramError>)
        ensures
            r == spec_execute_verdict(runs@, 0),
    {
        let mut i: usize = 0;
        while i < runs.len()
            invariant
                i <= runs@.len(),
                spec_execute_verdict(runs@, 0) == spec_execute_verdict(runs@, i as int),
            decreases runs.len() - i,
        {
            match &runs[i] {
                RunOutcome::Passed => {},
                RunOutcome::TimedOut(m) => {
                    return Some(ProgramError::Hang(m.clone()));
                },
                RunOutcome::Failed(m) => {
                    return Some(ProgramError::Execute(m.clone()));
                },
            }
            i = i + 1;
        }
        None
    }

    /// Fuzz stage: a fuzzing run that failed rejects with its message.
    pub fn is_program_fuzz_correct(&self, fuzzed: Result<(), String>) -> (r: Option<ProgramError>)
        ensures
            fuzzed is Ok ==> r is None,
            fuzzed matches Err(m) ==> r == Some(ProgramError::Fuzzer(m)),
    {
        match fuzzed {
            Ok(()) => None,
            Err(m) => Some(ProgramError::Fuzzer(m)),
        }
    }

    /// Coverage stage: a driver that misses the targeted callees is rejected with
    /// the fixed explanation followed by its coverage summary.
    pub fn is_program_coverage_correct(&self, uncovered: bool, summary: &str) -> (r: Option<ProgramError>)
        ensures
            !uncovered ==> r is None,
            uncovered ==> (r matches Some(ProgramError::Coverage(m))
                && m@ == COVERAGE_MESSAGE@ + "\n"@ + summary@),
    {
        if !uncovered {
            return None;
        }
        let mut m = String::from_str(COVERAGE_MESSAGE);
        m.append("\n");
        m.append(summary);
        Some(ProgramError::Coverage(m))
    }

    /// The decision once `stage` has reported `outcome`: a failure ends the
    /// pipeline with it; success moves to the next stage, or accepts after the
    /// Coverage stage.
    pub fn check_program_is_correct(&self, stage: Stage, outcome: Option<ProgramError>) -> (r: StageStep)
        ensures
            r == spec_stage_step(stage, outcome),
    {
        match outcome {
            Some(e) => StageStep::Done(Some(e)),
            None => match stage {
                Stage::Syntax => StageStep::Run(Stage::Link),
                Stage::Link => StageStep::Run(Stage::Execute),
                Stage::Execute => StageStep::Run(Stage::Fuzz),
                Stage::Fuzz => StageStep::Run(Stage::Coverage),
                Stage::Coverage => StageStep::Done(None),
            },
        }
    }
}

/// What the recheck of an accepted seed does.
#[derive(Clone, Copy, Debug, PartialEq, Eq, Structural)]
pub enum RecheckAction {
    /// The seed still passes: keep it.
    Keep,
    /// The seed now fails: archive it as an error and delete it from the
    /// accepted seeds; where it is still in the seed queue, delete it there too.
    Demote { drop_from_queue: bool },
}

/// How a worker process ended: its exit status, its standard error, and that
/// text decoded as an error where it was one.
#[derive(Clone, Debug, PartialEq, Eq)]
pub struct WorkerExit {
    pub success: bool,
    pub decoded: Option<ProgramError>,
    pub stderr: String,
}

impl Executor {
    /// The decision of the recheck on one accepted seed, from its Execute
    /// verdict over the enriched shared corpus and whether it is still queued.
    pub fn recheck_seed(&self, verdict: &Option<ProgramError>, queued: bool) -> (r: RecheckAction)
        ensures
            verdict is None ==> r == RecheckAction::Keep,
            verdict is Some ==> r == (RecheckAction::Demote { drop_from_queue: queued }),
    {
        match verdict {
            None => RecheckAction::Keep,
            Some(_) => RecheckAction::Demote { drop_from_queue: queued },
        }
    }

    /// The verdicts of one batch of worker processes, in the batch's order.
    pub fn concurrent_check_batch(&self, exits: Vec<WorkerExit>) -> (r: Vec<Option<ProgramError>>)
        ensures
            r@.len() == exits@.len(),
            forall|i: int| 0 <= i < r@.len() ==> #[trigger] r@[i] == spec_worker_verdict(
                exits@[i].success,
                exits@[i].decoded,
                exits@[i].stderr,
            ),
    {
        let mut r: Vec<Option<ProgramError>> = Vec::new();
        let mut exits = exits;
        let ghost all = exits@;
        let mut rev: Vec<Option<ProgramError>> = Vec::new();
        while exits.len() > 0
            invariant
                exits@ == all.subrange(0, exits@.len() as int),
                rev@.len() + exits@.len() == all.len(),
                forall|i: int| 0 <= i < rev@.len() ==> #[trigger] rev@[i] == spec_worker_verdict(
                    all[all.len() - 1 - i].success,
                    all[all.len() - 1 - i].decoded,
                    all[all.len() - 1 - i].stderr,
                ),
            decreases exits@.len(),
        {
            let e = exits.pop().unwrap();
            rev.push(worker_verdict(e.success, e.decoded, e.stderr));
        }
        while rev.len() > 0
            invariant
                rev@.len() + r@.len() == all.len(),
                forall|i: int| 0 <= i < rev@.len() ==> #[trigger] rev@[i] == spec_worker_verdict(
                    all[all.len() - 1 - i].success,
                    all[all.len() - 1 - i].decoded,
                    all[all.len() - 1 - i].stderr,
                ),
                forall|i: int| 0 <= i < r@.len() ==> #[trigger] r@[i] == spec_worker_verdict(
                    all[i].success,
                    all[i].decoded,
                    all[i].stderr,
                ),
            decreases rev@.len(),
        {
            let v = rev.pop().unwrap();
            r.push(v);
        }
        r
    }

    /// The end of a finished batched check: its verdicts, one per candidate in
    /// input order, and the cleanup plan of each candidate's work directory,
    /// where `names[i]` lists the entries of candidate `i`'s directory.
    pub fn check_programs_are_correct(
        &self,
        run: CheckRun,
        names: &Vec<Vec<String>>,
    ) -> (r: (Vec<Option<ProgramError>>, Vec<CleanupPlan>))
        requires
            run.wf(),
            run.spec_is_done(),
            names@.len() == run.programs@.len(),
        ensures
            r.0@ == run.verdicts@,
            r.0@.len() == run.programs@.len(),
            r.1@.len() == run.programs@.len(),
            forall|i: int| 0 <= i < r.1@.len() ==> {
                &&& (#[trigger] r.1@[i]).remove_workdir == !spec_keeps_workdir(run.verdicts@[i])
                &&& r.1@[i].delete@.map_values(|s: String| s@)
                    == spec_to_delete(names@[i]@.map_values(|s: String| s@))
            },
    {
        let verdicts = run.into_verdicts();
        let mut plans: Vec<CleanupPlan> = Vec::new();
        let mut i: usize = 0;
        while i < verdicts.len()
            invariant
                verdicts@.len() == names@.len(),
                i <= verdicts@.len(),
                plans@.len() == i,
                forall|k: int| 0 <= k < i ==> {
                    &&& (#[trigger] plans@[k]).remove_workdir == !spec_keeps_workdir(verdicts@[k])
                    &&& plans@[k].delete@.map_values(|s: String| s@)
                        == spec_to_delete(names@[k]@.map_values(|s: String| s@))
                },
            decreases verdicts.len() - i,
        {
            plans.push(cleanup_plan(&verdicts[i], &names[i]));
            i = i + 1;
        }
        (verdicts, plans)
    }
}

/// The verdict of a worker process from its exit status, its standard error,
/// and that text decoded as an error where it was one.
pub fn worker_verdict(success: bool, decoded: Option<ProgramError>, stderr: String) -> (r: Option<ProgramError>)
    ensures
        r == spec_worker_verdict(success, decoded, stderr),
{
    if success {
        None
    } else {
        match decoded {
            Some(e) => Some(e),
            None => Some(ProgramError::Fuzzer(stderr)),
        }
    }
}

} // verus!
