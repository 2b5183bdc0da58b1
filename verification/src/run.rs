//! Running command text, one action of the host at a time.
//!
//! A `Run` says what the host has to do next: start a stage, reap the stage
//! before it, wait for the last stage, print what it wrote. The host does it
//! and reports what came of it by the method of that state that fits; the
//! method gives the next `Run`. The library decides, the host acts.

use crate::error::{text_result, Failure, FunResult, ShellError};
use crate::pipe::{joined, succeeded, Pipe};
use crate::text::{strs, trim, trimmed};
use crate::token::{segments, split_segments, tokens};
use vstd::prelude::*;

verus! {

/// The stages of the pipeline `text`: the text without the white space
/// around it, cut at each `|` outside quotes.
pub open spec fn stages(text: Seq<char>) -> Seq<Seq<char>> {
    segments(trimmed(text), '|')
}

/// The label of the pipeline made of the first `n` of the stages `st`: their
/// texts, joined with ` | `.
pub open spec fn label_of(st: Seq<Seq<char>>, n: int) -> Seq<char>
    decreases n,
{
    if n <= 0 {
        Seq::empty()
    } else if n == 1 {
        st[0]
    } else {
        joined(label_of(st, n - 1), st[n - 1])
    }
}

/// What a run works through: the texts of its pipelines, in order, and
/// whether the output of a pipeline is the run's result (`capture`) or is
/// printed.
pub struct Plan {
    pub capture: bool,
    pub pipelines: Seq<Seq<char>>,
}

/// Where a run stands: the action that the host owes, or the end.
pub enum Step {
    /// Start stage `stage` of pipeline `pipeline`.
    Spawn { pipeline: int, stage: int },
    /// Stage `stage` of pipeline `pipeline` runs; reap the stage before it.
    Reap { pipeline: int, stage: int },
    /// Every stage of pipeline `pipeline` was started; wait for the last.
    Wait { pipeline: int },
    /// Pipeline `pipeline` succeeded and wrote `text`; print it.
    Print { pipeline: int, text: Seq<char> },
    /// The run is over.
    Done(Result<Seq<char>, Failure>),
}

/// The plan of a run that captures the output of the one pipeline `cmds`.
pub open spec fn capture_plan(cmds: Seq<char>) -> Plan {
    Plan { capture: true, pipelines: seq![cmds] }
}

/// The plan of a run that prints the output of the one pipeline `cmds`.
pub open spec fn print_plan(cmds: Seq<char>) -> Plan {
    Plan { capture: false, pipelines: seq![cmds] }
}

/// The plan of a run of the commands of `cmds`, which `;` outside quotes
/// parts, each printing its output.
pub open spec fn sequence_plan(cmds: Seq<char>) -> Plan {
    Plan { capture: false, pipelines: segments(cmds, ';') }
}

/// Where a run stands that turns to stage `k` of pipeline `p`: behind the
/// last stage it waits; a stage that names no program ends it.
pub open spec fn enter_stage(plan: Plan, p: int, k: int) -> Step {
    let st = stages(plan.pipelines[p]);
    if k >= st.len() {
        Step::Wait { pipeline: p }
    } else if tokens(st[k]).len() == 0 {
        Step::Done(Err(Failure::EmptyCommand))
    } else {
        Step::Spawn { pipeline: p, stage: k }
    }
}

/// Where a run stands that turns to pipeline `p`: behind the last pipeline
/// it is over, with nothing captured; a pipeline without a stage ends it.
pub open spec fn enter_pipeline(plan: Plan, p: int) -> Step {
    if p >= plan.pipelines.len() {
        Step::Done(Ok(Seq::empty()))
    } else if stages(plan.pipelines[p]).len() == 0 {
        Step::Done(Err(Failure::EmptyCommand))
    } else {
        enter_stage(plan, p, 0)
    }
}

/// Where a run stands when stage `k` of pipeline `p` has been started: a
/// stage behind another has that one reaped first.
pub open spec fn after_spawned(plan: Plan, p: int, k: int) -> Step {
    if k > 0 {
        Step::Reap { pipeline: p, stage: k }
    } else {
        enter_stage(plan, p, k + 1)
    }
}

/// Where a run stands when the last stage of pipeline `p` has left with
/// `code` and written `output`. Success hands the output on, to the caller
/// or to be printed; anything else ends the run with the pipeline's failure.
pub open spec fn after_exited(plan: Plan, p: int, code: Option<i32>, output: Seq<char>) -> Step {
    let st = stages(plan.pipelines[p]);
    if !succeeded(code) {
        Step::Done(
            Err(Failure::CommandFailed { command: label_of(st, st.len() as int), code }),
        )
    } else if plan.capture {
        Step::Done(Ok(output))
    } else {
        Step::Print { pipeline: p, text: output }
    }
}

struct Script {
    capture: bool,
    texts: Vec<String>,
    at: usize,
    stages: Vec<String>,
    stage: usize,
}

impl Script {
    spec fn plan(&self) -> Plan {
        Plan { capture: self.capture, pipelines: strs(self.texts@) }
    }

    spec fn in_pipeline(&self) -> bool {
        &&& self.at < self.texts@.len()
        &&& strs(self.stages@) == stages(self.texts@[self.at as int]@)
    }

    spec fn in_stage(&self, pipe: Pipe) -> bool {
        &&& self.in_pipeline()
        &&& self.stage < self.stages@.len()
        &&& pipe.args() == tokens(self.stages@[self.stage as int]@)
        &&& pipe.label() == label_of(strs(self.stages@), self.stage + 1)
    }
}

/// A run that has a stage to start.
pub struct Spawning {
    script: Script,
    pipe: Pipe,
}

/// A run that has the stage before the last started one to reap.
pub struct Reaping {
    script: Script,
    pipe: Pipe,
}

/// A run that has the last stage of a pipeline to wait for.
pub struct Waiting {
    script: Script,
    pipe: Pipe,
}

/// A run that has the output of a pipeline to print.
pub struct Printing {
    script: Script,
    text: String,
}

/// A run: what the host has to do next, or how the run ended.
pub enum Run {
    /// Start the stage `argv()`; where it is `piped()`, with the output of
    /// the stage before it as its input.
    Spawn(Spawning),
    /// Wait for the stage before the one just started, whatever its status.
    Reap(Reaping),
    /// Wait for the last stage and collect what it wrote.
    Wait(Waiting),
    /// Write `text()` to standard output.
    Print(Printing),
    /// Nothing: the run ended, with this result.
    Done(FunResult),
}

impl Run {
    /// Whether this run follows `plan` and stands at `step`.
    pub open spec fn is_at(&self, plan: Plan, step: Step) -> bool {
        match *self {
            Run::Spawn(s) => s.plan() == plan && step == (Step::Spawn {
                pipeline: s.pipeline(),
                stage: s.stage(),
            }),
            Run::Reap(s) => s.plan() == plan && step == (Step::Reap {
                pipeline: s.pipeline(),
                stage: s.stage(),
            }),
            Run::Wait(s) => s.plan() == plan && step == (Step::Wait { pipeline: s.pipeline() }),
            Run::Print(s) => s.plan() == plan && step == (Step::Print {
                pipeline: s.pipeline(),
                text: s.printed_text(),
            }),
            Run::Done(r) => step == Step::Done(text_result(r)),
        }
    }
}

fn begin_stage(script: Script, pipe: Result<Pipe, ShellError>, k: usize) -> (r: Run)
    requires
        script.in_pipeline(),
        k < script.stages@.len(),
        match pipe {
            Ok(p) => p.args() == tokens(script.stages@[k as int]@) && p.args().len() > 0
                && p.label() == label_of(strs(script.stages@), k + 1),
            Err(e) => tokens(script.stages@[k as int]@).len() == 0 && e@ == Failure::EmptyCommand,
        },
    ensures
        r.is_at(script.plan(), enter_stage(script.plan(), script.at as int, k as int)),
{
    match pipe {
        Ok(pipe) => {
            let mut script = script;
            script.stage = k;
            Run::Spawn(Spawning { script, pipe })
        },
        Err(e) => Run::Done(Err(e)),
    }
}

fn begin_pipeline(script: Script, at: usize) -> (r: Run)
    ensures
        r.is_at(script.plan(), enter_pipeline(script.plan(), at as int)),
{
    let mut script = script;
    if at >= script.texts.len() {
        return Run::Done(Ok(String::new()));
    }
    let text = trim(script.texts[at].as_str());
    script.stages = split_segments(text.as_str(), '|');
    script.at = at;
    script.stage = 0;
    if script.stages.len() == 0 {
        return Run::Done(Err(ShellError::EmptyCommand));
    }
    let pipe = Pipe::new(script.stages[0].as_str());
    begin_stage(script, pipe, 0)
}

fn next_stage(script: Script, pipe: Pipe) -> (r: Run)
    requires
        script.in_stage(pipe),
    ensures
        r.is_at(script.plan(), enter_stage(script.plan(), script.at as int, script.stage + 1)),
{
    let count = script.stages.len();
    let k = script.stage + 1;
    if k >= count {
        Run::Wait(Waiting { script, pipe })
    } else {
        let next = pipe.pipe(script.stages[k].as_str());
        begin_stage(script, next, k)
    }
}

impl Spawning {
    #[verifier::type_invariant]
    spec fn sound(&self) -> bool {
        self.script.in_stage(self.pipe)
    }

    /// The plan of the run.
    pub closed spec fn plan(&self) -> Plan {
        self.script.plan()
    }

    /// The pipeline that the stage belongs to, as an index into the plan.
    pub closed spec fn pipeline(&self) -> int {
        self.script.at as int
    }

    /// The stage, as an index into the stages of its pipeline.
    pub closed spec fn stage(&self) -> int {
        self.script.stage as int
    }

    /// The argument vector to start: the program, then its arguments.
    pub fn argv(&self) -> (r: &Vec<String>)
        ensures
            0 <= self.pipeline() < self.plan().pipelines.len(),
            0 <= self.stage() < stages(self.plan().pipelines[self.pipeline()]).len(),
            strs(r@) == tokens(stages(self.plan().pipelines[self.pipeline()])[self.stage()]),
            r@.len() > 0,
    {
        proof {
            use_type_invariant(self);
        }
        self.pipe.argv()
    }

    /// Whether the stage reads what the stage before it writes: every stage
    /// but the first does.
    pub fn piped(&self) -> (r: bool)
        ensures
            r == (self.stage() > 0),
    {
        self.script.stage > 0
    }

    /// The stage was started.
    pub fn spawned(self) -> (r: Run)
        ensures
            r.is_at(self.plan(), after_spawned(self.plan(), self.pipeline(), self.stage())),
    {
        proof {
            use_type_invariant(&self);
        }
        let Spawning { script, pipe } = self;
        if script.stage > 0 {
            Run::Reap(Reaping { script, pipe })
        } else {
            next_stage(script, pipe)
        }
    }

    /// The stage could not be started: the run ends with `SpawnFailed`, which
    /// carries `error` as it is.
    pub fn failed(self, error: std::io::Error) -> (r: Run)
        ensures
            r.is_at(self.plan(), Step::Done(Err(Failure::SpawnFailed(error)))),
    {
        Run::Done(Err(ShellError::SpawnFailed(error)))
    }
}

impl Reaping {
    #[verifier::type_invariant]
    spec fn sound(&self) -> bool {
        self.script.in_stage(self.pipe) && self.script.stage > 0
    }

    /// The plan of the run.
    pub closed spec fn plan(&self) -> Plan {
        self.script.plan()
    }

    /// The pipeline in hand, as an index into the plan.
    pub closed spec fn pipeline(&self) -> int {
        self.script.at as int
    }

    /// The stage that was started last; the one to reap stands before it.
    pub closed spec fn stage(&self) -> int {
        self.script.stage as int
    }

    /// The stage before has left. Its status is not asked for: the run goes
    /// on to the next stage.
    pub fn reaped(self) -> (r: Run)
        ensures
            r.is_at(self.plan(), enter_stage(self.plan(), self.pipeline(), self.stage() + 1)),
    {
        proof {
            use_type_invariant(&self);
        }
        let Reaping { script, pipe } = self;
        next_stage(script, pipe)
    }

    /// Waiting for the stage before failed: the run ends with `Io`, which
    /// carries `error` as it is.
    pub fn failed(self, error: std::io::Error) -> (r: Run)
        ensures
            r.is_at(self.plan(), Step::Done(Err(Failure::Io(error)))),
    {
        Run::Done(Err(ShellError::Io(error)))
    }
}

impl Waiting {
    #[verifier::type_invariant]
    spec fn sound(&self) -> bool {
        &&& self.script.in_pipeline()
        &&& self.pipe.label() == label_of(
            strs(self.script.stages@),
            self.script.stages@.len() as int,
        )
    }

    /// The plan of the run.
    pub closed spec fn plan(&self) -> Plan {
        self.script.plan()
    }

    /// The pipeline in hand, as an index into the plan.
    pub closed spec fn pipeline(&self) -> int {
        self.script.at as int
    }

    /// The label of the pipeline: the texts of its stages, joined with
    /// ` | `.
    pub fn label(&self) -> (r: &str)
        ensures
            0 <= self.pipeline() < self.plan().pipelines.len(),
            r@ == label_of(
                stages(self.plan().pipelines[self.pipeline()]),
                stages(self.plan().pipelines[self.pipeline()]).len() as int,
            ),
    {
        proof {
            use_type_invariant(self);
        }
        self.pipe.full_cmd()
    }

    /// The last stage has left with `code`, having written `output`.
    pub fn exited(self, code: Option<i32>, output: String) -> (r: Run)
        ensures
            r.is_at(self.plan(), after_exited(self.plan(), self.pipeline(), code, output@)),
    {
        proof {
            use_type_invariant(&self);
        }
        let Waiting { script, pipe } = self;
        match pipe.wait_fun_result(code, output) {
            Ok(text) => {
                if script.capture {
                    Run::Done(Ok(text))
                } else {
                    Run::Print(Printing { script, text })
                }
            },
            Err(e) => Run::Done(Err(e)),
        }
    }

    /// Waiting for the last stage failed: the run ends with `Io`, which
    /// carries `error` as it is.
    pub fn failed(self, error: std::io::Error) -> (r: Run)
        ensures
            r.is_at(self.plan(), Step::Done(Err(Failure::Io(error)))),
    {
        Run::Done(Err(ShellError::Io(error)))
    }
}

impl Printing {
    #[verifier::type_invariant]
    spec fn sound(&self) -> bool {
        self.script.at < self.script.texts@.len()
    }

    /// The plan of the run.
    pub closed spec fn plan(&self) -> Plan {
        self.script.plan()
    }

    /// The pipeline that wrote the text, as an index into the plan.
    pub closed spec fn pipeline(&self) -> int {
        self.script.at as int
    }

    /// The text to print.
    pub closed spec fn printed_text(&self) -> Seq<char> {
        self.text@
    }

    /// The text to print: what the pipeline wrote.
    pub fn text(&self) -> (r: &str)
        ensures
            r@ == self.printed_text(),
    {
        self.text.as_str()
    }

    /// The text was printed: the run turns to the next pipeline.
    pub fn printed(self) -> (r: Run)
        ensures
            r.is_at(self.plan(), enter_pipeline(self.plan(), self.pipeline() + 1)),
    {
        proof {
            use_type_invariant(&self);
        }
        let Printing { script, text: _ } = self;
        let count = script.texts.len();
        let next = script.at + 1;
        assert(next <= count);
        begin_pipeline(script, next)
    }
}

fn new_run(capture: bool, texts: Vec<String>) -> (r: Run)
    ensures
        r.is_at(
            Plan { capture, pipelines: strs(texts@) },
            enter_pipeline(Plan { capture, pipelines: strs(texts@) }, 0),
        ),
{
    begin_pipeline(Script { capture, texts, at: 0, stages: Vec::new(), stage: 0 }, 0)
}

/// A run of the one pipeline `full_command` that captures its output.
pub fn run_pipe_fun(full_command: &str) -> (r: Run)
    ensures
        r.is_at(capture_plan(full_command@), enter_pipeline(capture_plan(full_command@), 0)),
{
    let mut texts: Vec<String> = Vec::new();
    texts.push(full_command.to_owned());
    assert(strs(texts@) =~= seq![full_command@]);
    new_run(true, texts)
}

/// A run of the one pipeline `full_command` that prints its output.
pub fn run_pipe_cmd(full_command: &str) -> (r: Run)
    ensures
        r.is_at(print_plan(full_command@), enter_pipeline(print_plan(full_command@), 0)),
{
    let mut texts: Vec<String> = Vec::new();
    texts.push(full_command.to_owned());
    assert(strs(texts@) =~= seq![full_command@]);
    new_run(false, texts)
}

/// A run of `cmds` as one pipeline, its stages parted by `|`, that ends with
/// what the last stage wrote. A `;` parts nothing here.
pub fn run_fun(cmds: &str) -> (r: Run)
    ensures
        r.is_at(capture_plan(cmds@), enter_pipeline(capture_plan(cmds@), 0)),
{
    run_pipe_fun(cmds)
}

/// A run of the commands of `cmds`, which `;` parts, each a pipeline and each
/// printing what its last stage wrote. The first that fails ends the run.
pub fn run_cmd(cmds: &str) -> (r: Run)
    ensures
        r.is_at(sequence_plan(cmds@), enter_pipeline(sequence_plan(cmds@), 0)),
{
    new_run(false, split_segments(cmds, ';'))
}

/// A pipeline whose last stage does not exit with status zero ends the run,
/// whatever follows it in the plan: with `CommandFailed`, which carries the
/// label of the whole pipeline and the code of that stage as it came.
pub proof fn lemma_failure_ends_run(plan: Plan, p: int, code: Option<i32>, output: Seq<char>)
    requires
        !succeeded(code),
    ensures
        after_exited(plan, p, code, output) == Step::Done(
            Err(
                Failure::CommandFailed {
                    command: label_of(
                        stages(plan.pipelines[p]),
                        stages(plan.pipelines[p]).len() as int,
                    ),
                    code,
                },
            ),
        ),
{
}

/// A run that captures never asks for printing, and a run that prints hands
/// on every output that a pipeline wrote before it left with status zero.
pub proof fn lemma_success_hands_output_on(plan: Plan, p: int, output: Seq<char>)
    ensures
        after_exited(plan, p, Some(0i32), output) == if plan.capture {
            Step::Done(Ok(output))
        } else {
            Step::Print { pipeline: p, text: output }
        },
{
}

} // verus!
