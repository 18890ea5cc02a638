use vstd::prelude::*;

use crate::builtins::{builtin_of, spec_builtin_of, Builtin};
use crate::command::Command;
use crate::error::GenericError;

verus! {

/// Where a stage reads from.
pub enum Source {
    /// The pipe from the stage before.
    PreviousStage,
    /// A file opened for reading.
    File(String),
}

/// Where a stage writes to.
pub enum Sink {
    /// The pipe to the stage after.
    NextStage,
    /// A file created or truncated for writing.
    File(String),
}

/// `None` for a pipe, the path for a file.
pub open spec fn source_view(s: Source) -> Option<Seq<char>> {
    match s {
        Source::PreviousStage => None,
        Source::File(p) => Some(p@),
    }
}

pub open spec fn sink_view(s: Sink) -> Option<Seq<char>> {
    match s {
        Sink::NextStage => None,
        Sink::File(p) => Some(p@),
    }
}

/// The sources of stage `i`: the pipe from stage `i - 1`, if any, then each
/// input path in order.
pub open spec fn spec_sources(i: nat, files_in: Seq<Seq<char>>) -> Seq<Option<Seq<char>>> {
    (if i > 0 {
        seq![None]
    } else {
        Seq::empty()
    }) + files_in.map_values(|p: Seq<char>| Some(p))
}

/// The sinks of stage `i` of `n`: the pipe to stage `i + 1`, if any, then
/// each output path in order.
pub open spec fn spec_sinks(i: nat, n: nat, files_out: Seq<Seq<char>>) -> Seq<Option<Seq<char>>> {
    (if i + 1 < n {
        seq![None]
    } else {
        Seq::empty()
    }) + files_out.map_values(|p: Seq<char>| Some(p))
}

/// How several sources or sinks become one standard stream.
#[derive(Clone, Copy, Debug, PartialEq, Eq, Structural)]
pub enum Fan {
    /// None given: the interpreter's own stream is inherited.
    Inherit,
    /// One given: it becomes the stream itself.
    Direct,
    /// Several given: a helper process merges or spreads them through a pipe.
    Helper,
}

pub open spec fn spec_fan(count: nat) -> Fan {
    if count == 0 {
        Fan::Inherit
    } else if count == 1 {
        Fan::Direct
    } else {
        Fan::Helper
    }
}

/// How `count` sources (or sinks) are wired to a stage.
pub fn fan_of(count: usize) -> (r: Fan)
    ensures
        r == spec_fan(count as nat),
{
    if count == 0 {
        Fan::Inherit
    } else if count == 1 {
        Fan::Direct
    } else {
        Fan::Helper
    }
}

/// How a stage is run.
#[derive(Clone, Copy, Debug, PartialEq, Eq, Structural)]
pub enum Dispatch {
    /// The stage has no command name: nothing runs.
    Skip,
    /// A builtin of a single-stage pipeline, run by the interpreter itself.
    InProcess(Builtin),
    /// A new process runs the stage.
    Forked,
}

/// A builtin runs in the interpreter only when it is the whole pipeline;
/// every other stage gets a process of its own.
pub open spec fn spec_dispatch(args: Seq<Seq<char>>, n: nat) -> Dispatch {
    if args.len() == 0 {
        Dispatch::Skip
    } else if n == 1 && spec_builtin_of(args[0]) is Some {
        Dispatch::InProcess(spec_builtin_of(args[0])->0)
    } else {
        Dispatch::Forked
    }
}

/// How stage `i` of an `n`-stage pipeline is wired and run.
pub struct StagePlan {
    pub sources: Vec<Source>,
    pub sinks: Vec<Sink>,
    pub dispatch: Dispatch,
}

/// The wiring and dispatch of stage `i` of an `n`-stage pipeline.
pub fn plan_stage(i: usize, n: usize, cmd: &Command) -> (r: StagePlan)
    requires
        i < n,
    ensures
        r.sources@.map_values(|s: Source| source_view(s)) == spec_sources(
            i as nat,
            cmd@.files_in,
        ),
        r.sinks@.map_values(|s: Sink| sink_view(s)) == spec_sinks(
            i as nat,
            n as nat,
            cmd@.files_out,
        ),
        r.dispatch == spec_dispatch(cmd@.args, n as nat),
{
    let mut sources: Vec<Source> = Vec::new();
    if i > 0 {
        sources.push(Source::PreviousStage);
    }
    let ghost b: int = if i > 0 { 1 } else { 0 };
    let mut k: usize = 0;
    while k < cmd.files_in.len()
        invariant
            0 <= k <= cmd.files_in@.len(),
            b == (if i > 0 { 1int } else { 0int }),
            sources@.len() == b + k,
            i > 0 ==> source_view(sources@[0]) is None,
            forall|j: int| 0 <= j < k ==> source_view(#[trigger] sources@[b + j]) == Some(cmd.files_in@[j]@),
        decreases cmd.files_in@.len() - k,
    {
        sources.push(Source::File(cmd.files_in[k].clone()));
        k += 1;
    }
    assert(sources@.map_values(|s: Source| source_view(s)) =~= spec_sources(
        i as nat,
        cmd@.files_in,
    )) by {
        assert forall|j: int| b <= j < sources@.len() implies source_view(sources@[j]) == Some(cmd.files_in@[j - b]@) by {
            assert(sources@[b + (j - b)] == sources@[j]);
        }
    }
    let mut sinks: Vec<Sink> = Vec::new();
    if i + 1 < n {
        sinks.push(Sink::NextStage);
    }
    let ghost c: int = if i + 1 < n { 1 } else { 0 };
    let mut k: usize = 0;
    while k < cmd.files_out.len()
        invariant
            0 <= k <= cmd.files_out@.len(),
            c == (if i + 1 < n { 1int } else { 0int }),
            sinks@.len() == c + k,
            i + 1 < n ==> sink_view(sinks@[0]) is None,
            forall|j: int| 0 <= j < k ==> sink_view(#[trigger] sinks@[c + j]) == Some(cmd.files_out@[j]@),
        decreases cmd.files_out@.len() - k,
    {
        sinks.push(Sink::File(cmd.files_out[k].clone()));
        k += 1;
    }
    assert(sinks@.map_values(|s: Sink| sink_view(s)) =~= spec_sinks(
        i as nat,
        n as nat,
        cmd@.files_out,
    )) by {
        assert forall|j: int| c <= j < sinks@.len() implies sink_view(sinks@[j]) == Some(cmd.files_out@[j - c]@) by {
            assert(sinks@[c + (j - c)] == sinks@[j]);
        }
    }
    let dispatch = if cmd.args.len() == 0 {
        Dispatch::Skip
    } else if n == 1 {
        match builtin_of(cmd.args[0].as_str()) {
            Some(b) => Dispatch::InProcess(b),
            None => Dispatch::Forked,
        }
    } else {
        Dispatch::Forked
    };
    StagePlan { sources, sinks, dispatch }
}

/// In a pipeline of two or more stages no stage runs in the interpreter
/// itself, so a stage there cannot end the session.
pub proof fn lemma_multi_stage_always_forks(args: Seq<Seq<char>>, n: nat)
    requires
        n > 1,
    ensures
        !(spec_dispatch(args, n) is InProcess),
{
}

/// What a pipeline's execution has done so far.
pub struct PipelineView {
    pub n_stages: nat,
    pub next_stage: nat,
    pub exit_requested: bool,
    pub failed: bool,
}

/// The next thing that the executor of a pipeline does.
#[derive(Clone, Copy, Debug, PartialEq, Eq, Structural)]
pub enum PipelineStep {
    /// Wire and start the stage with this index.
    RunStage(usize),
    /// Wait for every registered process, then call `finish`.
    Drain,
}

/// The decisions of one pipeline's execution: which stage comes next,
/// whether a failure stops the remaining stages, and whether the session
/// ends afterwards.
pub struct Pipeline {
    n_stages: usize,
    next_stage: usize,
    exit_requested: bool,
    failure: Option<GenericError>,
}

impl View for Pipeline {
    type V = PipelineView;

    closed spec fn view(&self) -> PipelineView {
        PipelineView {
            n_stages: self.n_stages as nat,
            next_stage: self.next_stage as nat,
            exit_requested: self.exit_requested,
            failed: self.failure is Some,
        }
    }
}

impl Pipeline {
    pub open spec fn wf(&self) -> bool {
        self@.next_stage <= self@.n_stages
    }

    /// The start of a pipeline of `n_stages` stages.
    pub fn new(n_stages: usize) -> (r: Pipeline)
        ensures
            r.wf(),
            r@ == (PipelineView {
                n_stages: n_stages as nat,
                next_stage: 0,
                exit_requested: false,
                failed: false,
            }),
    {
        Pipeline { n_stages, next_stage: 0, exit_requested: false, failure: None }
    }

    /// Stages run left to right until all have run or one failed fatally;
    /// then the registry is drained.
    pub fn next_step(&self) -> (r: PipelineStep)
        ensures
            !self@.failed && self@.next_stage < self@.n_stages ==> r == PipelineStep::RunStage(
                self@.next_stage as usize,
            ),
            self@.failed || self@.next_stage >= self@.n_stages ==> r == PipelineStep::Drain,
    {
        if self.failure.is_none() && self.next_stage < self.n_stages {
            PipelineStep::RunStage(self.next_stage)
        } else {
            PipelineStep::Drain
        }
    }

    /// The current stage was started with `dispatch`. Only `exit` run in the
    /// interpreter itself asks for the session to end.
    pub fn stage_done(&mut self, dispatch: Dispatch)
        requires
            old(self).wf(),
            !old(self)@.failed,
            old(self)@.next_stage < old(self)@.n_stages,
        ensures
            final(self).wf(),
            final(self)@ == (PipelineView {
                next_stage: old(self)@.next_stage + 1,
                exit_requested: old(self)@.exit_requested || dispatch == Dispatch::InProcess(
                    Builtin::Exit,
                ),
                ..old(self)@
            }),
    {
        self.next_stage = self.next_stage + 1;
        match dispatch {
            Dispatch::InProcess(Builtin::Exit) => self.exit_requested = true,
            _ => {},
        }
    }

    /// Creating a pipe, a process or a file for the current stage failed:
    /// the remaining stages are not started.
    pub fn stage_failed(&mut self, err: GenericError)
        requires
            old(self).wf(),
            !old(self)@.failed,
        ensures
            final(self).wf(),
            final(self)@ == (PipelineView { failed: true, ..old(self)@ }),
    {
        self.failure = Some(err);
    }

    /// The result of the pipeline once drained: the fatal failure, if one
    /// happened, else whether the session ends.
    pub fn finish(self) -> (r: Result<bool, GenericError>)
        ensures
            self@.failed <==> r is Err,
            !self@.failed ==> r == Ok::<bool, GenericError>(self@.exit_requested),
    {
        match self.failure {
            Some(err) => Err(err),
            None => Ok(self.exit_requested),
        }
    }
}

} // verus!
