//! The stages of a compilation and the decisions taken between them: the
//! whole in-memory pipeline from syntax tree to assembly text, and the
//! policy that decides after each stage whether to go on.

use vstd::prelude::*;
use crate::ast::TranslationUnit;
use crate::codegen::{fits_codegen_limits, generate_assembly, generate_assembly_spec, program_within_limits};
use crate::diagnostics::{any_errors, diagnostics_model, has_errors, Diagnostic, DiagnosticModel};
use crate::lowering::{fits_lowering_limits, lower, lower_spec, within_limits};
use crate::render::{render_program, render_program_spec, TargetOs};
use crate::text::Text;

verus! {

/// Why the in-memory pipeline produced no assembly.
#[derive(Debug, Clone, PartialEq, Eq)]
pub enum CompileError {
    /// A function is too large for its fresh names or stack offsets to fit
    /// in 32 bits.
    TooLarge,
    /// Lowering reported diagnostics of which at least one is an error.
    Diagnostics(Vec<Diagnostic>),
}

/// What [`compile`] returns for a translation unit and a target.
pub open spec fn compile_spec(unit: TranslationUnit, target: TargetOs) -> Result<Seq<char>, Option<Seq<DiagnosticModel>>> {
    if !within_limits(unit) {
        Err(None)
    } else {
        let (program, diags) = lower_spec(unit);
        if has_errors(diags) {
            Err(Some(diags))
        } else if !program_within_limits(program) {
            Err(None)
        } else {
            Ok(render_program_spec(generate_assembly_spec(program), target))
        }
    }
}

/// The model of a [`compile`] result.
pub open spec fn compile_result_model(r: Result<Text, CompileError>) -> Result<Seq<char>, Option<Seq<DiagnosticModel>>> {
    match r {
        Ok(t) => Ok(t@),
        Err(CompileError::TooLarge) => Err(None),
        Err(CompileError::Diagnostics(d)) => Err(Some(diagnostics_model(d@))),
    }
}

/// Compile a translation unit to assembly text: lower it, stop where lowering
/// reported an error, then generate and render the assembly.
pub fn compile(unit: &TranslationUnit, target: TargetOs) -> (r: Result<Text, CompileError>)
    ensures
        compile_result_model(r) == compile_spec(*unit, target),
{
    if !fits_lowering_limits(unit) {
        return Err(CompileError::TooLarge);
    }
    let (program, diagnostics) = lower(unit);
    if any_errors(&diagnostics) {
        return Err(CompileError::Diagnostics(diagnostics));
    }
    if !fits_codegen_limits(&program) {
        return Err(CompileError::TooLarge);
    }
    let assembly = generate_assembly(&program);
    Ok(render_program(&assembly, target))
}

/// A point at which the driver hands its artifact to the observer.
#[derive(Debug, Copy, Clone, PartialEq, Eq, Hash, Structural)]
pub enum Stage {
    Parse,
    Lower,
    Codegen,
    RenderAssembly,
    Compile,
}

/// The stage after `s`, if any.
pub open spec fn next_stage_spec(s: Stage) -> Option<Stage> {
    match s {
        Stage::Parse => Some(Stage::Lower),
        Stage::Lower => Some(Stage::Codegen),
        Stage::Codegen => Some(Stage::RenderAssembly),
        Stage::RenderAssembly => Some(Stage::Compile),
        Stage::Compile => None,
    }
}

impl Stage {
    /// The stage that follows this one; `None` after the last.
    pub fn next(self) -> (r: Option<Stage>)
        ensures
            r == next_stage_spec(self),
    {
        match self {
            Stage::Parse => Some(Stage::Lower),
            Stage::Lower => Some(Stage::Codegen),
            Stage::Codegen => Some(Stage::RenderAssembly),
            Stage::RenderAssembly => Some(Stage::Compile),
            Stage::Compile => None,
        }
    }
}

/// Where the user asked the compiler to stop early.
#[derive(Debug, Copy, Clone, PartialEq, Eq, Hash, Default, Structural)]
pub struct StopAt {
    pub lex: bool,
    pub parse: bool,
    pub tacky: bool,
    pub codegen: bool,
}

/// What the driver does after a stage.
#[derive(Debug, Copy, Clone, PartialEq, Eq, Hash, Structural)]
pub enum Decision {
    /// Go on with the next stage.
    Continue,
    /// Stop here successfully, as the user asked.
    Stop,
    /// Stop here: the compilation failed.
    Fail,
}

/// Whether the user asked to stop after stage `s`.
pub open spec fn stops_after(stop: StopAt, s: Stage) -> bool {
    match s {
        Stage::Parse => stop.parse || stop.lex,
        Stage::Lower => stop.tacky,
        Stage::Codegen => stop.codegen,
        _ => false,
    }
}

/// The default policy: fail after any stage that reported an error or
/// worse, else stop where the user asked, else go on.
pub open spec fn decide_spec(stop: StopAt, s: Stage, diags: Seq<DiagnosticModel>) -> Decision {
    if has_errors(diags) {
        Decision::Fail
    } else if stops_after(stop, s) {
        Decision::Stop
    } else {
        Decision::Continue
    }
}

impl StopAt {
    /// Whether to stop after stage `s`.
    pub fn stops_after(&self, s: Stage) -> (r: bool)
        ensures
            r == stops_after(*self, s),
    {
        match s {
            Stage::Parse => self.parse || self.lex,
            Stage::Lower => self.tacky,
            Stage::Codegen => self.codegen,
            _ => false,
        }
    }

    /// The decision after stage `s`, given the diagnostics it accumulated.
    pub fn decide(&self, s: Stage, diags: &Vec<Diagnostic>) -> (r: Decision)
        ensures
            r == decide_spec(*self, s, diagnostics_model(diags@)),
    {
        if any_errors(diags) {
            Decision::Fail
        } else if self.stops_after(s) {
            Decision::Stop
        } else {
            Decision::Continue
        }
    }
}

/// How a compilation ended.
#[derive(Debug, Copy, Clone, PartialEq, Eq, Hash, Structural)]
pub enum Finish {
    /// Every stage ran and every observer went on.
    Success,
    /// Preprocessing, a file write, a stage's work or the link failed.
    Failure,
    /// An observer asked to stop; its value goes back to the caller.
    EarlyReturn,
}

/// Where the driver is.
#[derive(Debug, Copy, Clone, PartialEq, Eq, Hash, Structural)]
pub enum DriverState {
    /// Nothing done yet.
    Start,
    /// The work of this stage and its observer's hook are running.
    Running(Stage),
    /// The compilation has ended.
    Done,
}

/// What the driver asks its caller to do next.
#[derive(Debug, Copy, Clone, PartialEq, Eq, Hash, Structural)]
pub enum Action {
    /// Create the working directory, preprocess the input and write the
    /// preprocessed text.
    Prepare,
    /// Do the work of a stage, then call its hook. For `Compile` the work is
    /// writing the assembly file, assembling and linking.
    Run(Stage),
    /// Stop and return.
    Return(Finish),
}

/// What came of the last action.
#[derive(Debug, Copy, Clone, PartialEq, Eq, Hash, Structural)]
pub enum Event {
    /// The work succeeded and the hook, if any, returned `Continue`.
    Continued,
    /// The hook returned `Break`.
    Broke,
    /// The work failed.
    Failed,
}

/// The driver's transition: from a state and the outcome of the last action
/// to the next state and action.
pub open spec fn step_spec(state: DriverState, event: Event) -> (DriverState, Action) {
    match event {
        Event::Failed => (DriverState::Done, Action::Return(Finish::Failure)),
        Event::Broke => (DriverState::Done, Action::Return(Finish::EarlyReturn)),
        Event::Continued => match state {
            DriverState::Start => (DriverState::Running(Stage::Parse), Action::Run(Stage::Parse)),
            DriverState::Running(s) => match next_stage_spec(s) {
                Some(n) => (DriverState::Running(n), Action::Run(n)),
                None => (DriverState::Done, Action::Return(Finish::Success)),
            },
            DriverState::Done => (DriverState::Done, Action::Return(Finish::Success)),
        },
    }
}

/// The first action of a compilation.
pub fn start() -> (r: (DriverState, Action))
    ensures
        r == (DriverState::Start, Action::Prepare),
{
    (DriverState::Start, Action::Prepare)
}

/// Decide the next action after `event`, the outcome of the action taken in
/// `state`. The stages run in order, each after its predecessor's hook
/// continued; a break ends the compilation with the observer's value, a
/// failure with an error, and nothing runs after either.
pub fn step(state: DriverState, event: Event) -> (r: (DriverState, Action))
    requires
        state != DriverState::Done,
    ensures
        r == step_spec(state, event),
        event == Event::Broke ==> r == (DriverState::Done, Action::Return(Finish::EarlyReturn)),
        event == Event::Failed ==> r == (DriverState::Done, Action::Return(Finish::Failure)),
        r.1 == Action::Run(Stage::Compile) ==> state == DriverState::Running(Stage::RenderAssembly)
            && event == Event::Continued,
        r.1 is Return ==> r.0 == DriverState::Done,
{
    match event {
        Event::Failed => (DriverState::Done, Action::Return(Finish::Failure)),
        Event::Broke => (DriverState::Done, Action::Return(Finish::EarlyReturn)),
        Event::Continued => match state {
            DriverState::Start => (DriverState::Running(Stage::Parse), Action::Run(Stage::Parse)),
            DriverState::Running(s) => match s.next() {
                Some(n) => (DriverState::Running(n), Action::Run(n)),
                None => (DriverState::Done, Action::Return(Finish::Success)),
            },
            DriverState::Done => (DriverState::Done, Action::Return(Finish::Success)),
        },
    }
}

} // verus!
