//! The lifecycle of one script run. The engine work of each stage happens
//! outside; this decides what comes next and when an error goes to the window.
use vstd::prelude::*;

verus! {

/// Where a run stands.
#[derive(Debug, PartialEq, Eq, Clone, Copy)]
pub enum RunStage {
    Created,
    EngineInitialized,
    BridgeAttached,
    ModuleLoaded,
    Evaluating,
    DefaultExportInvoked,
    EventLoopDrained,
    Completed,
    Failed,
}

/// The engine work to do next.
#[derive(Debug, PartialEq, Eq, Clone, Copy)]
pub enum RunStep {
    /// Create a fresh engine for this run.
    InitializeEngine,
    /// Install the bridge handle in the engine's global scope.
    AttachBridge,
    /// Load the command's entry module through the resolver.
    LoadModule,
    /// Evaluate the module and drain the event loop.
    EvaluateModule,
    /// Call the module's default export.
    InvokeDefaultExport,
    /// Drain the event loop again.
    DrainEventLoop,
    /// Mark the run done.
    Finish,
}

/// How the engine work of a stage ended.
pub enum StepOutcome {
    Succeeded,
    /// The work failed with this message.
    Failed(String),
    /// The module's default export is missing or not a function.
    DefaultExportNotCallable,
}

/// The run has ended.
pub open spec fn is_terminal(s: RunStage) -> bool {
    s == RunStage::Completed || s == RunStage::Failed
}

/// The stage that follows `s` when its work succeeds.
pub open spec fn successor(s: RunStage) -> RunStage {
    match s {
        RunStage::Created => RunStage::EngineInitialized,
        RunStage::EngineInitialized => RunStage::BridgeAttached,
        RunStage::BridgeAttached => RunStage::ModuleLoaded,
        RunStage::ModuleLoaded => RunStage::Evaluating,
        RunStage::Evaluating => RunStage::DefaultExportInvoked,
        RunStage::DefaultExportInvoked => RunStage::EventLoopDrained,
        RunStage::EventLoopDrained => RunStage::Completed,
        RunStage::Completed => RunStage::Completed,
        RunStage::Failed => RunStage::Failed,
    }
}

/// The stage after `s` once its work ended with `o`.
pub open spec fn stage_after(s: RunStage, o: StepOutcome) -> RunStage {
    if is_terminal(s) {
        s
    } else {
        match o {
            StepOutcome::Succeeded => successor(s),
            _ => RunStage::Failed,
        }
    }
}

/// The outcome `o` at stage `s` sends an error to the window.
pub open spec fn forwards_error(s: RunStage, o: StepOutcome) -> bool {
    !is_terminal(s) && !(o is Succeeded)
}

/// The chars of the error for a module without a callable default export.
pub open spec fn not_callable_message() -> Seq<char> {
    "Module should contain a function as default export"@
}

/// The engine work to do at stage `s`, none once the run has ended.
pub fn step_for(s: RunStage) -> (r: Option<RunStep>)
    ensures
        r is None <==> is_terminal(s),
        s == RunStage::Created ==> r == Some(RunStep::InitializeEngine),
        s == RunStage::EngineInitialized ==> r == Some(RunStep::AttachBridge),
        s == RunStage::BridgeAttached ==> r == Some(RunStep::LoadModule),
        s == RunStage::ModuleLoaded ==> r == Some(RunStep::EvaluateModule),
        s == RunStage::Evaluating ==> r == Some(RunStep::InvokeDefaultExport),
        s == RunStage::DefaultExportInvoked ==> r == Some(RunStep::DrainEventLoop),
        s == RunStage::EventLoopDrained ==> r == Some(RunStep::Finish),
{
    match s {
        RunStage::Created => Some(RunStep::InitializeEngine),
        RunStage::EngineInitialized => Some(RunStep::AttachBridge),
        RunStage::BridgeAttached => Some(RunStep::LoadModule),
        RunStage::ModuleLoaded => Some(RunStep::EvaluateModule),
        RunStage::Evaluating => Some(RunStep::InvokeDefaultExport),
        RunStage::DefaultExportInvoked => Some(RunStep::DrainEventLoop),
        RunStage::EventLoopDrained => Some(RunStep::Finish),
        RunStage::Completed => None,
        RunStage::Failed => None,
    }
}

/// Moves a run on after the work of stage `s` ended with `o`, and gives the
/// error to send to the window, if any: a failure at any stage ends the run
/// and is sent once; an ended run stays as it is.
pub fn advance(s: RunStage, o: StepOutcome) -> (r: (RunStage, Option<String>))
    ensures
        r.0 == stage_after(s, o),
        r.1 is Some <==> forwards_error(s, o),
        forwards_error(s, o) ==> match o {
            StepOutcome::Failed(m) => r.1 == Some(m),
            _ => r.1->0@ == not_callable_message(),
        },
{
    match s {
        RunStage::Completed | RunStage::Failed => (s, None),
        _ => match o {
            StepOutcome::Succeeded => {
                let next = match s {
                    RunStage::Created => RunStage::EngineInitialized,
                    RunStage::EngineInitialized => RunStage::BridgeAttached,
                    RunStage::BridgeAttached => RunStage::ModuleLoaded,
                    RunStage::ModuleLoaded => RunStage::Evaluating,
                    RunStage::Evaluating => RunStage::DefaultExportInvoked,
                    RunStage::DefaultExportInvoked => RunStage::EventLoopDrained,
                    _ => RunStage::Completed,
                };
                (next, None)
            },
            StepOutcome::Failed(m) => (RunStage::Failed, Some(m)),
            StepOutcome::DefaultExportNotCallable => (
                RunStage::Failed,
                Some(String::from_str("Module should contain a function as default export")),
            ),
        },
    }
}

/// The stage reached from `s` through the outcomes `os`, in order.
pub open spec fn run_trace(s: RunStage, os: Seq<StepOutcome>) -> RunStage
    decreases os.len(),
{
    if os.len() == 0 {
        s
    } else {
        run_trace(stage_after(s, os[0]), os.drop_first())
    }
}

/// How many errors the outcomes `os` send to the window, starting from `s`.
pub open spec fn errors_sent(s: RunStage, os: Seq<StepOutcome>) -> nat
    decreases os.len(),
{
    if os.len() == 0 {
        0
    } else {
        (if forwards_error(s, os[0]) {
            1nat
        } else {
            0nat
        }) + errors_sent(stage_after(s, os[0]), os.drop_first())
    }
}

/// Whatever the engine reports, a run that has not failed yet sends at most
/// one error to its window, and it sends one exactly when it ends failed.
pub proof fn lemma_error_sent_once(s: RunStage, os: Seq<StepOutcome>)
    requires
        s != RunStage::Failed,
    ensures
        errors_sent(s, os) <= 1,
        errors_sent(s, os) == 1 <==> run_trace(s, os) == RunStage::Failed,
    decreases os.len(),
{
    if os.len() > 0 {
        let next = stage_after(s, os[0]);
        if next == RunStage::Failed {
            lemma_failed_stays(os.drop_first());
        } else {
            lemma_error_sent_once(next, os.drop_first());
        }
    }
}

proof fn lemma_failed_stays(os: Seq<StepOutcome>)
    ensures
        errors_sent(RunStage::Failed, os) == 0,
        run_trace(RunStage::Failed, os) == RunStage::Failed,
    decreases os.len(),
{
    if os.len() > 0 {
        lemma_failed_stays(os.drop_first());
    }
}

} // verus!
