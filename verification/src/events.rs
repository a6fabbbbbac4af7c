//! Execution states and structured lifecycle events.

use vstd::prelude::*;

use crate::text::DeepClone;

verus! {

/// The execution state of a model, seed or test.
///
/// Lifecycle: `pending` → `ready` → `running` → a terminal state. `skipped`
/// and `cached` mean that the planner's decision satisfied the node without
/// executing; `blocked` means that a required upstream failed, so the node
/// never ran; `cancelled` covers both a fail-fast shutdown and an external
/// cancellation.
#[derive(Clone, Copy, Debug, PartialEq, Eq, Structural)]
pub enum ExecutionStatus {
    Pending,
    Ready,
    Running,
    Passed,
    Failed,
    Skipped,
    /// Reused from a prior successful execution or a compatible
    /// materialisation; no work was done this run.
    Cached,
    Blocked,
    Cancelled,
}

impl DeepView for ExecutionStatus {
    type V = ExecutionStatus;

    open spec fn deep_view(&self) -> ExecutionStatus {
        *self
    }
}

impl DeepClone for ExecutionStatus {
    fn deep_clone(&self) -> (copy: Self) {
        *self
    }
}

impl Default for ExecutionStatus {
    fn default() -> (status: Self)
        ensures
            status == ExecutionStatus::Pending,
    {
        ExecutionStatus::Pending
    }
}

impl ExecutionStatus {
    /// The node is done: nothing that happens later in the run changes it.
    pub open spec fn terminal(self) -> bool {
        !(self is Pending || self is Ready || self is Running)
    }

    /// The node's dataset is available to dependents.
    pub open spec fn satisfied(self) -> bool {
        self is Passed || self is Skipped || self is Cached
    }

    /// The status as stored and displayed.
    pub open spec fn label_text(self) -> Seq<char> {
        match self {
            ExecutionStatus::Pending => "pending"@,
            ExecutionStatus::Ready => "ready"@,
            ExecutionStatus::Running => "running"@,
            ExecutionStatus::Passed => "passed"@,
            ExecutionStatus::Failed => "failed"@,
            ExecutionStatus::Skipped => "skipped"@,
            ExecutionStatus::Cached => "cached"@,
            ExecutionStatus::Blocked => "blocked"@,
            ExecutionStatus::Cancelled => "cancelled"@,
        }
    }

    pub fn is_terminal(self) -> (r: bool)
        ensures
            r == self.terminal(),
    {
        matches!(
            self,
            ExecutionStatus::Passed
                | ExecutionStatus::Failed
                | ExecutionStatus::Skipped
                | ExecutionStatus::Cached
                | ExecutionStatus::Blocked
                | ExecutionStatus::Cancelled
        )
    }

    /// Whether the node's dataset is available to dependents: execution
    /// succeeded, or a valid earlier materialisation was reused.
    pub fn is_satisfied(self) -> (r: bool)
        ensures
            r == self.satisfied(),
    {
        matches!(
            self,
            ExecutionStatus::Passed | ExecutionStatus::Skipped | ExecutionStatus::Cached
        )
    }

    pub fn label(self) -> (r: &'static str)
        ensures
            r@ == self.label_text(),
    {
        match self {
            ExecutionStatus::Pending => "pending",
            ExecutionStatus::Ready => "ready",
            ExecutionStatus::Running => "running",
            ExecutionStatus::Passed => "passed",
            ExecutionStatus::Failed => "failed",
            ExecutionStatus::Skipped => "skipped",
            ExecutionStatus::Cached => "cached",
            ExecutionStatus::Blocked => "blocked",
            ExecutionStatus::Cancelled => "cancelled",
        }
    }
}

/// A satisfied node is done.
pub proof fn law_satisfied_is_terminal(status: ExecutionStatus)
    ensures
        status.satisfied() ==> status.terminal(),
{
}

/// A structured engine event. Human output is derived from the same stream.
#[derive(Clone, Debug, PartialEq, Eq)]
pub enum EngineEvent {
    CompileStarted,
    CompileFinished { model_count: usize, test_count: usize },
    PlanCreated { plan_id: String, model_count: usize, test_count: usize },
    /// The run started, or continued where `continued_from` names the run
    /// being resumed or retried.
    RunStarted { run_id: String, plan_id: String, continued_from: Option<String> },
    ModelQueued { model: String },
    SeedStarted { seed: String },
    /// A seed load attempt failed and will be retried.
    SeedRetrying { seed: String, attempt: u32, delay_ms: u64, reason: String },
    SeedFinished { seed: String, status: ExecutionStatus },
    ModelStarted { model: String },
    /// An attempt failed and the model will be retried after `delay_ms`.
    ModelRetrying { model: String, attempt: u32, delay_ms: u64, reason: String },
    ModelFinished {
        model: String,
        status: ExecutionStatus,
        query_id: Option<String>,
        duration_ms: u64,
    },
    TestStarted { test: String },
    TestFinished {
        test: String,
        status: ExecutionStatus,
        row_count: u64,
        query_id: Option<String>,
    },
    RunFinished { run_id: String, status: ExecutionStatus },
}

/// The contents of a [`EngineEvent`].
pub enum EngineEventView {
    CompileStarted,
    CompileFinished { model_count: usize, test_count: usize },
    PlanCreated { plan_id: Seq<char>, model_count: usize, test_count: usize },
    RunStarted { run_id: Seq<char>, plan_id: Seq<char>, continued_from: Option<Seq<char>> },
    ModelQueued { model: Seq<char> },
    SeedStarted { seed: Seq<char> },
    SeedRetrying { seed: Seq<char>, attempt: u32, delay_ms: u64, reason: Seq<char> },
    SeedFinished { seed: Seq<char>, status: ExecutionStatus },
    ModelStarted { model: Seq<char> },
    ModelRetrying { model: Seq<char>, attempt: u32, delay_ms: u64, reason: Seq<char> },
    ModelFinished {
        model: Seq<char>,
        status: ExecutionStatus,
        query_id: Option<Seq<char>>,
        duration_ms: u64,
    },
    TestStarted { test: Seq<char> },
    TestFinished {
        test: Seq<char>,
        status: ExecutionStatus,
        row_count: u64,
        query_id: Option<Seq<char>>,
    },
    RunFinished { run_id: Seq<char>, status: ExecutionStatus },
}

impl DeepView for EngineEvent {
    type V = EngineEventView;

    open spec fn deep_view(&self) -> EngineEventView {
        match self {
            EngineEvent::CompileStarted => EngineEventView::CompileStarted,
            EngineEvent::CompileFinished {
                model_count,
                test_count,
            } => EngineEventView::CompileFinished {
                model_count: *model_count,
                test_count: *test_count,
            },
            EngineEvent::PlanCreated {
                plan_id,
                model_count,
                test_count,
            } => EngineEventView::PlanCreated {
                plan_id: plan_id@,
                model_count: *model_count,
                test_count: *test_count,
            },
            EngineEvent::RunStarted {
                run_id,
                plan_id,
                continued_from,
            } => EngineEventView::RunStarted {
                run_id: run_id@,
                plan_id: plan_id@,
                continued_from: continued_from.deep_view(),
            },
            EngineEvent::ModelQueued { model } => EngineEventView::ModelQueued { model: model@ },
            EngineEvent::SeedStarted { seed } => EngineEventView::SeedStarted { seed: seed@ },
            EngineEvent::SeedRetrying {
                seed,
                attempt,
                delay_ms,
                reason,
            } => EngineEventView::SeedRetrying {
                seed: seed@,
                attempt: *attempt,
                delay_ms: *delay_ms,
                reason: reason@,
            },
            EngineEvent::SeedFinished { seed, status } => EngineEventView::SeedFinished {
                seed: seed@,
                status: *status,
            },
            EngineEvent::ModelStarted { model } => EngineEventView::ModelStarted { model: model@ },
            EngineEvent::ModelRetrying {
                model,
                attempt,
                delay_ms,
                reason,
            } => EngineEventView::ModelRetrying {
                model: model@,
                attempt: *attempt,
                delay_ms: *delay_ms,
                reason: reason@,
            },
            EngineEvent::ModelFinished {
                model,
                status,
                query_id,
                duration_ms,
            } => EngineEventView::ModelFinished {
                model: model@,
                status: *status,
                query_id: query_id.deep_view(),
                duration_ms: *duration_ms,
            },
            EngineEvent::TestStarted { test } => EngineEventView::TestStarted { test: test@ },
            EngineEvent::TestFinished {
                test,
                status,
                row_count,
                query_id,
            } => EngineEventView::TestFinished {
                test: test@,
                status: *status,
                row_count: *row_count,
                query_id: query_id.deep_view(),
            },
            EngineEvent::RunFinished { run_id, status } => EngineEventView::RunFinished {
                run_id: run_id@,
                status: *status,
            },
        }
    }
}

impl DeepClone for EngineEvent {
    fn deep_clone(&self) -> (copy: Self) {
        match self {
            EngineEvent::CompileStarted => EngineEvent::CompileStarted,
            EngineEvent::CompileFinished {
                model_count,
                test_count,
            } => EngineEvent::CompileFinished {
                model_count: *model_count,
                test_count: *test_count,
            },
            EngineEvent::PlanCreated {
                plan_id,
                model_count,
                test_count,
            } => EngineEvent::PlanCreated {
                plan_id: plan_id.deep_clone(),
                model_count: *model_count,
                test_count: *test_count,
            },
            EngineEvent::RunStarted { run_id, plan_id, continued_from } => EngineEvent::RunStarted {
                run_id: run_id.deep_clone(),
                plan_id: plan_id.deep_clone(),
                continued_from: continued_from.deep_clone(),
            },
            EngineEvent::ModelQueued { model } => EngineEvent::ModelQueued {
                model: model.deep_clone(),
            },
            EngineEvent::SeedStarted { seed } => EngineEvent::SeedStarted {
                seed: seed.deep_clone(),
            },
            EngineEvent::SeedRetrying {
                seed,
                attempt,
                delay_ms,
                reason,
            } => EngineEvent::SeedRetrying {
                seed: seed.deep_clone(),
                attempt: *attempt,
                delay_ms: *delay_ms,
                reason: reason.deep_clone(),
            },
            EngineEvent::SeedFinished { seed, status } => EngineEvent::SeedFinished {
                seed: seed.deep_clone(),
                status: *status,
            },
            EngineEvent::ModelStarted { model } => EngineEvent::ModelStarted {
                model: model.deep_clone(),
            },
            EngineEvent::ModelRetrying {
                model,
                attempt,
                delay_ms,
                reason,
            } => EngineEvent::ModelRetrying {
                model: model.deep_clone(),
                attempt: *attempt,
                delay_ms: *delay_ms,
                reason: reason.deep_clone(),
            },
            EngineEvent::ModelFinished {
                model,
                status,
                query_id,
                duration_ms,
            } => EngineEvent::ModelFinished {
                model: model.deep_clone(),
                status: *status,
                query_id: query_id.deep_clone(),
                duration_ms: *duration_ms,
            },
            EngineEvent::TestStarted { test } => EngineEvent::TestStarted {
                test: test.deep_clone(),
            },
            EngineEvent::TestFinished {
                test,
                status,
                row_count,
                query_id,
            } => EngineEvent::TestFinished {
                test: test.deep_clone(),
                status: *status,
                row_count: *row_count,
                query_id: query_id.deep_clone(),
            },
            EngineEvent::RunFinished { run_id, status } => EngineEvent::RunFinished {
                run_id: run_id.deep_clone(),
                status: *status,
            },
        }
    }
}

} // verus!
