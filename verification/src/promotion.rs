//! Write-Audit-Publish promotion.
//!
//! A candidate environment (a Nessie branch) is written and audited, then
//! promoted to a target reference. Promotion validates quality gates and target
//! staleness before merging, and records a reproducible artifact. The caller
//! talks to the Nessie server; what to ask it next, and what its answers come
//! to, is decided here.

use vstd::prelude::*;

use crate::audit::{AuditEvidence, AuditEvidenceView, LineageEvidence, LineageEvidenceView};
use crate::environment::{catalog_is_owned, EnvironmentSetup, EnvironmentSetupView};
use crate::error::{EngineError, EngineErrorView};
use crate::events::ExecutionStatus;
use crate::gates::{
    all_gates, all_passed, base_gate, blocked_gate, conflicts_gate, conflicts_text,
    describe_conflicts, diff_gate, evaluate_gates, gates_passed, law_gates_fail_closed, run_gate,
    schema_gate, tests_gate, GateInput, GateInputView, GateReport, GateReportView, GateResult,
    GateResultView,
};
use crate::nessie::{
    Conflict, ConflictView, MergeOutcome, MergeOutcomeView, ReferenceInfo, ReferenceInfoView,
};
use crate::run::RunResult;
use crate::state::{
    ModelRunRecord, ModelRunRecordView, RunSummary, RunSummaryView, TestRunRecord,
    TestRunRecordView,
};
use crate::text::{
    cat2, cat3, cat5, cat6, cat7, decimal_text, decimal_usize, join, join_text, none_of, put, put_all,
    same, DeepClone,
};
use crate::util::{fresh_id, is_timestamp, is_uuid_text, now_rfc3339};

verus! {

/// A promotion request.
#[derive(Clone, Debug, PartialEq, Eq)]
pub struct PromotionRequest {
    pub candidate_ref: String,
    pub target_ref: String,
    /// The candidate hash the gates were evaluated against. When given, the
    /// candidate must still be at this hash at merge time: a branch that
    /// advanced since the audit is refused rather than merged unaudited.
    pub candidate_hash: Option<String>,
    /// Target hash observed when the candidate was planned.
    pub expected_target_hash: Option<String>,
    pub plan_id: Option<String>,
    pub run_id: Option<String>,
    /// Whether the candidate run completed successfully with tests passing.
    pub quality_gates_passed: bool,
    /// Whether a required data diff passed, when a diff gate applies.
    pub diff_passed: Option<bool>,
    pub require_diff: bool,
    /// Breaking schema changes observed in the audit. Promotion is blocked
    /// unless `allow_breaking_schema` is set.
    pub breaking_schema_changes: Vec<String>,
    pub allow_breaking_schema: bool,
    /// Only check preconditions; do not merge.
    pub dry_run: bool,
    pub actor: Option<String>,
    /// Gate results computed by the caller, carried into the record.
    pub gates: Vec<GateResult>,
}

/// The contents of a [`PromotionRequest`].
pub struct PromotionRequestView {
    pub candidate_ref: Seq<char>,
    pub target_ref: Seq<char>,
    pub candidate_hash: Option<Seq<char>>,
    pub expected_target_hash: Option<Seq<char>>,
    pub plan_id: Option<Seq<char>>,
    pub run_id: Option<Seq<char>>,
    pub quality_gates_passed: bool,
    pub diff_passed: Option<bool>,
    pub require_diff: bool,
    pub breaking_schema_changes: Seq<Seq<char>>,
    pub allow_breaking_schema: bool,
    pub dry_run: bool,
    pub actor: Option<Seq<char>>,
    pub gates: Seq<GateResultView>,
}

impl DeepView for PromotionRequest {
    type V = PromotionRequestView;

    open spec fn deep_view(&self) -> PromotionRequestView {
        PromotionRequestView {
            candidate_ref: self.candidate_ref@,
            target_ref: self.target_ref@,
            candidate_hash: self.candidate_hash.deep_view(),
            expected_target_hash: self.expected_target_hash.deep_view(),
            plan_id: self.plan_id.deep_view(),
            run_id: self.run_id.deep_view(),
            quality_gates_passed: self.quality_gates_passed,
            diff_passed: self.diff_passed.deep_view(),
            require_diff: self.require_diff,
            breaking_schema_changes: self.breaking_schema_changes.deep_view(),
            allow_breaking_schema: self.allow_breaking_schema,
            dry_run: self.dry_run,
            actor: self.actor.deep_view(),
            gates: self.gates.deep_view(),
        }
    }
}

impl DeepClone for PromotionRequest {
    fn deep_clone(&self) -> (copy: Self) {
        PromotionRequest {
            candidate_ref: self.candidate_ref.deep_clone(),
            target_ref: self.target_ref.deep_clone(),
            candidate_hash: self.candidate_hash.deep_clone(),
            expected_target_hash: self.expected_target_hash.deep_clone(),
            plan_id: self.plan_id.deep_clone(),
            run_id: self.run_id.deep_clone(),
            quality_gates_passed: self.quality_gates_passed,
            diff_passed: self.diff_passed.deep_clone(),
            require_diff: self.require_diff,
            breaking_schema_changes: self.breaking_schema_changes.deep_clone(),
            allow_breaking_schema: self.allow_breaking_schema,
            dry_run: self.dry_run,
            actor: self.actor.deep_clone(),
            gates: self.gates.deep_clone(),
        }
    }
}

/// A reproducible promotion record.
#[derive(Clone, Debug, PartialEq, Eq)]
pub struct PromotionRecord {
    pub promotion_id: String,
    pub candidate_ref: String,
    pub candidate_hash: Option<String>,
    pub target_ref: String,
    pub target_hash_before: String,
    pub target_hash_after: Option<String>,
    pub plan_id: Option<String>,
    pub run_id: Option<String>,
    pub dry_run: bool,
    pub merged: bool,
    pub conflicts: Vec<Conflict>,
    /// The gates that authorised (or refused) this promotion.
    pub gates: Vec<GateResult>,
    pub timestamp: String,
    pub actor: Option<String>,
}

/// The contents of a [`PromotionRecord`].
pub struct PromotionRecordView {
    pub promotion_id: Seq<char>,
    pub candidate_ref: Seq<char>,
    pub candidate_hash: Option<Seq<char>>,
    pub target_ref: Seq<char>,
    pub target_hash_before: Seq<char>,
    pub target_hash_after: Option<Seq<char>>,
    pub plan_id: Option<Seq<char>>,
    pub run_id: Option<Seq<char>>,
    pub dry_run: bool,
    pub merged: bool,
    pub conflicts: Seq<ConflictView>,
    pub gates: Seq<GateResultView>,
    pub timestamp: Seq<char>,
    pub actor: Option<Seq<char>>,
}

impl DeepView for PromotionRecord {
    type V = PromotionRecordView;

    open spec fn deep_view(&self) -> PromotionRecordView {
        PromotionRecordView {
            promotion_id: self.promotion_id@,
            candidate_ref: self.candidate_ref@,
            candidate_hash: self.candidate_hash.deep_view(),
            target_ref: self.target_ref@,
            target_hash_before: self.target_hash_before@,
            target_hash_after: self.target_hash_after.deep_view(),
            plan_id: self.plan_id.deep_view(),
            run_id: self.run_id.deep_view(),
            dry_run: self.dry_run,
            merged: self.merged,
            conflicts: self.conflicts.deep_view(),
            gates: self.gates.deep_view(),
            timestamp: self.timestamp@,
            actor: self.actor.deep_view(),
        }
    }
}

impl DeepClone for PromotionRecord {
    fn deep_clone(&self) -> (copy: Self) {
        PromotionRecord {
            promotion_id: self.promotion_id.deep_clone(),
            candidate_ref: self.candidate_ref.deep_clone(),
            candidate_hash: self.candidate_hash.deep_clone(),
            target_ref: self.target_ref.deep_clone(),
            target_hash_before: self.target_hash_before.deep_clone(),
            target_hash_after: self.target_hash_after.deep_clone(),
            plan_id: self.plan_id.deep_clone(),
            run_id: self.run_id.deep_clone(),
            dry_run: self.dry_run,
            merged: self.merged,
            conflicts: self.conflicts.deep_clone(),
            gates: self.gates.deep_clone(),
            timestamp: self.timestamp.deep_clone(),
            actor: self.actor.deep_clone(),
        }
    }
}

/// The identity a promotion's record is given: a fresh one, and the time.
#[derive(Clone, Debug, PartialEq, Eq)]
pub struct PromotionStamp {
    pub promotion_id: String,
    pub timestamp: String,
}

/// The contents of a [`PromotionStamp`].
pub struct PromotionStampView {
    pub promotion_id: Seq<char>,
    pub timestamp: Seq<char>,
}

impl DeepView for PromotionStamp {
    type V = PromotionStampView;

    open spec fn deep_view(&self) -> PromotionStampView {
        PromotionStampView {
            promotion_id: self.promotion_id@,
            timestamp: self.timestamp@,
        }
    }
}

impl DeepClone for PromotionStamp {
    fn deep_clone(&self) -> (copy: Self) {
        PromotionStamp {
            promotion_id: self.promotion_id.deep_clone(),
            timestamp: self.timestamp.deep_clone(),
        }
    }
}

impl PromotionStamp {
    /// A fresh identity at the present time.
    pub fn fresh() -> (stamp: Self)
        ensures
            is_uuid_text(stamp.promotion_id@),
            is_timestamp(stamp.timestamp@),
    {
        PromotionStamp { promotion_id: fresh_id(), timestamp: now_rfc3339() }
    }
}

/// How far a promotion has come.
#[derive(Clone, Debug, PartialEq, Eq)]
pub enum Promotion {
    /// The candidate reference is to be looked up.
    Candidate,
    /// The target reference is to be looked up.
    Target { candidate: ReferenceInfo },
    /// The merge is to be made, or only checked.
    Merge { candidate: ReferenceInfo, target: ReferenceInfo },
    /// The promotion went through.
    Done { record: PromotionRecord },
    /// The promotion was refused.
    Refused { error: EngineError },
}

/// The contents of a [`Promotion`].
pub enum PromotionView {
    Candidate,
    Target { candidate: ReferenceInfoView },
    Merge { candidate: ReferenceInfoView, target: ReferenceInfoView },
    Done { record: PromotionRecordView },
    Refused { error: EngineErrorView },
}

impl DeepView for Promotion {
    type V = PromotionView;

    open spec fn deep_view(&self) -> PromotionView {
        match self {
            Promotion::Candidate => PromotionView::Candidate,
            Promotion::Target { candidate } => PromotionView::Target {
                candidate: candidate.deep_view(),
            },
            Promotion::Merge { candidate, target } => PromotionView::Merge {
                candidate: candidate.deep_view(),
                target: target.deep_view(),
            },
            Promotion::Done { record } => PromotionView::Done { record: record.deep_view() },
            Promotion::Refused { error } => PromotionView::Refused { error: error.deep_view() },
        }
    }
}

impl DeepClone for Promotion {
    fn deep_clone(&self) -> (copy: Self) {
        match self {
            Promotion::Candidate => Promotion::Candidate,
            Promotion::Target { candidate } => Promotion::Target {
                candidate: candidate.deep_clone(),
            },
            Promotion::Merge { candidate, target } => Promotion::Merge {
                candidate: candidate.deep_clone(),
                target: target.deep_clone(),
            },
            Promotion::Done { record } => Promotion::Done { record: record.deep_clone() },
            Promotion::Refused { error } => Promotion::Refused { error: error.deep_clone() },
        }
    }
}

/// What the caller is to do next.
#[derive(Clone, Debug, PartialEq, Eq)]
pub enum PromotionAction {
    LookUp { reference: String },
    CheckMerge { from: String, into: String },
    /// Merge `from`, which must be at `from_hash`, into `into`, which must be at
    /// `into_hash` where one is given.
    Merge { from: String, from_hash: String, into: String, into_hash: Option<String> },
    Stop,
}

/// The contents of a [`PromotionAction`].
pub enum PromotionActionView {
    LookUp { reference: Seq<char> },
    CheckMerge { from: Seq<char>, into: Seq<char> },
    Merge { from: Seq<char>, from_hash: Seq<char>, into: Seq<char>, into_hash: Option<Seq<char>> },
    Stop,
}

impl DeepView for PromotionAction {
    type V = PromotionActionView;

    open spec fn deep_view(&self) -> PromotionActionView {
        match self {
            PromotionAction::LookUp { reference } => PromotionActionView::LookUp {
                reference: reference@,
            },
            PromotionAction::CheckMerge { from, into } => PromotionActionView::CheckMerge {
                from: from@,
                into: into@,
            },
            PromotionAction::Merge {
                from,
                from_hash,
                into,
                into_hash,
            } => PromotionActionView::Merge {
                from: from@,
                from_hash: from_hash@,
                into: into@,
                into_hash: into_hash.deep_view(),
            },
            PromotionAction::Stop => PromotionActionView::Stop,
        }
    }
}

impl DeepClone for PromotionAction {
    fn deep_clone(&self) -> (copy: Self) {
        match self {
            PromotionAction::LookUp { reference } => PromotionAction::LookUp {
                reference: reference.deep_clone(),
            },
            PromotionAction::CheckMerge { from, into } => PromotionAction::CheckMerge {
                from: from.deep_clone(),
                into: into.deep_clone(),
            },
            PromotionAction::Merge { from, from_hash, into, into_hash } => PromotionAction::Merge {
                from: from.deep_clone(),
                from_hash: from_hash.deep_clone(),
                into: into.deep_clone(),
                into_hash: into_hash.deep_clone(),
            },
            PromotionAction::Stop => PromotionAction::Stop,
        }
    }
}

/// What came of it. A failure of the Nessie server comes as its message.
#[derive(Clone, Debug, PartialEq, Eq)]
pub enum PromotionEvent {
    Found { reference: Option<ReferenceInfo> },
    Merged { outcome: MergeOutcome },
    NessieFailed { message: String },
}

/// The contents of a [`PromotionEvent`].
pub enum PromotionEventView {
    Found { reference: Option<ReferenceInfoView> },
    Merged { outcome: MergeOutcomeView },
    NessieFailed { message: Seq<char> },
}

impl DeepView for PromotionEvent {
    type V = PromotionEventView;

    open spec fn deep_view(&self) -> PromotionEventView {
        match self {
            PromotionEvent::Found { reference } => PromotionEventView::Found {
                reference: reference.deep_view(),
            },
            PromotionEvent::Merged { outcome } => PromotionEventView::Merged {
                outcome: outcome.deep_view(),
            },
            PromotionEvent::NessieFailed { message } => PromotionEventView::NessieFailed {
                message: message@,
            },
        }
    }
}

impl DeepClone for PromotionEvent {
    fn deep_clone(&self) -> (copy: Self) {
        match self {
            PromotionEvent::Found { reference } => PromotionEvent::Found {
                reference: reference.deep_clone(),
            },
            PromotionEvent::Merged { outcome } => PromotionEvent::Merged {
                outcome: outcome.deep_clone(),
            },
            PromotionEvent::NessieFailed { message } => PromotionEvent::NessieFailed {
                message: message.deep_clone(),
            },
        }
    }
}

/// Why a request is refused before anything is looked up.
pub open spec fn refusal(request: PromotionRequestView) -> Option<Seq<char>> {
    if !request.quality_gates_passed {
        Some("quality gates have not passed; refusing to promote"@)
    } else if request.require_diff && request.diff_passed != Some(true) {
        Some("a passing data diff is required before promotion"@)
    } else if !request.allow_breaking_schema && request.breaking_schema_changes.len() > 0 {
        Some(
            "breaking schema changes block promotion: "@ + join_text(
                request.breaking_schema_changes,
                ", "@,
            ),
        )
    } else {
        None
    }
}

/// A promotion that was just asked for.
pub open spec fn promotion_start(request: PromotionRequestView) -> PromotionView {
    match refusal(request) {
        Some(reason) => PromotionView::Refused { error: EngineErrorView::Promotion(reason) },
        None => PromotionView::Candidate,
    }
}

/// The action that a state of a promotion asks for.
pub open spec fn promotion_action(
    request: PromotionRequestView,
    state: PromotionView,
) -> PromotionActionView {
    match state {
        PromotionView::Candidate => PromotionActionView::LookUp {
            reference: request.candidate_ref,
        },
        PromotionView::Target { candidate } => PromotionActionView::LookUp {
            reference: request.target_ref,
        },
        PromotionView::Merge { candidate, target } => if request.dry_run {
            PromotionActionView::CheckMerge {
                from: request.candidate_ref,
                into: request.target_ref,
            }
        } else {
            PromotionActionView::Merge {
                from: request.candidate_ref,
                from_hash: candidate.hash,
                into: request.target_ref,
                into_hash: request.expected_target_hash,
            }
        },
        _ => PromotionActionView::Stop,
    }
}

/// The complaint about a reference that does not exist.
pub open spec fn missing_text(role: Seq<char>, reference: Seq<char>) -> Seq<char> {
    role + " reference `"@ + reference + "` was not found"@
}

/// The state once both references are known: the candidate must still be the
/// commit that was audited, and the target must not have moved since the
/// candidate was planned.
pub open spec fn with_references(
    request: PromotionRequestView,
    candidate: ReferenceInfoView,
    target: ReferenceInfoView,
) -> PromotionView {
    if request.candidate_hash is Some && request.candidate_hash->0 != candidate.hash {
        PromotionView::Refused {
            error: EngineErrorView::Promotion(
                "candidate `"@ + request.candidate_ref
                    + "` advanced since the audit (expected "@ + request.candidate_hash->0
                    + ", found "@ + candidate.hash + "); re-run the audit and gates"@,
            ),
        }
    } else if request.expected_target_hash is Some && request.expected_target_hash->0
        != target.hash {
        PromotionView::Refused {
            error: EngineErrorView::Promotion(
                "target `"@ + request.target_ref + "` advanced since planning (expected "@
                    + request.expected_target_hash->0 + ", found "@ + target.hash
                    + "); re-plan the candidate"@,
            ),
        }
    } else {
        PromotionView::Merge { candidate, target }
    }
}

/// The record of a promotion whose merge, or merge check, was clean.
pub open spec fn promotion_record(
    request: PromotionRequestView,
    stamp: PromotionStampView,
    candidate: ReferenceInfoView,
    target: ReferenceInfoView,
    outcome: MergeOutcomeView,
) -> PromotionRecordView {
    PromotionRecordView {
        promotion_id: stamp.promotion_id,
        candidate_ref: request.candidate_ref,
        candidate_hash: match request.candidate_hash {
            Some(hash) => Some(hash),
            None => Some(candidate.hash),
        },
        target_ref: request.target_ref,
        target_hash_before: target.hash,
        target_hash_after: outcome.hash,
        plan_id: request.plan_id,
        run_id: request.run_id,
        dry_run: request.dry_run,
        merged: !request.dry_run,
        conflicts: Seq::empty(),
        gates: request.gates,
        timestamp: stamp.timestamp,
        actor: request.actor,
    }
}

/// The state after an event. An event that does not answer the action of the
/// state leaves it as it is.
pub open spec fn promotion_after(
    request: PromotionRequestView,
    stamp: PromotionStampView,
    state: PromotionView,
    event: PromotionEventView,
) -> PromotionView {
    match (state, event) {
        (PromotionView::Candidate, PromotionEventView::Found { reference }) => match reference {
            Some(candidate) => PromotionView::Target { candidate },
            None => PromotionView::Refused {
                error: EngineErrorView::NotFound(
                    missing_text("candidate"@, request.candidate_ref),
                ),
            },
        },
        (PromotionView::Target { candidate }, PromotionEventView::Found { reference }) =>
        match reference {
            Some(target) => with_references(request, candidate, target),
            None => PromotionView::Refused {
                error: EngineErrorView::NotFound(missing_text("target"@, request.target_ref)),
            },
        },
        (PromotionView::Merge { candidate, target }, PromotionEventView::Merged { outcome }) =>
        if outcome.conflicts.len() > 0 {
            PromotionView::Refused {
                error: EngineErrorView::Promotion(
                    "candidate cannot be promoted: "@ + conflicts_text(outcome.conflicts),
                ),
            }
        } else {
            PromotionView::Done {
                record: promotion_record(request, stamp, candidate, target, outcome),
            }
        },
        (PromotionView::Candidate, PromotionEventView::NessieFailed { message })
        | (PromotionView::Target { .. }, PromotionEventView::NessieFailed { message })
        | (PromotionView::Merge { .. }, PromotionEventView::NessieFailed { message }) =>
        PromotionView::Refused { error: EngineErrorView::Promotion(message) },
        _ => state,
    }
}

fn refusal_of(request: &PromotionRequest) -> (r: Option<String>)
    ensures
        r.deep_view() == refusal(request.deep_view()),
{
    if !request.quality_gates_passed {
        return Some("quality gates have not passed; refusing to promote".to_owned());
    }
    if request.require_diff {
        let passed: bool = match request.diff_passed {
            Some(passed) => passed,
            None => false,
        };
        if !passed {
            return Some("a passing data diff is required before promotion".to_owned());
        }
    }
    let changes: &[String] = request.breaking_schema_changes.as_slice();
    assert(changes.deep_view() =~= request.breaking_schema_changes.deep_view());
    assert(changes.deep_view().len() == changes@.len());
    if !request.allow_breaking_schema && changes.len() > 0 {
        return Some(
            cat2("breaking schema changes block promotion: ", join(changes, ", ").as_str()),
        );
    }
    None
}

/// A reference that must exist.
pub fn require_reference(role: &str, reference: &str, found: Option<ReferenceInfo>) -> (r: Result<
    ReferenceInfo,
    EngineError,
>)
    ensures
        match found.deep_view() {
            Some(info) => r matches Ok(x) && x.deep_view() == info,
            None => r matches Err(e) && e.deep_view() == EngineErrorView::NotFound(
                missing_text(role@, reference@),
            ),
        },
{
    match found {
        Some(info) => Ok(info),
        None => Err(
            EngineError::NotFound(
                cat2(cat3(role, " reference `", reference).as_str(), "` was not found"),
            ),
        ),
    }
}

fn check_references(
    request: &PromotionRequest,
    candidate: ReferenceInfo,
    target: ReferenceInfo,
) -> (r: Promotion)
    ensures
        r.deep_view() == with_references(
            request.deep_view(),
            candidate.deep_view(),
            target.deep_view(),
        ),
{
    if let Some(expected) = &request.candidate_hash {
        if !same(expected.as_str(), candidate.hash.as_str()) {
            return Promotion::Refused {
                error: EngineError::Promotion(
                    cat7(
                        "candidate `",
                        request.candidate_ref.as_str(),
                        "` advanced since the audit (expected ",
                        expected.as_str(),
                        ", found ",
                        candidate.hash.as_str(),
                        "); re-run the audit and gates",
                    ),
                ),
            };
        }
    }
    if let Some(expected) = &request.expected_target_hash {
        if !same(expected.as_str(), target.hash.as_str()) {
            return Promotion::Refused {
                error: EngineError::Promotion(
                    cat7(
                        "target `",
                        request.target_ref.as_str(),
                        "` advanced since planning (expected ",
                        expected.as_str(),
                        ", found ",
                        target.hash.as_str(),
                        "); re-plan the candidate",
                    ),
                ),
            };
        }
    }
    Promotion::Merge { candidate, target }
}

fn record_promotion(
    request: &PromotionRequest,
    stamp: &PromotionStamp,
    candidate: ReferenceInfo,
    target: ReferenceInfo,
    outcome: MergeOutcome,
) -> (r: Promotion)
    ensures
        r.deep_view() == promotion_after(
            request.deep_view(),
            stamp.deep_view(),
            (PromotionView::Merge { candidate: candidate.deep_view(), target: target.deep_view() }),
            (PromotionEventView::Merged { outcome: outcome.deep_view() }),
        ),
{
    if !outcome.is_clean() {
        let detail: String = describe_conflicts(&outcome.conflicts);
        return Promotion::Refused {
            error: EngineError::Promotion(
                cat2("candidate cannot be promoted: ", detail.as_str()),
            ),
        };
    }
    Promotion::Done {
        record: PromotionRecord {
            promotion_id: stamp.promotion_id.clone(),
            candidate_ref: request.candidate_ref.clone(),
            candidate_hash: match &request.candidate_hash {
                Some(hash) => Some(hash.clone()),
                None => Some(candidate.hash),
            },
            target_ref: request.target_ref.clone(),
            target_hash_before: target.hash,
            target_hash_after: outcome.hash,
            plan_id: request.plan_id.deep_clone(),
            run_id: request.run_id.deep_clone(),
            dry_run: request.dry_run,
            merged: !request.dry_run,
            conflicts: none_of(),
            gates: request.gates.deep_clone(),
            timestamp: stamp.timestamp.clone(),
            actor: request.actor.deep_clone(),
        },
    }
}

/// Start promoting an audited candidate to the target reference.
pub fn promote(request: &PromotionRequest) -> (r: Promotion)
    ensures
        r.deep_view() == promotion_start(request.deep_view()),
{
    match refusal_of(request) {
        Some(reason) => Promotion::Refused { error: EngineError::Promotion(reason) },
        None => Promotion::Candidate,
    }
}

impl Promotion {
    /// What the caller is to do next.
    pub fn action(&self, request: &PromotionRequest) -> (r: PromotionAction)
        ensures
            r.deep_view() == promotion_action(request.deep_view(), self.deep_view()),
    {
        match self {
            Promotion::Candidate => PromotionAction::LookUp {
                reference: request.candidate_ref.clone(),
            },
            Promotion::Target { candidate } => PromotionAction::LookUp {
                reference: request.target_ref.clone(),
            },
            Promotion::Merge { candidate, target } => if request.dry_run {
                PromotionAction::CheckMerge {
                    from: request.candidate_ref.clone(),
                    into: request.target_ref.clone(),
                }
            } else {
                PromotionAction::Merge {
                    from: request.candidate_ref.clone(),
                    from_hash: candidate.hash.clone(),
                    into: request.target_ref.clone(),
                    into_hash: request.expected_target_hash.deep_clone(),
                }
            },
            Promotion::Done { record } => PromotionAction::Stop,
            Promotion::Refused { error } => PromotionAction::Stop,
        }
    }

    /// The state after an event.
    pub fn advance(
        self,
        request: &PromotionRequest,
        stamp: &PromotionStamp,
        event: PromotionEvent,
    ) -> (r: Self)
        ensures
            r.deep_view() == promotion_after(
                request.deep_view(),
                stamp.deep_view(),
                self.deep_view(),
                event.deep_view(),
            ),
    {
        match (self, event) {
            (Promotion::Candidate, PromotionEvent::Found { reference }) =>
            match require_reference("candidate", request.candidate_ref.as_str(), reference) {
                Ok(candidate) => Promotion::Target { candidate },
                Err(error) => Promotion::Refused { error },
            },
            (Promotion::Target { candidate }, PromotionEvent::Found { reference }) =>
            match require_reference("target", request.target_ref.as_str(), reference) {
                Ok(target) => check_references(request, candidate, target),
                Err(error) => Promotion::Refused { error },
            },
            (Promotion::Merge { candidate, target }, PromotionEvent::Merged { outcome }) =>
            record_promotion(request, stamp, candidate, target, outcome),
            (Promotion::Candidate, PromotionEvent::NessieFailed { message }) =>
            Promotion::Refused { error: EngineError::Promotion(message) },
            (Promotion::Target { candidate }, PromotionEvent::NessieFailed { message }) =>
            Promotion::Refused { error: EngineError::Promotion(message) },
            (Promotion::Merge { candidate, target }, PromotionEvent::NessieFailed { message }) =>
            Promotion::Refused { error: EngineError::Promotion(message) },
            (state, other) => state,
        }
    }
}

/// How a Nessie server would answer whatever a promotion asks of it.
pub struct MergeServer {
    pub candidate: Result<Option<ReferenceInfoView>, Seq<char>>,
    pub target: Result<Option<ReferenceInfoView>, Seq<char>>,
    pub merge: Result<MergeOutcomeView, Seq<char>>,
}

/// The event by which the server answers the action of a state.
pub open spec fn server_answer(server: MergeServer, state: PromotionView) -> PromotionEventView {
    match state {
        PromotionView::Candidate => match server.candidate {
            Ok(reference) => PromotionEventView::Found { reference },
            Err(message) => PromotionEventView::NessieFailed { message },
        },
        PromotionView::Target { .. } => match server.target {
            Ok(reference) => PromotionEventView::Found { reference },
            Err(message) => PromotionEventView::NessieFailed { message },
        },
        _ => match server.merge {
            Ok(outcome) => PromotionEventView::Merged { outcome },
            Err(message) => PromotionEventView::NessieFailed { message },
        },
    }
}

/// The state after a number of answers.
pub open spec fn promoted(
    request: PromotionRequestView,
    stamp: PromotionStampView,
    server: MergeServer,
    steps: nat,
) -> PromotionView
    decreases steps,
{
    if steps == 0 {
        promotion_start(request)
    } else {
        let state = promoted(request, stamp, server, (steps - 1) as nat);
        promotion_after(request, stamp, state, server_answer(server, state))
    }
}

/// A promotion ends after at most three answers, done or refused.
pub proof fn law_promotion_ends(
    request: PromotionRequestView,
    stamp: PromotionStampView,
    server: MergeServer,
)
    ensures
        promoted(request, stamp, server, 3) is Done || promoted(request, stamp, server, 3)
            is Refused,
{
    reveal_with_fuel(promoted, 4);
}

/// A merge is asked for only once the quality gates, a required diff and the
/// schema check passed, with the candidate at the audited commit and the target
/// where the evidence was established; and it pins the commit that was looked
/// up.
pub proof fn law_only_audited_work_is_merged(
    request: PromotionRequestView,
    stamp: PromotionStampView,
    server: MergeServer,
    steps: nat,
)
    ensures
        promotion_action(
            request,
            promoted(request, stamp, server, steps),
        ) matches PromotionActionView::Merge { from_hash, .. } ==> {
            &&& !request.dry_run
            &&& request.quality_gates_passed
            &&& request.require_diff ==> request.diff_passed == Some(true)
            &&& request.allow_breaking_schema || request.breaking_schema_changes.len() == 0
            &&& request.candidate_hash is Some ==> request.candidate_hash->0 == from_hash
            &&& request.expected_target_hash is Some ==> (server.target matches Ok(Some(
                target,
            )) && request.expected_target_hash->0 == target.hash)
        },
    decreases steps,
{
    lemma_promotion_states(request, stamp, server, steps);
}

/// What holds in each state that a promotion reaches.
pub open spec fn promotion_sound(
    request: PromotionRequestView,
    server: MergeServer,
    state: PromotionView,
) -> bool {
    match state {
        PromotionView::Refused { .. } => true,
        PromotionView::Candidate => refusal(request) is None,
        PromotionView::Target { .. } => refusal(request) is None,
        PromotionView::Merge { candidate, target } => {
            &&& refusal(request) is None
            &&& server.target == Ok::<Option<ReferenceInfoView>, Seq<char>>(Some(target))
            &&& with_references(request, candidate, target) == state
        },
        PromotionView::Done { record } => {
            &&& refusal(request) is None
            &&& record.merged == !request.dry_run
            &&& record.conflicts.len() == 0
        },
    }
}

proof fn lemma_promotion_states(
    request: PromotionRequestView,
    stamp: PromotionStampView,
    server: MergeServer,
    steps: nat,
)
    ensures
        promotion_sound(request, server, promoted(request, stamp, server, steps)),
    decreases steps,
{
    if steps > 0 {
        lemma_promotion_states(request, stamp, server, (steps - 1) as nat);
    }
}

/// A dry run never merges: it asks for no merge, and a record it ends in says
/// that nothing was merged.
pub proof fn law_dry_runs_never_merge(
    request: PromotionRequestView,
    stamp: PromotionStampView,
    server: MergeServer,
    steps: nat,
)
    requires
        request.dry_run,
    ensures
        !(promotion_action(request, promoted(request, stamp, server, steps)) is Merge),
        promoted(request, stamp, server, steps) matches PromotionView::Done { record }
            ==> !record.merged,
{
    lemma_promotion_states(request, stamp, server, steps);
}

/// Gate-policy switches a caller passes through.
#[derive(Clone, Copy, Debug, PartialEq, Eq, Structural)]
pub struct PromotionOptions {
    /// Require a passing data diff before promotion.
    pub require_diff: bool,
    /// Waive breaking schema changes found by the audit.
    pub allow_breaking_schema: bool,
}

impl DeepView for PromotionOptions {
    type V = PromotionOptions;

    open spec fn deep_view(&self) -> PromotionOptions {
        *self
    }
}

impl DeepClone for PromotionOptions {
    fn deep_clone(&self) -> (copy: Self) {
        *self
    }
}

impl Default for PromotionOptions {
    fn default() -> (options: Self)
        ensures
            !options.require_diff,
            !options.allow_breaking_schema,
    {
        PromotionOptions { require_diff: false, allow_breaking_schema: false }
    }
}

/// Everything a promotion decision is made from: the evidence gathered, the
/// verdict of the gates over it, and the resolved references.
pub struct PromotionEvaluation {
    /// The candidate reference as Nessie currently resolves it.
    pub candidate: ReferenceInfo,
    /// The target reference as Nessie currently resolves it.
    pub target: ReferenceInfo,
    /// The latest run recorded under the candidate's environment label.
    pub run: Option<RunSummary>,
    /// What the persisted diff artifact proves for this promotion.
    pub audit: AuditEvidence,
    /// The lineage artifact's standing under the gates (advisory context).
    pub lineage: Option<LineageEvidence>,
    /// The environment provisioning record for the candidate, when known.
    pub environment: Option<EnvironmentSetup>,
    /// The base commit the evidence was established against: the hash the merge
    /// asserts on.
    pub expected_target_hash: Option<String>,
    /// The verdict of the gates.
    pub gates: GateReport,
}

/// The contents of a [`PromotionEvaluation`].
pub struct PromotionEvaluationView {
    pub candidate: ReferenceInfoView,
    pub target: ReferenceInfoView,
    pub run: Option<RunSummaryView>,
    pub audit: AuditEvidenceView,
    pub lineage: Option<LineageEvidenceView>,
    pub environment: Option<EnvironmentSetupView>,
    pub expected_target_hash: Option<Seq<char>>,
    pub gates: GateReportView,
}

impl DeepView for PromotionEvaluation {
    type V = PromotionEvaluationView;

    open spec fn deep_view(&self) -> PromotionEvaluationView {
        PromotionEvaluationView {
            candidate: self.candidate.deep_view(),
            target: self.target.deep_view(),
            run: self.run.deep_view(),
            audit: self.audit.deep_view(),
            lineage: self.lineage.deep_view(),
            environment: self.environment.deep_view(),
            expected_target_hash: self.expected_target_hash.deep_view(),
            gates: self.gates.deep_view(),
        }
    }
}

impl DeepClone for PromotionEvaluation {
    fn deep_clone(&self) -> (copy: Self) {
        PromotionEvaluation {
            candidate: self.candidate.deep_clone(),
            target: self.target.deep_clone(),
            run: self.run.deep_clone(),
            audit: self.audit.deep_clone(),
            lineage: self.lineage.deep_clone(),
            environment: self.environment.deep_clone(),
            expected_target_hash: self.expected_target_hash.deep_clone(),
            gates: self.gates.deep_clone(),
        }
    }
}

/// The request that an evaluation authorises.
pub open spec fn authorised_request(
    it: PromotionEvaluationView,
    options: PromotionOptions,
    actor: Option<Seq<char>>,
) -> PromotionRequestView {
    PromotionRequestView {
        candidate_ref: it.candidate.name,
        target_ref: it.target.name,
        candidate_hash: Some(it.candidate.hash),
        expected_target_hash: match it.expected_target_hash {
            Some(hash) => Some(hash),
            None => Some(it.target.hash),
        },
        plan_id: match it.run {
            Some(run) => Some(run.plan_id),
            None => None,
        },
        run_id: match it.run {
            Some(run) => Some(run.run_id),
            None => None,
        },
        quality_gates_passed: true,
        diff_passed: it.audit.diff_passed,
        require_diff: options.require_diff,
        breaking_schema_changes: it.audit.breaking_schema_changes,
        allow_breaking_schema: options.allow_breaking_schema,
        dry_run: false,
        actor,
        gates: it.gates.results,
    }
}

impl PromotionEvaluation {
    /// The promotion request this evaluation authorises; only meaningful when
    /// the gates passed. The target hash is asserted at merge time: when no
    /// evidence base was recorded, the just-resolved head is pinned, so that a
    /// commit racing the promotion is rejected rather than merged over.
    pub fn request(&self, options: &PromotionOptions, actor: Option<String>) -> (r:
        PromotionRequest)
        ensures
            r.deep_view() == authorised_request(self.deep_view(), *options, actor.deep_view()),
    {
        PromotionRequest {
            candidate_ref: self.candidate.name.clone(),
            target_ref: self.target.name.clone(),
            candidate_hash: Some(self.candidate.hash.clone()),
            expected_target_hash: match &self.expected_target_hash {
                Some(hash) => Some(hash.clone()),
                None => Some(self.target.hash.clone()),
            },
            plan_id: match &self.run {
                Some(run) => Some(run.plan_id.clone()),
                None => None,
            },
            run_id: match &self.run {
                Some(run) => Some(run.run_id.clone()),
                None => None,
            },
            quality_gates_passed: true,
            diff_passed: self.audit.diff_passed,
            require_diff: options.require_diff,
            breaking_schema_changes: self.audit.breaking_schema_changes.deep_clone(),
            allow_breaking_schema: options.allow_breaking_schema,
            dry_run: false,
            actor,
            gates: self.gates.results.deep_clone(),
        }
    }
}

/// The evidence gathered for a promotion.
pub struct PromotionFacts {
    pub candidate: ReferenceInfo,
    pub target: ReferenceInfo,
    /// The latest run recorded under the candidate's environment label, and its
    /// records.
    pub run: Option<RunSummary>,
    pub model_runs: Vec<ModelRunRecord>,
    pub test_runs: Vec<TestRunRecord>,
    pub environment: Option<EnvironmentSetup>,
    pub audit: AuditEvidence,
    /// Contract breaks computed live: the workspace's desired contracts against
    /// what the target environment last recorded.
    pub contract_breaks: Vec<String>,
    /// The merge check, when it could be made.
    pub merge_check: Option<MergeOutcome>,
    pub lineage: Option<LineageEvidence>,
}

/// The contents of a [`PromotionFacts`].
pub struct PromotionFactsView {
    pub candidate: ReferenceInfoView,
    pub target: ReferenceInfoView,
    pub run: Option<RunSummaryView>,
    pub model_runs: Seq<ModelRunRecordView>,
    pub test_runs: Seq<TestRunRecordView>,
    pub environment: Option<EnvironmentSetupView>,
    pub audit: AuditEvidenceView,
    pub contract_breaks: Seq<Seq<char>>,
    pub merge_check: Option<MergeOutcomeView>,
    pub lineage: Option<LineageEvidenceView>,
}

impl DeepView for PromotionFacts {
    type V = PromotionFactsView;

    open spec fn deep_view(&self) -> PromotionFactsView {
        PromotionFactsView {
            candidate: self.candidate.deep_view(),
            target: self.target.deep_view(),
            run: self.run.deep_view(),
            model_runs: self.model_runs.deep_view(),
            test_runs: self.test_runs.deep_view(),
            environment: self.environment.deep_view(),
            audit: self.audit.deep_view(),
            contract_breaks: self.contract_breaks.deep_view(),
            merge_check: self.merge_check.deep_view(),
            lineage: self.lineage.deep_view(),
        }
    }
}

impl DeepClone for PromotionFacts {
    fn deep_clone(&self) -> (copy: Self) {
        PromotionFacts {
            candidate: self.candidate.deep_clone(),
            target: self.target.deep_clone(),
            run: self.run.deep_clone(),
            model_runs: self.model_runs.deep_clone(),
            test_runs: self.test_runs.deep_clone(),
            environment: self.environment.deep_clone(),
            audit: self.audit.deep_clone(),
            contract_breaks: self.contract_breaks.deep_clone(),
            merge_check: self.merge_check.deep_clone(),
            lineage: self.lineage.deep_clone(),
        }
    }
}

/// The audit with the live contract breaks added.
pub open spec fn full_audit(facts: PromotionFactsView) -> AuditEvidenceView {
    AuditEvidenceView {
        breaking_schema_changes: facts.audit.breaking_schema_changes + facts.contract_breaks,
        ..facts.audit
    }
}

/// The target commit that the evidence was established against: the one that a
/// hash-bound diff audited, else the recorded commit that the candidate was
/// provably created from. A candidate whose origin is unknown and which was
/// never audited against this target has none.
pub open spec fn evidence_base(
    facts: PromotionFactsView,
    candidate: Seq<char>,
    to: Seq<char>,
) -> Option<Seq<char>> {
    match facts.audit.audited_base_hash {
        Some(hash) => Some(hash),
        None => match facts.environment {
            Some(setup) => if setup.candidate.name == candidate && setup.base.name == to {
                match setup.created_from {
                    Some(base) => Some(base.hash),
                    None => None,
                }
            } else {
                None
            },
            None => None,
        },
    }
}

/// What the gates are evaluated over.
pub open spec fn gate_input(
    facts: PromotionFactsView,
    candidate: Seq<char>,
    to: Seq<char>,
    options: PromotionOptions,
) -> GateInputView {
    GateInputView {
        run: facts.run,
        model_runs: facts.model_runs,
        test_runs: facts.test_runs,
        require_diff: options.require_diff,
        diff_passed: facts.audit.diff_passed,
        diff_rejected: facts.audit.diff_rejected,
        breaking_schema_changes: full_audit(facts).breaking_schema_changes,
        allow_breaking_schema: options.allow_breaking_schema,
        expected_target_hash: evidence_base(facts, candidate, to),
        actual_target_hash: Some(facts.target.hash),
        merge_check: facts.merge_check,
    }
}

/// A gate's result, failed for `missing` where the evidence that it rests on is
/// missing.
pub open spec fn held(result: GateResultView, missing: Option<Seq<char>>) -> GateResultView {
    match missing {
        Some(reason) => if result.passed {
            GateResultView { passed: false, detail: reason, ..result }
        } else {
            result
        },
        None => result,
    }
}

/// Why the candidate's run does not speak for its head: a run that is bound to
/// no commit, or to another one, cannot promote.
pub open spec fn unbound_run(facts: PromotionFactsView) -> Option<Seq<char>> {
    unbound_text(facts.run, facts.candidate.hash)
}

/// Why a run is not bound to `head`, in words.
pub open spec fn unbound_text(run: Option<RunSummaryView>, head: Seq<char>) -> Option<Seq<char>> {
    match run {
        Some(run) => match run.reference_hash {
            Some(hash) => if hash == head {
                None
            } else {
                Some(
                    "run "@ + run.run_id + " is bound to "@ + hash + ", not to the candidate at "@
                        + head,
                )
            },
            None => Some("run "@ + run.run_id + " is not bound to a commit"@),
        },
        None => None,
    }
}

/// Why nothing is known of the schema: without an audit, an empty list of changes
/// does not mean that there are none.
pub open spec fn unaudited_schema(facts: PromotionFactsView) -> Option<Seq<char>> {
    if facts.audit.schema_audited {
        None
    } else {
        Some("no current schema audit of the candidate against the target"@)
    }
}

/// Why the target cannot be held against a base: the candidate's origin is
/// unknown, and it was never audited against this target.
pub open spec fn unknown_base(
    facts: PromotionFactsView,
    candidate: Seq<char>,
    to: Seq<char>,
) -> Option<Seq<char>> {
    match evidence_base(facts, candidate, to) {
        Some(_) => None,
        None => Some("the candidate's origin is unknown and no audit recorded a base"@),
    }
}

/// The gates in their fixed order, those of the run, the schema and the base held
/// to their evidence.
pub open spec fn held_gates(
    input: GateInputView,
    run: Option<Seq<char>>,
    schema: Option<Seq<char>>,
    base: Option<Seq<char>>,
) -> Seq<GateResultView> {
    seq![
        held(run_gate(input), run),
        tests_gate(input),
        blocked_gate(input),
        held(schema_gate(input), schema),
    ] + diff_gate(input) + seq![held(base_gate(input), base), conflicts_gate(input)]
}

/// The gates of a promotion: as its evidence gives them, and failed where that
/// evidence is missing.
pub open spec fn promotion_gates(
    facts: PromotionFactsView,
    candidate: Seq<char>,
    to: Seq<char>,
    options: PromotionOptions,
) -> Seq<GateResultView> {
    held_gates(
        gate_input(facts, candidate, to, options),
        unbound_run(facts),
        unaudited_schema(facts),
        unknown_base(facts, candidate, to),
    )
}

/// A promotion is authorised exactly where every gate passes on its fields, the
/// target is at the commit that the evidence was established against, a current
/// audit inspected the schema, and the candidate's run is bound to its head.
pub proof fn law_promotions_rest_on_evidence(
    facts: PromotionFactsView,
    candidate: Seq<char>,
    to: Seq<char>,
    options: PromotionOptions,
)
    ensures
        gates_passed(promotion_gates(facts, candidate, to, options)) <==> {
            &&& gates_passed(all_gates(gate_input(facts, candidate, to, options)))
            &&& evidence_base(facts, candidate, to) == Some(facts.target.hash)
            &&& facts.audit.schema_audited
            &&& facts.run matches Some(run) && run.reference_hash == Some(facts.candidate.hash)
        },
{
    let input = gate_input(facts, candidate, to, options);
    let all = all_gates(input);
    let strict = promotion_gates(facts, candidate, to, options);
    let n = all.len();
    assert(strict.len() == n);
    assert(all[0] == run_gate(input) && strict[0] == held(all[0], unbound_run(facts)));
    assert(all[3] == schema_gate(input) && strict[3] == held(all[3], unaudited_schema(facts)));
    assert(all[n - 2] == base_gate(input));
    assert(strict[n - 2] == held(all[n - 2], unknown_base(facts, candidate, to)));
    assert forall|i: int| 0 <= i < n && i != 0 && i != 3 && i != n - 2 implies strict[i]
        == all[i] by {}
    if gates_passed(strict) {
        assert forall|i: int| 0 <= i < n implies (#[trigger] all[i]).passed by {
            assert(strict[i].passed);
        }
    }
    if gates_passed(all) {
        law_gates_fail_closed(input);
    }
}

fn hold(results: &mut Vec<GateResult>, i: usize, missing: Option<String>)
    requires
        i < old(results)@.len(),
    ensures
        final(results).deep_view() == old(results).deep_view().update(
            i as int,
            held(old(results).deep_view()[i as int], missing.deep_view()),
        ),
{
    let ghost before = results.deep_view();
    if results[i].passed {
        if let Some(reason) = missing {
            let name: String = results[i].name.clone();
            results.set(i, GateResult { name, passed: false, detail: reason });
        }
    }
    assert(results.deep_view() =~= before.update(
        i as int,
        held(before[i as int], missing.deep_view()),
    ));
}

fn hold_gates(
    input: &GateInput,
    run: Option<String>,
    schema: Option<String>,
    base: Option<String>,
) -> (r: GateReport)
    ensures
        ({
            let gates = held_gates(
                input.deep_view(),
                run.deep_view(),
                schema.deep_view(),
                base.deep_view(),
            );
            r.deep_view() == (GateReportView { results: gates, passed: gates_passed(gates) })
        }),
{
    let mut results: Vec<GateResult> = evaluate_gates(input).results;
    let ghost all = results.deep_view();
    let ghost n = all.len();
    assert(n == results@.len());
    let last: usize = results.len() - 2;
    assert(all[0] == run_gate(input.deep_view()));
    assert(all[3] == schema_gate(input.deep_view()));
    assert(all[n - 2] == base_gate(input.deep_view()));
    hold(&mut results, 0, run);
    assert(results.deep_view().len() == results@.len());
    hold(&mut results, 3, schema);
    assert(results.deep_view().len() == results@.len());
    hold(&mut results, last, base);
    assert(results.deep_view() =~= held_gates(
        input.deep_view(),
        run.deep_view(),
        schema.deep_view(),
        base.deep_view(),
    ));
    let passed: bool = all_passed(&results);
    GateReport { results, passed }
}

fn describe_unbound(run: &Option<RunSummary>, head: &str) -> (r: Option<String>)
    ensures
        r.deep_view() == unbound_text(run.deep_view(), head@),
{
    match run {
        Some(run) => match &run.reference_hash {
            Some(hash) => if same(hash.as_str(), head) {
                None
            } else {
                Some(
                    cat6(
                        "run ",
                        run.run_id.as_str(),
                        " is bound to ",
                        hash.as_str(),
                        ", not to the candidate at ",
                        head,
                    ),
                )
            },
            None => Some(cat3("run ", run.run_id.as_str(), " is not bound to a commit")),
        },
        None => None,
    }
}

/// What the evidence for a promotion of `candidate` to `to` comes to.
pub open spec fn evaluation(
    facts: PromotionFactsView,
    candidate: Seq<char>,
    to: Seq<char>,
    options: PromotionOptions,
) -> PromotionEvaluationView {
    let gates = promotion_gates(facts, candidate, to, options);
    PromotionEvaluationView {
        candidate: facts.candidate,
        target: facts.target,
        run: facts.run,
        audit: full_audit(facts),
        lineage: facts.lineage,
        environment: facts.environment,
        expected_target_hash: evidence_base(facts, candidate, to),
        gates: GateReportView { results: gates, passed: gates_passed(gates) },
    }
}

/// Evaluate the gates over the evidence for a promotion of `candidate` to `to`.
/// Missing evidence refuses: a candidate of unknown origin that no audit held
/// against this target, a schema that no current audit inspected, and a run that
/// is not bound to the candidate's head.
pub fn evaluate_promotion(
    facts: PromotionFacts,
    candidate: &str,
    to: &str,
    options: &PromotionOptions,
) -> (r: PromotionEvaluation)
    ensures
        r.deep_view() == evaluation(facts.deep_view(), candidate@, to@, *options),
        r.gates.passed ==> {
            &&& evidence_base(facts.deep_view(), candidate@, to@) == Some(facts.target.hash@)
            &&& facts.audit.schema_audited
            &&& facts.run.deep_view() matches Some(run) && run.reference_hash == Some(
                facts.candidate.hash@,
            )
        },
{
    let ghost given = facts.deep_view();
    let unbound: Option<String> = describe_unbound(&facts.run, facts.candidate.hash.as_str());
    let mut audit: AuditEvidence = facts.audit;
    let ghost known = audit.deep_view();
    let mut breaking: Vec<String> = audit.breaking_schema_changes.deep_clone();
    put_all(&mut breaking, facts.contract_breaks);
    audit.breaking_schema_changes = breaking;
    assert(audit.deep_view() == (AuditEvidenceView {
        breaking_schema_changes: audit.deep_view().breaking_schema_changes,
        ..known
    }));
    let expected_target_hash: Option<String> = match &audit.audited_base_hash {
        Some(hash) => Some(hash.clone()),
        None => match &facts.environment {
            Some(setup) => if same(setup.candidate.name.as_str(), candidate) && same(
                setup.base.name.as_str(),
                to,
            ) {
                match &setup.created_from {
                    Some(base) => Some(base.hash.clone()),
                    None => None,
                }
            } else {
                None
            },
            None => None,
        },
    };
    let input: GateInput = GateInput {
        run: facts.run.deep_clone(),
        model_runs: facts.model_runs,
        test_runs: facts.test_runs,
        require_diff: options.require_diff,
        diff_passed: audit.diff_passed,
        diff_rejected: audit.diff_rejected.deep_clone(),
        breaking_schema_changes: audit.breaking_schema_changes.deep_clone(),
        allow_breaking_schema: options.allow_breaking_schema,
        expected_target_hash: expected_target_hash.deep_clone(),
        actual_target_hash: Some(facts.target.hash.clone()),
        merge_check: facts.merge_check,
    };
    let unaudited: Option<String> = if audit.schema_audited {
        None
    } else {
        Some("no current schema audit of the candidate against the target".to_owned())
    };
    let unknown: Option<String> = match &expected_target_hash {
        Some(_) => None,
        None => Some("the candidate's origin is unknown and no audit recorded a base".to_owned()),
    };
    assert(input.deep_view() == gate_input(given, candidate@, to@, *options));
    let gates: GateReport = hold_gates(&input, unbound, unaudited, unknown);
    proof {
        law_promotions_rest_on_evidence(given, candidate@, to@, *options);
    }
    PromotionEvaluation {
        candidate: facts.candidate,
        target: facts.target,
        run: facts.run,
        audit,
        lineage: facts.lineage,
        environment: facts.environment,
        expected_target_hash,
        gates,
    }
}

/// The catalog to drop once a candidate is promoted: one that is provably owned.
/// An adopted or unmanaged catalog belongs to someone else, and without recorded
/// ownership the name is only a guess.
pub fn catalog_to_drop(environment: &Option<EnvironmentSetup>) -> (r: Option<String>)
    ensures
        r.deep_view() == match environment.deep_view() {
            Some(setup) => if catalog_is_owned(setup) {
                Some(setup.catalog)
            } else {
                None
            },
            None => None,
        },
{
    match environment {
        Some(setup) => if setup.owns_catalog() {
            Some(setup.catalog.clone())
        } else {
            None
        },
        None => None,
    }
}

/// What came of dropping a candidate's catalog.
#[derive(Clone, Debug, PartialEq, Eq)]
pub enum CatalogRemoval {
    /// There was nothing to drop, or it was dropped.
    Clean,
    /// There is no adapter to drop it.
    NoAdapter { catalog: String },
    Failed { catalog: String, message: String },
}

/// The contents of a [`CatalogRemoval`].
pub enum CatalogRemovalView {
    Clean,
    NoAdapter { catalog: Seq<char> },
    Failed { catalog: Seq<char>, message: Seq<char> },
}

impl DeepView for CatalogRemoval {
    type V = CatalogRemovalView;

    open spec fn deep_view(&self) -> CatalogRemovalView {
        match self {
            CatalogRemoval::Clean => CatalogRemovalView::Clean,
            CatalogRemoval::NoAdapter { catalog } => CatalogRemovalView::NoAdapter {
                catalog: catalog@,
            },
            CatalogRemoval::Failed { catalog, message } => CatalogRemovalView::Failed {
                catalog: catalog@,
                message: message@,
            },
        }
    }
}

impl DeepClone for CatalogRemoval {
    fn deep_clone(&self) -> (copy: Self) {
        match self {
            CatalogRemoval::Clean => CatalogRemoval::Clean,
            CatalogRemoval::NoAdapter { catalog } => CatalogRemoval::NoAdapter {
                catalog: catalog.deep_clone(),
            },
            CatalogRemoval::Failed { catalog, message } => CatalogRemoval::Failed {
                catalog: catalog.deep_clone(),
                message: message.deep_clone(),
            },
        }
    }
}

/// What came of deleting a candidate's branch.
#[derive(Clone, Debug, PartialEq, Eq)]
pub enum BranchRemoval {
    Deleted,
    /// It was gone already, which is the goal.
    Missing,
    Failed { message: String },
}

/// The contents of a [`BranchRemoval`].
pub enum BranchRemovalView {
    Deleted,
    Missing,
    Failed { message: Seq<char> },
}

impl DeepView for BranchRemoval {
    type V = BranchRemovalView;

    open spec fn deep_view(&self) -> BranchRemovalView {
        match self {
            BranchRemoval::Deleted => BranchRemovalView::Deleted,
            BranchRemoval::Missing => BranchRemovalView::Missing,
            BranchRemoval::Failed { message } => BranchRemovalView::Failed { message: message@ },
        }
    }
}

impl DeepClone for BranchRemoval {
    fn deep_clone(&self) -> (copy: Self) {
        match self {
            BranchRemoval::Deleted => BranchRemoval::Deleted,
            BranchRemoval::Missing => BranchRemoval::Missing,
            BranchRemoval::Failed { message } => BranchRemoval::Failed {
                message: message.deep_clone(),
            },
        }
    }
}

/// The complaints about a candidate's removal so far.
pub open spec fn removal_failures(
    candidate: Seq<char>,
    catalog: CatalogRemovalView,
    branch: BranchRemovalView,
) -> Seq<Seq<char>> {
    (match catalog {
        CatalogRemovalView::Clean => Seq::empty(),
        CatalogRemovalView::NoAdapter { catalog } => seq![
            "no adapter configured to drop catalog `"@ + catalog + "`"@,
        ],
        CatalogRemovalView::Failed { catalog, message } => seq![
            "drop catalog `"@ + catalog + "`: "@ + message,
        ],
    }) + (match branch {
        BranchRemovalView::Failed { message } => seq![
            "delete branch `"@ + candidate + "`: "@ + message,
        ],
        _ => Seq::empty(),
    })
}

/// The complaints about a candidate's removal. The merge already happened, so a
/// leftover catalog or branch must never be silent. Only where there are none is
/// the provisioning record removed too.
pub fn cleanup_failures(candidate: &str, catalog: &CatalogRemoval, branch: &BranchRemoval) -> (r:
    Vec<String>)
    ensures
        r.deep_view() == removal_failures(candidate@, catalog.deep_view(), branch.deep_view()),
{
    let mut failures: Vec<String> = none_of();
    match catalog {
        CatalogRemoval::Clean => {},
        CatalogRemoval::NoAdapter { catalog } => put(
            &mut failures,
            cat3("no adapter configured to drop catalog `", catalog.as_str(), "`"),
        ),
        CatalogRemoval::Failed { catalog, message } => put(
            &mut failures,
            cat2(cat3("drop catalog `", catalog.as_str(), "`: ").as_str(), message.as_str()),
        ),
    }
    if let BranchRemoval::Failed { message } = branch {
        put(
            &mut failures,
            cat2(cat3("delete branch `", candidate, "`: ").as_str(), message.as_str()),
        );
    }
    assert(failures.deep_view() =~= removal_failures(
        candidate@,
        catalog.deep_view(),
        branch.deep_view(),
    ));
    failures
}

/// The verdict on a candidate's removal, given the complaints so far and what
/// came of removing its provisioning record, which is tried only where there are
/// none.
pub fn cleanup_candidate(failures: Vec<String>, record_error: Option<&str>) -> (r: Result<
    (),
    String,
>)
    ensures
        ({
            let all = if failures@.len() == 0 && record_error is Some {
                seq!["remove environment evidence: "@ + record_error.deep_view()->0]
            } else {
                failures.deep_view()
            };
            if all.len() == 0 {
                r == Ok::<(), String>(())
            } else {
                r matches Err(message) && message@ == join_text(all, "; "@)
            }
        }),
{
    let mut all: Vec<String> = failures;
    assert(failures.deep_view().len() == failures@.len());
    if all.len() == 0 {
        if let Some(message) = record_error {
            put(&mut all, cat2("remove environment evidence: ", message));
            assert(all.deep_view() =~= seq!["remove environment evidence: "@ + message@]);
        }
    }
    let list: &[String] = all.as_slice();
    assert(list.deep_view() =~= all.deep_view());
    assert(all.deep_view().len() == all@.len());
    if list.len() == 0 {
        Ok(())
    } else {
        Err(join(list, "; "))
    }
}

/// The reference to look up so as to bind a run to its environment's post-run
/// head: only a run that passed, under an environment, is bound. An unbound run
/// cannot later promote.
pub fn reference_to_bind(result: &RunResult) -> (r: Option<String>)
    ensures
        r.deep_view() == (if result.status == ExecutionStatus::Passed {
            result.deep_view().environment
        } else {
            None
        }),
{
    if result.status == ExecutionStatus::Passed {
        result.environment.deep_clone()
    } else {
        None
    }
}

/// The run that matches an id or prefix, given every run that does.
pub open spec fn unique_run(matches: Seq<RunSummaryView>, id_or_prefix: Seq<char>) -> Result<
    RunSummaryView,
    EngineErrorView,
> {
    if matches.len() == 1 {
        Ok(matches[0])
    } else if matches.len() == 0 {
        Err(EngineErrorView::NotFound("no run matches `"@ + id_or_prefix + "`"@))
    } else {
        Err(
            EngineErrorView::Ambiguous(
                "`"@ + id_or_prefix + "` matches "@ + decimal_text(matches.len())
                    + " runs — give a longer prefix"@,
            ),
        )
    }
}

/// The only run among those that match an id or prefix.
pub fn pick_unique_run(matches: &Vec<RunSummary>, id_or_prefix: &str) -> (r: Result<
    RunSummary,
    EngineError,
>)
    ensures
        match unique_run(matches.deep_view(), id_or_prefix@) {
            Ok(run) => r matches Ok(x) && x.deep_view() == run,
            Err(error) => r matches Err(e) && e.deep_view() == error,
        },
{
    assert(matches.deep_view().len() == matches@.len());
    if matches.len() == 1 {
        assert(matches.deep_view()[0] == matches@[0].deep_view());
        Ok(matches[0].deep_clone())
    } else if matches.len() == 0 {
        Err(EngineError::NotFound(cat3("no run matches `", id_or_prefix, "`")))
    } else {
        Err(
            EngineError::Ambiguous(
                cat5(
                    "`",
                    id_or_prefix,
                    "` matches ",
                    decimal_usize(matches.len()).as_str(),
                    " runs — give a longer prefix",
                ),
            ),
        )
    }
}

} // verus!
