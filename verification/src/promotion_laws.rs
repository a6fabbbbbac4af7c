//! What promotions promise: when one is done, what it asks of the server, what
//! its record says, and what an evaluation authorises.

use vstd::prelude::*;

use crate::error::EngineErrorView;
use crate::gate_laws::{
    law_sound_evidence_passes, merges_cleanly, no_test_failed, nothing_held_up, ran_well,
};
use crate::nessie::ReferenceInfoView;
use crate::promotion::{
    authorised_request, evaluation, evidence_base, full_audit, gate_input,
    law_promotions_rest_on_evidence, promoted, promotion_action, removal_failures, unique_run,
    BranchRemovalView, CatalogRemovalView, MergeServer, PromotionActionView, PromotionFactsView,
    PromotionOptions, PromotionRequestView, PromotionStampView, PromotionView,
};
use crate::state::RunSummaryView;

verus! {

/// Whether a request may be looked at: its quality was shown, a diff that it
/// requires passed, and its breaking changes are absent or waived.
pub open spec fn may_go_on(request: PromotionRequestView) -> bool {
    &&& request.quality_gates_passed
    &&& request.require_diff ==> request.diff_passed == Some(true)
    &&& request.allow_breaking_schema || request.breaking_schema_changes.len() == 0
}

/// Whether a reference is at the commit that is expected of it, where one is.
pub open spec fn at_commit(expected: Option<Seq<char>>, found: ReferenceInfoView) -> bool {
    match expected {
        Some(hash) => hash == found.hash,
        None => true,
    }
}

/// A promotion is done exactly where the request may go on, both references
/// are there, each at the commit expected of it, and the merge was clean; it
/// is refused everywhere else.
pub proof fn law_promotions_are_done_on_sound_requests(
    request: PromotionRequestView,
    stamp: PromotionStampView,
    server: MergeServer,
)
    ensures
        promoted(request, stamp, server, 3) is Done <==> {
            &&& may_go_on(request)
            &&& server.candidate is Ok && server.candidate->Ok_0 is Some
            &&& server.target is Ok && server.target->Ok_0 is Some
            &&& at_commit(request.candidate_hash, server.candidate->Ok_0->0)
            &&& at_commit(request.expected_target_hash, server.target->Ok_0->0)
            &&& server.merge is Ok && server.merge->Ok_0.conflicts.len() == 0
        },
        !(promoted(request, stamp, server, 3) is Done) ==> promoted(request, stamp, server, 3)
            is Refused,
{
    reveal_with_fuel(promoted, 4);
}

/// The record of a promotion says what was asked, what was found and what the
/// merge left: the candidate and target of the request, the target's commit
/// before and after, and a merge exactly where it was no dry run.
pub proof fn law_records_say_what_was_merged(
    request: PromotionRequestView,
    stamp: PromotionStampView,
    server: MergeServer,
)
    ensures
        promoted(request, stamp, server, 3) matches PromotionView::Done { record } ==> {
            &&& record.promotion_id == stamp.promotion_id
            &&& record.timestamp == stamp.timestamp
            &&& record.candidate_ref == request.candidate_ref
            &&& record.candidate_hash == Some(server.candidate->Ok_0->0.hash)
            &&& record.target_ref == request.target_ref
            &&& record.target_hash_before == server.target->Ok_0->0.hash
            &&& record.target_hash_after == server.merge->Ok_0.hash
            &&& record.plan_id == request.plan_id
            &&& record.run_id == request.run_id
            &&& record.dry_run == request.dry_run
            &&& record.merged != request.dry_run
            &&& record.conflicts.len() == 0
            &&& record.gates == request.gates
            &&& record.actor == request.actor
        },
{
    reveal_with_fuel(promoted, 4);
}

/// A promotion looks its candidate up first and its target second, and then
/// asks for a merge of the one into the other, pinned to the commits looked up
/// and expected; a dry run asks for a check in place of the merge.
pub proof fn law_promotions_ask_in_order(
    request: PromotionRequestView,
    stamp: PromotionStampView,
    server: MergeServer,
)
    requires
        may_go_on(request),
    ensures
        promotion_action(request, promoted(request, stamp, server, 0)) == (
        PromotionActionView::LookUp { reference: request.candidate_ref }),
        server.candidate is Ok && server.candidate->Ok_0 is Some ==> promotion_action(
            request,
            promoted(request, stamp, server, 1),
        ) == (PromotionActionView::LookUp { reference: request.target_ref }),
        ({
            &&& server.candidate is Ok && server.candidate->Ok_0 is Some
            &&& server.target is Ok && server.target->Ok_0 is Some
            &&& at_commit(request.candidate_hash, server.candidate->Ok_0->0)
            &&& at_commit(request.expected_target_hash, server.target->Ok_0->0)
        }) ==> promotion_action(request, promoted(request, stamp, server, 2)) == (
        if request.dry_run {
            PromotionActionView::CheckMerge {
                from: request.candidate_ref,
                into: request.target_ref,
            }
        } else {
            PromotionActionView::Merge {
                from: request.candidate_ref,
                from_hash: server.candidate->Ok_0->0.hash,
                into: request.target_ref,
                into_hash: request.expected_target_hash,
            }
        }),
        promotion_action(request, promoted(request, stamp, server, 3)) is Stop,
{
    reveal_with_fuel(promoted, 4);
}

/// A reference that is not there is not found, whichever of the two it is; a
/// server's own failure, a moved commit and a conflict refuse the promotion.
pub proof fn law_missing_references_are_not_found(
    request: PromotionRequestView,
    stamp: PromotionStampView,
    server: MergeServer,
)
    requires
        may_go_on(request),
    ensures
        promoted(request, stamp, server, 3) matches PromotionView::Refused { error } ==> (error
            is NotFound <==> (server.candidate is Ok && (server.candidate->Ok_0 is None || (
        server.target is Ok && server.target->Ok_0 is None)))) && (error is NotFound || error
            is Promotion),
        (promoted(request, stamp, server, 3) matches PromotionView::Refused { error }
            && server.candidate is Err) ==> promoted(request, stamp, server, 3)
            == (PromotionView::Refused {
            error: EngineErrorView::Promotion(server.candidate->Err_0),
        }),
{
    reveal_with_fuel(promoted, 4);
}

/// A promotion is authorised exactly where the candidate's latest run passed
/// with nothing failed, blocked or cancelled and is bound to the candidate's
/// head, no test of it failed, a current audit inspected the schema and found
/// nothing that breaks, or breaking is waived, a usable diff passed where one
/// is required, the target is where the evidence was established, and a merge
/// check was clean.
pub proof fn law_authorised_promotions_have_sound_evidence(
    facts: PromotionFactsView,
    candidate: Seq<char>,
    to: Seq<char>,
    options: PromotionOptions,
)
    ensures
        evaluation(facts, candidate, to, options).gates.passed <==> {
            let input = gate_input(facts, candidate, to, options);
            &&& ran_well(input)
            &&& no_test_failed(input)
            &&& nothing_held_up(input)
            &&& facts.run matches Some(run) && run.reference_hash == Some(facts.candidate.hash)
            &&& facts.audit.schema_audited
            &&& options.allow_breaking_schema || (facts.audit.breaking_schema_changes.len() == 0
                && facts.contract_breaks.len() == 0)
            &&& options.require_diff ==> facts.audit.diff_rejected is None
                && facts.audit.diff_passed == Some(true)
            &&& evidence_base(facts, candidate, to) == Some(facts.target.hash)
            &&& merges_cleanly(input)
        },
{
    let input = gate_input(facts, candidate, to, options);
    law_promotions_rest_on_evidence(facts, candidate, to, options);
    law_sound_evidence_passes(input);
    assert(full_audit(facts).breaking_schema_changes.len()
        == facts.audit.breaking_schema_changes.len() + facts.contract_breaks.len());
}

/// The evidence that is gathered is the evidence that is judged, and the
/// evaluation hands it on unchanged, with the live breaks beside the audited
/// ones.
pub proof fn law_evaluations_keep_their_evidence(
    facts: PromotionFactsView,
    candidate: Seq<char>,
    to: Seq<char>,
    options: PromotionOptions,
    change: Seq<char>,
)
    ensures
        ({
            let input = gate_input(facts, candidate, to, options);
            let it = evaluation(facts, candidate, to, options);
            &&& input.run == facts.run && it.run == facts.run
            &&& input.model_runs == facts.model_runs
            &&& input.test_runs == facts.test_runs
            &&& input.merge_check == facts.merge_check
            &&& input.actual_target_hash == Some(facts.target.hash)
            &&& it.candidate == facts.candidate
            &&& it.target == facts.target
            &&& it.environment == facts.environment
            &&& it.lineage == facts.lineage
            &&& it.audit.breaking_schema_changes.contains(change) <==> (
            facts.audit.breaking_schema_changes.contains(change)
                || facts.contract_breaks.contains(change))
        }),
{
    let a = facts.audit.breaking_schema_changes;
    let b = facts.contract_breaks;
    if a.contains(change) {
        let k = choose|k: int| 0 <= k < a.len() && a[k] == change;
        assert((a + b)[k] == change);
    }
    if b.contains(change) {
        let k = choose|k: int| 0 <= k < b.len() && b[k] == change;
        assert((a + b)[a.len() + k] == change);
    }
}

/// The base of the evidence is the commit that an audit was bound to; without
/// one it is the commit that the candidate was created from, where that is
/// recorded for this candidate and this target.
pub proof fn law_bases_are_audited_or_recorded(
    facts: PromotionFactsView,
    candidate: Seq<char>,
    to: Seq<char>,
    base: Seq<char>,
)
    ensures
        evidence_base(facts, candidate, to) == Some(base) <==> (facts.audit.audited_base_hash
            == Some(base) || (facts.audit.audited_base_hash is None && facts.environment is Some
            && facts.environment->0.candidate.name == candidate
            && facts.environment->0.base.name == to && facts.environment->0.created_from is Some
            && facts.environment->0.created_from->0.hash == base)),
{
}

/// What an authorised evaluation asks for goes through: its request may go on,
/// is no dry run, and is done where the server still has both references where
/// they were and merges them cleanly; a target that moved in between is
/// refused.
pub proof fn law_authorised_requests_are_merged(
    facts: PromotionFactsView,
    candidate: Seq<char>,
    to: Seq<char>,
    options: PromotionOptions,
    actor: Option<Seq<char>>,
    stamp: PromotionStampView,
    server: MergeServer,
)
    requires
        evaluation(facts, candidate, to, options).gates.passed,
    ensures
        ({
            let request = authorised_request(
                evaluation(facts, candidate, to, options),
                options,
                actor,
            );
            &&& may_go_on(request)
            &&& !request.dry_run
            &&& request.candidate_ref == facts.candidate.name
            &&& request.target_ref == facts.target.name
            &&& request.candidate_hash == Some(facts.candidate.hash)
            &&& request.expected_target_hash == Some(facts.target.hash)
            &&& facts.run matches Some(run) && request.run_id == Some(run.run_id)
                && request.plan_id == Some(run.plan_id)
            &&& request.actor == actor
            &&& request.require_diff == options.require_diff
            &&& request.allow_breaking_schema == options.allow_breaking_schema
            &&& request.gates == evaluation(facts, candidate, to, options).gates.results
            &&& promoted(request, stamp, server, 3) is Done <==> {
                &&& server.candidate is Ok && server.candidate->Ok_0 is Some
                &&& server.target is Ok && server.target->Ok_0 is Some
                &&& server.candidate->Ok_0->0.hash == facts.candidate.hash
                &&& server.target->Ok_0->0.hash == facts.target.hash
                &&& server.merge is Ok && server.merge->Ok_0.conflicts.len() == 0
            }
        }),
{
    law_authorised_promotions_have_sound_evidence(facts, candidate, to, options);
    let request = authorised_request(evaluation(facts, candidate, to, options), options, actor);
    law_promotions_are_done_on_sound_requests(request, stamp, server);
    assert(full_audit(facts).breaking_schema_changes.len()
        == facts.audit.breaking_schema_changes.len() + facts.contract_breaks.len());
}

/// A removal is clean exactly where the catalog is gone or was none's to drop,
/// and the branch is deleted or was gone; each part that is not is named once.
pub proof fn law_leftovers_are_named(
    candidate: Seq<char>,
    catalog: CatalogRemovalView,
    branch: BranchRemovalView,
)
    ensures
        removal_failures(candidate, catalog, branch).len() == (if catalog is Clean {
            0int
        } else {
            1
        }) + (if branch is Failed {
            1int
        } else {
            0
        }),
{
}

/// A run is found by an id or prefix exactly where it alone matches; several
/// matches are ambiguous and none is not found.
pub proof fn law_only_a_single_match_is_found(
    matches: Seq<RunSummaryView>,
    id_or_prefix: Seq<char>,
)
    ensures
        match unique_run(matches, id_or_prefix) {
            Ok(run) => matches.len() == 1 && run == matches[0],
            Err(EngineErrorView::NotFound(_)) => matches.len() == 0,
            Err(EngineErrorView::Ambiguous(_)) => matches.len() > 1,
            Err(_) => false,
        },
{
}

} // verus!
