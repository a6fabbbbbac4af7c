//! What the audit of evidence promises: which report still applies, what it
//! proves, and which evidence speaks.

use vstd::prelude::*;

use crate::audit::{
    audit_of, break_of, break_text, breaking_column, breaking_columns, breaks_of_model,
    commit_reasons, compared_to_itself, dataset_reasons, full_diff_command, is_covered,
    model_changes, pair_position, reading_reasons, records_of, report_audit, stale_reasons, ticked,
    uncovered_reason, uncovered_reasons, version_now, AuditContextView, BranchDiffLookupView,
};
use crate::branch_diff::{
    names_in, BranchDiffReportView, DatasetDiffView, DatasetKind, SideRecordsView,
};
use crate::contracts::{ContractChangeView, ContractSafety};
use crate::diff::SchemaChangeView;
use crate::names::named;
use crate::seqs::{gather, lemma_gather_member};
use crate::state::{EvidenceRecordView, MaterializedRecordView};
use crate::workspace::CompiledModelView;

verus! {

/// Whether a report was made at the commit being promoted, where one is given.
pub open spec fn at_commit(recorded: Option<Seq<char>>, now: Option<Seq<char>>) -> bool {
    now is Some ==> recorded == now
}

/// Whether every version that a report compared on a side is still on record
/// there.
pub open spec fn unmoved(
    datasets: Seq<DatasetDiffView>,
    candidate: SideRecordsView,
    base: SideRecordsView,
) -> bool {
    forall|i: int|
        0 <= i < datasets.len() ==> version_now(candidate, #[trigger] datasets[i])
            == datasets[i].candidate_version && version_now(base, datasets[i])
            == datasets[i].base_version
}

/// Whether a report compared every model and seed that a side has on record.
pub open spec fn covers(datasets: Seq<DatasetDiffView>, side: SideRecordsView) -> bool {
    &&& forall|i: int|
        0 <= i < side.models.len() ==> is_covered(
            datasets,
            (#[trigger] side.models[i]).0,
            DatasetKind::Model,
        )
    &&& forall|i: int|
        0 <= i < side.seeds.len() ==> is_covered(
            datasets,
            (#[trigger] side.seeds[i]).0,
            DatasetKind::Seed,
        )
}

/// Whether a report of the right pair still applies: it was made at the commits
/// being promoted, both sides can be read, nothing it compared has moved, it
/// compared everything on record, and it compared no relation to itself.
pub open spec fn still_applies(report: BranchDiffReportView, context: AuditContextView) -> bool {
    &&& at_commit(report.candidate_hash, context.candidate_hash)
    &&& at_commit(report.base_hash, context.base_hash)
    &&& context.candidate_side is Records
    &&& context.base_side is Records
    &&& unmoved(
        report.datasets,
        records_of(context.candidate_side),
        records_of(context.base_side),
    )
    &&& covers(report.datasets, records_of(context.candidate_side))
    &&& covers(report.datasets, records_of(context.base_side))
    &&& forall|i: int|
        0 <= i < report.diffs.len() ==> (#[trigger] report.diffs[i]).candidate_relation
            != report.diffs[i].base_relation
}

proof fn lemma_gather_empty<A, B>(items: Seq<A>, f: spec_fn(A) -> Seq<B>)
    ensures
        gather(items, f).len() == 0 <==> forall|i: int|
            0 <= i < items.len() ==> f(#[trigger] items[i]).len() == 0,
    decreases items.len(),
{
    if items.len() > 0 {
        let rest = items.drop_last();
        lemma_gather_empty(rest, f);
        assert forall|i: int| 0 <= i < rest.len() implies #[trigger] rest[i] == items[i] by {}
        if gather(items, f).len() == 0 {
            assert forall|i: int| 0 <= i < items.len() implies f(#[trigger] items[i]).len()
                == 0 by {
                if i < rest.len() {
                    assert(f(rest[i]).len() == 0);
                }
            }
        }
        if forall|i: int| 0 <= i < items.len() ==> f(#[trigger] items[i]).len() == 0 {
            assert forall|i: int| 0 <= i < rest.len() implies f(#[trigger] rest[i]).len()
                == 0 by {
                assert(f(items[i]).len() == 0);
            }
            assert(f(items[items.len() - 1]).len() == 0);
        }
    }
}

proof fn lemma_uncovered(
    datasets: Seq<DatasetDiffView>,
    side: SideRecordsView,
    place: Seq<char>,
)
    ensures
        uncovered_reasons(datasets, side, place).len() == 0 <==> covers(datasets, side),
{
    let models = names_in(side.models);
    let seeds = names_in(side.seeds);
    let f = uncovered_reason(datasets, DatasetKind::Model, place);
    let g = uncovered_reason(datasets, DatasetKind::Seed, place);
    lemma_gather_empty(models, f);
    lemma_gather_empty(seeds, g);
    if covers(datasets, side) {
        assert forall|i: int| 0 <= i < models.len() implies f(#[trigger] models[i]).len() == 0 by {
            assert(models[i] == side.models[i].0);
        }
        assert forall|i: int| 0 <= i < seeds.len() implies g(#[trigger] seeds[i]).len() == 0 by {
            assert(seeds[i] == side.seeds[i].0);
        }
    }
    if uncovered_reasons(datasets, side, place).len() == 0 {
        assert forall|i: int| 0 <= i < side.models.len() implies is_covered(
            datasets,
            (#[trigger] side.models[i]).0,
            DatasetKind::Model,
        ) by {
            assert(f(models[i]).len() == 0);
        }
        assert forall|i: int| 0 <= i < side.seeds.len() implies is_covered(
            datasets,
            (#[trigger] side.seeds[i]).0,
            DatasetKind::Seed,
        ) by {
            assert(g(seeds[i]).len() == 0);
        }
    }
}

proof fn lemma_unmoved(
    datasets: Seq<DatasetDiffView>,
    candidate: SideRecordsView,
    base: SideRecordsView,
    place: Seq<char>,
)
    ensures
        gather(datasets, dataset_reasons(candidate, base, place)).len() == 0 <==> unmoved(
            datasets,
            candidate,
            base,
        ),
{
    let f = dataset_reasons(candidate, base, place);
    lemma_gather_empty(datasets, f);
    assert forall|i: int| 0 <= i < datasets.len() implies (f(#[trigger] datasets[i]).len() == 0
        <==> version_now(candidate, datasets[i]) == datasets[i].candidate_version && version_now(
        base,
        datasets[i],
    ) == datasets[i].base_version) by {}
}

/// There is no reason to call a report stale exactly where it still applies.
pub proof fn law_reports_are_stale_where_something_moved(
    report: BranchDiffReportView,
    context: AuditContextView,
)
    ensures
        stale_reasons(report, context).len() == 0 <==> still_applies(report, context),
{
    let command = full_diff_command(context.candidate, context.to);
    let candidate = records_of(context.candidate_side);
    let base = records_of(context.base_side);
    lemma_unmoved(report.datasets, candidate, base, ticked(context.to));
    lemma_uncovered(report.datasets, candidate, "the candidate"@);
    lemma_uncovered(report.datasets, base, ticked(context.to));
    let a = commit_reasons("candidate"@, report.candidate_hash, context.candidate_hash, command);
    let b = commit_reasons("base"@, report.base_hash, context.base_hash, command);
    assert(a.len() == 0 <==> at_commit(report.candidate_hash, context.candidate_hash));
    assert(b.len() == 0 <==> at_commit(report.base_hash, context.base_hash));
    let c = reading_reasons(context.candidate_side);
    let d = reading_reasons(context.base_side);
    assert(c.len() == 0 <==> context.candidate_side is Records);
    assert(d.len() == 0 <==> context.base_side is Records);
    assert(!compared_to_itself(report.diffs) <==> forall|i: int|
        0 <= i < report.diffs.len() ==> (#[trigger] report.diffs[i]).candidate_relation
            != report.diffs[i].base_relation);
}

/// A report proves something exactly where it covers this pair and still
/// applies: it is then a schema audit. Its verdict counts where it also
/// compared values; it then says whether the diff passed.
pub proof fn law_current_reports_are_evidence(
    report: BranchDiffReportView,
    evidence_id: Option<Seq<char>>,
    context: AuditContextView,
)
    ensures
        ({
            let audit = report_audit(report, evidence_id, context);
            let pair = report.candidate_ref == context.candidate && report.base_ref == context.to;
            let valued = report.deep || report.diffs.len() > 0;
            &&& audit.schema_audited <==> pair && still_applies(report, context)
            &&& audit.diff_rejected is None <==> pair && still_applies(report, context) && valued
            &&& audit.diff_passed == Some(true) <==> pair && valued && report.passed
            &&& audit.diff_passed == Some(false) <==> pair && valued && !report.passed
            &&& audit.audited_base_hash == (if pair {
                report.base_hash
            } else {
                None
            })
            &&& !pair ==> audit.breaking_schema_changes.len() == 0
            &&& audit.diff_evidence_id == evidence_id
        }),
{
    law_reports_are_stale_where_something_moved(report, context);
}

/// Without a readable report nothing is proved, and all but the plain absence
/// of one is a rejection.
pub proof fn law_without_a_report_nothing_is_proved(
    lookup: BranchDiffLookupView,
    context: AuditContextView,
    has_model_diff: bool,
)
    requires
        !(lookup is Found),
    ensures
        ({
            let audit = audit_of(lookup, context, has_model_diff);
            &&& !audit.schema_audited
            &&& audit.diff_passed is None
            &&& audit.breaking_schema_changes.len() == 0
            &&& audit.audited_base_hash is None
            &&& audit.diff_evidence_id is None
            &&& audit.diff_rejected is None <==> lookup is Missing && !has_model_diff
        }),
{
}

/// Whether a change of a column breaks what reads it.
pub open spec fn breaks_readers(change: SchemaChangeView) -> bool {
    change.safety == "error"@ || change.safety == "full_rebuild_required"@
}

/// An audit lists exactly the column changes that break, each by its model,
/// column and detail.
pub proof fn law_breaking_columns_are_listed(
    report: BranchDiffReportView,
    evidence_id: Option<Seq<char>>,
    context: AuditContextView,
    text: Seq<char>,
)
    requires
        report.candidate_ref == context.candidate,
        report.base_ref == context.to,
    ensures
        report_audit(report, evidence_id, context).breaking_schema_changes.contains(text)
            <==> exists|i: int, j: int|
            0 <= i < report.schema_changes.len() && 0 <= j
                < report.schema_changes[i].changes.len() && breaks_readers(
                #[trigger] report.schema_changes[i].changes[j],
            ) && text == report.schema_changes[i].model + "."@
                + report.schema_changes[i].changes[j].column + ": "@
                + report.schema_changes[i].changes[j].detail,
{
    let models = report.schema_changes;
    let f = breaking_columns();
    lemma_gather_member(models, f, text);
    if gather(models, f).contains(text) {
        let i = choose|i: int| 0 <= i < models.len() && f(#[trigger] models[i]).contains(text);
        let g = breaking_column(models[i].model);
        let changes = models[i].changes;
        lemma_gather_member(changes, g, text);
        let j = choose|j: int| 0 <= j < changes.len() && g(#[trigger] changes[j]).contains(text);
        assert(breaks_readers(models[i].changes[j]));
    }
    if exists|i: int, j: int|
        0 <= i < models.len() && 0 <= j < models[i].changes.len() && breaks_readers(
            #[trigger] models[i].changes[j],
        ) && text == models[i].model + "."@ + models[i].changes[j].column + ": "@
            + models[i].changes[j].detail {
        let (i, j) = choose|i: int, j: int|
            0 <= i < models.len() && 0 <= j < models[i].changes.len() && breaks_readers(
                #[trigger] models[i].changes[j],
            ) && text == models[i].model + "."@ + models[i].changes[j].column + ": "@
                + models[i].changes[j].detail;
        let g = breaking_column(models[i].model);
        let changes = models[i].changes;
        assert(g(changes[j])[0] == text);
        assert(g(changes[j]).contains(text));
        lemma_gather_member(changes, g, text);
        assert(f(models[i]).contains(text));
    }
}

/// The live breaks are exactly the breaking changes of the workspace's models
/// against what the target recorded of each.
pub proof fn law_live_breaks_are_breaking_changes(
    base: Seq<(Seq<char>, MaterializedRecordView)>,
    models: Seq<CompiledModelView>,
    text: Seq<char>,
)
    ensures
        gather(models, breaks_of_model(base)).contains(text) <==> exists|
            i: int,
            change: ContractChangeView,
        |
            0 <= i < models.len() && #[trigger] model_changes(
                models[i],
                named(base, models[i].id),
            ).contains(change) && change.safety == ContractSafety::Breaking && text == break_text(
                models[i].id,
                change,
            ),
{
    let f = breaks_of_model(base);
    lemma_gather_member(models, f, text);
    if gather(models, f).contains(text) {
        let i = choose|i: int| 0 <= i < models.len() && f(#[trigger] models[i]).contains(text);
        let g = break_of(models[i].id);
        let changes = model_changes(models[i], named(base, models[i].id));
        lemma_gather_member(changes, g, text);
        let j = choose|j: int| 0 <= j < changes.len() && g(#[trigger] changes[j]).contains(text);
        let change = changes[j];
        assert(changes.contains(change));
        assert(model_changes(models[i], named(base, models[i].id)).contains(change));
    }
    if exists|i: int, change: ContractChangeView|
        0 <= i < models.len() && #[trigger] model_changes(
            models[i],
            named(base, models[i].id),
        ).contains(change) && change.safety == ContractSafety::Breaking && text == break_text(
            models[i].id,
            change,
        ) {
        let (i, change) = choose|i: int, change: ContractChangeView|
            0 <= i < models.len() && #[trigger] model_changes(
                models[i],
                named(base, models[i].id),
            ).contains(change) && change.safety == ContractSafety::Breaking && text == break_text(
                models[i].id,
                change,
            );
        let g = break_of(models[i].id);
        let changes = model_changes(models[i], named(base, models[i].id));
        let j = choose|j: int| 0 <= j < changes.len() && changes[j] == change;
        assert(g(changes[j])[0] == text);
        assert(g(changes[j]).contains(text));
        lemma_gather_member(changes, g, text);
        assert(f(models[i]).contains(text));
    }
}

/// The record for a pair is the first one, the newest, against its target.
pub proof fn law_the_first_record_of_a_pair_is_found(
    records: Seq<EvidenceRecordView>,
    to: Seq<char>,
)
    ensures
        match pair_position(records, to) {
            Some(i) => 0 <= i < records.len() && records[i].target_ref == to && forall|j: int|
                0 <= j < i ==> (#[trigger] records[j]).target_ref != to,
            None => forall|j: int|
                0 <= j < records.len() ==> (#[trigger] records[j]).target_ref != to,
        },
    decreases records.len(),
{
    if records.len() > 0 {
        let rest = records.drop_last();
        law_the_first_record_of_a_pair_is_found(rest, to);
        assert forall|j: int| 0 <= j < rest.len() implies #[trigger] records[j] == rest[j] by {}
    }
}

} // verus!
