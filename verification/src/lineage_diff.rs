//! Lineage comparison: what a diff of two lineage graphs is bound to.
//!
//! Two modes. In the first the base graph is compiled from the merge base of a
//! ref and HEAD, and the candidate is the live workspace. The second compares two
//! refs exactly; both trees are checked out and compiled, and the worktree is
//! never involved. The caller checks out, compiles and compares; this module
//! binds the result to the identities it was produced from.

use vstd::prelude::*;

use crate::artifacts::{
    CandidateProvenance, CandidateProvenanceView, LineageDiff, LineageDiffArtifact,
    LineageDiffArtifactView, LineageDiffView, LineageEnvironment, LineageEnvironmentView,
    SCHEMA_VERSION,
};
use crate::audit::ComparisonBase;
use crate::error::{EngineError, EngineErrorView};
use crate::names::{with_name, NameMap};
use crate::nessie::{ReferenceInfo, ReferenceInfoView};
use crate::text::{cat4, head, head_text, same, DeepClone};
use crate::workspace::{Compilation, CompilationView, CompiledModel, CompiledModelView};

verus! {

/// The content-addressed versions of models, by name.
pub open spec fn versions_of(models: Seq<CompiledModelView>) -> Seq<(Seq<char>, Seq<char>)>
    decreases models.len(),
{
    if models.len() == 0 {
        Seq::empty()
    } else {
        with_name(versions_of(models.drop_last()), models.last().id, models.last().version.hash)
    }
}

/// A candidate's provenance with its definitional identity filled in.
pub open spec fn identified(
    compilation: CompilationView,
    provenance: CandidateProvenanceView,
) -> CandidateProvenanceView {
    CandidateProvenanceView {
        lineage_hash: Some(compilation.lineage_hash),
        model_versions: versions_of(compilation.models),
        ..provenance
    }
}

fn model_versions(models: &Vec<CompiledModel>) -> (r: NameMap<String>)
    ensures
        r.deep_view() == versions_of(models.deep_view()),
{
    let ghost views = models.deep_view();
    let mut r: NameMap<String> = NameMap::new();
    assert(views.take(0) =~= Seq::<CompiledModelView>::empty());
    for i in 0..models.len()
        invariant
            views == models.deep_view(),
            r.deep_view() == versions_of(views.take(i as int)),
    {
        assert(views[i as int] == models@[i as int].deep_view());
        assert(views.take(i as int + 1).drop_last() =~= views.take(i as int));
        r.insert(models[i].id.clone(), models[i].version.hash.clone());
    }
    assert(views.take(views.len() as int) =~= views);
    r
}

/// The candidate's definitional identity: the canonical graph's fingerprint (the
/// stale-artifact check promotion can trust) plus each model's content-addressed
/// version as diagnostic context.
pub fn candidate_identity(compilation: &Compilation, provenance: CandidateProvenance) -> (r:
    CandidateProvenance)
    ensures
        r.deep_view() == identified(compilation.deep_view(), provenance.deep_view()),
{
    CandidateProvenance {
        git_ref: provenance.git_ref,
        head: provenance.head,
        dirty: provenance.dirty,
        lineage_hash: Some(compilation.lineage_hash.clone()),
        model_versions: model_versions(&compilation.models),
    }
}

/// What the base of a lineage diff is called.
pub open spec fn base_label(base_kind: Seq<char>, base_ref: Seq<char>, commit: Seq<char>) -> Seq<
    char,
> {
    base_ref + (if base_kind == "merge-base"@ {
        " (merge-base "@
    } else {
        " ("@
    }) + head_text(commit, 12) + ")"@
}

fn label_base(base_kind: &str, base_ref: &str, commit: &str) -> (r: String)
    ensures
        r@ == base_label(base_kind@, base_ref@, commit@),
{
    let short: String = head(commit, 12);
    if same(base_kind, "merge-base") {
        cat4(base_ref, " (merge-base ", short.as_str(), ")")
    } else {
        cat4(base_ref, " (", short.as_str(), ")")
    }
}

/// The Nessie pair that a diff is bound to: the candidate names the branch, the
/// base ref the target, and both must resolve. Unbound, it is advisory.
pub open spec fn binding(
    git_ref: Option<Seq<char>>,
    base_ref: Seq<char>,
    candidate: Option<ReferenceInfoView>,
    target: Option<ReferenceInfoView>,
) -> Option<LineageEnvironmentView> {
    match (git_ref, candidate, target) {
        (Some(candidate_ref), Some(from), Some(into)) => Some(
            LineageEnvironmentView {
                candidate_ref,
                candidate_hash: from.hash,
                target_ref: base_ref,
                target_hash: into.hash,
            },
        ),
        _ => None,
    }
}

/// What a lineage diff is made of, besides the candidate.
pub struct LineageInputs {
    /// The commit the base graph was compiled from.
    pub base_commit: String,
    /// The difference of the two graphs.
    pub diff: LineageDiff,
    /// The candidate and the target as Nessie resolves them, where it does.
    pub candidate_reference: Option<ReferenceInfo>,
    pub target_reference: Option<ReferenceInfo>,
    pub created_at: String,
}

/// The contents of a [`LineageInputs`].
pub struct LineageInputsView {
    pub base_commit: Seq<char>,
    pub diff: LineageDiffView,
    pub candidate_reference: Option<ReferenceInfoView>,
    pub target_reference: Option<ReferenceInfoView>,
    pub created_at: Seq<char>,
}

impl DeepView for LineageInputs {
    type V = LineageInputsView;

    open spec fn deep_view(&self) -> LineageInputsView {
        LineageInputsView {
            base_commit: self.base_commit@,
            diff: self.diff.deep_view(),
            candidate_reference: self.candidate_reference.deep_view(),
            target_reference: self.target_reference.deep_view(),
            created_at: self.created_at@,
        }
    }
}

impl DeepClone for LineageInputs {
    fn deep_clone(&self) -> (copy: Self) {
        LineageInputs {
            base_commit: self.base_commit.deep_clone(),
            diff: self.diff.deep_clone(),
            candidate_reference: self.candidate_reference.deep_clone(),
            target_reference: self.target_reference.deep_clone(),
            created_at: self.created_at.deep_clone(),
        }
    }
}

/// The artifact of a lineage diff.
pub open spec fn lineage_artifact(
    base_kind: Seq<char>,
    base_ref: Seq<char>,
    candidate: CandidateProvenanceView,
    inputs: LineageInputsView,
) -> LineageDiffArtifactView {
    LineageDiffArtifactView {
        schema_version: SCHEMA_VERSION,
        base_kind,
        base_ref,
        base_commit: inputs.base_commit,
        candidate,
        environment: binding(
            candidate.git_ref,
            base_ref,
            inputs.candidate_reference,
            inputs.target_reference,
        ),
        created_at: Some(inputs.created_at),
        diff: LineageDiffView {
            base_ref: Some(base_label(base_kind, base_ref, inputs.base_commit)),
            ..inputs.diff
        },
    }
}

fn finish(
    base_kind: &str,
    base_ref: &str,
    candidate: CandidateProvenance,
    inputs: LineageInputs,
) -> (r: LineageDiffArtifact)
    ensures
        r.deep_view() == lineage_artifact(
            base_kind@,
            base_ref@,
            candidate.deep_view(),
            inputs.deep_view(),
        ),
{
    let label: String = label_base(base_kind, base_ref, inputs.base_commit.as_str());
    let environment: Option<LineageEnvironment> = match (
        &candidate.git_ref,
        &inputs.candidate_reference,
        &inputs.target_reference,
    ) {
        (Some(candidate_ref), Some(from), Some(into)) => Some(
            LineageEnvironment {
                candidate_ref: candidate_ref.clone(),
                candidate_hash: from.hash.clone(),
                target_ref: base_ref.to_owned(),
                target_hash: into.hash.clone(),
            },
        ),
        _ => None,
    };
    LineageDiffArtifact {
        schema_version: SCHEMA_VERSION,
        base_kind: base_kind.to_owned(),
        base_ref: base_ref.to_owned(),
        base_commit: inputs.base_commit,
        candidate,
        environment,
        created_at: Some(inputs.created_at),
        diff: LineageDiff {
            base_ref: Some(label),
            change_count: inputs.diff.change_count,
            changes: inputs.diff.changes,
        },
    }
}

/// What a lineage diff needs that a bare comparison of graphs does not carry.
pub struct LineageDiffContext {
    /// The live-workspace compilation: the candidate of a worktree diff. Unused
    /// for a diff of two refs.
    pub workspace: Option<Compilation>,
    /// The environment label the candidate side represents: the Nessie branch the
    /// worktree is for. Unused for a diff of two refs, where the candidate ref
    /// itself names the branch.
    pub candidate_env: Option<String>,
}

/// The contents of a [`LineageDiffContext`].
pub struct LineageDiffContextView {
    pub workspace: Option<CompilationView>,
    pub candidate_env: Option<Seq<char>>,
}

impl DeepView for LineageDiffContext {
    type V = LineageDiffContextView;

    open spec fn deep_view(&self) -> LineageDiffContextView {
        LineageDiffContextView {
            workspace: self.workspace.deep_view(),
            candidate_env: self.candidate_env.deep_view(),
        }
    }
}

impl DeepClone for LineageDiffContext {
    fn deep_clone(&self) -> (copy: Self) {
        LineageDiffContext {
            workspace: self.workspace.deep_clone(),
            candidate_env: self.candidate_env.deep_clone(),
        }
    }
}

impl LineageDiffContext {
    /// The diff of the worktree against its merge base with `base_ref`.
    pub fn diff_vs_ref(&self, base_ref: &str, comparison: &ComparisonBase, inputs: LineageInputs)
        -> (r: Result<LineageDiffArtifact, EngineError>)
        ensures
            match self.deep_view().workspace {
                None => r matches Err(e) && e.deep_view() == EngineErrorView::Git(
                    "a workspace-vs-ref lineage diff needs the live compilation"@,
                ),
                Some(workspace) => r matches Ok(artifact) && artifact.deep_view()
                    == lineage_artifact(
                    "merge-base"@,
                    base_ref@,
                    identified(
                        workspace,
                        (CandidateProvenanceView {
                            git_ref: self.deep_view().candidate_env,
                            head: comparison.deep_view().head,
                            dirty: comparison.dirty,
                            lineage_hash: None,
                            model_versions: Seq::empty(),
                        }),
                    ),
                    inputs.deep_view(),
                ),
            },
    {
        match &self.workspace {
            None => Err(
                EngineError::Git(
                    "a workspace-vs-ref lineage diff needs the live compilation".to_owned(),
                ),
            ),
            Some(workspace) => {
                let provenance: CandidateProvenance = CandidateProvenance {
                    git_ref: self.candidate_env.deep_clone(),
                    head: comparison.head.deep_clone(),
                    dirty: comparison.dirty,
                    lineage_hash: None,
                    model_versions: NameMap::new(),
                };
                let candidate: CandidateProvenance = candidate_identity(workspace, provenance);
                Ok(finish("merge-base", base_ref, candidate, inputs))
            },
        }
    }

    /// The diff of two refs; the worktree is never consulted.
    pub fn diff_ref_vs_ref(
        &self,
        base_ref: &str,
        candidate_ref: &str,
        candidate_commit: &str,
        compilation: &Compilation,
        inputs: LineageInputs,
    ) -> (r: LineageDiffArtifact)
        ensures
            r.deep_view() == lineage_artifact(
                "ref"@,
                base_ref@,
                identified(
                    compilation.deep_view(),
                    (CandidateProvenanceView {
                        git_ref: Some(candidate_ref@),
                        head: Some(candidate_commit@),
                        dirty: false,
                        lineage_hash: None,
                        model_versions: Seq::empty(),
                    }),
                ),
                inputs.deep_view(),
            ),
    {
        let provenance: CandidateProvenance = CandidateProvenance {
            git_ref: Some(candidate_ref.to_owned()),
            head: Some(candidate_commit.to_owned()),
            dirty: false,
            lineage_hash: None,
            model_versions: NameMap::new(),
        };
        let candidate: CandidateProvenance = candidate_identity(compilation, provenance);
        finish("ref", base_ref, candidate, inputs)
    }
}

/// The failure to compile a checked-out tree, named after the ref the tree came
/// from.
pub fn relabel(error: EngineError, label: &str) -> (r: EngineError)
    ensures
        r.deep_view() == match error.deep_view() {
            EngineErrorView::FailedDiagnostics { problem, diagnostics, .. } =>
            EngineErrorView::FailedDiagnostics { label: label@, problem, diagnostics },
            other => other,
        },
{
    match error {
        EngineError::FailedDiagnostics { label: old_label, problem, diagnostics } =>
        EngineError::FailedDiagnostics { label: label.to_owned(), problem, diagnostics },
        other => other,
    }
}

} // verus!
