//! Versioned execution artifacts written under `.phlo/transform/`.
//!
//! Artifacts are stable interfaces, not a dump of internal structs. This
//! module decides what each file holds and where it goes; the caller writes it.

use vstd::prelude::*;

use crate::branch_diff::{BranchDiffReport, BranchDiffReportView};
use crate::diff::{DiffReport, DiffReportView};
use crate::environment::{EnvironmentSetup, EnvironmentSetupView};
use crate::names::NameMap;
use crate::plan::{Plan, PlanView};
use crate::promotion::{PromotionRecord, PromotionRecordView};
use crate::run::{RunResult, RunResultView};
use crate::text::{cat2, cat3, chars_of, DeepClone};

verus! {

/// Current artifact schema version.
///
/// Version 3 records execution resilience in `run.json`: per-status counts,
/// per-attempt records, structured failures with stable categories,
/// `cached`/`blocked`/`cancelled` statuses, and `continued_from` for
/// resumed/retried runs.
///
/// Version 2 replaces the per-model column list in `lineage.json` with the
/// canonical lineage graph document and adds `openlineage.json`.
pub const SCHEMA_VERSION: u32 = 3;

/// What a compiled workspace reports of itself; each part but the root is a
/// JSON document.
#[derive(Clone, Debug, PartialEq, Eq)]
pub struct ProjectReport {
    pub workspace_root: String,
    pub roots: String,
    pub models: String,
    pub sources: String,
    pub tests: String,
    pub graph: String,
    pub lineage: String,
    pub openlineage: String,
}

/// The contents of a [`ProjectReport`].
pub struct ProjectReportView {
    pub workspace_root: Seq<char>,
    pub roots: Seq<char>,
    pub models: Seq<char>,
    pub sources: Seq<char>,
    pub tests: Seq<char>,
    pub graph: Seq<char>,
    pub lineage: Seq<char>,
    pub openlineage: Seq<char>,
}

impl DeepView for ProjectReport {
    type V = ProjectReportView;

    open spec fn deep_view(&self) -> ProjectReportView {
        ProjectReportView {
            workspace_root: self.workspace_root@,
            roots: self.roots@,
            models: self.models@,
            sources: self.sources@,
            tests: self.tests@,
            graph: self.graph@,
            lineage: self.lineage@,
            openlineage: self.openlineage@,
        }
    }
}

impl DeepClone for ProjectReport {
    fn deep_clone(&self) -> (copy: Self) {
        ProjectReport {
            workspace_root: self.workspace_root.deep_clone(),
            roots: self.roots.deep_clone(),
            models: self.models.deep_clone(),
            sources: self.sources.deep_clone(),
            tests: self.tests.deep_clone(),
            graph: self.graph.deep_clone(),
            lineage: self.lineage.deep_clone(),
            openlineage: self.openlineage.deep_clone(),
        }
    }
}

/// The workspace manifest.
#[derive(Clone, Debug, PartialEq, Eq)]
pub struct ManifestArtifact {
    pub schema_version: u32,
    pub workspace_root: String,
    pub generated_at: String,
    pub roots: String,
    pub models: String,
    pub sources: String,
    pub tests: String,
}

/// The contents of a [`ManifestArtifact`].
pub struct ManifestArtifactView {
    pub schema_version: u32,
    pub workspace_root: Seq<char>,
    pub generated_at: Seq<char>,
    pub roots: Seq<char>,
    pub models: Seq<char>,
    pub sources: Seq<char>,
    pub tests: Seq<char>,
}

impl DeepView for ManifestArtifact {
    type V = ManifestArtifactView;

    open spec fn deep_view(&self) -> ManifestArtifactView {
        ManifestArtifactView {
            schema_version: self.schema_version,
            workspace_root: self.workspace_root@,
            generated_at: self.generated_at@,
            roots: self.roots@,
            models: self.models@,
            sources: self.sources@,
            tests: self.tests@,
        }
    }
}

impl DeepClone for ManifestArtifact {
    fn deep_clone(&self) -> (copy: Self) {
        ManifestArtifact {
            schema_version: self.schema_version,
            workspace_root: self.workspace_root.deep_clone(),
            generated_at: self.generated_at.deep_clone(),
            roots: self.roots.deep_clone(),
            models: self.models.deep_clone(),
            sources: self.sources.deep_clone(),
            tests: self.tests.deep_clone(),
        }
    }
}

/// `graph.json`.
#[derive(Clone, Debug, PartialEq, Eq)]
pub struct GraphArtifactFile {
    pub schema_version: u32,
    pub graph: String,
}

/// The contents of a [`GraphArtifactFile`].
pub struct GraphArtifactFileView {
    pub schema_version: u32,
    pub graph: Seq<char>,
}

impl DeepView for GraphArtifactFile {
    type V = GraphArtifactFileView;

    open spec fn deep_view(&self) -> GraphArtifactFileView {
        GraphArtifactFileView {
            schema_version: self.schema_version,
            graph: self.graph@,
        }
    }
}

impl DeepClone for GraphArtifactFile {
    fn deep_clone(&self) -> (copy: Self) {
        GraphArtifactFile {
            schema_version: self.schema_version,
            graph: self.graph.deep_clone(),
        }
    }
}

/// `plan.json`.
pub struct PlanArtifact {
    pub schema_version: u32,
    pub plan: Plan,
}

/// The contents of a [`PlanArtifact`].
pub struct PlanArtifactView {
    pub schema_version: u32,
    pub plan: PlanView,
}

impl DeepView for PlanArtifact {
    type V = PlanArtifactView;

    open spec fn deep_view(&self) -> PlanArtifactView {
        PlanArtifactView {
            schema_version: self.schema_version,
            plan: self.plan.deep_view(),
        }
    }
}

impl DeepClone for PlanArtifact {
    fn deep_clone(&self) -> (copy: Self) {
        PlanArtifact {
            schema_version: self.schema_version,
            plan: self.plan.deep_clone(),
        }
    }
}

/// `run.json`.
pub struct RunArtifact {
    pub schema_version: u32,
    pub run: RunResult,
}

/// The contents of a [`RunArtifact`].
pub struct RunArtifactView {
    pub schema_version: u32,
    pub run: RunResultView,
}

impl DeepView for RunArtifact {
    type V = RunArtifactView;

    open spec fn deep_view(&self) -> RunArtifactView {
        RunArtifactView {
            schema_version: self.schema_version,
            run: self.run.deep_view(),
        }
    }
}

impl DeepClone for RunArtifact {
    fn deep_clone(&self) -> (copy: Self) {
        RunArtifact {
            schema_version: self.schema_version,
            run: self.run.deep_clone(),
        }
    }
}

/// `promotion.json`.
#[derive(Clone, Debug, PartialEq, Eq)]
pub struct PromotionArtifact {
    pub schema_version: u32,
    pub promotion: PromotionRecord,
}

/// The contents of a [`PromotionArtifact`].
pub struct PromotionArtifactView {
    pub schema_version: u32,
    pub promotion: PromotionRecordView,
}

impl DeepView for PromotionArtifact {
    type V = PromotionArtifactView;

    open spec fn deep_view(&self) -> PromotionArtifactView {
        PromotionArtifactView {
            schema_version: self.schema_version,
            promotion: self.promotion.deep_view(),
        }
    }
}

impl DeepClone for PromotionArtifact {
    fn deep_clone(&self) -> (copy: Self) {
        PromotionArtifact {
            schema_version: self.schema_version,
            promotion: self.promotion.deep_clone(),
        }
    }
}

/// `diff.json`.
pub struct DiffArtifact {
    pub schema_version: u32,
    pub diff: DiffReport,
}

/// The contents of a [`DiffArtifact`].
pub struct DiffArtifactView {
    pub schema_version: u32,
    pub diff: DiffReportView,
}

impl DeepView for DiffArtifact {
    type V = DiffArtifactView;

    open spec fn deep_view(&self) -> DiffArtifactView {
        DiffArtifactView {
            schema_version: self.schema_version,
            diff: self.diff.deep_view(),
        }
    }
}

impl DeepClone for DiffArtifact {
    fn deep_clone(&self) -> (copy: Self) {
        DiffArtifact {
            schema_version: self.schema_version,
            diff: self.diff.deep_clone(),
        }
    }
}

/// `branch_diff.json`.
pub struct BranchDiffArtifact {
    pub schema_version: u32,
    pub diff: BranchDiffReport,
}

/// The contents of a [`BranchDiffArtifact`].
pub struct BranchDiffArtifactView {
    pub schema_version: u32,
    pub diff: BranchDiffReportView,
}

impl DeepView for BranchDiffArtifact {
    type V = BranchDiffArtifactView;

    open spec fn deep_view(&self) -> BranchDiffArtifactView {
        BranchDiffArtifactView {
            schema_version: self.schema_version,
            diff: self.diff.deep_view(),
        }
    }
}

impl DeepClone for BranchDiffArtifact {
    fn deep_clone(&self) -> (copy: Self) {
        BranchDiffArtifact {
            schema_version: self.schema_version,
            diff: self.diff.deep_clone(),
        }
    }
}

/// `environment.json`.
#[derive(Clone, Debug, PartialEq, Eq)]
pub struct EnvironmentArtifact {
    pub schema_version: u32,
    pub environment: EnvironmentSetup,
}

/// The contents of a [`EnvironmentArtifact`].
pub struct EnvironmentArtifactView {
    pub schema_version: u32,
    pub environment: EnvironmentSetupView,
}

impl DeepView for EnvironmentArtifact {
    type V = EnvironmentArtifactView;

    open spec fn deep_view(&self) -> EnvironmentArtifactView {
        EnvironmentArtifactView {
            schema_version: self.schema_version,
            environment: self.environment.deep_view(),
        }
    }
}

impl DeepClone for EnvironmentArtifact {
    fn deep_clone(&self) -> (copy: Self) {
        EnvironmentArtifact {
            schema_version: self.schema_version,
            environment: self.environment.deep_clone(),
        }
    }
}

/// The semantic difference of two lineage graphs.
#[derive(Clone, Debug, PartialEq, Eq)]
pub struct LineageDiff {
    /// The base the difference was taken against, for display.
    pub base_ref: Option<String>,
    /// How many changes it reports.
    pub change_count: usize,
    /// The changes themselves, as a JSON document.
    pub changes: String,
}

/// The contents of a [`LineageDiff`].
pub struct LineageDiffView {
    pub base_ref: Option<Seq<char>>,
    pub change_count: usize,
    pub changes: Seq<char>,
}

impl DeepView for LineageDiff {
    type V = LineageDiffView;

    open spec fn deep_view(&self) -> LineageDiffView {
        LineageDiffView {
            base_ref: self.base_ref.deep_view(),
            change_count: self.change_count,
            changes: self.changes@,
        }
    }
}

impl DeepClone for LineageDiff {
    fn deep_clone(&self) -> (copy: Self) {
        LineageDiff {
            base_ref: self.base_ref.deep_clone(),
            change_count: self.change_count,
            changes: self.changes.deep_clone(),
        }
    }
}

/// `lineage_diff.json`: the semantic graph diff between a base ref's compiled
/// lineage and the candidate side's, bound to the identities both sides carried
/// when the diff was produced so that a stale report cannot be silently treated
/// as current.
#[derive(Clone, Debug, PartialEq, Eq)]
pub struct LineageDiffArtifact {
    pub schema_version: u32,
    /// How the base side was chosen: `merge-base` (the branch-change workflow)
    /// or `ref` (an exact comparison of two refs).
    pub base_kind: String,
    /// The git ref the diff was requested against, as given.
    pub base_ref: String,
    /// The commit the base graph was actually compiled from.
    pub base_commit: String,
    /// Candidate-side identity: the git head and worktree state the diff was
    /// produced against.
    pub candidate: CandidateProvenance,
    /// The Nessie branch pair this diff was produced for, when both refs
    /// resolved at diff time. Absent means that promotion can only treat it as
    /// advisory.
    pub environment: Option<LineageEnvironment>,
    /// When the diff was produced, where that was recorded.
    pub created_at: Option<String>,
    pub diff: LineageDiff,
}

/// The contents of a [`LineageDiffArtifact`].
pub struct LineageDiffArtifactView {
    pub schema_version: u32,
    pub base_kind: Seq<char>,
    pub base_ref: Seq<char>,
    pub base_commit: Seq<char>,
    pub candidate: CandidateProvenanceView,
    pub environment: Option<LineageEnvironmentView>,
    pub created_at: Option<Seq<char>>,
    pub diff: LineageDiffView,
}

impl DeepView for LineageDiffArtifact {
    type V = LineageDiffArtifactView;

    open spec fn deep_view(&self) -> LineageDiffArtifactView {
        LineageDiffArtifactView {
            schema_version: self.schema_version,
            base_kind: self.base_kind@,
            base_ref: self.base_ref@,
            base_commit: self.base_commit@,
            candidate: self.candidate.deep_view(),
            environment: self.environment.deep_view(),
            created_at: self.created_at.deep_view(),
            diff: self.diff.deep_view(),
        }
    }
}

impl DeepClone for LineageDiffArtifact {
    fn deep_clone(&self) -> (copy: Self) {
        LineageDiffArtifact {
            schema_version: self.schema_version,
            base_kind: self.base_kind.deep_clone(),
            base_ref: self.base_ref.deep_clone(),
            base_commit: self.base_commit.deep_clone(),
            candidate: self.candidate.deep_clone(),
            environment: self.environment.deep_clone(),
            created_at: self.created_at.deep_clone(),
            diff: self.diff.deep_clone(),
        }
    }
}

/// How the base was chosen in artifacts written before that was recorded: they
/// resolved the ref directly.
pub fn default_base_kind_ref() -> (r: String)
    ensures
        r@ == "ref"@,
{
    "ref".to_owned()
}

/// The candidate side's Git identity when a lineage diff was produced.
#[derive(Clone, Debug, PartialEq, Eq)]
pub struct CandidateProvenance {
    /// The name identifying the candidate, when one was given; `None` for an
    /// anonymous worktree.
    pub git_ref: Option<String>,
    /// HEAD's commit at diff time, or the candidate ref's resolved commit.
    pub head: Option<String>,
    /// Whether the diffed candidate included uncommitted worktree changes.
    pub dirty: bool,
    /// Fingerprint of the candidate's canonical lineage graph: it binds the
    /// artifact to the exact definitions it was produced from, so code edited
    /// after the diff cannot pass as audited.
    pub lineage_hash: Option<String>,
    /// Content-addressed version hashes on the candidate side, by model name.
    pub model_versions: NameMap<String>,
}

/// The contents of a [`CandidateProvenance`].
pub struct CandidateProvenanceView {
    pub git_ref: Option<Seq<char>>,
    pub head: Option<Seq<char>>,
    pub dirty: bool,
    pub lineage_hash: Option<Seq<char>>,
    pub model_versions: Seq<(Seq<char>, Seq<char>)>,
}

impl DeepView for CandidateProvenance {
    type V = CandidateProvenanceView;

    open spec fn deep_view(&self) -> CandidateProvenanceView {
        CandidateProvenanceView {
            git_ref: self.git_ref.deep_view(),
            head: self.head.deep_view(),
            dirty: self.dirty,
            lineage_hash: self.lineage_hash.deep_view(),
            model_versions: self.model_versions.deep_view(),
        }
    }
}

impl DeepClone for CandidateProvenance {
    fn deep_clone(&self) -> (copy: Self) {
        CandidateProvenance {
            git_ref: self.git_ref.deep_clone(),
            head: self.head.deep_clone(),
            dirty: self.dirty,
            lineage_hash: self.lineage_hash.deep_clone(),
            model_versions: self.model_versions.deep_clone(),
        }
    }
}

impl Default for CandidateProvenance {
    fn default() -> (r: Self)
        ensures
            r.deep_view() == (CandidateProvenanceView {
                git_ref: None,
                head: None,
                dirty: false,
                lineage_hash: None,
                model_versions: Seq::empty(),
            }),
    {
        CandidateProvenance {
            git_ref: None,
            head: None,
            dirty: false,
            lineage_hash: None,
            model_versions: NameMap::new(),
        }
    }
}

/// The Nessie branch pair a lineage diff was produced for.
#[derive(Clone, Debug, PartialEq, Eq)]
pub struct LineageEnvironment {
    pub candidate_ref: String,
    pub candidate_hash: String,
    pub target_ref: String,
    pub target_hash: String,
}

/// The contents of a [`LineageEnvironment`].
pub struct LineageEnvironmentView {
    pub candidate_ref: Seq<char>,
    pub candidate_hash: Seq<char>,
    pub target_ref: Seq<char>,
    pub target_hash: Seq<char>,
}

impl DeepView for LineageEnvironment {
    type V = LineageEnvironmentView;

    open spec fn deep_view(&self) -> LineageEnvironmentView {
        LineageEnvironmentView {
            candidate_ref: self.candidate_ref@,
            candidate_hash: self.candidate_hash@,
            target_ref: self.target_ref@,
            target_hash: self.target_hash@,
        }
    }
}

impl DeepClone for LineageEnvironment {
    fn deep_clone(&self) -> (copy: Self) {
        LineageEnvironment {
            candidate_ref: self.candidate_ref.deep_clone(),
            candidate_hash: self.candidate_hash.deep_clone(),
            target_ref: self.target_ref.deep_clone(),
            target_hash: self.target_hash.deep_clone(),
        }
    }
}

/// `lineage.json`: the canonical lineage graph document.
#[derive(Clone, Debug, PartialEq, Eq)]
pub struct LineageArtifact {
    pub schema_version: u32,
    pub graph: String,
}

/// The contents of a [`LineageArtifact`].
pub struct LineageArtifactView {
    pub schema_version: u32,
    pub graph: Seq<char>,
}

impl DeepView for LineageArtifact {
    type V = LineageArtifactView;

    open spec fn deep_view(&self) -> LineageArtifactView {
        LineageArtifactView {
            schema_version: self.schema_version,
            graph: self.graph@,
        }
    }
}

impl DeepClone for LineageArtifact {
    fn deep_clone(&self) -> (copy: Self) {
        LineageArtifact {
            schema_version: self.schema_version,
            graph: self.graph.deep_clone(),
        }
    }
}

/// `openlineage.json`: the same graph exported as an OpenLineage static-lineage
/// document.
#[derive(Clone, Debug, PartialEq, Eq)]
pub struct OpenLineageArtifact {
    pub schema_version: u32,
    pub document: String,
}

/// The contents of a [`OpenLineageArtifact`].
pub struct OpenLineageArtifactView {
    pub schema_version: u32,
    pub document: Seq<char>,
}

impl DeepView for OpenLineageArtifact {
    type V = OpenLineageArtifactView;

    open spec fn deep_view(&self) -> OpenLineageArtifactView {
        OpenLineageArtifactView {
            schema_version: self.schema_version,
            document: self.document@,
        }
    }
}

impl DeepClone for OpenLineageArtifact {
    fn deep_clone(&self) -> (copy: Self) {
        OpenLineageArtifact {
            schema_version: self.schema_version,
            document: self.document.deep_clone(),
        }
    }
}

impl LineageArtifact {
    /// The artifact of a workspace's lineage document.
    pub fn from_compilation(lineage: &str) -> (r: Self)
        ensures
            r.deep_view() == (LineageArtifactView {
                schema_version: SCHEMA_VERSION,
                graph: lineage@,
            }),
    {
        LineageArtifact { schema_version: SCHEMA_VERSION, graph: lineage.to_owned() }
    }
}

/// A path below a directory.
pub open spec fn joined(directory: Seq<char>, name: Seq<char>) -> Seq<char> {
    if directory.len() == 0 {
        name
    } else if directory.last() == '/' {
        directory + name
    } else {
        directory + "/"@ + name
    }
}

/// Joins a path and a relative name.
pub fn join_path(directory: &str, name: &str) -> (r: String)
    ensures
        r@ == joined(directory@, name@),
{
    let chars: Vec<char> = chars_of(directory);
    if chars.len() == 0 {
        name.to_owned()
    } else if chars[chars.len() - 1] == '/' {
        cat2(directory, name)
    } else {
        cat3(directory, "/", name)
    }
}

/// Where a workspace's artifact of a given file name is.
pub open spec fn artifact_file(workspace_root: Seq<char>, name: Seq<char>) -> Seq<char> {
    joined(joined(joined(workspace_root, ".phlo"@), "transform"@), name)
}

/// Where a workspace's artifact of a given file name is.
pub fn artifact_path(workspace_root: &str, name: &str) -> (r: String)
    ensures
        r@ == artifact_file(workspace_root@, name@),
{
    let writer: ArtifactWriter = ArtifactWriter::for_workspace(workspace_root);
    join_path(writer.directory(), name)
}

/// The JSON file of a given name in a directory.
pub open spec fn file_in(directory: Seq<char>, name: Seq<char>) -> Seq<char> {
    joined(directory, name + ".json"@)
}

/// Lays execution artifacts out in a directory.
#[derive(Clone, Debug, PartialEq, Eq)]
pub struct ArtifactWriter {
    pub directory: String,
}

/// The contents of a [`ArtifactWriter`].
pub struct ArtifactWriterView {
    pub directory: Seq<char>,
}

impl DeepView for ArtifactWriter {
    type V = ArtifactWriterView;

    open spec fn deep_view(&self) -> ArtifactWriterView {
        ArtifactWriterView {
            directory: self.directory@,
        }
    }
}

impl DeepClone for ArtifactWriter {
    fn deep_clone(&self) -> (copy: Self) {
        ArtifactWriter {
            directory: self.directory.deep_clone(),
        }
    }
}

/// The files that describe a compiled workspace, each with its path.
pub struct ProjectFiles {
    pub manifest: (String, ManifestArtifact),
    pub graph: (String, GraphArtifactFile),
    pub lineage: (String, LineageArtifact),
    pub openlineage: (String, OpenLineageArtifact),
}

impl ArtifactWriter {
    pub fn new(directory: &str) -> (r: Self)
        ensures
            r.directory@ == directory@,
    {
        ArtifactWriter { directory: directory.to_owned() }
    }

    /// The conventional artifacts directory for a workspace.
    pub fn for_workspace(workspace_root: &str) -> (r: Self)
        ensures
            r.directory@ == joined(joined(workspace_root@, ".phlo"@), "transform"@),
    {
        let hidden: String = join_path(workspace_root, ".phlo");
        ArtifactWriter { directory: join_path(hidden.as_str(), "transform") }
    }

    pub fn directory(&self) -> (r: &str)
        ensures
            r@ == self.directory@,
    {
        self.directory.as_str()
    }

    fn path(&self, name: &str) -> (r: String)
        ensures
            r@ == file_in(self.directory@, name@),
    {
        join_path(self.directory.as_str(), cat2(name, ".json").as_str())
    }

    /// The manifest, `graph.json`, `lineage.json` and `openlineage.json`.
    pub fn write_project(&self, report: &ProjectReport, generated_at: &str) -> (r: ProjectFiles)
        ensures
            r.manifest.0@ == file_in(self.directory@, "manifest"@),
            r.manifest.1.deep_view() == (ManifestArtifactView {
                schema_version: SCHEMA_VERSION,
                workspace_root: report.workspace_root@,
                generated_at: generated_at@,
                roots: report.roots@,
                models: report.models@,
                sources: report.sources@,
                tests: report.tests@,
            }),
            r.graph.0@ == file_in(self.directory@, "graph"@),
            r.graph.1.deep_view() == (GraphArtifactFileView {
                schema_version: SCHEMA_VERSION,
                graph: report.graph@,
            }),
            r.lineage.0@ == file_in(self.directory@, "lineage"@),
            r.lineage.1.deep_view() == (LineageArtifactView {
                schema_version: SCHEMA_VERSION,
                graph: report.lineage@,
            }),
            r.openlineage.0@ == file_in(self.directory@, "openlineage"@),
            r.openlineage.1.deep_view() == (OpenLineageArtifactView {
                schema_version: SCHEMA_VERSION,
                document: report.openlineage@,
            }),
    {
        ProjectFiles {
            manifest: (
                self.path("manifest"),
                ManifestArtifact {
                    schema_version: SCHEMA_VERSION,
                    workspace_root: report.workspace_root.clone(),
                    generated_at: generated_at.to_owned(),
                    roots: report.roots.clone(),
                    models: report.models.clone(),
                    sources: report.sources.clone(),
                    tests: report.tests.clone(),
                },
            ),
            graph: (
                self.path("graph"),
                GraphArtifactFile { schema_version: SCHEMA_VERSION, graph: report.graph.clone() },
            ),
            lineage: (
                self.path("lineage"),
                LineageArtifact::from_compilation(report.lineage.as_str()),
            ),
            openlineage: (
                self.path("openlineage"),
                OpenLineageArtifact {
                    schema_version: SCHEMA_VERSION,
                    document: report.openlineage.clone(),
                },
            ),
        }
    }

    /// `plan.json`.
    pub fn write_plan(&self, plan: &Plan) -> (r: (String, PlanArtifact))
        ensures
            r.0@ == file_in(self.directory@, "plan"@),
            r.1.deep_view() == (PlanArtifactView {
                schema_version: SCHEMA_VERSION,
                plan: plan.deep_view(),
            }),
    {
        (
            self.path("plan"),
            PlanArtifact { schema_version: SCHEMA_VERSION, plan: plan.deep_clone() },
        )
    }

    /// `run.json`.
    pub fn write_run(&self, run: &RunResult) -> (r: (String, RunArtifact))
        ensures
            r.0@ == file_in(self.directory@, "run"@),
            r.1.deep_view() == (RunArtifactView {
                schema_version: SCHEMA_VERSION,
                run: run.deep_view(),
            }),
    {
        (
            self.path("run"),
            RunArtifact { schema_version: SCHEMA_VERSION, run: run.deep_clone() },
        )
    }

    /// `promotion.json`.
    pub fn write_promotion(&self, promotion: &PromotionRecord) -> (r: (String, PromotionArtifact))
        ensures
            r.0@ == file_in(self.directory@, "promotion"@),
            r.1.deep_view() == (PromotionArtifactView {
                schema_version: SCHEMA_VERSION,
                promotion: promotion.deep_view(),
            }),
    {
        (
            self.path("promotion"),
            PromotionArtifact {
                schema_version: SCHEMA_VERSION,
                promotion: promotion.deep_clone(),
            },
        )
    }

    /// `diff.json`.
    pub fn write_diff(&self, diff: &DiffReport) -> (r: (String, DiffArtifact))
        ensures
            r.0@ == file_in(self.directory@, "diff"@),
            r.1.deep_view() == (DiffArtifactView {
                schema_version: SCHEMA_VERSION,
                diff: diff.deep_view(),
            }),
    {
        (
            self.path("diff"),
            DiffArtifact { schema_version: SCHEMA_VERSION, diff: diff.deep_clone() },
        )
    }

    /// `branch_diff.json`.
    pub fn write_branch_diff(&self, diff: &BranchDiffReport) -> (r: (String, BranchDiffArtifact))
        ensures
            r.0@ == file_in(self.directory@, "branch_diff"@),
            r.1.deep_view() == (BranchDiffArtifactView {
                schema_version: SCHEMA_VERSION,
                diff: diff.deep_view(),
            }),
    {
        (
            self.path("branch_diff"),
            BranchDiffArtifact { schema_version: SCHEMA_VERSION, diff: diff.deep_clone() },
        )
    }

    /// `environment.json`.
    pub fn write_environment(&self, environment: &EnvironmentSetup) -> (r: (
        String,
        EnvironmentArtifact,
    ))
        ensures
            r.0@ == file_in(self.directory@, "environment"@),
            r.1.deep_view() == (EnvironmentArtifactView {
                schema_version: SCHEMA_VERSION,
                environment: environment.deep_view(),
            }),
    {
        (
            self.path("environment"),
            EnvironmentArtifact {
                schema_version: SCHEMA_VERSION,
                environment: environment.deep_clone(),
            },
        )
    }

    /// `lineage_diff.json`.
    pub fn write_lineage_diff(&self, artifact: &LineageDiffArtifact) -> (r: (
        String,
        LineageDiffArtifact,
    ))
        ensures
            r.0@ == file_in(self.directory@, "lineage_diff"@),
            r.1.deep_view() == artifact.deep_view(),
    {
        (self.path("lineage_diff"), artifact.deep_clone())
    }
}

} // verus!
