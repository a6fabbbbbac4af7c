//! Environment provisioning: a Nessie branch plus a branch-scoped catalog.
//!
//! For Nessie/Iceberg targets a candidate environment is a Nessie branch.
//! Trino cannot switch the Nessie reference of an existing catalog at query
//! time, so each environment is provisioned as a dynamic catalog pointing at
//! the branch. The caller talks to the Nessie server and to the adapter; what
//! to ask them next, and what their answers come to, is decided here.

use vstd::prelude::*;

use crate::adapter::{CatalogRequest, CatalogRequestView, CatalogStatus, ColumnInfo, ColumnInfoView};
use crate::error::{
    AdapterError, AdapterErrorView, Diagnostic, DiagnosticView, EngineError, EngineErrorView,
};
use crate::names::{with_name, NameMap};
use crate::nessie::{ReferenceInfo, ReferenceInfoView};
use crate::source_state::{
    collect_source_states, or_else, relation_for_source, source_relation, source_states, Places,
    SourceReading,
};
use crate::text::{ascii_lower, cat3, cat5, chars_of, lower, same, text_of, DeepClone};
use crate::util::{sha256_hex, sha256_text};
use crate::workspace::{
    parsed_type, source_text, Compilation, CompilationView, CompiledSeed, DataType, Nullability,
    Relation, SchemaColumn, SchemaColumnView, SourceId, SourceIdView,
};

verus! {

/// A request to ensure an environment exists.
#[derive(Clone, Debug, PartialEq, Eq)]
pub struct EnvironmentSpec {
    pub base_ref: String,
    pub candidate_ref: String,
    /// Nessie API base URI, e.g. `http://nessie:19120`.
    pub nessie_uri: Option<String>,
    /// Iceberg warehouse location for the candidate catalog.
    pub warehouse: Option<String>,
    /// Explicit physical catalog for the candidate. `None` resolves the
    /// recorded binding when one exists, else the generated per-reference
    /// convention.
    pub catalog: Option<String>,
}

/// The contents of a [`EnvironmentSpec`].
pub struct EnvironmentSpecView {
    pub base_ref: Seq<char>,
    pub candidate_ref: Seq<char>,
    pub nessie_uri: Option<Seq<char>>,
    pub warehouse: Option<Seq<char>>,
    pub catalog: Option<Seq<char>>,
}

impl DeepView for EnvironmentSpec {
    type V = EnvironmentSpecView;

    open spec fn deep_view(&self) -> EnvironmentSpecView {
        EnvironmentSpecView {
            base_ref: self.base_ref@,
            candidate_ref: self.candidate_ref@,
            nessie_uri: self.nessie_uri.deep_view(),
            warehouse: self.warehouse.deep_view(),
            catalog: self.catalog.deep_view(),
        }
    }
}

impl DeepClone for EnvironmentSpec {
    fn deep_clone(&self) -> (copy: Self) {
        EnvironmentSpec {
            base_ref: self.base_ref.deep_clone(),
            candidate_ref: self.candidate_ref.deep_clone(),
            nessie_uri: self.nessie_uri.deep_clone(),
            warehouse: self.warehouse.deep_clone(),
            catalog: self.catalog.deep_clone(),
        }
    }
}

/// The provisioned environment.
#[derive(Clone, Debug, PartialEq, Eq)]
pub struct EnvironmentSetup {
    /// The base reference as resolved at provisioning time. It says which ref
    /// `base_ref` named, not what the candidate was cut from.
    pub base: ReferenceInfo,
    pub candidate: ReferenceInfo,
    /// Immutable provenance: the reference (and commit) the candidate branch
    /// was actually created from. Recorded only when provable: when this call
    /// created the branch, or a prior artifact recorded it. `None` for a
    /// pre-existing branch with no recorded origin: promotion never redefines an
    /// existing branch's base as today's target.
    pub created_from: Option<ReferenceInfo>,
    pub created_branch: bool,
    /// The physical catalog the candidate's writes target.
    pub catalog: String,
    /// How the catalog's existence was established.
    pub catalog_status: CatalogStatus,
    /// Whether this tool owns the catalog and may drop it during candidate
    /// cleanup. Ownership is recorded once at provisioning and stays sticky,
    /// while the status reports what the current call could prove.
    pub catalog_owned_by_phlo: Option<bool>,
}

/// The contents of a [`EnvironmentSetup`].
pub struct EnvironmentSetupView {
    pub base: ReferenceInfoView,
    pub candidate: ReferenceInfoView,
    pub created_from: Option<ReferenceInfoView>,
    pub created_branch: bool,
    pub catalog: Seq<char>,
    pub catalog_status: CatalogStatus,
    pub catalog_owned_by_phlo: Option<bool>,
}

impl DeepView for EnvironmentSetup {
    type V = EnvironmentSetupView;

    open spec fn deep_view(&self) -> EnvironmentSetupView {
        EnvironmentSetupView {
            base: self.base.deep_view(),
            candidate: self.candidate.deep_view(),
            created_from: self.created_from.deep_view(),
            created_branch: self.created_branch,
            catalog: self.catalog@,
            catalog_status: self.catalog_status,
            catalog_owned_by_phlo: self.catalog_owned_by_phlo.deep_view(),
        }
    }
}

impl DeepClone for EnvironmentSetup {
    fn deep_clone(&self) -> (copy: Self) {
        EnvironmentSetup {
            base: self.base.deep_clone(),
            candidate: self.candidate.deep_clone(),
            created_from: self.created_from.deep_clone(),
            created_branch: self.created_branch,
            catalog: self.catalog.deep_clone(),
            catalog_status: self.catalog_status,
            catalog_owned_by_phlo: self.catalog_owned_by_phlo.deep_clone(),
        }
    }
}

/// Whether a setup's catalog may be dropped during cleanup.
pub open spec fn catalog_is_owned(setup: EnvironmentSetupView) -> bool {
    match setup.catalog_owned_by_phlo {
        Some(owned) => owned,
        None => setup.catalog_status == CatalogStatus::Created,
    }
}

impl EnvironmentSetup {
    /// Whether the candidate's catalog may be dropped during cleanup. The
    /// recorded flag is authoritative; records written before the flag existed
    /// fall back to the status, the only ownership they could prove.
    pub fn owns_catalog(&self) -> (r: bool)
        ensures
            r == catalog_is_owned(self.deep_view()),
    {
        match self.catalog_owned_by_phlo {
            Some(owned) => owned,
            None => self.catalog_status == CatalogStatus::Created,
        }
    }
}

/// Whether a character is an ASCII letter or digit.
pub open spec fn is_alphanumeric(c: char) -> bool {
    ('a' <= c && c <= 'z') || ('A' <= c && c <= 'Z') || ('0' <= c && c <= '9')
}

pub fn alphanumeric(c: char) -> (r: bool)
    ensures
        r == is_alphanumeric(c),
{
    ('a' <= c && c <= 'z') || ('A' <= c && c <= 'Z') || ('0' <= c && c <= '9')
}

/// A reference's readable form: letters in lower case, each run of other
/// characters folded to one `_`.
pub open spec fn folded(reference: Seq<char>) -> Seq<char>
    decreases reference.len(),
{
    if reference.len() == 0 {
        Seq::empty()
    } else {
        let before = folded(reference.drop_last());
        if is_alphanumeric(reference.last()) {
            before.push(ascii_lower(reference.last()))
        } else if reference.len() > 1 && !is_alphanumeric(reference[reference.len() - 2]) {
            before
        } else {
            before.push('_')
        }
    }
}

/// A text without the underscores it ends in.
pub open spec fn without_trailing(text: Seq<char>) -> Seq<char>
    decreases text.len(),
{
    if text.len() > 0 && text.last() == '_' {
        without_trailing(text.drop_last())
    } else {
        text
    }
}

/// At most the first 48 characters of a text, so that a name stays inside the
/// identifier limits of engines.
pub open spec fn limited(text: Seq<char>) -> Seq<char> {
    if text.len() > 48 {
        text.take(48)
    } else {
        text
    }
}

/// The conventional catalog of a reference.
pub open spec fn conventional_catalog(reference: Seq<char>) -> Seq<char> {
    without_trailing(limited(without_trailing("phlo_"@ + folded(reference)))) + "_"@
        + sha256_text(reference).take(8)
}

/// Where the text ends once the underscores it ends in are left out.
pub fn trim_trailing(chars: &Vec<char>, end: usize) -> (r: usize)
    requires
        end <= chars@.len(),
    ensures
        r <= end,
        chars@.take(r as int) == without_trailing(chars@.take(end as int)),
{
    let mut k: usize = end;
    while k > 0 && chars[k - 1] == '_'
        invariant
            k <= end <= chars@.len(),
            without_trailing(chars@.take(end as int)) == without_trailing(chars@.take(k as int)),
        decreases k,
    {
        assert(chars@.take(k as int).drop_last() =~= chars@.take(k - 1));
        k = k - 1;
    }
    k
}

/// The conventional catalog name for a candidate environment: the readable ref
/// (unsafe characters folded to `_`, truncated) plus the first 8 hex of the
/// ref's SHA-256. The hash is the collision guard: refs that fold identically
/// (`ci/pr-1`, `ci_pr_1`, `ci-pr-1`) must not share one physical catalog. The
/// name is not proof of binding.
pub fn catalog_name(reference: &str) -> (r: String)
    ensures
        r@ == conventional_catalog(reference@),
{
    let given: Vec<char> = chars_of(reference);
    let mut name: Vec<char> = chars_of("phlo_");
    assert(given@.take(0) =~= Seq::<char>::empty());
    assert(name@ =~= "phlo_"@ + folded(given@.take(0)));
    for i in 0..given.len()
        invariant
            given@ == reference@,
            name@ == "phlo_"@ + folded(given@.take(i as int)),
    {
        let ghost grown = given@.take(i as int + 1);
        assert(grown.drop_last() =~= given@.take(i as int));
        if alphanumeric(given[i]) {
            name.push(lower(given[i]));
        } else if i == 0 || alphanumeric(given[i - 1]) {
            name.push('_');
        }
        assert(name@ =~= "phlo_"@ + folded(grown));
    }
    assert(given@.take(given@.len() as int) =~= given@);
    assert(name@.take(name@.len() as int) =~= name@);
    let end: usize = trim_trailing(&name, name.len());
    let limit: usize = if end > 48 {
        48
    } else {
        end
    };
    assert(name@.take(limit as int) =~= limited(name@.take(end as int)));
    let last: usize = trim_trailing(&name, limit);
    let readable: String = text_of(name.as_slice(), 0, last);
    assert(readable@ =~= name@.take(last as int));
    let hash: Vec<char> = chars_of(sha256_hex(reference).as_str());
    let guard: String = text_of(hash.as_slice(), 0, 8);
    assert(guard@ =~= sha256_text(reference@).take(8));
    cat3(readable.as_str(), "_", guard.as_str())
}

/// Two references share a conventional catalog only if the first 8 hex digits
/// of their SHA-256 agree.
pub proof fn law_catalog_names_guard_against_folding(a: Seq<char>, b: Seq<char>)
    ensures
        conventional_catalog(a) == conventional_catalog(b) && sha256_text(a).len() == 64
            && sha256_text(b).len() == 64 ==> sha256_text(a).take(8) == sha256_text(b).take(8),
{
    if conventional_catalog(a) == conventional_catalog(b) && sha256_text(a).len() == 64
        && sha256_text(b).len() == 64 {
        let name = conventional_catalog(a);
        assert(name.skip(name.len() - 8) =~= sha256_text(a).take(8));
        assert(name.skip(name.len() - 8) =~= sha256_text(b).take(8));
    }
}

proof fn lemma_trailing_shortens(text: Seq<char>)
    ensures
        without_trailing(text).len() <= text.len(),
    decreases text.len(),
{
    if text.len() > 0 && text.last() == '_' {
        lemma_trailing_shortens(text.drop_last());
    }
}

/// A conventional catalog name is at most 57 characters long.
pub proof fn law_catalog_names_stay_short(reference: Seq<char>)
    ensures
        sha256_text(reference).len() == 64 ==> conventional_catalog(reference).len() <= 57,
{
    lemma_trailing_shortens(limited(without_trailing("phlo_"@ + folded(reference))));
    reveal_strlit("_");
}

/// Where a candidate's writes land: an explicit override, else what is on
/// record, else the convention.
pub open spec fn candidate_catalog(
    spec: EnvironmentSpecView,
    prior: Option<EnvironmentSetupView>,
) -> Seq<char> {
    match spec.catalog {
        Some(catalog) => catalog,
        None => match prior {
            Some(recorded) => recorded.catalog,
            None => conventional_catalog(spec.candidate_ref),
        },
    }
}

/// The one place a candidate's physical catalog is decided. Provisioning and
/// previews share this, so plan and run can never disagree about where an
/// environment lands.
pub fn resolve_catalog(spec: &EnvironmentSpec, prior: &Option<EnvironmentSetup>) -> (r: String)
    ensures
        r@ == candidate_catalog(spec.deep_view(), prior.deep_view()),
{
    match &spec.catalog {
        Some(catalog) => catalog.clone(),
        None => match prior {
            Some(recorded) => recorded.catalog.clone(),
            None => catalog_name(spec.candidate_ref.as_str()),
        },
    }
}

/// Whether a record attests a binding between the candidate and a catalog: it
/// observed the catalog, or it names one that is not the convention's.
pub open spec fn attests_binding(prior: EnvironmentSetupView, candidate_ref: Seq<char>) -> bool {
    prior.catalog_status != CatalogStatus::Unmanaged || prior.catalog != conventional_catalog(
        candidate_ref,
    )
}

/// Whether a recorded artifact attests a binding between the candidate and a
/// catalog, not merely intent. A conventional name recorded before the catalog
/// existed cannot vouch for a catalog that appeared later.
pub fn prior_records_binding(prior: &EnvironmentSetup, candidate_ref: &str) -> (r: bool)
    ensures
        r == attests_binding(prior.deep_view(), candidate_ref@),
{
    prior.catalog_status != CatalogStatus::Unmanaged || !same(
        prior.catalog.as_str(),
        catalog_name(candidate_ref).as_str(),
    )
}

/// Whether the catalog is a pin rather than the generated convention.
pub open spec fn is_pinned(
    spec: EnvironmentSpecView,
    prior: Option<EnvironmentSetupView>,
) -> bool {
    spec.catalog is Some || (prior is Some && attests_binding(prior->0, spec.candidate_ref))
}

/// Whether the resolved catalog is a pin (an explicit override or a recorded
/// binding the workspace stands behind) rather than the generated convention,
/// which requires the adapter to provision it.
pub fn catalog_is_pinned(spec: &EnvironmentSpec, prior: &Option<EnvironmentSetup>) -> (r: bool)
    ensures
        r == is_pinned(spec.deep_view(), prior.deep_view()),
{
    if spec.catalog.is_some() {
        return true;
    }
    match prior {
        Some(recorded) => prior_records_binding(recorded, spec.candidate_ref.as_str()),
        None => false,
    }
}

/// How far the provisioning of an environment has come.
#[derive(Clone, Debug, PartialEq, Eq)]
pub enum Provisioning {
    /// The base reference is to be looked up.
    Base,
    /// The candidate reference is to be looked up.
    Candidate { base: ReferenceInfo },
    /// The candidate branch is to be created from the base.
    Branch { base: ReferenceInfo },
    /// The catalog is to be ensured.
    Catalog { base: ReferenceInfo, candidate: ReferenceInfo, created_branch: bool },
    /// The branch just created is to be deleted again, best-effort.
    Undo { error: EngineError },
    /// The environment exists.
    Ready { setup: EnvironmentSetup },
    /// Provisioning failed.
    Failed { error: EngineError },
}

/// The contents of a [`Provisioning`].
pub enum ProvisioningView {
    Base,
    Candidate { base: ReferenceInfoView },
    Branch { base: ReferenceInfoView },
    Catalog { base: ReferenceInfoView, candidate: ReferenceInfoView, created_branch: bool },
    Undo { error: EngineErrorView },
    Ready { setup: EnvironmentSetupView },
    Failed { error: EngineErrorView },
}

impl DeepView for Provisioning {
    type V = ProvisioningView;

    open spec fn deep_view(&self) -> ProvisioningView {
        match self {
            Provisioning::Base => ProvisioningView::Base,
            Provisioning::Candidate { base } => ProvisioningView::Candidate {
                base: base.deep_view(),
            },
            Provisioning::Branch { base } => ProvisioningView::Branch { base: base.deep_view() },
            Provisioning::Catalog { base, candidate, created_branch } => ProvisioningView::Catalog {
                base: base.deep_view(),
                candidate: candidate.deep_view(),
                created_branch: *created_branch,
            },
            Provisioning::Undo { error } => ProvisioningView::Undo { error: error.deep_view() },
            Provisioning::Ready { setup } => ProvisioningView::Ready { setup: setup.deep_view() },
            Provisioning::Failed { error } => ProvisioningView::Failed { error: error.deep_view() },
        }
    }
}

impl DeepClone for Provisioning {
    fn deep_clone(&self) -> (copy: Self) {
        match self {
            Provisioning::Base => Provisioning::Base,
            Provisioning::Candidate { base } => Provisioning::Candidate { base: base.deep_clone() },
            Provisioning::Branch { base } => Provisioning::Branch { base: base.deep_clone() },
            Provisioning::Catalog { base, candidate, created_branch } => Provisioning::Catalog {
                base: base.deep_clone(),
                candidate: candidate.deep_clone(),
                created_branch: *created_branch,
            },
            Provisioning::Undo { error } => Provisioning::Undo { error: error.deep_clone() },
            Provisioning::Ready { setup } => Provisioning::Ready { setup: setup.deep_clone() },
            Provisioning::Failed { error } => Provisioning::Failed { error: error.deep_clone() },
        }
    }
}

/// What the caller is to do next.
#[derive(Clone, Debug, PartialEq, Eq)]
pub enum ProvisionAction {
    LookUp { reference: String },
    CreateBranch { name: String, from: ReferenceInfo },
    EnsureCatalog { request: CatalogRequest },
    DeleteBranch { name: String },
    Stop,
}

/// The contents of a [`ProvisionAction`].
pub enum ProvisionActionView {
    LookUp { reference: Seq<char> },
    CreateBranch { name: Seq<char>, from: ReferenceInfoView },
    EnsureCatalog { request: CatalogRequestView },
    DeleteBranch { name: Seq<char> },
    Stop,
}

impl DeepView for ProvisionAction {
    type V = ProvisionActionView;

    open spec fn deep_view(&self) -> ProvisionActionView {
        match self {
            ProvisionAction::LookUp { reference } => ProvisionActionView::LookUp {
                reference: reference@,
            },
            ProvisionAction::CreateBranch { name, from } => ProvisionActionView::CreateBranch {
                name: name@,
                from: from.deep_view(),
            },
            ProvisionAction::EnsureCatalog { request } => ProvisionActionView::EnsureCatalog {
                request: request.deep_view(),
            },
            ProvisionAction::DeleteBranch { name } => ProvisionActionView::DeleteBranch {
                name: name@,
            },
            ProvisionAction::Stop => ProvisionActionView::Stop,
        }
    }
}

impl DeepClone for ProvisionAction {
    fn deep_clone(&self) -> (copy: Self) {
        match self {
            ProvisionAction::LookUp { reference } => ProvisionAction::LookUp {
                reference: reference.deep_clone(),
            },
            ProvisionAction::CreateBranch { name, from } => ProvisionAction::CreateBranch {
                name: name.deep_clone(),
                from: from.deep_clone(),
            },
            ProvisionAction::EnsureCatalog { request } => ProvisionAction::EnsureCatalog {
                request: request.deep_clone(),
            },
            ProvisionAction::DeleteBranch { name } => ProvisionAction::DeleteBranch {
                name: name.deep_clone(),
            },
            ProvisionAction::Stop => ProvisionAction::Stop,
        }
    }
}

/// What came of it. A failure of the Nessie server comes as its message.
#[derive(Clone, Debug, PartialEq, Eq)]
pub enum ProvisionEvent {
    Found { reference: Option<ReferenceInfo> },
    Created { branch: ReferenceInfo },
    Ensured { status: CatalogStatus },
    /// The branch is deleted, or could not be.
    Deleted,
    NessieFailed { message: String },
    AdapterFailed { error: AdapterError },
}

/// The contents of a [`ProvisionEvent`].
pub enum ProvisionEventView {
    Found { reference: Option<ReferenceInfoView> },
    Created { branch: ReferenceInfoView },
    Ensured { status: CatalogStatus },
    Deleted,
    NessieFailed { message: Seq<char> },
    AdapterFailed { error: AdapterErrorView },
}

impl DeepView for ProvisionEvent {
    type V = ProvisionEventView;

    open spec fn deep_view(&self) -> ProvisionEventView {
        match self {
            ProvisionEvent::Found { reference } => ProvisionEventView::Found {
                reference: reference.deep_view(),
            },
            ProvisionEvent::Created { branch } => ProvisionEventView::Created {
                branch: branch.deep_view(),
            },
            ProvisionEvent::Ensured { status } => ProvisionEventView::Ensured { status: *status },
            ProvisionEvent::Deleted => ProvisionEventView::Deleted,
            ProvisionEvent::NessieFailed { message } => ProvisionEventView::NessieFailed {
                message: message@,
            },
            ProvisionEvent::AdapterFailed { error } => ProvisionEventView::AdapterFailed {
                error: error.deep_view(),
            },
        }
    }
}

impl DeepClone for ProvisionEvent {
    fn deep_clone(&self) -> (copy: Self) {
        match self {
            ProvisionEvent::Found { reference } => ProvisionEvent::Found {
                reference: reference.deep_clone(),
            },
            ProvisionEvent::Created { branch } => ProvisionEvent::Created {
                branch: branch.deep_clone(),
            },
            ProvisionEvent::Ensured { status } => ProvisionEvent::Ensured { status: *status },
            ProvisionEvent::Deleted => ProvisionEvent::Deleted,
            ProvisionEvent::NessieFailed { message } => ProvisionEvent::NessieFailed {
                message: message.deep_clone(),
            },
            ProvisionEvent::AdapterFailed { error } => ProvisionEvent::AdapterFailed {
                error: error.deep_clone(),
            },
        }
    }
}

/// The catalog that an environment's request asks for.
pub open spec fn requested_catalog(spec: EnvironmentSpecView) -> Seq<char> {
    match spec.catalog {
        Some(catalog) => catalog,
        None => conventional_catalog(spec.candidate_ref),
    }
}

/// The action that a state of provisioning asks for.
pub open spec fn action_of(
    spec: EnvironmentSpecView,
    state: ProvisioningView,
) -> ProvisionActionView {
    match state {
        ProvisioningView::Base => ProvisionActionView::LookUp { reference: spec.base_ref },
        ProvisioningView::Candidate { base } => ProvisionActionView::LookUp {
            reference: spec.candidate_ref,
        },
        ProvisioningView::Branch { base } => ProvisionActionView::CreateBranch {
            name: spec.candidate_ref,
            from: base,
        },
        ProvisioningView::Catalog { .. } => ProvisionActionView::EnsureCatalog {
            request: CatalogRequestView {
                catalog: requested_catalog(spec),
                reference: Some(spec.candidate_ref),
                nessie_uri: spec.nessie_uri,
                warehouse: spec.warehouse,
            },
        },
        ProvisioningView::Undo { error } => ProvisionActionView::DeleteBranch {
            name: spec.candidate_ref,
        },
        ProvisioningView::Ready { .. } => ProvisionActionView::Stop,
        ProvisioningView::Failed { .. } => ProvisionActionView::Stop,
    }
}

/// A failure, after which a branch that was just created is deleted again.
pub open spec fn give_up(created_branch: bool, error: EngineErrorView) -> ProvisioningView {
    if created_branch {
        ProvisioningView::Undo { error }
    } else {
        ProvisioningView::Failed { error }
    }
}

/// Whether a catalog status leaves an environment without the isolation it
/// claims: the adapter provisions no catalogs, a Nessie server is in play, and
/// nobody named the catalog.
pub open spec fn lacks_isolation(spec: EnvironmentSpecView, status: CatalogStatus) -> bool {
    status == CatalogStatus::Unmanaged && spec.nessie_uri is Some && spec.catalog is None
}

/// The complaint about an adapter that cannot bind a catalog to a reference.
pub open spec fn unprovisionable(adapter: Seq<char>, candidate_ref: Seq<char>) -> Seq<char> {
    "adapter `"@ + adapter + "` cannot provision a catalog bound to Nessie ref `"@ + candidate_ref
        + "` — the environment claims branch isolation it cannot honour"@
}

/// The state after an event. An event that does not answer the action of the
/// state leaves it as it is.
pub open spec fn after_event(
    spec: EnvironmentSpecView,
    adapter: Seq<char>,
    state: ProvisioningView,
    event: ProvisionEventView,
) -> ProvisioningView {
    match (state, event) {
        (ProvisioningView::Base, ProvisionEventView::Found { reference }) => match reference {
            None => ProvisioningView::Failed {
                error: EngineErrorView::NotFound(
                    "base reference `"@ + spec.base_ref + "` was not found"@,
                ),
            },
            Some(base) => if spec.candidate_ref == spec.base_ref {
                ProvisioningView::Catalog { base, candidate: base, created_branch: false }
            } else {
                ProvisioningView::Candidate { base }
            },
        },
        (ProvisioningView::Candidate { base }, ProvisionEventView::Found { reference }) =>
        match reference {
            Some(candidate) => ProvisioningView::Catalog {
                base,
                candidate,
                created_branch: false,
            },
            None => ProvisioningView::Branch { base },
        },
        (ProvisioningView::Branch { base }, ProvisionEventView::Created { branch }) =>
        ProvisioningView::Catalog { base, candidate: branch, created_branch: true },
        (
            ProvisioningView::Catalog { base, candidate, created_branch },
            ProvisionEventView::Ensured { status },
        ) => if lacks_isolation(spec, status) {
            give_up(
                created_branch,
                EngineErrorView::NotConfigured(unprovisionable(adapter, spec.candidate_ref)),
            )
        } else {
            ProvisioningView::Ready {
                setup: EnvironmentSetupView {
                    base,
                    candidate,
                    created_from: if created_branch || candidate.name == base.name {
                        Some(base)
                    } else {
                        None
                    },
                    created_branch,
                    catalog: requested_catalog(spec),
                    catalog_status: status,
                    catalog_owned_by_phlo: None,
                },
            }
        },
        (
            ProvisioningView::Catalog { base, candidate, created_branch },
            ProvisionEventView::AdapterFailed { error },
        ) => give_up(created_branch, EngineErrorView::Adapter(error)),
        (ProvisioningView::Base, ProvisionEventView::NessieFailed { message })
        | (ProvisioningView::Candidate { .. }, ProvisionEventView::NessieFailed { message })
        | (ProvisioningView::Branch { .. }, ProvisionEventView::NessieFailed { message }) =>
        ProvisioningView::Failed { error: EngineErrorView::Environment(message) },
        (ProvisioningView::Undo { error }, ProvisionEventView::Deleted)
        | (ProvisioningView::Undo { error }, ProvisionEventView::NessieFailed { .. }) =>
        ProvisioningView::Failed { error },
        _ => state,
    }
}

fn wanted_catalog(spec: &EnvironmentSpec) -> (r: String)
    ensures
        r@ == requested_catalog(spec.deep_view()),
{
    match &spec.catalog {
        Some(catalog) => catalog.clone(),
        None => catalog_name(spec.candidate_ref.as_str()),
    }
}

fn abandon(created_branch: bool, error: EngineError) -> (r: Provisioning)
    ensures
        r.deep_view() == give_up(created_branch, error.deep_view()),
{
    if created_branch {
        Provisioning::Undo { error }
    } else {
        Provisioning::Failed { error }
    }
}

fn catalog_ready(
    spec: &EnvironmentSpec,
    adapter_name: &str,
    base: ReferenceInfo,
    candidate: ReferenceInfo,
    created_branch: bool,
    status: CatalogStatus,
) -> (r: Provisioning)
    ensures
        r.deep_view() == after_event(
            spec.deep_view(),
            adapter_name@,
            (ProvisioningView::Catalog {
                base: base.deep_view(),
                candidate: candidate.deep_view(),
                created_branch,
            }),
            (ProvisionEventView::Ensured { status }),
        ),
{
    if status == CatalogStatus::Unmanaged && spec.nessie_uri.is_some() && spec.catalog.is_none() {
        let message: String = cat5(
            "adapter `",
            adapter_name,
            "` cannot provision a catalog bound to Nessie ref `",
            spec.candidate_ref.as_str(),
            "` — the environment claims branch isolation it cannot honour",
        );
        return abandon(created_branch, EngineError::NotConfigured(message));
    }
    let created_from: Option<ReferenceInfo> = if created_branch || same(
        candidate.name.as_str(),
        base.name.as_str(),
    ) {
        Some(base.deep_clone())
    } else {
        None
    };
    Provisioning::Ready {
        setup: EnvironmentSetup {
            base,
            candidate,
            created_from,
            created_branch,
            catalog: wanted_catalog(spec),
            catalog_status: status,
            catalog_owned_by_phlo: None,
        },
    }
}

impl Provisioning {
    /// What the caller is to do next.
    pub fn action(&self, spec: &EnvironmentSpec) -> (r: ProvisionAction)
        ensures
            r.deep_view() == action_of(spec.deep_view(), self.deep_view()),
    {
        match self {
            Provisioning::Base => ProvisionAction::LookUp { reference: spec.base_ref.clone() },
            Provisioning::Candidate { base } => ProvisionAction::LookUp {
                reference: spec.candidate_ref.clone(),
            },
            Provisioning::Branch { base } => ProvisionAction::CreateBranch {
                name: spec.candidate_ref.clone(),
                from: base.deep_clone(),
            },
            Provisioning::Catalog { base, candidate, created_branch } =>
            ProvisionAction::EnsureCatalog {
                request: CatalogRequest {
                    catalog: wanted_catalog(spec),
                    reference: Some(spec.candidate_ref.clone()),
                    nessie_uri: spec.nessie_uri.deep_clone(),
                    warehouse: spec.warehouse.deep_clone(),
                },
            },
            Provisioning::Undo { error } => ProvisionAction::DeleteBranch {
                name: spec.candidate_ref.clone(),
            },
            Provisioning::Ready { setup } => ProvisionAction::Stop,
            Provisioning::Failed { error } => ProvisionAction::Stop,
        }
    }

    /// The state after an event.
    pub fn advance(self, spec: &EnvironmentSpec, adapter_name: &str, event: ProvisionEvent) -> (r:
        Self)
        ensures
            r.deep_view() == after_event(
                spec.deep_view(),
                adapter_name@,
                self.deep_view(),
                event.deep_view(),
            ),
    {
        match (self, event) {
            (Provisioning::Base, ProvisionEvent::Found { reference }) => match reference {
                None => Provisioning::Failed {
                    error: EngineError::NotFound(
                        cat3("base reference `", spec.base_ref.as_str(), "` was not found"),
                    ),
                },
                Some(base) => if same(spec.candidate_ref.as_str(), spec.base_ref.as_str()) {
                    Provisioning::Catalog {
                        base: base.deep_clone(),
                        candidate: base,
                        created_branch: false,
                    }
                } else {
                    Provisioning::Candidate { base }
                },
            },
            (Provisioning::Candidate { base }, ProvisionEvent::Found { reference }) =>
            match reference {
                Some(candidate) => Provisioning::Catalog {
                    base,
                    candidate,
                    created_branch: false,
                },
                None => Provisioning::Branch { base },
            },
            (Provisioning::Branch { base }, ProvisionEvent::Created { branch }) =>
            Provisioning::Catalog { base, candidate: branch, created_branch: true },
            (
                Provisioning::Catalog { base, candidate, created_branch },
                ProvisionEvent::Ensured { status },
            ) => catalog_ready(spec, adapter_name, base, candidate, created_branch, status),
            (
                Provisioning::Catalog { base, candidate, created_branch },
                ProvisionEvent::AdapterFailed { error },
            ) => abandon(created_branch, EngineError::Adapter(error)),
            (Provisioning::Base, ProvisionEvent::NessieFailed { message }) =>
            Provisioning::Failed { error: EngineError::Environment(message) },
            (Provisioning::Candidate { base }, ProvisionEvent::NessieFailed { message }) =>
            Provisioning::Failed { error: EngineError::Environment(message) },
            (Provisioning::Branch { base }, ProvisionEvent::NessieFailed { message }) =>
            Provisioning::Failed { error: EngineError::Environment(message) },
            (Provisioning::Undo { error }, ProvisionEvent::Deleted) => Provisioning::Failed {
                error,
            },
            (Provisioning::Undo { error }, ProvisionEvent::NessieFailed { message }) =>
            Provisioning::Failed { error },
            (state, other) => state,
        }
    }
}

/// Start ensuring that the candidate branch and its catalog exist.
///
/// This is the primitive: it trusts the adapter's report. A catalog that already
/// existed, whose bound Nessie ref cannot be read back, is not vetted here;
/// [`settle_candidate`] accepts such a catalog only on a recorded binding, and
/// [`ensure_candidate`] refuses catalogs claimed by other candidates.
pub fn ensure_environment() -> (state: Provisioning)
    ensures
        state.deep_view() == ProvisioningView::Base,
{
    Provisioning::Base
}

/// How the servers would answer whatever provisioning asks of them.
pub struct Servers {
    pub base: Result<Option<ReferenceInfoView>, Seq<char>>,
    pub candidate: Result<Option<ReferenceInfoView>, Seq<char>>,
    pub branch: Result<ReferenceInfoView, Seq<char>>,
    pub catalog: Result<CatalogStatus, AdapterErrorView>,
}

/// A lookup's answer as an event.
pub open spec fn lookup_event(
    answer: Result<Option<ReferenceInfoView>, Seq<char>>,
) -> ProvisionEventView {
    match answer {
        Ok(reference) => ProvisionEventView::Found { reference },
        Err(message) => ProvisionEventView::NessieFailed { message },
    }
}

/// The event by which servers answer the action of a state.
pub open spec fn answered(servers: Servers, state: ProvisioningView) -> ProvisionEventView {
    match state {
        ProvisioningView::Base => lookup_event(servers.base),
        ProvisioningView::Candidate { .. } => lookup_event(servers.candidate),
        ProvisioningView::Branch { .. } => match servers.branch {
            Ok(branch) => ProvisionEventView::Created { branch },
            Err(message) => ProvisionEventView::NessieFailed { message },
        },
        ProvisioningView::Catalog { .. } => match servers.catalog {
            Ok(status) => ProvisionEventView::Ensured { status },
            Err(error) => ProvisionEventView::AdapterFailed { error },
        },
        _ => ProvisionEventView::Deleted,
    }
}

/// The state after a number of answers.
pub open spec fn provisioned(
    spec: EnvironmentSpecView,
    adapter: Seq<char>,
    servers: Servers,
    steps: nat,
) -> ProvisioningView
    decreases steps,
{
    if steps == 0 {
        ProvisioningView::Base
    } else {
        let state = provisioned(spec, adapter, servers, (steps - 1) as nat);
        after_event(spec, adapter, state, answered(servers, state))
    }
}

/// Whether some step of provisioning created a branch.
pub open spec fn branch_was_created(
    spec: EnvironmentSpecView,
    adapter: Seq<char>,
    servers: Servers,
) -> bool {
    provisioned(spec, adapter, servers, 2) is Branch && servers.branch is Ok
}

/// Whether some step of provisioning deleted the branch.
pub open spec fn branch_was_deleted(
    spec: EnvironmentSpecView,
    adapter: Seq<char>,
    servers: Servers,
) -> bool {
    exists|k: nat| k < 5 && #[trigger] provisioned(spec, adapter, servers, k) is Undo
}

/// Provisioning ends after at most five answers, in an environment or in a
/// failure.
pub proof fn law_provisioning_ends(
    spec: EnvironmentSpecView,
    adapter: Seq<char>,
    servers: Servers,
)
    ensures
        provisioned(spec, adapter, servers, 5) is Ready || provisioned(spec, adapter, servers, 5)
            is Failed,
{
    reveal_with_fuel(provisioned, 6);
}

/// A failed provisioning leaves no branch behind that it created itself, and
/// it never deletes a branch that it did not create.
pub proof fn law_failed_provisioning_leaks_no_branch(
    spec: EnvironmentSpecView,
    adapter: Seq<char>,
    servers: Servers,
)
    ensures
        branch_was_deleted(spec, adapter, servers) <==> (provisioned(
            spec,
            adapter,
            servers,
            5,
        ) is Failed && branch_was_created(spec, adapter, servers)),
{
    reveal_with_fuel(provisioned, 6);
    let fourth = provisioned(spec, adapter, servers, 4);
    assert forall|k: nat| k < 5 && #[trigger] provisioned(spec, adapter, servers, k) is Undo
        implies k == 4 by {
        if k == 0 {
        } else if k == 1 {
        } else if k == 2 {
        } else if k == 3 {
        }
    }
}

/// A candidate's cut-from provenance is recorded only where it is provable:
/// where the branch was created from the base just now, or is the base.
pub proof fn law_provenance_is_never_guessed(
    spec: EnvironmentSpecView,
    adapter: Seq<char>,
    servers: Servers,
)
    ensures
        provisioned(spec, adapter, servers, 5) matches ProvisioningView::Ready { setup } ==> (
        setup.created_from is Some ==> setup.created_from == Some(setup.base) && (
        branch_was_created(spec, adapter, servers) || setup.candidate.name == setup.base.name)),
{
    reveal_with_fuel(provisioned, 6);
}

/// Under a Nessie server an environment is never ready on a generated catalog
/// that the adapter did not provision.
pub proof fn law_isolation_fails_closed(
    spec: EnvironmentSpecView,
    adapter: Seq<char>,
    servers: Servers,
)
    requires
        spec.nessie_uri is Some,
        spec.catalog is None,
    ensures
        provisioned(spec, adapter, servers, 5) matches ProvisioningView::Ready { setup }
            ==> setup.catalog_status != CatalogStatus::Unmanaged,
{
    reveal_with_fuel(provisioned, 6);
}

/// Whether another candidate's record claims a catalog.
pub open spec fn claimed_elsewhere(
    recorded: Seq<EnvironmentSetupView>,
    catalog: Seq<char>,
    candidate_ref: Seq<char>,
) -> bool {
    exists|i: int|
        0 <= i < recorded.len() && (#[trigger] recorded[i]).catalog == catalog
            && recorded[i].candidate.name != candidate_ref
}

fn is_claimed(recorded: &Vec<EnvironmentSetup>, catalog: &str, candidate_ref: &str) -> (r: bool)
    ensures
        r == claimed_elsewhere(recorded.deep_view(), catalog@, candidate_ref@),
{
    let ghost views = recorded.deep_view();
    for i in 0..recorded.len()
        invariant
            views == recorded.deep_view(),
            forall|k: int|
                0 <= k < i ==> !((#[trigger] views[k]).catalog == catalog@
                    && views[k].candidate.name != candidate_ref@),
    {
        assert(views[i as int] == recorded@[i as int].deep_view());
        if same(recorded[i].catalog.as_str(), catalog) && !same(
            recorded[i].candidate.name.as_str(),
            candidate_ref,
        ) {
            return true;
        }
    }
    false
}

/// The complaint about a catalog that another candidate claims.
pub open spec fn claimed_text(catalog: Seq<char>) -> Seq<char> {
    "catalog `"@ + catalog
        + "` is already claimed by another candidate — choose a different `--catalog` or remove the other candidate's artifacts"@
}

/// The request that provisions a candidate, given what is on record for it and
/// for every other candidate. A catalog that another candidate's evidence
/// claims is refused outright: sharing one physical catalog across refs breaks
/// the isolation the environment claims. Only a pinned catalog is handed on as
/// an explicit one, so that a generated name still means that the adapter must
/// provision it.
pub fn ensure_candidate(
    spec: &EnvironmentSpec,
    prior: &Option<EnvironmentSetup>,
    recorded: &Vec<EnvironmentSetup>,
) -> (r: Result<EnvironmentSpec, EngineError>)
    ensures
        ({
            let given = spec.deep_view();
            let catalog = candidate_catalog(given, prior.deep_view());
            if claimed_elsewhere(recorded.deep_view(), catalog, given.candidate_ref) {
                r matches Err(e) && e.deep_view() == EngineErrorView::Environment(
                    claimed_text(catalog),
                )
            } else {
                r matches Ok(request) && request.deep_view() == (EnvironmentSpecView {
                    catalog: if is_pinned(given, prior.deep_view()) {
                        Some(catalog)
                    } else {
                        None
                    },
                    ..given
                })
            }
        }),
{
    let catalog: String = resolve_catalog(spec, prior);
    if is_claimed(recorded, catalog.as_str(), spec.candidate_ref.as_str()) {
        return Err(
            EngineError::Environment(
                cat3(
                    "catalog `",
                    catalog.as_str(),
                    "` is already claimed by another candidate — choose a different `--catalog` or remove the other candidate's artifacts",
                ),
            ),
        );
    }
    let pinned: bool = catalog_is_pinned(spec, prior);
    Ok(
        EnvironmentSpec {
            base_ref: spec.base_ref.clone(),
            candidate_ref: spec.candidate_ref.clone(),
            nessie_uri: spec.nessie_uri.deep_clone(),
            warehouse: spec.warehouse.deep_clone(),
            catalog: if pinned {
                Some(catalog)
            } else {
                None
            },
        },
    )
}

/// Whether the record of a candidate vouches for its setup's catalog.
pub open spec fn is_vouched(
    prior: Option<EnvironmentSetupView>,
    setup: EnvironmentSetupView,
    candidate_ref: Seq<char>,
) -> bool {
    prior is Some && prior->0.catalog == setup.catalog && attests_binding(prior->0, candidate_ref)
}

/// The setup of a candidate whose catalog is accepted: ownership is decided
/// once, and the provenance on record is kept where none is provable anew.
pub open spec fn accepted_setup(
    setup: EnvironmentSetupView,
    prior: Option<EnvironmentSetupView>,
) -> EnvironmentSetupView {
    EnvironmentSetupView {
        catalog_owned_by_phlo: Some(
            match setup.catalog_status {
                CatalogStatus::Created => true,
                CatalogStatus::Unverified => prior is Some && prior->0.catalog == setup.catalog
                    && catalog_is_owned(prior->0),
                CatalogStatus::Unmanaged => false,
            },
        ),
        created_from: match setup.created_from {
            Some(origin) => Some(origin),
            None => match prior {
                Some(recorded) => recorded.created_from,
                None => None,
            },
        },
        ..setup
    }
}

/// The complaint about a catalog whose binding nothing proves.
pub open spec fn unverified_text(catalog: Seq<char>, candidate_ref: Seq<char>) -> Seq<char> {
    "catalog `"@ + catalog + "` already exists but cannot be verified as bound to `"@
        + candidate_ref
        + "` — drop it or let phlo provision it once so the binding is recorded"@
}

/// What becomes of a candidate whose environment is provisioned.
#[derive(Clone, Debug, PartialEq, Eq)]
pub enum CandidateOutcome {
    /// The setup to record.
    Accepted { setup: EnvironmentSetup },
    /// Refused; the branch is deleted again if it was just created.
    Refused { error: EngineError, delete_branch: bool },
}

/// The contents of a [`CandidateOutcome`].
pub enum CandidateOutcomeView {
    Accepted { setup: EnvironmentSetupView },
    Refused { error: EngineErrorView, delete_branch: bool },
}

impl DeepView for CandidateOutcome {
    type V = CandidateOutcomeView;

    open spec fn deep_view(&self) -> CandidateOutcomeView {
        match self {
            CandidateOutcome::Accepted { setup } => CandidateOutcomeView::Accepted {
                setup: setup.deep_view(),
            },
            CandidateOutcome::Refused { error, delete_branch } => CandidateOutcomeView::Refused {
                error: error.deep_view(),
                delete_branch: *delete_branch,
            },
        }
    }
}

impl DeepClone for CandidateOutcome {
    fn deep_clone(&self) -> (copy: Self) {
        match self {
            CandidateOutcome::Accepted { setup } => CandidateOutcome::Accepted {
                setup: setup.deep_clone(),
            },
            CandidateOutcome::Refused { error, delete_branch } => CandidateOutcome::Refused {
                error: error.deep_clone(),
                delete_branch: *delete_branch,
            },
        }
    }
}

/// Accepts or refuses a provisioned candidate. A catalog that already existed
/// is accepted only when this workspace recorded the binding for this exact ref
/// and catalog. After acceptance, a setup without `created_from` means that the
/// branch pre-existed with unrecorded provenance: promotion refuses it, unless an
/// audit held it against the target.
pub fn settle_candidate(
    spec: &EnvironmentSpec,
    prior: &Option<EnvironmentSetup>,
    setup: EnvironmentSetup,
) -> (r: CandidateOutcome)
    ensures
        r.deep_view() == (if setup.deep_view().catalog_status == CatalogStatus::Unverified
            && !is_vouched(prior.deep_view(), setup.deep_view(), spec.candidate_ref@) {
            CandidateOutcomeView::Refused {
                error: EngineErrorView::Environment(
                    unverified_text(setup.catalog@, spec.candidate_ref@),
                ),
                delete_branch: setup.created_branch,
            }
        } else {
            CandidateOutcomeView::Accepted {
                setup: accepted_setup(setup.deep_view(), prior.deep_view()),
            }
        }),
{
    let (vouched, owned): (bool, bool) = match prior {
        Some(recorded) => {
            let matching: bool = same(recorded.catalog.as_str(), setup.catalog.as_str());
            (
                matching && prior_records_binding(recorded, spec.candidate_ref.as_str()),
                matching && recorded.owns_catalog(),
            )
        },
        None => (false, false),
    };
    if setup.catalog_status == CatalogStatus::Unverified && !vouched {
        return CandidateOutcome::Refused {
            error: EngineError::Environment(
                cat5(
                    "catalog `",
                    setup.catalog.as_str(),
                    "` already exists but cannot be verified as bound to `",
                    spec.candidate_ref.as_str(),
                    "` — drop it or let phlo provision it once so the binding is recorded",
                ),
            ),
            delete_branch: setup.created_branch,
        };
    }
    let owned_now: bool = match setup.catalog_status {
        CatalogStatus::Created => true,
        CatalogStatus::Unverified => owned,
        CatalogStatus::Unmanaged => false,
    };
    let created_from: Option<ReferenceInfo> = match setup.created_from {
        Some(origin) => Some(origin),
        None => match prior {
            Some(recorded) => recorded.created_from.deep_clone(),
            None => None,
        },
    };
    CandidateOutcome::Accepted {
        setup: EnvironmentSetup {
            base: setup.base,
            candidate: setup.candidate,
            created_from,
            created_branch: setup.created_branch,
            catalog: setup.catalog,
            catalog_status: setup.catalog_status,
            catalog_owned_by_phlo: Some(owned_now),
        },
    }
}

/// A catalog once owned stays owned when a later call finds it unverified.
pub proof fn law_ownership_is_sticky(setup: EnvironmentSetupView, prior: EnvironmentSetupView)
    requires
        setup.catalog == prior.catalog,
        setup.catalog_status == CatalogStatus::Unverified,
    ensures
        catalog_is_owned(accepted_setup(setup, Some(prior))) == catalog_is_owned(prior),
{
}

/// A recorded provenance survives every later provisioning of a branch whose
/// origin is not provable anew.
pub proof fn law_recorded_provenance_is_kept(
    setup: EnvironmentSetupView,
    prior: EnvironmentSetupView,
)
    requires
        setup.created_from is None,
    ensures
        accepted_setup(setup, Some(prior)).created_from == prior.created_from,
{
}

/// Whether environment resolution may provision or must only compute the
/// would-be target.
#[derive(Clone, Copy, Debug, PartialEq, Eq, Structural)]
pub enum EnvironmentMode {
    /// Provision the candidate branch and catalog, then compile retargeted.
    Ensure,
    /// Resolve the same physical target without touching Nessie or the
    /// warehouse.
    ReadOnly,
}

impl DeepView for EnvironmentMode {
    type V = EnvironmentMode;

    open spec fn deep_view(&self) -> EnvironmentMode {
        *self
    }
}

impl DeepClone for EnvironmentMode {
    fn deep_clone(&self) -> (copy: Self) {
        *self
    }
}

/// What resolution knows of the adapter.
#[derive(Clone, Debug, PartialEq, Eq)]
pub struct AdapterTraits {
    pub name: String,
    /// Whether it can provision catalogs at all.
    pub supports_catalog_provisioning: bool,
}

/// The contents of a [`AdapterTraits`].
pub struct AdapterTraitsView {
    pub name: Seq<char>,
    pub supports_catalog_provisioning: bool,
}

impl DeepView for AdapterTraits {
    type V = AdapterTraitsView;

    open spec fn deep_view(&self) -> AdapterTraitsView {
        AdapterTraitsView {
            name: self.name@,
            supports_catalog_provisioning: self.supports_catalog_provisioning,
        }
    }
}

impl DeepClone for AdapterTraits {
    fn deep_clone(&self) -> (copy: Self) {
        AdapterTraits {
            name: self.name.deep_clone(),
            supports_catalog_provisioning: self.supports_catalog_provisioning,
        }
    }
}

/// The handles environment resolution needs, shared by runs and previews so
/// that they can never disagree about where an environment's work lands.
#[derive(Clone, Debug, PartialEq, Eq)]
pub struct EnvironmentContext {
    /// Whether there is a Nessie client. Without one, environment labels are
    /// state records only.
    pub has_nessie: bool,
    pub adapter: Option<AdapterTraits>,
    /// The catalog-facing Nessie URI.
    pub nessie_uri: Option<String>,
    pub warehouse: Option<String>,
    /// The configured catalog override.
    pub catalog: Option<String>,
}

/// The contents of a [`EnvironmentContext`].
pub struct EnvironmentContextView {
    pub has_nessie: bool,
    pub adapter: Option<AdapterTraitsView>,
    pub nessie_uri: Option<Seq<char>>,
    pub warehouse: Option<Seq<char>>,
    pub catalog: Option<Seq<char>>,
}

impl DeepView for EnvironmentContext {
    type V = EnvironmentContextView;

    open spec fn deep_view(&self) -> EnvironmentContextView {
        EnvironmentContextView {
            has_nessie: self.has_nessie,
            adapter: self.adapter.deep_view(),
            nessie_uri: self.nessie_uri.deep_view(),
            warehouse: self.warehouse.deep_view(),
            catalog: self.catalog.deep_view(),
        }
    }
}

impl DeepClone for EnvironmentContext {
    fn deep_clone(&self) -> (copy: Self) {
        EnvironmentContext {
            has_nessie: self.has_nessie,
            adapter: self.adapter.deep_clone(),
            nessie_uri: self.nessie_uri.deep_clone(),
            warehouse: self.warehouse.deep_clone(),
            catalog: self.catalog.deep_clone(),
        }
    }
}

/// Where an environment's work goes.
#[derive(Clone, Debug, PartialEq, Eq)]
pub enum EnvironmentRoute {
    /// The caller's existing workspace compilation stands: there is no
    /// candidate.
    Unchanged,
    /// Provision the candidate, then compile for its catalog.
    Provision { spec: EnvironmentSpec },
    /// Compile for this catalog; nothing is provisioned.
    Preview { catalog: String },
}

/// The contents of a [`EnvironmentRoute`].
pub enum EnvironmentRouteView {
    Unchanged,
    Provision { spec: EnvironmentSpecView },
    Preview { catalog: Seq<char> },
}

impl DeepView for EnvironmentRoute {
    type V = EnvironmentRouteView;

    open spec fn deep_view(&self) -> EnvironmentRouteView {
        match self {
            EnvironmentRoute::Unchanged => EnvironmentRouteView::Unchanged,
            EnvironmentRoute::Provision { spec } => EnvironmentRouteView::Provision {
                spec: spec.deep_view(),
            },
            EnvironmentRoute::Preview { catalog } => EnvironmentRouteView::Preview {
                catalog: catalog@,
            },
        }
    }
}

impl DeepClone for EnvironmentRoute {
    fn deep_clone(&self) -> (copy: Self) {
        match self {
            EnvironmentRoute::Unchanged => EnvironmentRoute::Unchanged,
            EnvironmentRoute::Provision { spec } => EnvironmentRoute::Provision {
                spec: spec.deep_clone(),
            },
            EnvironmentRoute::Preview { catalog } => EnvironmentRoute::Preview {
                catalog: catalog.deep_clone(),
            },
        }
    }
}

/// The candidate that an environment label stands for.
pub open spec fn candidate_spec(
    context: EnvironmentContextView,
    environment: Seq<char>,
    base_ref: Seq<char>,
) -> EnvironmentSpecView {
    EnvironmentSpecView {
        base_ref,
        candidate_ref: environment,
        nessie_uri: context.nessie_uri,
        warehouse: context.warehouse,
        catalog: context.catalog,
    }
}

/// The complaint about an environment whose catalog cannot be provisioned.
pub open spec fn unconfigured_text(environment: Seq<char>) -> Seq<char> {
    "environment `"@ + environment
        + "` claims a Nessie branch but its catalog cannot be provisioned — a catalog-facing Nessie URI (and an adapter) is required"@
}

/// The complaint about a generated catalog that no run could reach.
pub open spec fn unreachable_text(environment: Seq<char>, adapter: Seq<char>) -> Seq<char> {
    "environment `"@ + environment + "` resolves to generated catalog `"@ + conventional_catalog(
        environment,
    ) + "`, which adapter `"@ + adapter
        + "` cannot provision — a run would fail closed the same way; pin an existing catalog with `--catalog`"@
}

/// Where an environment's work goes: nowhere new without an environment, for
/// the base itself, or without Nessie; else to the candidate's catalog, which
/// must be provisionable.
pub open spec fn environment_route(
    context: EnvironmentContextView,
    environment: Option<Seq<char>>,
    base_ref: Seq<char>,
    mode: EnvironmentMode,
    prior: Option<EnvironmentSetupView>,
) -> Result<EnvironmentRouteView, EngineErrorView> {
    match environment {
        None => Ok(EnvironmentRouteView::Unchanged),
        Some(label) => if label == base_ref || !context.has_nessie {
            Ok(EnvironmentRouteView::Unchanged)
        } else if context.adapter is None || context.nessie_uri is None {
            Err(EngineErrorView::NotConfigured(unconfigured_text(label)))
        } else {
            let spec = candidate_spec(context, label, base_ref);
            match mode {
                EnvironmentMode::Ensure => Ok(EnvironmentRouteView::Provision { spec }),
                EnvironmentMode::ReadOnly => if !is_pinned(spec, prior)
                    && !context.adapter->0.supports_catalog_provisioning {
                    Err(
                        EngineErrorView::NotConfigured(
                            unreachable_text(label, context.adapter->0.name),
                        ),
                    )
                } else {
                    Ok(EnvironmentRouteView::Preview { catalog: candidate_catalog(spec, prior) })
                },
            }
        },
    }
}

fn unreachable_error(environment: &str, adapter: &str) -> (r: EngineError)
    ensures
        r.deep_view() == EngineErrorView::NotConfigured(
            unreachable_text(environment@, adapter@),
        ),
{
    let head: String = cat5(
        "environment `",
        environment,
        "` resolves to generated catalog `",
        catalog_name(environment).as_str(),
        "`, which adapter `",
    );
    EngineError::NotConfigured(
        cat3(
            head.as_str(),
            adapter,
            "` cannot provision — a run would fail closed the same way; pin an existing catalog with `--catalog`",
        ),
    )
}

impl EnvironmentContext {
    /// Resolve the physical target an environment label implies, given what is
    /// on record for the environment. A preview applies the requirement that a
    /// run ends in, so it never names a target no run could execute against.
    pub fn resolve(
        &self,
        environment: Option<&str>,
        base_ref: &str,
        mode: EnvironmentMode,
        prior: &Option<EnvironmentSetup>,
    ) -> (r: Result<EnvironmentRoute, EngineError>)
        ensures
            match environment_route(
                self.deep_view(),
                environment.deep_view(),
                base_ref@,
                mode,
                prior.deep_view(),
            ) {
                Ok(route) => r matches Ok(x) && x.deep_view() == route,
                Err(error) => r matches Err(e) && e.deep_view() == error,
            },
    {
        let label: &str = match environment {
            Some(label) => label,
            None => {
                return Ok(EnvironmentRoute::Unchanged);
            },
        };
        if same(label, base_ref) || !self.has_nessie {
            return Ok(EnvironmentRoute::Unchanged);
        }
        let adapter: &AdapterTraits = match (&self.adapter, &self.nessie_uri) {
            (Some(adapter), Some(uri)) => adapter,
            _ => {
                return Err(
                    EngineError::NotConfigured(
                        cat3(
                            "environment `",
                            label,
                            "` claims a Nessie branch but its catalog cannot be provisioned — a catalog-facing Nessie URI (and an adapter) is required",
                        ),
                    ),
                );
            },
        };
        let spec: EnvironmentSpec = EnvironmentSpec {
            base_ref: base_ref.to_owned(),
            candidate_ref: label.to_owned(),
            nessie_uri: self.nessie_uri.deep_clone(),
            warehouse: self.warehouse.deep_clone(),
            catalog: self.catalog.deep_clone(),
        };
        match mode {
            EnvironmentMode::Ensure => Ok(EnvironmentRoute::Provision { spec }),
            EnvironmentMode::ReadOnly => {
                let pinned: bool = catalog_is_pinned(&spec, prior);
                if !pinned && !adapter.supports_catalog_provisioning {
                    return Err(unreachable_error(label, adapter.name.as_str()));
                }
                Ok(EnvironmentRoute::Preview { catalog: resolve_catalog(&spec, prior) })
            },
        }
    }
}

/// The result of provisioning a candidate environment for a run: the
/// environment record plus the workspace compiled against its catalog.
pub struct CandidateWorkspace {
    pub setup: EnvironmentSetup,
    pub compilation: Compilation,
}

/// The contents of a [`CandidateWorkspace`].
pub struct CandidateWorkspaceView {
    pub setup: EnvironmentSetupView,
    pub compilation: CompilationView,
}

impl DeepView for CandidateWorkspace {
    type V = CandidateWorkspaceView;

    open spec fn deep_view(&self) -> CandidateWorkspaceView {
        CandidateWorkspaceView {
            setup: self.setup.deep_view(),
            compilation: self.compilation.deep_view(),
        }
    }
}

impl DeepClone for CandidateWorkspace {
    fn deep_clone(&self) -> (copy: Self) {
        CandidateWorkspace {
            setup: self.setup.deep_clone(),
            compilation: self.compilation.deep_clone(),
        }
    }
}

/// What an environment resolves to for planning and execution.
pub struct EnvironmentTarget {
    /// The workspace compiled for the environment's physical catalog; `None`
    /// means that the caller's existing compilation stands.
    pub compilation: Option<Compilation>,
    /// The physical catalog resolved, when a candidate was resolved.
    pub catalog: Option<String>,
    /// Provisioning evidence: recorded when provisioning; for a preview only
    /// when a prior run already wrote it.
    pub setup: Option<EnvironmentSetup>,
}

/// The contents of a [`EnvironmentTarget`].
pub struct EnvironmentTargetView {
    pub compilation: Option<CompilationView>,
    pub catalog: Option<Seq<char>>,
    pub setup: Option<EnvironmentSetupView>,
}

impl DeepView for EnvironmentTarget {
    type V = EnvironmentTargetView;

    open spec fn deep_view(&self) -> EnvironmentTargetView {
        EnvironmentTargetView {
            compilation: self.compilation.deep_view(),
            catalog: self.catalog.deep_view(),
            setup: self.setup.deep_view(),
        }
    }
}

impl DeepClone for EnvironmentTarget {
    fn deep_clone(&self) -> (copy: Self) {
        EnvironmentTarget {
            compilation: self.compilation.deep_clone(),
            catalog: self.catalog.deep_clone(),
            setup: self.setup.deep_clone(),
        }
    }
}

impl Default for EnvironmentTarget {
    fn default() -> (target: Self)
        ensures
            target.deep_view() == (EnvironmentTargetView {
                compilation: None,
                catalog: None,
                setup: None,
            }),
    {
        EnvironmentTarget { compilation: None, catalog: None, setup: None }
    }
}

impl EnvironmentTarget {
    /// The target of a provisioned candidate.
    pub fn provisioned(candidate: CandidateWorkspace) -> (target: Self)
        ensures
            target.deep_view() == (EnvironmentTargetView {
                compilation: Some(candidate.deep_view().compilation),
                catalog: Some(candidate.deep_view().setup.catalog),
                setup: Some(candidate.deep_view().setup),
            }),
    {
        EnvironmentTarget {
            catalog: Some(candidate.setup.catalog.clone()),
            setup: Some(candidate.setup),
            compilation: Some(candidate.compilation),
        }
    }

    /// The target of a preview.
    pub fn previewed(
        catalog: String,
        compilation: Compilation,
        prior: Option<EnvironmentSetup>,
    ) -> (target: Self)
        ensures
            target.deep_view() == (EnvironmentTargetView {
                compilation: Some(compilation.deep_view()),
                catalog: Some(catalog@),
                setup: prior.deep_view(),
            }),
    {
        EnvironmentTarget { compilation: Some(compilation), catalog: Some(catalog), setup: prior }
    }
}

/// A preview names the catalog that provisioning would ask for: whatever the
/// records hold, the two agree.
pub proof fn law_preview_and_run_agree(
    context: EnvironmentContextView,
    environment: Seq<char>,
    base_ref: Seq<char>,
    prior: Option<EnvironmentSetupView>,
    recorded: Seq<EnvironmentSetupView>,
    request: EnvironmentSpecView,
)
    requires
        ({
            let spec = candidate_spec(context, environment, base_ref);
            environment_route(
                context,
                Some(environment),
                base_ref,
                EnvironmentMode::ReadOnly,
                prior,
            ) is Ok && environment != base_ref && context.has_nessie && request == (
            EnvironmentSpecView {
                catalog: if is_pinned(spec, prior) {
                    Some(candidate_catalog(spec, prior))
                } else {
                    None
                },
                ..spec
            })
        }),
    ensures
        environment_route(
            context,
            Some(environment),
            base_ref,
            EnvironmentMode::ReadOnly,
            prior,
        ) == Ok::<EnvironmentRouteView, EngineErrorView>(
            EnvironmentRouteView::Preview { catalog: requested_catalog(request) },
        ),
{
}

/// The outcome of loading and compiling a workspace.
pub enum CompileOutcome {
    /// The project could not be loaded.
    Unloadable { diagnostics: Vec<Diagnostic> },
    Compiled { compilation: Compilation },
}

/// The contents of a [`CompileOutcome`].
pub enum CompileOutcomeView {
    Unloadable { diagnostics: Seq<DiagnosticView> },
    Compiled { compilation: CompilationView },
}

impl DeepView for CompileOutcome {
    type V = CompileOutcomeView;

    open spec fn deep_view(&self) -> CompileOutcomeView {
        match self {
            CompileOutcome::Unloadable { diagnostics } => CompileOutcomeView::Unloadable {
                diagnostics: diagnostics.deep_view(),
            },
            CompileOutcome::Compiled { compilation } => CompileOutcomeView::Compiled {
                compilation: compilation.deep_view(),
            },
        }
    }
}

impl DeepClone for CompileOutcome {
    fn deep_clone(&self) -> (copy: Self) {
        match self {
            CompileOutcome::Unloadable { diagnostics } => CompileOutcome::Unloadable {
                diagnostics: diagnostics.deep_clone(),
            },
            CompileOutcome::Compiled { compilation } => CompileOutcome::Compiled {
                compilation: compilation.deep_clone(),
            },
        }
    }
}

/// The catalog a workspace is compiled for: the override, else its own.
/// Sources resolve in the project's own catalog: the candidate catalog is for
/// outputs, not inputs.
pub fn output_catalog(own: &Option<String>, catalog: Option<&str>) -> (r: Option<String>)
    ensures
        r.deep_view() == or_else(catalog.deep_view(), own.deep_view()),
{
    match catalog {
        Some(name) => Some(name.to_owned()),
        None => own.deep_clone(),
    }
}

/// The compilation of the workspace called `label`, if it loaded and compiled
/// cleanly.
pub open spec fn compiled_for(label: Seq<char>, outcome: CompileOutcomeView) -> Result<
    CompilationView,
    EngineErrorView,
> {
    match outcome {
        CompileOutcomeView::Unloadable { diagnostics } => Err(
            EngineErrorView::FailedDiagnostics { label, problem: "cannot load"@, diagnostics },
        ),
        CompileOutcomeView::Compiled { compilation } => if compilation.ok {
            Ok(compilation)
        } else {
            Err(
                EngineErrorView::FailedDiagnostics {
                    label,
                    problem: "does not compile cleanly"@,
                    diagnostics: compilation.diagnostics,
                },
            )
        },
    }
}

/// The compilation of the workspace called `label`, if it loaded and compiled
/// cleanly.
pub fn compile_for_catalog(label: &str, outcome: CompileOutcome) -> (r: Result<
    Compilation,
    EngineError,
>)
    ensures
        match compiled_for(label@, outcome.deep_view()) {
            Ok(compilation) => r matches Ok(c) && c.deep_view() == compilation,
            Err(error) => r matches Err(e) && e.deep_view() == error,
        },
{
    match outcome {
        CompileOutcome::Unloadable { diagnostics } => Err(
            EngineError::FailedDiagnostics {
                label: label.to_owned(),
                problem: "cannot load".to_owned(),
                diagnostics,
            },
        ),
        CompileOutcome::Compiled { compilation } => if compilation.ok {
            Ok(compilation)
        } else {
            Err(
                EngineError::FailedDiagnostics {
                    label: label.to_owned(),
                    problem: "does not compile cleanly".to_owned(),
                    diagnostics: compilation.diagnostics,
                },
            )
        },
    }
}

/// A provisioned candidate with the workspace called `label` compiled against its
/// catalog, so that an environment-targeted operation can never drift onto the
/// default catalog.
pub fn provision_candidate(setup: EnvironmentSetup, label: &str, outcome: CompileOutcome) -> (r:
    Result<CandidateWorkspace, EngineError>)
    ensures
        match compiled_for(label@, outcome.deep_view()) {
            Ok(compilation) => r matches Ok(candidate) && candidate.deep_view() == (
            CandidateWorkspaceView { setup: setup.deep_view(), compilation }),
            Err(error) => r matches Err(e) && e.deep_view() == error,
        },
{
    match compile_for_catalog(label, outcome) {
        Ok(compilation) => Ok(CandidateWorkspace { setup, compilation }),
        Err(error) => Err(error),
    }
}

/// A column as the warehouse shows it. That a column admits nulls does not say
/// that it holds any.
pub open spec fn observed_column(column: ColumnInfoView) -> SchemaColumnView {
    SchemaColumnView {
        name: column.name,
        data_type: parsed_type(column.data_type),
        nullability: if column.nullable {
            Nullability::Unknown
        } else {
            Nullability::NotNull
        },
    }
}

/// The columns of a relation as the warehouse shows them.
pub open spec fn observed_columns(columns: Seq<ColumnInfoView>) -> Seq<SchemaColumnView> {
    Seq::new(columns.len(), |i: int| observed_column(columns[i]))
}

/// The schemas of the first `k` sources, by name. A source that did not answer,
/// or that shows no columns, keeps its declared schema.
pub open spec fn schemas_observed(
    sources: Seq<SourceIdView>,
    columns: Seq<Option<Seq<ColumnInfoView>>>,
    k: nat,
) -> Seq<(Seq<char>, Seq<SchemaColumnView>)>
    decreases k,
{
    if k == 0 {
        Seq::empty()
    } else {
        let before = schemas_observed(sources, columns, (k - 1) as nat);
        match columns[k - 1] {
            Some(found) => if found.len() == 0 {
                before
            } else {
                with_name(before, source_text(sources[k - 1]), observed_columns(found))
            },
            None => before,
        }
    }
}

fn observe_columns(columns: &Vec<ColumnInfo>) -> (r: Vec<SchemaColumn>)
    ensures
        r.deep_view() == observed_columns(columns.deep_view()),
{
    let mut r: Vec<SchemaColumn> = Vec::new();
    let ghost views = columns.deep_view();
    for i in 0..columns.len()
        invariant
            views == columns.deep_view(),
            r@.len() == i,
            forall|k: int|
                0 <= k < i ==> (#[trigger] r@[k]).deep_view() == observed_column(views[k]),
    {
        assert(views[i as int] == columns@[i as int].deep_view());
        r.push(
            SchemaColumn {
                name: columns[i].name.clone(),
                data_type: DataType::parse_trino(columns[i].data_type.as_str()),
                nullability: if columns[i].nullable {
                    Nullability::Unknown
                } else {
                    Nullability::NotNull
                },
            },
        );
    }
    assert(r.deep_view() =~= observed_columns(views));
    r
}

/// What the adapter showed of a workspace's sources: the inputs of a recompile.
#[derive(Clone, Debug, PartialEq, Eq)]
pub struct SourceEnrichment {
    pub schemas: NameMap<Vec<SchemaColumn>>,
    pub states: NameMap<String>,
}

/// The contents of a [`SourceEnrichment`].
pub struct SourceEnrichmentView {
    pub schemas: Seq<(Seq<char>, Seq<SchemaColumnView>)>,
    pub states: Seq<(Seq<char>, Seq<char>)>,
}

impl DeepView for SourceEnrichment {
    type V = SourceEnrichmentView;

    open spec fn deep_view(&self) -> SourceEnrichmentView {
        SourceEnrichmentView {
            schemas: self.schemas.deep_view(),
            states: self.states.deep_view(),
        }
    }
}

impl DeepClone for SourceEnrichment {
    fn deep_clone(&self) -> (copy: Self) {
        SourceEnrichment {
            schemas: self.schemas.deep_clone(),
            states: self.states.deep_clone(),
        }
    }
}

/// Where each source is to be looked up.
pub fn source_relations(
    sources: &Vec<SourceId>,
    default_catalog: Option<&str>,
    default_schema: Option<&str>,
) -> (r: Vec<Relation>)
    ensures
        r.deep_view() == Seq::new(
            sources@.len(),
            |i: int|
                source_relation(
                    sources.deep_view()[i],
                    default_catalog.deep_view(),
                    default_schema.deep_view(),
                ),
        ),
{
    let mut r: Vec<Relation> = Vec::new();
    let ghost views = sources.deep_view();
    for i in 0..sources.len()
        invariant
            views == sources.deep_view(),
            r@.len() == i,
            forall|k: int|
                0 <= k < i ==> (#[trigger] r@[k]).deep_view() == source_relation(
                    views[k],
                    default_catalog.deep_view(),
                    default_schema.deep_view(),
                ),
    {
        assert(views[i as int] == sources@[i as int].deep_view());
        r.push(relation_for_source(&sources[i], default_catalog, default_schema));
    }
    assert(r.deep_view() =~= Seq::new(
        sources@.len(),
        |i: int|
            source_relation(views[i], default_catalog.deep_view(), default_schema.deep_view()),
    ));
    r
}

/// What to recompile with: the source schemas and source states observed
/// through the adapter. Best-effort per source: one that does not respond keeps
/// its declared schema, and states that cannot be observed discard none of the
/// schemas already gathered.
pub fn enrich_sources(
    sources: &Vec<SourceId>,
    columns: &Vec<Option<Vec<ColumnInfo>>>,
    readings: &Vec<SourceReading>,
    seeds: &Vec<CompiledSeed>,
    places: &Places,
) -> (r: SourceEnrichment)
    requires
        columns@.len() == sources@.len(),
        readings@.len() == sources@.len(),
    ensures
        r.deep_view() == (SourceEnrichmentView {
            schemas: schemas_observed(sources.deep_view(), columns.deep_view(), sources@.len()),
            states: match source_states(
                sources.deep_view(),
                readings.deep_view(),
                seeds.deep_view(),
                places.deep_view(),
            ) {
                Ok(states) => states,
                Err(_) => Seq::empty(),
            },
        }),
{
    let ghost names = sources.deep_view();
    let ghost answers = columns.deep_view();
    let mut schemas: NameMap<Vec<SchemaColumn>> = NameMap::new();
    for i in 0..sources.len()
        invariant
            columns@.len() == sources@.len(),
            names == sources.deep_view(),
            answers == columns.deep_view(),
            schemas.deep_view() == schemas_observed(names, answers, i as nat),
    {
        assert(names[i as int] == sources@[i as int].deep_view());
        assert(answers[i as int] == columns@[i as int].deep_view());
        if let Some(found) = &columns[i] {
            assert(found.deep_view().len() == found@.len());
            if found.len() > 0 {
                schemas.insert(sources[i].logical_name(), observe_columns(found));
            }
        }
    }
    let states: NameMap<String> = match collect_source_states(sources, readings, seeds, places) {
        Ok(states) => states,
        Err(_) => NameMap::new(),
    };
    SourceEnrichment { schemas, states }
}

/// The base that an environment resolves against.
pub open spec fn base_in_force(
    explicit: Option<Seq<char>>,
    prior: Option<EnvironmentSetupView>,
) -> Seq<char> {
    match explicit {
        Some(name) => name,
        None => match prior {
            Some(setup) => setup.base.name,
            None => "main"@,
        },
    }
}

/// The base ref an environment resolves against: an explicit one wins; else the
/// base that provisioning already recorded for the environment; else `main`.
pub fn base_ref_for(prior: &Option<EnvironmentSetup>, explicit: Option<&str>) -> (r: String)
    ensures
        r@ == base_in_force(explicit.deep_view(), prior.deep_view()),
{
    match explicit {
        Some(name) => name.to_owned(),
        None => match prior {
            Some(setup) => setup.base.name.clone(),
            None => "main".to_owned(),
        },
    }
}

/// The physical catalog of a reference, given what is on record for it.
pub open spec fn reference_catalog(
    reference: Seq<char>,
    prior: Option<EnvironmentSetupView>,
) -> Seq<char> {
    match prior {
        Some(setup) => setup.catalog,
        None => conventional_catalog(reference),
    }
}

/// The physical catalog a reference's environment resolves through: the
/// recorded binding when this workspace provisioned it, else the generated
/// convention.
pub fn environment_catalog(reference: &str, prior: &Option<EnvironmentSetup>) -> (r: String)
    ensures
        r@ == reference_catalog(reference@, prior.deep_view()),
{
    match prior {
        Some(setup) => setup.catalog.clone(),
        None => catalog_name(reference),
    }
}

/// The catalog the base side of a branch diff resolves through: `main` is the
/// deployment catalog (the configured override, else the workspace's own
/// compiled target); any other ref resolves its recorded or conventional
/// environment catalog.
pub fn base_catalog(
    base_ref: &str,
    prior: &Option<EnvironmentSetup>,
    configured: Option<&str>,
    compiled: Option<&str>,
) -> (r: Option<String>)
    ensures
        r.deep_view() == (if base_ref@ == "main"@ {
            or_else(configured.deep_view(), compiled.deep_view())
        } else {
            Some(reference_catalog(base_ref@, prior.deep_view()))
        }),
{
    if same(base_ref, "main") {
        match configured {
            Some(name) => Some(name.to_owned()),
            None => match compiled {
                Some(name) => Some(name.to_owned()),
                None => None,
            },
        }
    } else {
        Some(environment_catalog(base_ref, prior))
    }
}

} // verus!
