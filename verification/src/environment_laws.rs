//! What provisioning an environment promises: when it succeeds, and what the
//! setup then says.

use vstd::prelude::*;

use crate::adapter::CatalogStatus;
use crate::environment::{
    action_of, conventional_catalog, provisioned, EnvironmentSpecView, ProvisionActionView,
    ProvisioningView, Servers,
};

verus! {

/// Whether a catalog's status honours the isolation that an environment
/// claims: an unmanaged catalog does only without a server of branches, or
/// where the catalog was named.
pub open spec fn isolates(spec: EnvironmentSpecView, status: CatalogStatus) -> bool {
    status != CatalogStatus::Unmanaged || spec.nessie_uri is None || spec.catalog is Some
}

/// Whether the candidate is there in the end: it is the base, it was there, or
/// a branch could be created.
pub open spec fn has_candidate(spec: EnvironmentSpecView, servers: Servers) -> bool {
    spec.candidate_ref == spec.base_ref || (servers.candidate is Ok && (
    servers.candidate->Ok_0 is Some || servers.branch is Ok))
}

/// An environment is ready exactly where its base is there, its candidate is
/// there or can be created, and its catalog can be ensured with the isolation
/// that it claims; it fails everywhere else.
pub proof fn law_environments_are_ready_where_everything_is_there(
    spec: EnvironmentSpecView,
    adapter: Seq<char>,
    servers: Servers,
)
    ensures
        provisioned(spec, adapter, servers, 5) is Ready <==> {
            &&& servers.base is Ok && servers.base->Ok_0 is Some
            &&& has_candidate(spec, servers)
            &&& servers.catalog is Ok && isolates(spec, servers.catalog->Ok_0)
        },
        !(provisioned(spec, adapter, servers, 5) is Ready) ==> provisioned(
            spec,
            adapter,
            servers,
            5,
        ) is Failed,
{
    reveal_with_fuel(provisioned, 6);
}

/// A setup names the base that was found, the candidate that was found or
/// created, whether it was created, and the catalog asked for or else the
/// conventional one, with the status that it was ensured with.
pub proof fn law_setups_say_what_was_provisioned(
    spec: EnvironmentSpecView,
    adapter: Seq<char>,
    servers: Servers,
)
    ensures
        provisioned(spec, adapter, servers, 5) matches ProvisioningView::Ready { setup } ==> {
            let created = spec.candidate_ref != spec.base_ref && servers.candidate->Ok_0 is None;
            &&& setup.base == servers.base->Ok_0->0
            &&& setup.created_branch <==> created
            &&& setup.candidate == (if spec.candidate_ref == spec.base_ref {
                servers.base->Ok_0->0
            } else if created {
                servers.branch->Ok_0
            } else {
                servers.candidate->Ok_0->0
            })
            &&& created ==> setup.created_from == Some(setup.base)
            &&& setup.catalog_status == servers.catalog->Ok_0
            &&& spec.catalog is Some ==> setup.catalog == spec.catalog->0
            &&& spec.catalog is None ==> setup.catalog == conventional_catalog(
                spec.candidate_ref,
            )
        },
{
    reveal_with_fuel(provisioned, 6);
}

/// A branch is created only under the candidate's name, from the base that was
/// looked up, and only that name is ever deleted; a catalog is ensured for the
/// candidate alone.
pub proof fn law_provisioning_touches_the_candidate_alone(
    spec: EnvironmentSpecView,
    state: ProvisioningView,
)
    ensures
        action_of(spec, state) matches ProvisionActionView::CreateBranch { name, from } ==> (name
            == spec.candidate_ref && state == (ProvisioningView::Branch { base: from })),
        action_of(spec, state) matches ProvisionActionView::DeleteBranch { name } ==> (name
            == spec.candidate_ref && state is Undo),
        action_of(spec, state) matches ProvisionActionView::EnsureCatalog { request } ==> {
            &&& request.reference == Some(spec.candidate_ref)
            &&& request.nessie_uri == spec.nessie_uri
            &&& request.warehouse == spec.warehouse
            &&& spec.catalog is Some ==> request.catalog == spec.catalog->0
        },
        action_of(spec, state) is Stop <==> state is Ready || state is Failed,
{
}

} // verus!
