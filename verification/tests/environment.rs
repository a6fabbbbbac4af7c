use phlo_transform_engine::adapter::{CatalogStatus, ColumnInfo};
use phlo_transform_engine::environment::{
    base_catalog, base_ref_for, catalog_name, compile_for_catalog, enrich_sources,
    ensure_candidate, ensure_environment, environment_catalog, settle_candidate, AdapterTraits,
    CandidateOutcome, CompileOutcome, EnvironmentContext, EnvironmentMode, EnvironmentRoute,
    EnvironmentSetup, EnvironmentSpec, ProvisionAction, ProvisionEvent, Provisioning,
};
use phlo_transform_engine::error::{AdapterError, Diagnostic, EngineError};
use phlo_transform_engine::nessie::ReferenceInfo;
use phlo_transform_engine::source_state::{Places, SourceReading};
use phlo_transform_engine::workspace::{DataType, Nullability, SourceId};

fn spec() -> EnvironmentSpec {
    EnvironmentSpec {
        base_ref: "main".to_string(),
        candidate_ref: "ci/pr-1".to_string(),
        nessie_uri: Some("http://nessie:19120".to_string()),
        warehouse: None,
        catalog: None,
    }
}

fn setup(candidate: &str, catalog: &str, status: CatalogStatus) -> EnvironmentSetup {
    EnvironmentSetup {
        base: ReferenceInfo::branch("main", "aaa"),
        candidate: ReferenceInfo::branch(candidate, "bbb"),
        created_from: None,
        created_branch: false,
        catalog: catalog.to_string(),
        catalog_status: status,
        catalog_owned_by_phlo: None,
    }
}

/// Carries provisioning through; says how it ended and whether a branch was
/// deleted again.
fn provision(
    spec: &EnvironmentSpec,
    candidate: Option<&str>,
    catalog: Result<CatalogStatus, AdapterError>,
) -> (Provisioning, bool) {
    let mut state = ensure_environment();
    let mut deleted = false;
    loop {
        let event = match state.action(spec) {
            ProvisionAction::Stop => break,
            ProvisionAction::LookUp { reference } => ProvisionEvent::Found {
                reference: if reference == "main" {
                    Some(ReferenceInfo::branch("main", "aaa"))
                } else {
                    candidate.map(|hash| ReferenceInfo::branch(&reference, hash))
                },
            },
            ProvisionAction::CreateBranch { name, from } => ProvisionEvent::Created {
                branch: ReferenceInfo::branch(&name, &from.hash),
            },
            ProvisionAction::EnsureCatalog { .. } => match &catalog {
                Ok(status) => ProvisionEvent::Ensured { status: *status },
                Err(error) => ProvisionEvent::AdapterFailed {
                    error: error.clone(),
                },
            },
            ProvisionAction::DeleteBranch { .. } => {
                deleted = true;
                ProvisionEvent::Deleted
            }
        };
        state = state.advance(spec, "trino", event);
    }
    (state, deleted)
}

#[test]
fn catalogs_are_named_after_their_reference() {
    // The SHA-256 of the empty text begins e3b0c442.
    assert_eq!(catalog_name(""), "phlo_e3b0c442");
    // The SHA-256 of "abc" begins ba7816bf.
    assert_eq!(catalog_name("abc"), "phlo_abc_ba7816bf");
    assert!(catalog_name("CI//PR-1--").starts_with("phlo_ci_pr_1_"));
    let names = [
        catalog_name("ci/pr-1"),
        catalog_name("ci_pr_1"),
        catalog_name("ci-pr-1"),
    ];
    assert_ne!(names[0], names[1]);
    assert_ne!(names[1], names[2]);
    assert_eq!(catalog_name(&"x".repeat(200)).len(), 57);
}

#[test]
fn a_new_branch_records_its_origin() {
    let (state, deleted) = provision(&spec(), None, Ok(CatalogStatus::Created));
    assert!(!deleted);
    match state {
        Provisioning::Ready { setup } => {
            assert!(setup.created_branch);
            assert_eq!(setup.created_from, Some(ReferenceInfo::branch("main", "aaa")));
            assert_eq!(setup.catalog, catalog_name("ci/pr-1"));
        }
        other => panic!("{other:?}"),
    }
    let (state, _) = provision(&spec(), Some("bbb"), Ok(CatalogStatus::Created));
    match state {
        Provisioning::Ready { setup } => assert_eq!(setup.created_from, None),
        other => panic!("{other:?}"),
    }
}

#[test]
fn a_failed_provisioning_takes_its_branch_back() {
    let failure = AdapterError::new("TRINO_DOWN", "no");
    let (state, deleted) = provision(&spec(), None, Err(failure.clone()));
    assert!(deleted);
    assert_eq!(
        state,
        Provisioning::Failed {
            error: EngineError::Adapter(failure.clone())
        }
    );
    let (_, deleted) = provision(&spec(), Some("bbb"), Err(failure));
    assert!(!deleted);
}

#[test]
fn isolation_that_cannot_be_honoured_is_refused() {
    let (state, deleted) = provision(&spec(), None, Ok(CatalogStatus::Unmanaged));
    assert!(deleted);
    assert!(matches!(
        state,
        Provisioning::Failed {
            error: EngineError::NotConfigured(_)
        }
    ));
    let mut pinned = spec();
    pinned.catalog = Some("mine".to_string());
    let (state, _) = provision(&pinned, None, Ok(CatalogStatus::Unmanaged));
    assert!(matches!(state, Provisioning::Ready { .. }));
}

#[test]
fn a_claimed_catalog_is_refused() {
    let mut wanted = spec();
    wanted.catalog = Some("shared".to_string());
    let others = vec![setup("ci/other", "shared", CatalogStatus::Created)];
    let error = ensure_candidate(&wanted, &None, &others).unwrap_err();
    assert!(error.message_text().contains("already claimed"));
    let own = vec![setup("ci/pr-1", "shared", CatalogStatus::Created)];
    assert_eq!(
        ensure_candidate(&wanted, &None, &own).unwrap().catalog,
        Some("shared".to_string())
    );
    // A conventional name that was only intended is no pin.
    let intended = setup("ci/pr-1", &catalog_name("ci/pr-1"), CatalogStatus::Unmanaged);
    assert_eq!(
        ensure_candidate(&spec(), &Some(intended), &Vec::new())
            .unwrap()
            .catalog,
        None
    );
}

#[test]
fn an_unverified_catalog_needs_a_recorded_binding() {
    let found = setup("ci/pr-1", "mine", CatalogStatus::Unverified);
    match settle_candidate(&spec(), &None, found.clone()) {
        CandidateOutcome::Refused {
            error,
            delete_branch,
        } => {
            assert!(error.message_text().contains("cannot be verified"));
            assert!(!delete_branch);
        }
        other => panic!("{other:?}"),
    }
    let mut prior = setup("ci/pr-1", "mine", CatalogStatus::Created);
    prior.created_from = Some(ReferenceInfo::branch("main", "000"));
    match settle_candidate(&spec(), &Some(prior), found) {
        CandidateOutcome::Accepted { setup } => {
            assert!(setup.owns_catalog());
            assert_eq!(setup.created_from, Some(ReferenceInfo::branch("main", "000")));
        }
        other => panic!("{other:?}"),
    }
}

#[test]
fn previews_and_runs_resolve_one_target() {
    let context = EnvironmentContext {
        has_nessie: true,
        adapter: Some(AdapterTraits {
            name: "trino".to_string(),
            supports_catalog_provisioning: true,
        }),
        nessie_uri: Some("http://nessie:19120".to_string()),
        warehouse: None,
        catalog: None,
    };
    assert_eq!(
        context
            .resolve(Some("ci/x"), "main", EnvironmentMode::ReadOnly, &None)
            .unwrap(),
        EnvironmentRoute::Preview {
            catalog: catalog_name("ci/x")
        }
    );
    match context
        .resolve(Some("ci/x"), "main", EnvironmentMode::Ensure, &None)
        .unwrap()
    {
        EnvironmentRoute::Provision { spec } => assert_eq!(spec.candidate_ref, "ci/x"),
        other => panic!("{other:?}"),
    }
    for (environment, base) in [(None, "main"), (Some("main"), "main")] {
        assert_eq!(
            context
                .resolve(environment, base, EnvironmentMode::Ensure, &None)
                .unwrap(),
            EnvironmentRoute::Unchanged
        );
    }
    let mut fixed = context.clone();
    fixed.adapter = Some(AdapterTraits {
        name: "duckdb".to_string(),
        supports_catalog_provisioning: false,
    });
    assert!(matches!(
        fixed
            .resolve(Some("ci/x"), "main", EnvironmentMode::ReadOnly, &None)
            .unwrap_err(),
        EngineError::NotConfigured(_)
    ));
    fixed.nessie_uri = None;
    assert!(fixed
        .resolve(Some("ci/x"), "main", EnvironmentMode::Ensure, &None)
        .is_err());
    fixed.has_nessie = false;
    assert_eq!(
        fixed
            .resolve(Some("ci/x"), "main", EnvironmentMode::Ensure, &None)
            .unwrap(),
        EnvironmentRoute::Unchanged
    );
}

#[test]
fn bases_and_catalogs_follow_the_record() {
    let prior = Some(setup("ci/x", "bound", CatalogStatus::Created));
    assert_eq!(base_ref_for(&prior, Some("release")), "release");
    assert_eq!(base_ref_for(&prior, None), "main");
    assert_eq!(base_ref_for(&None, None), "main");
    assert_eq!(environment_catalog("ci/x", &prior), "bound");
    assert_eq!(environment_catalog("ci/x", &None), catalog_name("ci/x"));
    assert_eq!(
        base_catalog("main", &None, None, Some("compiled")).as_deref(),
        Some("compiled")
    );
    assert_eq!(
        base_catalog("ci/x", &prior, Some("configured"), None).as_deref(),
        Some("bound")
    );
}

#[test]
fn a_workspace_that_does_not_load_is_named() {
    let outcome = CompileOutcome::Unloadable {
        diagnostics: vec![Diagnostic {
            rendered: "boom".to_string(),
        }],
    };
    match compile_for_catalog("/w", outcome) {
        Err(EngineError::FailedDiagnostics { label, problem, .. }) => {
            assert_eq!(label, "/w");
            assert_eq!(problem, "cannot load");
        }
        _ => panic!("it must not compile"),
    }
}

#[test]
fn observed_columns_enrich_sources() {
    let source = |table: &str| SourceId {
        catalog: None,
        schema: None,
        table: table.to_string(),
    };
    let enriched = enrich_sources(
        &vec![source("a"), source("b")],
        &vec![
            Some(vec![ColumnInfo {
                name: "id".to_string(),
                data_type: "bigint".to_string(),
                nullable: false,
            }]),
            None,
        ],
        &vec![
            SourceReading::State("s1".to_string()),
            SourceReading::Failed(AdapterError::new("X", "y")),
        ],
        &Vec::new(),
        &Places {
            catalog: None,
            schema: None,
            adapter: "duckdb".to_string(),
        },
    );
    let columns = enriched.schemas.get("a").unwrap();
    assert_eq!(columns[0].data_type, DataType::BigInt);
    assert_eq!(columns[0].nullability, Nullability::NotNull);
    assert!(enriched.schemas.get("b").is_none());
    // A state that cannot be observed discards the states, not the schemas.
    assert!(enriched.states.is_empty());
}
