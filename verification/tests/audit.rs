use phlo_transform_engine::artifacts::{
    artifact_path, CandidateProvenance, LineageDiff, LineageDiffArtifact, LineageEnvironment,
    SCHEMA_VERSION,
};
use phlo_transform_engine::audit::{
    audited_diff, audited_lineage, choose_branch_diff, environment_artifact_name,
    environment_artifacts, import_evidence, is_environment_file, persist_lineage_evidence,
    read_environment_evidence, AuditContext, BranchDiffLookup, DiffChoice, EnvironmentLookup,
    EvidenceStamp, GitFacts, LineageContext, LineageReading, LineageStatus, SetupReading,
    SideReading,
};
use phlo_transform_engine::branch_diff::{BranchDiffReport, SideRecords};
use phlo_transform_engine::environment::EnvironmentSetup;
use phlo_transform_engine::adapter::CatalogStatus;
use phlo_transform_engine::names::NameMap;
use phlo_transform_engine::nessie::ReferenceInfo;
use phlo_transform_engine::state::{EvidenceKind, EvidenceRecord};
use phlo_transform_engine::store::StateTables;

fn unbound_artifact() -> LineageDiffArtifact {
    LineageDiffArtifact {
        schema_version: SCHEMA_VERSION,
        base_kind: "merge-base".to_string(),
        base_ref: "main".to_string(),
        base_commit: "git-base".to_string(),
        candidate: CandidateProvenance {
            git_ref: None,
            head: None,
            dirty: false,
            lineage_hash: None,
            model_versions: NameMap::new(),
        },
        environment: None,
        diff: LineageDiff {
            base_ref: None,
            change_count: 0,
            changes: "{}".to_string(),
        },
        created_at: None,
    }
}

/// An artifact with no subject (no Nessie binding, no Git ref) has nothing to
/// bind the evidence to. The write path must skip it, rather than persist a row
/// no lookup can reach.
#[test]
fn persist_lineage_evidence_skips_a_subjectless_artifact() {
    let mut state = StateTables::in_memory();
    persist_lineage_evidence(
        &mut state,
        &unbound_artifact(),
        "{}",
        &EvidenceStamp::fresh(),
    )
    .expect("no-op");
    assert!(state
        .latest_evidence(EvidenceKind::LineageDiff)
        .unwrap()
        .is_empty());
}

/// Identical payloads count as one, not only (target, created_at): a
/// timestampless artifact is recorded at import time, so the timestamp alone can
/// never re-match and every read would append another copy.
#[test]
fn import_evidence_dedups_identical_payloads() {
    let mut state = StateTables::in_memory();
    let mut record = EvidenceRecord {
        evidence_id: "first".to_string(),
        kind: EvidenceKind::LineageDiff,
        subject: "ci/x".to_string(),
        target_ref: "main".to_string(),
        candidate_hash: Some("bbb".to_string()),
        target_hash: Some("aaa".to_string()),
        fingerprint: Some("fp".to_string()),
        payload: "{\"diff\": \"payload\"}".to_string(),
        run_id: None,
        created_at: "2026-01-01T00:00:00Z".to_string(),
    };
    import_evidence(&mut state, &record).expect("import");
    // A re-import of the same artifact gets a fresh evidence id and timestamp:
    // the payload is what must match it.
    record.evidence_id = "second".to_string();
    record.created_at = "2026-02-01T00:00:00Z".to_string();
    let standing = import_evidence(&mut state, &record).expect("re-import dedups");
    assert_eq!(standing.as_deref(), Some("first"));
    assert_eq!(
        state
            .evidence_for(EvidenceKind::LineageDiff, "ci/x")
            .unwrap()
            .len(),
        1,
        "the same evidence imports once"
    );

    // A genuinely different payload for the same pair still appends.
    record.payload = "{\"diff\": \"changed\"}".to_string();
    import_evidence(&mut state, &record).expect("changed payload appends");
    assert_eq!(
        state
            .evidence_for(EvidenceKind::LineageDiff, "ci/x")
            .unwrap()
            .len(),
        2,
        "different evidence is not deduplicated away"
    );
}

#[test]
fn an_unreadable_store_imports_nothing() {
    let mut state = StateTables::in_memory();
    let mut record = EvidenceRecord {
        evidence_id: "bad".to_string(),
        kind: EvidenceKind::BranchDiff,
        subject: "ci/x".to_string(),
        target_ref: "main".to_string(),
        candidate_hash: None,
        target_hash: None,
        fingerprint: None,
        payload: "not json".to_string(),
        run_id: None,
        created_at: "t".to_string(),
    };
    state.record_evidence(&record).unwrap();
    record.evidence_id = "next".to_string();
    record.payload = "{}".to_string();
    let error = import_evidence(&mut state, &record).unwrap_err();
    assert!(error
        .message_text()
        .contains("cannot read the evidence store: "));
    assert_eq!(state.evidence.len(), 1);
}

#[test]
fn environment_files_are_named_after_their_ref() {
    // FNV-1a of "a" is e40c292c.
    assert_eq!(
        environment_artifact_name("a"),
        "environment_a_e40c292c.json"
    );
    assert_eq!(
        environment_artifact_name(""),
        "environment_811c9dc5.json"
    );
    assert!(environment_artifact_name("/CI/PR-1/").starts_with("environment_ci_pr_1_"));
    assert_eq!(
        environment_artifact_name("ci/pr-1"),
        "environment_ci_pr_1_a371411e.json"
    );
    assert_eq!(
        environment_artifact_name("ci_pr_1"),
        "environment_ci_pr_1_789b8290.json"
    );
    let unsafe_only = environment_artifact_name("\u{e9}/\u{4e2d}");
    let digits = unsafe_only
        .strip_prefix("environment_")
        .and_then(|rest| rest.strip_suffix(".json"))
        .unwrap();
    assert_eq!(digits.len(), 8);
    assert!(digits.chars().all(|c| c.is_ascii_digit() || ('a'..='f').contains(&c)));
    assert!(is_environment_file("environment_a_e40c292c.json"));
    assert!(!is_environment_file("environment.txt"));
    assert!(!is_environment_file("my_environment.json"));
    assert_eq!(
        artifact_path("/w", "environment.json"),
        "/w/.phlo/transform/environment.json"
    );
}

fn setup(candidate: &str, catalog: &str) -> EnvironmentSetup {
    EnvironmentSetup {
        base: ReferenceInfo::branch("main", "aaa"),
        candidate: ReferenceInfo::branch(candidate, "bbb"),
        created_from: None,
        created_branch: false,
        catalog: catalog.to_string(),
        catalog_status: CatalogStatus::Created,
        catalog_owned_by_phlo: None,
    }
}

#[test]
fn contradictory_environment_evidence_fails() {
    let own = Some(setup("ci/x", "own"));
    let slot = Some(setup("ci/y", "slot"));
    // Files speak only where the store has nothing.
    assert_eq!(
        read_environment_evidence("ci/x", &None, &own, &slot).unwrap(),
        EnvironmentLookup::Exported {
            setup: setup("ci/x", "own")
        }
    );
    assert_eq!(
        read_environment_evidence("ci/y", &None, &own, &slot).unwrap(),
        EnvironmentLookup::Exported {
            setup: setup("ci/y", "slot")
        }
    );
    assert_eq!(
        read_environment_evidence("ci/z", &None, &own, &slot).unwrap(),
        EnvironmentLookup::Unknown
    );
    let recorded = Some((
        "e1".to_string(),
        SetupReading::Setup {
            setup: setup("ci/y", "store"),
        },
    ));
    assert_eq!(
        read_environment_evidence("ci/x", &recorded, &own, &slot)
            .unwrap_err()
            .message_text(),
        phlo_transform_engine::error::EngineError::State(
            "environment evidence recorded for `ci/x` decodes to a binding for `ci/y`".to_string()
        )
        .message_text()
    );
}

#[test]
fn only_the_newest_binding_of_a_candidate_is_live() {
    let readings = vec![
        SetupReading::Setup {
            setup: setup("ci/x", "new"),
        },
        SetupReading::Setup {
            setup: setup("ci/x", "old"),
        },
    ];
    let files = vec![setup("ci/x", "file"), setup("ci/y", "file")];
    let (found, recorded) = environment_artifacts(&readings, &files).unwrap();
    assert_eq!(recorded, 1);
    assert_eq!(found, vec![setup("ci/x", "new"), setup("ci/y", "file")]);

    let broken = vec![SetupReading::Undecodable {
        message: "eof".to_string(),
    }];
    assert!(environment_artifacts(&broken, &files).is_err());
}

fn report() -> BranchDiffReport {
    BranchDiffReport {
        candidate_ref: "ci/x".to_string(),
        base_ref: "main".to_string(),
        candidate_hash: Some("bbb".to_string()),
        base_hash: Some("aaa".to_string()),
        datasets: Vec::new(),
        schema_changes: Vec::new(),
        rows: Vec::new(),
        diffs: Vec::new(),
        deep: true,
        passed: true,
        started_at: "2026-01-01T00:00:00Z".to_string(),
        finished_at: "2026-01-01T00:00:01Z".to_string(),
    }
}

fn context() -> AuditContext {
    AuditContext {
        candidate: "ci/x".to_string(),
        to: "main".to_string(),
        candidate_hash: Some("bbb".to_string()),
        base_hash: Some("aaa".to_string()),
        candidate_side: SideReading::Records {
            records: SideRecords {
                models: NameMap::new(),
                seeds: NameMap::new(),
            },
        },
        base_side: SideReading::Records {
            records: SideRecords {
                models: NameMap::new(),
                seeds: NameMap::new(),
            },
        },
    }
}

#[test]
fn a_fresh_deep_diff_is_evidence() {
    let lookup = BranchDiffLookup::Found {
        report: report(),
        evidence_id: Some("e1".to_string()),
    };
    let audit = audited_diff(&lookup, &context(), false);
    assert_eq!(audit.diff_passed, Some(true));
    assert_eq!(audit.diff_rejected, None);
    assert!(audit.schema_audited);
    assert_eq!(audit.audited_base_hash.as_deref(), Some("aaa"));
    assert_eq!(audit.diff_evidence_id.as_deref(), Some("e1"));
}

#[test]
fn stale_diffs_are_rejected() {
    let found = |report: BranchDiffReport| BranchDiffLookup::Found {
        report,
        evidence_id: None,
    };
    let mut moved = report();
    moved.candidate_hash = Some("old".to_string());
    let audit = audited_diff(&found(moved), &context(), false);
    assert_eq!(
        audit.diff_rejected.as_deref(),
        Some(
            "branch diff audited candidate@old, not current candidate@bbb; rerun `diff --from ci/x --to main --full`"
        )
    );
    assert!(!audit.schema_audited);

    let mut shallow = report();
    shallow.deep = false;
    let audit = audited_diff(&found(shallow), &context(), false);
    assert_eq!(audit.diff_passed, None);
    assert!(audit.schema_audited);
    assert!(audit.diff_rejected.unwrap().contains("without `--full`"));

    let mut other = report();
    other.base_ref = "release".to_string();
    let audit = audited_diff(&found(other), &context(), false);
    assert!(audit.diff_rejected.unwrap().contains("covers `ci/x` -> `release`"));
    assert!(!audit.schema_audited);

    let mut unreadable = context();
    unreadable.base_side = SideReading::Unreadable {
        message: "down".to_string(),
    };
    let audit = audited_diff(&found(report()), &unreadable, false);
    assert_eq!(
        audit.diff_rejected.as_deref(),
        Some("cannot confirm the diff is current: down")
    );

    let audit = audited_diff(&BranchDiffLookup::Missing, &context(), true);
    assert!(audit.diff_rejected.unwrap().contains("single-model diff"));
    let audit = audited_diff(&BranchDiffLookup::Missing, &context(), false);
    assert_eq!(audit.diff_rejected, None);
    assert!(!audit.schema_audited);
}

#[test]
fn a_file_speaks_only_for_its_own_pair() {
    let record = |id: &str, target: &str, at: &str| EvidenceRecord {
        evidence_id: id.to_string(),
        kind: EvidenceKind::BranchDiff,
        subject: "ci/x".to_string(),
        target_ref: target.to_string(),
        candidate_hash: None,
        target_hash: None,
        fingerprint: None,
        payload: "{}".to_string(),
        run_id: None,
        created_at: at.to_string(),
    };
    let records = vec![
        record("e2", "release", "2026-01-02T00:00:00Z"),
        record("e1", "main", "2026-01-01T00:00:00.5Z"),
    ];
    let file = Some(report());
    assert_eq!(
        choose_branch_diff("ci/x", "main", &file, &records),
        DiffChoice::File
    );
    assert_eq!(
        choose_branch_diff("ci/x", "release", &file, &records),
        DiffChoice::Record { index: 0 }
    );
    let newer = vec![record("e3", "main", "2026-01-01T00:00:01.5Z")];
    assert_eq!(
        choose_branch_diff("ci/x", "main", &file, &newer),
        DiffChoice::Record { index: 0 }
    );
    assert_eq!(
        choose_branch_diff("ci/z", "main", &file, &Vec::new()),
        DiffChoice::File
    );
    assert_eq!(
        choose_branch_diff("ci/z", "main", &None, &Vec::new()),
        DiffChoice::Anywhere
    );
}

#[test]
fn lineage_evidence_is_bound_to_commits_and_fingerprint() {
    let context = LineageContext {
        candidate: "ci/x".to_string(),
        to: "main".to_string(),
        candidate_hash: "bbb".to_string(),
        target_hash: "aaa".to_string(),
        lineage_hash: Some("fp".to_string()),
    };
    let git = GitFacts {
        comparison: None,
        base_commit: None,
        candidate_commit: None,
    };
    let mut artifact = unbound_artifact();
    artifact.base_commit = "0123456789abcdef".to_string();
    artifact.candidate.lineage_hash = Some("fp".to_string());
    artifact.environment = Some(LineageEnvironment {
        candidate_ref: "ci/x".to_string(),
        candidate_hash: "bbb".to_string(),
        target_ref: "main".to_string(),
        target_hash: "aaa".to_string(),
    });
    let audit = |artifact: &LineageDiffArtifact| {
        audited_lineage(
            &LineageReading::Found {
                artifact: artifact.clone(),
                evidence_id: None,
            },
            &context,
            &git,
        )
        .unwrap()
    };
    let current = audit(&artifact);
    assert_eq!(current.status, LineageStatus::Current);
    assert_eq!(current.status.as_str(), "current");
    assert_eq!(current.base, "main (0123456789ab)");

    artifact.candidate.lineage_hash = Some("other".to_string());
    let edited = audit(&artifact);
    assert_eq!(edited.status, LineageStatus::Stale);
    assert_eq!(
        edited.reason.as_deref(),
        Some(
            "the candidate's lineage changed since the diff; rerun `lineage --diff main --ref ci/x`"
        )
    );

    artifact.environment = None;
    let lost = audit(&artifact);
    assert!(lost.reason.unwrap().contains("no longer resolves"));
    assert!(audited_lineage(&LineageReading::Missing, &context, &git).is_none());
}
