use phlo_transform_engine::error::EngineError;
use phlo_transform_engine::nessie::{Conflict, MergeOutcome, ReferenceInfo};
use phlo_transform_engine::promotion::{
    cleanup_candidate, cleanup_failures, promote, BranchRemoval, CatalogRemoval, Promotion,
    PromotionAction, PromotionEvent, PromotionRecord, PromotionRequest, PromotionStamp,
};

/// References held in memory, in the order in which they were made.
struct References {
    heads: Vec<(String, String)>,
    conflicts: Vec<Conflict>,
}

impl References {
    fn new() -> Self {
        References {
            heads: Vec::new(),
            conflicts: Vec::new(),
        }
    }

    fn set(&mut self, name: &str, hash: &str) {
        self.heads.retain(|head| head.0 != name);
        self.heads.push((name.to_string(), hash.to_string()));
    }

    fn get(&self, name: &str) -> Option<ReferenceInfo> {
        self.heads
            .iter()
            .find(|head| head.0 == name)
            .map(|head| ReferenceInfo::branch(&head.0, &head.1))
    }

    /// Carries a promotion through to its end.
    fn promote(&mut self, request: &PromotionRequest) -> Result<PromotionRecord, EngineError> {
        let stamp = PromotionStamp::fresh();
        let mut state = promote(request);
        loop {
            let event = match state.action(request) {
                PromotionAction::Stop => break,
                PromotionAction::LookUp { reference } => PromotionEvent::Found {
                    reference: self.get(&reference),
                },
                PromotionAction::CheckMerge { from, .. } => PromotionEvent::Merged {
                    outcome: MergeOutcome {
                        hash: self.get(&from).map(|head| head.hash),
                        conflicts: self.conflicts.clone(),
                    },
                },
                PromotionAction::Merge {
                    from_hash,
                    into,
                    into_hash,
                    ..
                } => {
                    let at = self.get(&into).map(|head| head.hash);
                    if into_hash.is_some() && into_hash != at {
                        PromotionEvent::NessieFailed {
                            message: "the target moved".to_string(),
                        }
                    } else {
                        if self.conflicts.is_empty() {
                            self.set(&into, &from_hash);
                        }
                        PromotionEvent::Merged {
                            outcome: MergeOutcome {
                                hash: Some(from_hash),
                                conflicts: self.conflicts.clone(),
                            },
                        }
                    }
                }
            };
            state = state.advance(request, &stamp, event);
        }
        match state {
            Promotion::Done { record } => Ok(record),
            Promotion::Refused { error } => Err(error),
            _ => unreachable!(),
        }
    }
}

fn request(dry_run: bool) -> PromotionRequest {
    PromotionRequest {
        candidate_ref: "ci/pr-1".to_string(),
        target_ref: "main".to_string(),
        candidate_hash: None,
        expected_target_hash: Some("aaa".to_string()),
        plan_id: Some("plan-1".to_string()),
        run_id: Some("run-1".to_string()),
        quality_gates_passed: true,
        diff_passed: None,
        require_diff: false,
        breaking_schema_changes: Vec::new(),
        allow_breaking_schema: false,
        dry_run,
        actor: None,
        gates: Vec::new(),
    }
}

#[test]
fn promotes_a_clean_candidate() {
    let mut nessie = References::new();
    nessie.set("main", "aaa");
    nessie.set("ci/pr-1", "bbb");

    let record = nessie.promote(&request(false)).unwrap();
    assert!(record.merged);
    assert_eq!(record.target_hash_before, "aaa");
    assert_eq!(nessie.get("main").unwrap().hash, "bbb");
    assert_eq!(record.promotion_id.len(), 36);
}

#[test]
fn blocks_when_quality_gates_failed() {
    let mut nessie = References::new();
    nessie.set("main", "aaa");
    nessie.set("ci/pr-1", "aaa");
    let mut request = request(false);
    request.quality_gates_passed = false;
    assert!(nessie.promote(&request).is_err());
}

#[test]
fn blocks_when_target_advanced() {
    let mut nessie = References::new();
    nessie.set("main", "zzz");
    nessie.set("ci/pr-1", "aaa");
    nessie.set("ci/pr-1", "bbb");
    let error = nessie.promote(&request(false)).unwrap_err();
    assert!(error.message_text().contains("advanced"));
}

#[test]
fn blocks_when_candidate_advanced_since_audit() {
    // The audit pinned the candidate at `bbb`; a racing commit moved the branch
    // to `ccc` before the merge: promotion must refuse rather than merge
    // unaudited work.
    let mut nessie = References::new();
    nessie.set("main", "aaa");
    nessie.set("ci/pr-1", "bbb");
    let mut request = request(false);
    request.candidate_hash = Some("bbb".to_string());
    nessie.set("ci/pr-1", "ccc");
    let error = nessie.promote(&request).unwrap_err();
    assert!(
        error.message_text().contains("advanced"),
        "{}",
        error.message_text()
    );
    // The target must not have been merged.
    assert_eq!(nessie.get("main").unwrap().hash, "aaa");
}

#[test]
fn promotes_when_candidate_hash_still_matches() {
    let mut nessie = References::new();
    nessie.set("main", "aaa");
    nessie.set("ci/pr-1", "bbb");
    let mut request = request(false);
    request.candidate_hash = Some("bbb".to_string());
    let record = nessie.promote(&request).unwrap();
    assert!(record.merged);
    assert_eq!(record.candidate_hash.as_deref(), Some("bbb"));
}

#[test]
fn dry_run_reports_without_merging() {
    let mut nessie = References::new();
    nessie.set("main", "aaa");
    nessie.set("ci/pr-1", "bbb");
    let record = nessie.promote(&request(true)).unwrap();
    assert!(!record.merged);
    assert_eq!(nessie.get("main").unwrap().hash, "aaa");
}

#[test]
fn a_missing_reference_is_a_typed_not_found() {
    // Callers key the not-found surface off the variant, not the text.
    let mut nessie = References::new();
    nessie.set("main", "aaa");

    let missing_candidate = nessie.promote(&request(false)).unwrap_err();
    assert!(
        matches!(missing_candidate, EngineError::NotFound(_)),
        "{}",
        missing_candidate.message_text()
    );

    nessie.set("ci/pr-1", "bbb");
    let mut request = request(false);
    request.target_ref = "ghost".to_string();
    let missing_target = nessie.promote(&request).unwrap_err();
    assert!(
        matches!(missing_target, EngineError::NotFound(_)),
        "{}",
        missing_target.message_text()
    );
}

#[test]
fn breaking_schema_changes_block_promotion() {
    let mut nessie = References::new();
    nessie.set("main", "aaa");
    nessie.set("ci/pr-1", "aaa");

    let make = |allow: bool| PromotionRequest {
        candidate_ref: "ci/pr-1".to_string(),
        target_ref: "main".to_string(),
        candidate_hash: None,
        expected_target_hash: Some("aaa".to_string()),
        plan_id: None,
        run_id: None,
        quality_gates_passed: true,
        diff_passed: None,
        require_diff: false,
        breaking_schema_changes: vec!["legacy: removed".to_string()],
        allow_breaking_schema: allow,
        dry_run: true,
        actor: None,
        gates: Vec::new(),
    };

    assert!(nessie.promote(&make(false)).is_err());
    assert!(nessie.promote(&make(true)).is_ok());
}

#[test]
fn a_required_diff_must_have_passed() {
    let mut nessie = References::new();
    nessie.set("main", "aaa");
    nessie.set("ci/pr-1", "bbb");
    for verdict in [None, Some(false)] {
        let mut request = request(false);
        request.require_diff = true;
        request.diff_passed = verdict;
        assert_eq!(
            nessie.promote(&request).unwrap_err(),
            EngineError::Promotion("a passing data diff is required before promotion".to_string())
        );
    }
    let mut request = request(false);
    request.require_diff = true;
    request.diff_passed = Some(true);
    assert!(nessie.promote(&request).unwrap().merged);
}

#[test]
fn conflicts_refuse_a_promotion() {
    let mut nessie = References::new();
    nessie.set("main", "aaa");
    nessie.set("ci/pr-1", "bbb");
    nessie.conflicts = vec![Conflict {
        path: "db.t".to_string(),
        message: "both changed".to_string(),
    }];
    assert_eq!(
        nessie.promote(&request(false)).unwrap_err(),
        EngineError::Promotion("candidate cannot be promoted: db.t: both changed".to_string())
    );
    assert_eq!(nessie.get("main").unwrap().hash, "aaa");
}

#[test]
fn leftovers_of_a_cleanup_are_reported() {
    let clean = cleanup_failures("ci/x", &CatalogRemoval::Clean, &BranchRemoval::Missing);
    assert!(clean.is_empty());
    assert_eq!(cleanup_candidate(clean, None), Ok(()));
    assert_eq!(
        cleanup_candidate(Vec::new(), Some("disk full")),
        Err("remove environment evidence: disk full".to_string())
    );
    let failures = cleanup_failures(
        "ci/x",
        &CatalogRemoval::NoAdapter {
            catalog: "phlo_x".to_string(),
        },
        &BranchRemoval::Failed {
            message: "busy".to_string(),
        },
    );
    assert_eq!(
        cleanup_candidate(failures, None),
        Err(
            "no adapter configured to drop catalog `phlo_x`; delete branch `ci/x`: busy"
                .to_string()
        )
    );
}
