use std::cmp::Ordering;

use phlo_transform_engine::adapter::unsupported_csv;
use phlo_transform_engine::artifacts::{ArtifactWriter, SCHEMA_VERSION};
use phlo_transform_engine::events::ExecutionStatus;
use phlo_transform_engine::plan::PlanAction;
use phlo_transform_engine::source_state::adapter_default_schema;
use phlo_transform_engine::state::{
    incremental_key_claim, parse_status, status_str, EvidenceKind,
};
use phlo_transform_engine::text::{head, short};
use phlo_transform_engine::util::{cmp_rfc3339, now_rfc3339, sha256_hex};
use phlo_transform_engine::workspace::{quote, DataType, Relation};

#[test]
fn hashes_are_sha256() {
    assert_eq!(
        sha256_hex("abc"),
        "ba7816bf8f01cfea414140de5dae2223b00361a396177a9cb410ff61f20015ad"
    );
    assert_eq!(
        sha256_hex(""),
        "e3b0c44298fc1c149afbf4c8996fb92427ae41e4649b934ca495991b7852b855"
    );
}

#[test]
fn timestamps_order_by_instant() {
    assert_eq!(
        cmp_rfc3339("2026-01-01T00:00:00.5Z", "2026-01-01T00:00:00.52Z"),
        Ordering::Less
    );
    assert_eq!(
        cmp_rfc3339("2026-01-01T01:00:00+01:00", "2026-01-01T00:00:00Z"),
        Ordering::Equal
    );
    assert_eq!(cmp_rfc3339("b", "a"), Ordering::Greater);
    let now = now_rfc3339();
    assert_eq!(cmp_rfc3339(&now, "2020-01-01T00:00:00Z"), Ordering::Greater);
    assert!(now.ends_with('Z'));
}

#[test]
fn words_read_back() {
    for status in [
        ExecutionStatus::Passed,
        ExecutionStatus::Failed,
        ExecutionStatus::Skipped,
        ExecutionStatus::Cached,
        ExecutionStatus::Blocked,
        ExecutionStatus::Cancelled,
        ExecutionStatus::Running,
        ExecutionStatus::Ready,
        ExecutionStatus::Pending,
    ] {
        assert_eq!(parse_status(status_str(status)), status);
        assert!(!status.is_satisfied() || status.is_terminal());
    }
    for kind in [
        EvidenceKind::Environment,
        EvidenceKind::BranchDiff,
        EvidenceKind::LineageDiff,
    ] {
        assert_eq!(EvidenceKind::parse(kind.as_str()), Some(kind));
    }
    assert_eq!(EvidenceKind::parse("other"), None);
    for action in [
        PlanAction::Build,
        PlanAction::Skip,
        PlanAction::Cached,
        PlanAction::Unknown,
    ] {
        assert_eq!(PlanAction::parse(action.as_str()), action);
    }
}

#[test]
fn relation_names_read_back() {
    let relation = Relation {
        catalog: Some("cat".to_string()),
        schema: "s".to_string(),
        table: "t".to_string(),
    };
    assert_eq!(relation.display(), "cat.s.t");
    assert_eq!(relation.sql(), "\"cat\".\"s\".\"t\"");
    assert_eq!(Relation::parse("cat.s.t"), Some(relation));
    assert_eq!(Relation::parse("t"), None);
    assert_eq!(quote("a\"b"), "\"a\"\"b\"");
    assert_eq!(DataType::parse_trino("varchar(10)"), DataType::Varchar);
}

#[test]
fn legacy_keys_are_canonical() {
    assert_eq!(
        incremental_key_claim("b, a"),
        Some(vec![vec!["a".to_string(), "b".to_string()]])
    );
    assert_eq!(incremental_key_claim(" , "), None);
}

#[test]
fn adapters_have_their_own_defaults() {
    assert_eq!(adapter_default_schema("duckdb"), Some("main"));
    assert_eq!(adapter_default_schema("unknown"), None);
    let error = unsupported_csv("trino");
    assert_eq!(error.code, "UNSUPPORTED");
    assert_eq!(error.message, "trino does not support CSV seeds");
}

#[test]
fn artifacts_have_their_place() {
    let writer = ArtifactWriter::for_workspace("/w/");
    assert_eq!(writer.directory(), "/w/.phlo/transform");
    assert_eq!(ArtifactWriter::new("x").directory(), "x");
    assert_eq!(SCHEMA_VERSION, 3);
}

#[test]
fn prefixes_are_cut_at_any_limit() {
    assert_eq!(head("abcdef", 3), "abc");
    assert_eq!(head("ab", usize::MAX), "ab");
    // A character that lies across the boundary keeps the text whole.
    assert_eq!(head("a\u{e9}b", 2), "a\u{e9}b");
    assert_eq!(short("abcdef", 3), "abc\u{2026}");
    assert_eq!(short("a\u{e9}b", 2), "a\u{2026}");
    assert_eq!(short("abc", usize::MAX), "abc");
}
