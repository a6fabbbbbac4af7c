use phlo_transform_engine::contracts::{
    breaking_contract_changes, contract_diff, effective_key, key_change, ContractChange,
    ContractSafety, RecordedKey,
};
use phlo_transform_engine::names::NameMap;
use phlo_transform_engine::workspace::{ColumnContract, DataType, ModelContract};

fn column(name: &str, data_type: Option<DataType>, nullable: Option<bool>) -> ColumnContract {
    ColumnContract {
        name: name.to_string(),
        data_type,
        nullable,
    }
}

fn contract(enforced: bool, columns: Vec<ColumnContract>) -> ModelContract {
    ModelContract {
        enforced,
        columns,
        renames: NameMap::new(),
    }
}

fn kind<'a>(changes: &'a [ContractChange], column: &str) -> Option<&'a ContractChange> {
    changes.iter().find(|change| change.column == column)
}

#[test]
fn identical_contracts_diff_empty() {
    let contract = contract(
        true,
        vec![column("id", Some(DataType::BigInt), Some(false))],
    );
    assert!(contract_diff(Some(&contract), Some(&contract.clone())).is_empty());
}

#[test]
fn added_column_is_safe() {
    let previous = contract(true, vec![column("id", None, None)]);
    let desired = contract(
        true,
        vec![column("id", None, None), column("note", None, Some(true))],
    );
    let changes = contract_diff(Some(&previous), Some(&desired));
    let change = kind(&changes, "note").unwrap();
    assert_eq!(change.kind, "added");
    assert_eq!(change.safety, ContractSafety::Safe);
}

#[test]
fn removed_column_is_breaking() {
    let previous = contract(
        true,
        vec![column("id", None, None), column("legacy", None, None)],
    );
    let desired = contract(true, vec![column("id", None, None)]);
    let changes = contract_diff(Some(&previous), Some(&desired));
    let change = kind(&changes, "legacy").unwrap();
    assert_eq!(change.kind, "removed");
    assert_eq!(change.safety, ContractSafety::Breaking);
    assert_eq!(breaking_contract_changes(&changes).len(), 1);
}

#[test]
fn declared_rename_is_breaking() {
    // Declaring a rename proves intent, not compatibility: consumers
    // selecting `old_name` break, so promotion must see it.
    let previous = contract(
        true,
        vec![column("id", None, None), column("old_name", None, None)],
    );
    let mut desired = contract(
        true,
        vec![column("id", None, None), column("new_name", None, None)],
    );
    desired
        .renames
        .insert("new_name".to_string(), "old_name".to_string());
    let changes = contract_diff(Some(&previous), Some(&desired));
    let change = kind(&changes, "new_name").unwrap();
    assert_eq!(change.kind, "renamed");
    assert_eq!(change.safety, ContractSafety::Breaking);
    assert!(kind(&changes, "old_name").is_none());
    assert_eq!(breaking_contract_changes(&changes).len(), 1);
}

#[test]
fn ambiguous_renames_resolve_nothing() {
    // Two new columns claiming the same old name cannot both be the rename:
    // the removal stays breaking and both additions report.
    let previous = contract(
        true,
        vec![column("id", None, None), column("old_name", None, None)],
    );
    let mut desired = contract(
        true,
        vec![
            column("id", None, None),
            column("new_a", None, None),
            column("new_b", None, None),
        ],
    );
    desired
        .renames
        .insert("new_a".to_string(), "old_name".to_string());
    desired
        .renames
        .insert("new_b".to_string(), "old_name".to_string());
    let changes = contract_diff(Some(&previous), Some(&desired));
    let removed = changes
        .iter()
        .find(|change| change.column == "old_name" && change.kind == "removed")
        .expect("old_name removal");
    assert_eq!(removed.safety, ContractSafety::Breaking);
    assert_eq!(kind(&changes, "new_a").unwrap().kind, "added");
    assert_eq!(kind(&changes, "new_b").unwrap().kind, "added");
    let ambiguous = changes
        .iter()
        .find(|change| change.kind == "rename_ambiguous")
        .expect("ambiguity must be reported");
    assert_eq!(ambiguous.safety, ContractSafety::Review);
}

#[test]
fn numeric_widening_is_review_incompatible_is_breaking() {
    let previous = contract(
        true,
        vec![
            column("wide", Some(DataType::Integer), None),
            column("kind", Some(DataType::BigInt), None),
        ],
    );
    let desired = contract(
        true,
        vec![
            column("wide", Some(DataType::BigInt), None),
            column("kind", Some(DataType::Varchar), None),
        ],
    );
    let changes = contract_diff(Some(&previous), Some(&desired));
    assert_eq!(
        kind(&changes, "wide").unwrap().safety,
        ContractSafety::Review
    );
    assert_eq!(
        kind(&changes, "kind").unwrap().safety,
        ContractSafety::Breaking
    );
}

#[test]
fn nullability_relax_breaks_tighten_reviews() {
    // Downstream direction: losing the NOT NULL guarantee breaks consumers;
    // gaining it can only reject producer data.
    let previous = contract(
        true,
        vec![
            column("tight", None, Some(true)),
            column("loose", None, Some(false)),
        ],
    );
    let desired = contract(
        true,
        vec![
            column("tight", None, Some(false)),
            column("loose", None, Some(true)),
        ],
    );
    let changes = contract_diff(Some(&previous), Some(&desired));
    assert_eq!(
        kind(&changes, "tight").unwrap().safety,
        ContractSafety::Review
    );
    assert_eq!(
        kind(&changes, "loose").unwrap().safety,
        ContractSafety::Breaking
    );
}

#[test]
fn enforcement_off_is_breaking_on_is_review() {
    let enforced = contract(true, vec![column("id", None, None)]);
    let relaxed = contract(false, vec![column("id", None, None)]);
    let off = contract_diff(Some(&enforced), Some(&relaxed));
    assert_eq!(off[0].kind, "enforcement_changed");
    assert_eq!(off[0].safety, ContractSafety::Breaking);
    let on = contract_diff(Some(&relaxed), Some(&enforced));
    assert_eq!(on[0].kind, "enforcement_changed");
    assert_eq!(on[0].safety, ContractSafety::Review);
}

#[test]
fn dropped_contract_is_breaking_new_contract_is_safe() {
    let existing = contract(true, vec![column("id", None, None)]);
    let dropped = contract_diff(Some(&existing), None);
    assert_eq!(dropped[0].kind, "contract_removed");
    assert_eq!(dropped[0].safety, ContractSafety::Breaking);
    let declared = contract_diff(None, Some(&existing));
    assert_eq!(declared[0].kind, "contract_added");
    assert_eq!(declared[0].safety, ContractSafety::Safe);
    assert!(contract_diff(None, None).is_empty());
}

#[test]
fn stale_rename_is_ignored() {
    // A rename whose new name is not in the desired contract cannot explain
    // the old column's removal.
    let previous = contract(true, vec![column("old_name", None, None)]);
    let mut desired = contract(true, Vec::new());
    desired
        .renames
        .insert("not_present".to_string(), "old_name".to_string());
    let changes = contract_diff(Some(&previous), Some(&desired));
    assert_eq!(kind(&changes, "old_name").unwrap().kind, "removed");
}

#[test]
fn rename_to_an_existing_column_does_not_hide_removal() {
    // `new_name` was already a contract column before: claiming `old_name`
    // became it is ambiguous, so the removal stays breaking.
    let previous = contract(
        true,
        vec![
            column("id", None, None),
            column("new_name", None, None),
            column("old_name", None, None),
        ],
    );
    let mut desired = contract(
        true,
        vec![column("id", None, None), column("new_name", None, None)],
    );
    desired
        .renames
        .insert("new_name".to_string(), "old_name".to_string());
    let changes = contract_diff(Some(&previous), Some(&desired));
    let change = kind(&changes, "old_name").unwrap();
    assert_eq!(change.kind, "removed");
    assert_eq!(change.safety, ContractSafety::Breaking);
}

#[test]
fn key_changes_classify() {
    let key = |columns: &[&str]| -> RecordedKey {
        RecordedKey::Known(Some(vec![columns.iter().map(|c| c.to_string()).collect()]))
    };
    let was = key(&["id"]);
    let now = key(&["batch_id"]);
    let same = key(&["id"]);
    let none = RecordedKey::Known(None);

    assert!(key_change(&was, same.as_deref()).is_none());
    assert!(key_change(&none, None).is_none());

    let changed = key_change(&was, now.as_deref()).expect("key_changed");
    assert_eq!(changed.kind, "key_changed");
    assert_eq!(changed.safety, ContractSafety::Breaking);

    let removed = key_change(&was, None).expect("key_removed");
    assert_eq!(removed.kind, "key_removed");
    assert_eq!(removed.safety, ContractSafety::Breaking);

    let added = key_change(&none, now.as_deref()).expect("key_added");
    assert_eq!(added.kind, "key_added");
    assert_eq!(added.safety, ContractSafety::Review);

    // A composite key split into separate unique claims is a different
    // identity: it reports, not silently equal.
    let composite = key(&["a", "b"]);
    let separate = RecordedKey::Known(Some(vec![vec!["a".to_string()], vec!["b".to_string()]]));
    assert!(key_change(&composite, separate.as_deref()).is_some());

    // A record that cannot prove its historical key fails closed, whether the
    // workspace declares a key or not.
    for desired in [None, now.as_deref()] {
        let unverifiable = key_change(&RecordedKey::Unknown, desired).expect("key_unverifiable");
        assert_eq!(unverifiable.kind, "key_unverifiable");
        assert_eq!(unverifiable.safety, ContractSafety::Breaking);
    }
}
