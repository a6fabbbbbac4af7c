//! Promotion audit evidence. The evidence a promotion relies on is persisted in
//! the state store as immutable records, so that a shared backend carries it
//! across stages and machines, and exported to workspace artifacts
//! (`branch_diff.json`, `lineage_diff.json`, `environment*.json`) for
//! inspection. A single-model `diff.json` is never promotion evidence: it
//! examined one model and cannot certify a branch's schema.
//!
//! Reads are store-first. The artifact files remain the compatibility path: a
//! workspace that only has files keeps working, and file evidence a store has
//! not seen is imported so that it becomes portable from then on. The functions
//! here decide whether the evidence authorises a promotion; the caller reads
//! files and decodes payloads.

use vstd::arithmetic::power::pow;
use vstd::prelude::*;
use vstd::string::*;
use vstd::utf8::encode_utf8;

use crate::artifacts::{LineageDiffArtifact, LineageDiffArtifactView};
use crate::branch_diff::{
    keys_of, names_in, BranchDiffReport, BranchDiffReportView, DatasetDiff, DatasetDiffView,
    DatasetKind, ModelSchemaDiff, ModelSchemaDiffView, SideRecords, SideRecordsView,
};
use crate::contracts::{
    contract_changes, contract_diff, effective_key, key_change, key_difference, model_key,
    ContractChange, ContractChangeView, ContractSafety, RecordedKey, RecordedKeyView,
};
use crate::diff::{DiffReport, DiffReportView, SchemaChange, SchemaChangeView};
use crate::environment::{
    alphanumeric, is_alphanumeric, trim_trailing, without_trailing, EnvironmentSetup,
    EnvironmentSetupView,
};
use crate::error::{engine_error_text, EngineError, EngineErrorView};
use crate::names::{named, NameMap};
use crate::seqs::{
    first_where, gather, lemma_first_ends, lemma_first_step, lemma_gather_ends, lemma_gather_step,
};
use crate::state::{
    key_on_record, EvidenceKind, EvidenceRecord, EvidenceRecordView, MaterializedRecord,
    MaterializedRecordView,
};
use crate::store::{
    decoded_rows, evidence_about, evidence_of, evidence_times, first_per_pair, is_corruption_of,
    is_evidence, is_newest_first, readable, StateTables, StateTablesView,
};
use crate::text::{
    ascii_lower, begins, begins_with, cat2, cat3, cat4, cat5, cat6, chars_of, digit, ends,
    ends_with, fixed_hex, hex, lower, none_of, put, put_all, same, same_option, text_of, DeepClone,
};
use crate::util::{
    earlier, earlier_than, fresh_id, is_timestamp, is_uuid_text, json_value, now_rfc3339,
    parse_json,
};
use crate::workspace::{Compilation, CompiledModel, CompiledModelView};

verus! {

/// A reference's form in a file name: letters in lower case, each run of other
/// characters folded to one `_`, none at the start.
pub open spec fn file_folded(reference: Seq<char>) -> Seq<char>
    decreases reference.len(),
{
    if reference.len() == 0 {
        Seq::empty()
    } else {
        let before = file_folded(reference.drop_last());
        if is_alphanumeric(reference.last()) {
            before.push(ascii_lower(reference.last()))
        } else if reference.len() > 1 && is_alphanumeric(reference[reference.len() - 2]) {
            before.push('_')
        } else {
            before
        }
    }
}

/// The 32-bit FNV-1a hash of bytes.
pub open spec fn fnv1a(bytes: Seq<u8>) -> u32
    decreases bytes.len(),
{
    if bytes.len() == 0 {
        0x811c9dc5
    } else {
        (fnv1a(bytes.drop_last()) ^ (bytes.last() as u32)).wrapping_mul(0x0100_0193)
    }
}

/// The file that a candidate's environment is exported to.
pub open spec fn environment_file(reference: Seq<char>) -> Seq<char> {
    without_trailing("environment_"@ + file_folded(reference)) + "_"@ + fixed_hex(
        fnv1a(encode_utf8(reference)) as nat,
        8,
    ) + ".json"@
}

fn hash_bytes(bytes: &[u8]) -> (r: u32)
    ensures
        r == fnv1a(bytes@),
{
    let mut hash: u32 = 0x811c9dc5;
    assert(bytes@.take(0) =~= Seq::<u8>::empty());
    for i in 0..bytes.len()
        invariant
            hash == fnv1a(bytes@.take(i as int)),
    {
        assert(bytes@.take(i as int + 1).drop_last() =~= bytes@.take(i as int));
        hash = (hash ^ (bytes[i] as u32)).wrapping_mul(0x0100_0193);
    }
    assert(bytes@.take(bytes@.len() as int) =~= bytes@);
    hash
}

/// The per-candidate environment artifact file: `environment_<ref>_<hash>.json`
/// with characters unsafe in a filename folded to `_`. Folding can collide
/// (`ci/pr-1` vs `ci_pr_1`), and a ref of nothing but unsafe characters
/// collapses to `environment`; the FNV-1a suffix keeps every ref's evidence its
/// own file, and stays stable across builds.
pub fn environment_artifact_name(reference: &str) -> (r: String)
    ensures
        r@ == environment_file(reference@),
{
    let given: Vec<char> = chars_of(reference);
    let mut name: Vec<char> = chars_of("environment_");
    assert(given@.take(0) =~= Seq::<char>::empty());
    assert(name@ =~= "environment_"@ + file_folded(given@.take(0)));
    for i in 0..given.len()
        invariant
            given@ == reference@,
            name@ == "environment_"@ + file_folded(given@.take(i as int)),
    {
        let ghost grown = given@.take(i as int + 1);
        assert(grown.drop_last() =~= given@.take(i as int));
        if alphanumeric(given[i]) {
            name.push(lower(given[i]));
        } else if i > 0 && alphanumeric(given[i - 1]) {
            name.push('_');
        }
        assert(name@ =~= "environment_"@ + file_folded(grown));
    }
    assert(given@.take(given@.len() as int) =~= given@);
    assert(name@.take(name@.len() as int) =~= name@);
    let end: usize = trim_trailing(&name, name.len());
    let sanitized: String = text_of(name.as_slice(), 0, end);
    assert(sanitized@ =~= name@.take(end as int));
    let hash: u32 = hash_bytes(reference.as_bytes());
    cat4(sanitized.as_str(), "_", hex(hash as u64, 8).as_str(), ".json")
}

/// A character of an environment's file name before the extension.
pub open spec fn is_name_char(c: char) -> bool {
    ('a' <= c && c <= 'z') || ('0' <= c && c <= '9') || c == '_'
}

/// A digit as it is written in hexadecimal.
pub open spec fn is_hex_char(c: char) -> bool {
    ('0' <= c && c <= '9') || ('a' <= c && c <= 'f')
}

proof fn lemma_folded_chars(reference: Seq<char>)
    ensures
        forall|i: int|
            0 <= i < file_folded(reference).len() ==> is_name_char(
                #[trigger] file_folded(reference)[i],
            ),
    decreases reference.len(),
{
    if reference.len() > 0 {
        let before = file_folded(reference.drop_last());
        let now = file_folded(reference);
        lemma_folded_chars(reference.drop_last());
        assert forall|i: int| 0 <= i < now.len() implies is_name_char(#[trigger] now[i]) by {
            if i < before.len() {
                assert(now[i] == before[i]);
            } else if is_alphanumeric(reference.last()) {
                assert(now[i] == ascii_lower(reference.last()));
            } else {
                assert(now[i] == '_');
            }
        }
    }
}

proof fn lemma_trailing_prefix(text: Seq<char>, kept: int)
    requires
        0 <= kept < text.len(),
        text[kept] != '_',
    ensures
        kept < without_trailing(text).len() <= text.len(),
        without_trailing(text) == text.take(without_trailing(text).len() as int),
    decreases text.len(),
{
    if text.last() == '_' {
        lemma_trailing_prefix(text.drop_last(), kept);
        let n = without_trailing(text).len() as int;
        assert(text.drop_last().take(n) =~= text.take(n));
    } else {
        assert(text.take(text.len() as int) =~= text);
    }
}

proof fn lemma_hex_chars(n: nat, width: nat)
    ensures
        fixed_hex(n, width).len() == width,
        forall|i: int| 0 <= i < width ==> is_hex_char(#[trigger] fixed_hex(n, width)[i]),
    decreases width,
{
    if width > 0 {
        lemma_hex_chars(n / 16, (width - 1) as nat);
        let last = (n % 16) as int;
        assert(is_hex_char(digit(last)));
    }
}

proof fn lemma_hex_tells_apart(a: nat, b: nat, width: nat)
    requires
        a < pow(16, width),
        b < pow(16, width),
        fixed_hex(a, width) == fixed_hex(b, width),
    ensures
        a == b,
    decreases width,
{
    reveal(pow);
    if width > 0 {
        let shorter = (width - 1) as nat;
        let x = fixed_hex(a / 16, shorter);
        let y = fixed_hex(b / 16, shorter);
        let p = digit((a % 16) as int);
        let q = digit((b % 16) as int);
        assert(x.push(p).drop_last() =~= x);
        assert(y.push(q).drop_last() =~= y);
        assert(x.push(p).last() == p);
        assert(y.push(q).last() == q);
        assert(pow(16, width) == 16 * pow(16, shorter));
        lemma_hex_tells_apart(a / 16, b / 16, shorter);
    }
}

/// Every environment's file name starts with `environment_` and ends in `_`, the
/// eight hexadecimal digits of the reference's hash and `.json`. Before the
/// extension it holds lower-case letters, digits and `_` alone.
pub proof fn law_environment_file_form(reference: Seq<char>)
    ensures
        begins(environment_file(reference), "environment_"@),
        ends(
            environment_file(reference),
            "_"@ + fixed_hex(fnv1a(encode_utf8(reference)) as nat, 8) + ".json"@,
        ),
        fixed_hex(fnv1a(encode_utf8(reference)) as nat, 8).len() == 8,
        forall|i: int|
            0 <= i < 8 ==> is_hex_char(
                #[trigger] fixed_hex(fnv1a(encode_utf8(reference)) as nat, 8)[i],
            ),
        forall|i: int|
            0 <= i < environment_file(reference).len() - ".json"@.len() ==> is_name_char(
                #[trigger] environment_file(reference)[i],
            ),
{
    reveal_strlit("environment_");
    reveal_strlit("_");
    reveal_strlit(".json");
    let whole = "environment_"@ + file_folded(reference);
    let stem = without_trailing(whole);
    let digits = fixed_hex(fnv1a(encode_utf8(reference)) as nat, 8);
    let name = environment_file(reference);
    assert(whole[10] == 't');
    lemma_trailing_prefix(whole, 10);
    lemma_folded_chars(reference);
    lemma_hex_chars(fnv1a(encode_utf8(reference)) as nat, 8);
    let size = stem.len() as int;
    assert(name.take(12) =~= "environment_"@) by {
        assert forall|i: int| 0 <= i < 12 implies name[i] == "environment_"@[i] by {
            if i < size {
                assert(name[i] == stem[i]);
                assert(stem[i] == whole[i]);
            }
        }
    }
    assert(name.skip(name.len() - 14) =~= "_"@ + digits + ".json"@);
    assert forall|i: int| 0 <= i < name.len() - 5 implies is_name_char(#[trigger] name[i]) by {
        if i < size {
            assert(name[i] == whole[i]);
            if i >= 12 {
                assert(whole[i] == file_folded(reference)[i - 12]);
            }
        } else if i > size {
            assert(name[i] == digits[i - size - 1]);
        }
    }
}

/// References whose hashes differ have files of their own, however alike they
/// fold.
pub proof fn law_environment_files_differ(a: Seq<char>, b: Seq<char>)
    requires
        fnv1a(encode_utf8(a)) != fnv1a(encode_utf8(b)),
    ensures
        environment_file(a) != environment_file(b),
{
    let x = fnv1a(encode_utf8(a)) as nat;
    let y = fnv1a(encode_utf8(b)) as nat;
    if environment_file(a) == environment_file(b) {
        reveal_strlit(".json");
        lemma_hex_chars(x, 8);
        lemma_hex_chars(y, 8);
        let name = environment_file(a);
        let end = name.len() - 5;
        assert(name.subrange(end - 8, end) =~= fixed_hex(x, 8));
        assert(name.subrange(end - 8, end) =~= fixed_hex(y, 8));
        assert(pow(16, 8) == 0x1_0000_0000) by {
            reveal_with_fuel(pow, 9);
        }
        lemma_hex_tells_apart(x, y, 8);
    }
}

/// One step of the hash, over numbers that are written out.
proof fn lemma_hash_step(bytes: Seq<u8>, i: int, hash: u32, byte: u8, mixed: u32, next: u32)
    requires
        0 <= i < bytes.len(),
        bytes[i] == byte,
        fnv1a(bytes.take(i)) == hash,
        hash ^ (byte as u32) == mixed,
        mixed * 0x0100_0193 % 0x1_0000_0000 == next,
    ensures
        fnv1a(bytes.take(i + 1)) == next,
{
    assert(bytes.take(i + 1).drop_last() =~= bytes.take(i));
}

proof fn lemma_slashed_hash()
    ensures
        fnv1a(encode_utf8("ci/pr-1"@)) == 0xa371411e,
{
    reveal_strlit("ci/pr-1");
    let bytes = encode_utf8("ci/pr-1"@);
    assert(bytes =~= seq![0x63u8, 0x69u8, 0x2fu8, 0x70u8, 0x72u8, 0x2du8, 0x31u8]) by {
        assert(vstd::utf8::is_ascii_chars("ci/pr-1"@));
        vstd::utf8::is_ascii_chars_encode_utf8("ci/pr-1"@);
    }
    assert(bytes.take(0) =~= Seq::empty());
    assert(0x811c9dc5u32 ^ 0x63u32 == 0x811c9da6u32) by (bit_vector);
    lemma_hash_step(bytes, 0, 0x811c9dc5, 0x63, 0x811c9da6, 0xe60c2c52);
    assert(0xe60c2c52u32 ^ 0x69u32 == 0xe60c2c3bu32) by (bit_vector);
    lemma_hash_step(bytes, 1, 0xe60c2c52, 0x69, 0xe60c2c3b, 0x6029a0e1);
    assert(0x6029a0e1u32 ^ 0x2fu32 == 0x6029a0ceu32) by (bit_vector);
    lemma_hash_step(bytes, 2, 0x6029a0e1, 0x2f, 0x6029a0ce, 0x2f88244a);
    assert(0x2f88244au32 ^ 0x70u32 == 0x2f88243au32) by (bit_vector);
    lemma_hash_step(bytes, 3, 0x2f88244a, 0x70, 0x2f88243a, 0x0d51074e);
    assert(0x0d51074eu32 ^ 0x72u32 == 0x0d51073cu32) by (bit_vector);
    lemma_hash_step(bytes, 4, 0x0d51074e, 0x72, 0x0d51073c, 0x328e6374);
    assert(0x328e6374u32 ^ 0x2du32 == 0x328e6359u32) by (bit_vector);
    lemma_hash_step(bytes, 5, 0x328e6374, 0x2d, 0x328e6359, 0xef26651b);
    assert(0xef26651bu32 ^ 0x31u32 == 0xef26652au32) by (bit_vector);
    lemma_hash_step(bytes, 6, 0xef26651b, 0x31, 0xef26652a, 0xa371411e);
    assert(bytes.take(7) =~= bytes);
}

proof fn lemma_underscored_hash()
    ensures
        fnv1a(encode_utf8("ci_pr_1"@)) == 0x789b8290,
{
    reveal_strlit("ci_pr_1");
    let bytes = encode_utf8("ci_pr_1"@);
    assert(bytes =~= seq![0x63u8, 0x69u8, 0x5fu8, 0x70u8, 0x72u8, 0x5fu8, 0x31u8]) by {
        assert(vstd::utf8::is_ascii_chars("ci_pr_1"@));
        vstd::utf8::is_ascii_chars_encode_utf8("ci_pr_1"@);
    }
    assert(bytes.take(0) =~= Seq::empty());
    assert(0x811c9dc5u32 ^ 0x63u32 == 0x811c9da6u32) by (bit_vector);
    lemma_hash_step(bytes, 0, 0x811c9dc5, 0x63, 0x811c9da6, 0xe60c2c52);
    assert(0xe60c2c52u32 ^ 0x69u32 == 0xe60c2c3bu32) by (bit_vector);
    lemma_hash_step(bytes, 1, 0xe60c2c52, 0x69, 0xe60c2c3b, 0x6029a0e1);
    assert(0x6029a0e1u32 ^ 0x5fu32 == 0x6029a0beu32) by (bit_vector);
    lemma_hash_step(bytes, 2, 0x6029a0e1, 0x5f, 0x6029a0be, 0x1f880b1a);
    assert(0x1f880b1au32 ^ 0x70u32 == 0x1f880b6au32) by (bit_vector);
    lemma_hash_step(bytes, 3, 0x1f880b1a, 0x70, 0x1f880b6a, 0x0d29f7de);
    assert(0x0d29f7deu32 ^ 0x72u32 == 0x0d29f7acu32) by (bit_vector);
    lemma_hash_step(bytes, 4, 0x0d29f7de, 0x72, 0x0d29f7ac, 0x6510e3c4);
    assert(0x6510e3c4u32 ^ 0x5fu32 == 0x6510e39bu32) by (bit_vector);
    lemma_hash_step(bytes, 5, 0x6510e3c4, 0x5f, 0x6510e39b, 0xb4964d01);
    assert(0xb4964d01u32 ^ 0x31u32 == 0xb4964d30u32) by (bit_vector);
    lemma_hash_step(bytes, 6, 0xb4964d01, 0x31, 0xb4964d30, 0x789b8290);
    assert(bytes.take(7) =~= bytes);
}

/// `ci/pr-1` and `ci_pr_1` fold alike, and each still has a file of its own.
pub proof fn law_references_that_fold_alike_keep_their_files()
    ensures
        begins(environment_file("ci/pr-1"@), "environment_ci_pr_1_"@),
        begins(environment_file("ci_pr_1"@), "environment_ci_pr_1_"@),
        environment_file("ci/pr-1"@) != environment_file("ci_pr_1"@),
{
    lemma_slashed_hash();
    lemma_underscored_hash();
    law_environment_files_differ("ci/pr-1"@, "ci_pr_1"@);
    lemma_documented_folding("ci/pr-1"@, '/', '-');
    lemma_documented_folding("ci_pr_1"@, '_', '_');
}

proof fn lemma_documented_folding(reference: Seq<char>, first: char, second: char)
    requires
        (reference == "ci/pr-1"@ && first == '/' && second == '-') || (reference == "ci_pr_1"@
            && first == '_' && second == '_'),
    ensures
        begins(environment_file(reference), "environment_ci_pr_1_"@),
{
    reveal_strlit("ci/pr-1");
    reveal_strlit("ci_pr_1");
    reveal_strlit("environment_");
    reveal_strlit("environment_ci_pr_1_");
    reveal_strlit("_");
    assert(reference =~= seq!['c', 'i', first, 'p', 'r', second, '1']);
    reveal_with_fuel(file_folded, 8);
    assert(file_folded(reference) =~= seq!['c', 'i', '_', 'p', 'r', '_', '1']);
    let whole = "environment_"@ + file_folded(reference);
    assert(whole.last() == '1');
    assert(environment_file(reference).take(20) =~= "environment_ci_pr_1_"@);
}

/// Whether a file in the artifacts directory is an environment's.
pub fn is_environment_file(name: &str) -> (r: bool)
    ensures
        r == (begins(name@, "environment"@) && ends(name@, ".json"@)),
{
    begins_with(name, "environment") && ends_with(name, ".json")
}

/// The identity an evidence record is given: a fresh one, and the time.
#[derive(Clone, Debug, PartialEq, Eq)]
pub struct EvidenceStamp {
    pub evidence_id: String,
    pub now: String,
}

/// The contents of a [`EvidenceStamp`].
pub struct EvidenceStampView {
    pub evidence_id: Seq<char>,
    pub now: Seq<char>,
}

impl DeepView for EvidenceStamp {
    type V = EvidenceStampView;

    open spec fn deep_view(&self) -> EvidenceStampView {
        EvidenceStampView {
            evidence_id: self.evidence_id@,
            now: self.now@,
        }
    }
}

impl DeepClone for EvidenceStamp {
    fn deep_clone(&self) -> (copy: Self) {
        EvidenceStamp {
            evidence_id: self.evidence_id.deep_clone(),
            now: self.now.deep_clone(),
        }
    }
}

impl EvidenceStamp {
    /// A fresh identity at the present time.
    pub fn fresh() -> (stamp: Self)
        ensures
            is_uuid_text(stamp.evidence_id@),
            is_timestamp(stamp.now@),
    {
        EvidenceStamp { evidence_id: fresh_id(), now: now_rfc3339() }
    }
}

/// The evidence that an environment's setup is.
pub open spec fn environment_row(
    setup: EnvironmentSetupView,
    payload: Seq<char>,
    stamp: EvidenceStampView,
) -> EvidenceRecordView {
    EvidenceRecordView {
        evidence_id: stamp.evidence_id,
        kind: EvidenceKind::Environment,
        subject: setup.candidate.name,
        target_ref: match setup.created_from {
            Some(base) => base.name,
            None => Seq::empty(),
        },
        candidate_hash: Some(setup.candidate.hash),
        target_hash: match setup.created_from {
            Some(base) => Some(base.hash),
            None => None,
        },
        fingerprint: None,
        payload,
        run_id: None,
        created_at: stamp.now,
    }
}

/// The evidence record an environment's setup maps to; `payload` is the setup as
/// JSON. The commit columns carry the candidate head and the cut-from base when
/// recorded.
pub fn environment_record(setup: &EnvironmentSetup, payload: &str, stamp: &EvidenceStamp) -> (r:
    EvidenceRecord)
    ensures
        r.deep_view() == environment_row(setup.deep_view(), payload@, stamp.deep_view()),
{
    let (target_ref, target_hash): (String, Option<String>) = match &setup.created_from {
        Some(base) => (base.name.clone(), Some(base.hash.clone())),
        None => (String::new(), None),
    };
    EvidenceRecord {
        evidence_id: stamp.evidence_id.clone(),
        kind: EvidenceKind::Environment,
        subject: setup.candidate.name.clone(),
        target_ref,
        candidate_hash: Some(setup.candidate.hash.clone()),
        target_hash,
        fingerprint: None,
        payload: payload.to_owned(),
        run_id: None,
        created_at: stamp.now.clone(),
    }
}

/// The evidence that a branch diff is.
pub open spec fn branch_diff_row(
    report: BranchDiffReportView,
    payload: Seq<char>,
    stamp: EvidenceStampView,
) -> EvidenceRecordView {
    EvidenceRecordView {
        evidence_id: stamp.evidence_id,
        kind: EvidenceKind::BranchDiff,
        subject: report.candidate_ref,
        target_ref: report.base_ref,
        candidate_hash: report.candidate_hash,
        target_hash: report.base_hash,
        fingerprint: None,
        payload,
        run_id: None,
        created_at: report.finished_at,
    }
}

/// The evidence record a branch diff maps to; `payload` is the report as JSON.
/// It is dated by the report's own finish time, so that a file import and a live
/// write order identically: the report's clock is what the evidence attests.
pub fn branch_diff_record(report: &BranchDiffReport, payload: &str, stamp: &EvidenceStamp) -> (r:
    EvidenceRecord)
    ensures
        r.deep_view() == branch_diff_row(report.deep_view(), payload@, stamp.deep_view()),
{
    EvidenceRecord {
        evidence_id: stamp.evidence_id.clone(),
        kind: EvidenceKind::BranchDiff,
        subject: report.candidate_ref.clone(),
        target_ref: report.base_ref.clone(),
        candidate_hash: report.candidate_hash.deep_clone(),
        target_hash: report.base_hash.deep_clone(),
        fingerprint: None,
        payload: payload.to_owned(),
        run_id: None,
        created_at: report.finished_at.clone(),
    }
}

/// The candidate that a lineage diff speaks for, if any.
pub open spec fn lineage_subject(artifact: LineageDiffArtifactView) -> Option<Seq<char>> {
    match artifact.environment {
        Some(binding) => Some(binding.candidate_ref),
        None => artifact.candidate.git_ref,
    }
}

/// The target that a lineage diff speaks for.
pub open spec fn lineage_target(artifact: LineageDiffArtifactView) -> Seq<char> {
    match artifact.environment {
        Some(binding) => binding.target_ref,
        None => artifact.base_ref,
    }
}

/// The candidate ref a lineage-diff artifact speaks for: its Nessie environment
/// binding's candidate when bound, else the Git ref recorded at diff time.
pub fn lineage_diff_subject(artifact: &LineageDiffArtifact) -> (r: Option<String>)
    ensures
        r.deep_view() == lineage_subject(artifact.deep_view()),
{
    match &artifact.environment {
        Some(binding) => Some(binding.candidate_ref.clone()),
        None => artifact.candidate.git_ref.deep_clone(),
    }
}

/// The target ref a lineage-diff artifact speaks for: its Nessie binding's
/// target when bound, else the Git base ref it diffed against.
pub fn lineage_diff_target(artifact: &LineageDiffArtifact) -> (r: String)
    ensures
        r@ == lineage_target(artifact.deep_view()),
{
    match &artifact.environment {
        Some(binding) => binding.target_ref.clone(),
        None => artifact.base_ref.clone(),
    }
}

/// The evidence that a lineage diff is.
pub open spec fn lineage_diff_row(
    artifact: LineageDiffArtifactView,
    payload: Seq<char>,
    stamp: EvidenceStampView,
) -> EvidenceRecordView {
    EvidenceRecordView {
        evidence_id: stamp.evidence_id,
        kind: EvidenceKind::LineageDiff,
        subject: match lineage_subject(artifact) {
            Some(subject) => subject,
            None => Seq::empty(),
        },
        target_ref: lineage_target(artifact),
        candidate_hash: match artifact.environment {
            Some(binding) => Some(binding.candidate_hash),
            None => artifact.candidate.head,
        },
        target_hash: match artifact.environment {
            Some(binding) => Some(binding.target_hash),
            None => Some(artifact.base_commit),
        },
        fingerprint: artifact.candidate.lineage_hash,
        payload,
        run_id: None,
        created_at: match artifact.created_at {
            Some(created_at) => created_at,
            None => stamp.now,
        },
    }
}

/// The evidence record a lineage diff maps to; `payload` is the artifact as
/// JSON.
pub fn lineage_diff_record(
    artifact: &LineageDiffArtifact,
    payload: &str,
    stamp: &EvidenceStamp,
) -> (r: EvidenceRecord)
    ensures
        r.deep_view() == lineage_diff_row(artifact.deep_view(), payload@, stamp.deep_view()),
{
    let (candidate_hash, target_hash): (Option<String>, Option<String>) =
        match &artifact.environment {
        Some(binding) => (Some(binding.candidate_hash.clone()), Some(binding.target_hash.clone())),
        None => (artifact.candidate.head.deep_clone(), Some(artifact.base_commit.clone())),
    };
    EvidenceRecord {
        evidence_id: stamp.evidence_id.clone(),
        kind: EvidenceKind::LineageDiff,
        subject: match lineage_diff_subject(artifact) {
            Some(subject) => subject,
            None => String::new(),
        },
        target_ref: lineage_diff_target(artifact),
        candidate_hash,
        target_hash,
        fingerprint: artifact.candidate.lineage_hash.deep_clone(),
        payload: payload.to_owned(),
        run_id: None,
        created_at: match &artifact.created_at {
            Some(created_at) => created_at.clone(),
            None => stamp.now.clone(),
        },
    }
}

/// JSON text in its compact form; text that is no JSON as it is.
pub open spec fn compact(payload: Seq<char>) -> Seq<char> {
    match json_value(payload) {
        Ok(value) => value,
        Err(_) => payload,
    }
}

fn compacted(payload: &str) -> (r: String)
    ensures
        r@ == compact(payload@),
{
    match parse_json(payload) {
        Ok(value) => value,
        Err(_) => payload.to_owned(),
    }
}

/// Picks a record, as it is read, that already stands for the given one: for the
/// same target, of the same instant or with the same payload.
pub open spec fn stands_for(record: EvidenceRecordView) -> spec_fn(EvidenceRecordView) -> bool {
    |existing: EvidenceRecordView|
        existing.target_ref == record.target_ref && (existing.created_at == record.created_at
            || existing.payload == compact(record.payload))
}

/// The failure to read the evidence store.
pub open spec fn unreadable_store(error: EngineErrorView) -> EngineErrorView {
    EngineErrorView::State("cannot read the evidence store: "@ + engine_error_text(error))
}

/// The failure to persist evidence.
pub open spec fn unpersisted(record: EvidenceRecordView) -> EngineErrorView {
    EngineErrorView::State(
        "cannot persist "@ + record.kind.text() + " evidence for `"@ + record.subject
            + "` to the state store: "@ + engine_error_text(
            EngineErrorView::State("UNIQUE constraint failed: evidence.evidence_id"@),
        ),
    )
}

/// An import's outcome.
pub open spec fn outcome_view(r: Result<Option<String>, EngineError>) -> Result<
    Option<Seq<char>>,
    EngineErrorView,
> {
    match r {
        Ok(id) => Ok(id.deep_view()),
        Err(error) => Err(error.deep_view()),
    }
}

/// Whether importing a record turns the tables `before` into `after` with the
/// given outcome: evidence that cannot be read fails it; a record that already
/// stands for the given one is named; else the given one is appended, unless its
/// id is taken.
pub open spec fn is_imported(
    before: StateTablesView,
    given: EvidenceRecordView,
    after: StateTablesView,
    outcome: Result<Option<Seq<char>>, EngineErrorView>,
) -> bool {
    let rows = gather(before.evidence, evidence_about(given.kind, given.subject));
    if !readable(rows) {
        &&& after == before
        &&& exists|cause: EngineErrorView|
            #[trigger] is_corruption_of(rows, cause) && outcome == Err::<
                Option<Seq<char>>,
                EngineErrorView,
            >(unreadable_store(cause))
    } else {
        exists|list: Seq<EvidenceRecordView>|
            #[trigger] is_newest_first(decoded_rows(rows), evidence_times(rows), list) && (
            match first_where(list, stands_for(given)) {
                Some(existing) => after == before && outcome == Ok::<
                    Option<Seq<char>>,
                    EngineErrorView,
                >(Some(existing.evidence_id)),
                None => if first_where(before.evidence, is_evidence(given.evidence_id)) is Some {
                    after == before && outcome == Err::<Option<Seq<char>>, EngineErrorView>(
                        unpersisted(given),
                    )
                } else {
                    after == (StateTablesView { evidence: before.evidence.push(given), ..before })
                        && outcome == Ok::<Option<Seq<char>>, EngineErrorView>(
                        Some(given.evidence_id),
                    )
                },
            })
    }
}

fn find_standing(records: &Vec<EvidenceRecord>, record: &EvidenceRecord) -> (r: Option<String>)
    ensures
        r.deep_view() == match first_where(records.deep_view(), stands_for(record.deep_view())) {
            Some(existing) => Some(existing.evidence_id),
            None => None,
        },
{
    let payload: String = compacted(record.payload.as_str());
    let ghost views = records.deep_view();
    let ghost p = stands_for(record.deep_view());
    proof {
        lemma_first_ends(views, p);
    }
    for i in 0..records.len()
        invariant
            views == records.deep_view(),
            p == stands_for(record.deep_view()),
            payload@ == compact(record.payload@),
            first_where(views, p) == first_where(views.skip(i as int), p),
    {
        proof {
            lemma_first_step(views, i as int, p);
        }
        assert(views[i as int] == records@[i as int].deep_view());
        if same(records[i].target_ref.as_str(), record.target_ref.as_str()) && (same(
            records[i].created_at.as_str(),
            record.created_at.as_str(),
        ) || same(records[i].payload.as_str(), payload.as_str())) {
            return Some(records[i].evidence_id.clone());
        }
    }
    proof {
        lemma_first_ends(views, p);
    }
    None
}

/// Append evidence the store does not already carry, and give the id of the
/// record that stands for it: the one already persisted, else the one just
/// written. A read that reaches an artifact naming a different subject would
/// otherwise import it again on every call. Identical payloads count as one too,
/// since artifacts without a time of their own are dated when they are imported.
///
/// With a store configured the store is the authority: evidence that cannot be
/// persisted may not audit at all.
pub fn import_evidence(state: &mut StateTables, record: &EvidenceRecord) -> (r: Result<
    Option<String>,
    EngineError,
>)
    ensures
        is_imported(
            old(state).deep_view(),
            record.deep_view(),
            final(state).deep_view(),
            outcome_view(r),
        ),
{
    let records: Vec<EvidenceRecord> = match state.evidence_for(
        record.kind,
        record.subject.as_str(),
    ) {
        Ok(records) => records,
        Err(error) => {
            return Err(
                EngineError::State(
                    cat2("cannot read the evidence store: ", error.message_text().as_str()),
                ),
            );
        },
    };
    if let Some(id) = find_standing(&records, record) {
        return Ok(Some(id));
    }
    match state.record_evidence(record) {
        Ok(()) => Ok(Some(record.evidence_id.clone())),
        Err(error) => Err(
            EngineError::State(
                cat6(
                    "cannot persist ",
                    record.kind.as_str(),
                    " evidence for `",
                    record.subject.as_str(),
                    "` to the state store: ",
                    error.message_text().as_str(),
                ),
            ),
        ),
    }
}

/// Record a lineage diff in the store. An artifact that speaks for no candidate
/// has nothing to bind the evidence to, and is not recorded: no lookup could
/// reach it.
pub fn persist_lineage_evidence(
    state: &mut StateTables,
    artifact: &LineageDiffArtifact,
    payload: &str,
    stamp: &EvidenceStamp,
) -> (r: Result<(), EngineError>)
    ensures
        ({
            let before = old(state).deep_view();
            let record = lineage_diff_row(artifact.deep_view(), payload@, stamp.deep_view());
            if lineage_subject(artifact.deep_view()) is None {
                r == Ok::<(), EngineError>(()) && final(state).deep_view() == before
            } else if first_where(before.evidence, is_evidence(stamp.evidence_id@)) is Some {
                &&& final(state).deep_view() == before
                &&& r matches Err(e) && e.deep_view() == EngineErrorView::State(
                    "UNIQUE constraint failed: evidence.evidence_id"@,
                )
            } else {
                &&& r == Ok::<(), EngineError>(())
                &&& final(state).deep_view() == (StateTablesView {
                    evidence: before.evidence.push(record),
                    ..before
                })
            }
        }),
{
    if lineage_diff_subject(artifact).is_none() {
        return Ok(());
    }
    let record: EvidenceRecord = lineage_diff_record(artifact, payload, stamp);
    state.record_evidence(&record)
}

/// Record a branch diff in the store.
pub fn persist_branch_diff(
    state: &mut StateTables,
    report: &BranchDiffReport,
    payload: &str,
    stamp: &EvidenceStamp,
) -> (r: Result<(), EngineError>)
    ensures
        ({
            let before = old(state).deep_view();
            let record = branch_diff_row(report.deep_view(), payload@, stamp.deep_view());
            if first_where(before.evidence, is_evidence(stamp.evidence_id@)) is Some {
                &&& final(state).deep_view() == before
                &&& r matches Err(e) && e.deep_view() == EngineErrorView::State(
                    engine_error_text(
                        EngineErrorView::State("UNIQUE constraint failed: evidence.evidence_id"@),
                    ),
                )
            } else {
                &&& r == Ok::<(), EngineError>(())
                &&& final(state).deep_view() == (StateTablesView {
                    evidence: before.evidence.push(record),
                    ..before
                })
            }
        }),
{
    let record: EvidenceRecord = branch_diff_record(report, payload, stamp);
    match state.record_evidence(&record) {
        Ok(()) => Ok(()),
        Err(error) => Err(EngineError::State(error.message_text())),
    }
}

/// Whether the newest record of an environment, as it is read, already says what
/// a new one would.
pub open spec fn already_recorded(
    newest: Option<EvidenceRecordView>,
    record: EvidenceRecordView,
) -> bool {
    newest is Some && newest->0.target_ref == record.target_ref && newest->0.payload == compact(
        record.payload,
    )
}

/// Whether the newest record of an environment already says what a new one
/// would. The newest record is the live binding, and an identical one is already
/// what every read resolves; a changed binding (or changed base) is recorded and
/// becomes the live one.
pub fn binding_unchanged(records: &Vec<EvidenceRecord>, record: &EvidenceRecord) -> (r: bool)
    ensures
        r == already_recorded(
            (if records@.len() == 0 {
                None
            } else {
                Some(records.deep_view()[0])
            }),
            record.deep_view(),
        ),
{
    if records.len() == 0 {
        return false;
    }
    assert(records.deep_view()[0] == records@[0].deep_view());
    same(records[0].target_ref.as_str(), record.target_ref.as_str()) && same(
        records[0].payload.as_str(),
        compacted(record.payload.as_str()).as_str(),
    )
}

/// A stored payload as the caller decoded it.
#[derive(Clone, Debug, PartialEq, Eq)]
pub enum SetupReading {
    Setup { setup: EnvironmentSetup },
    Undecodable { message: String },
}

/// The contents of a [`SetupReading`].
pub enum SetupReadingView {
    Setup { setup: EnvironmentSetupView },
    Undecodable { message: Seq<char> },
}

impl DeepView for SetupReading {
    type V = SetupReadingView;

    open spec fn deep_view(&self) -> SetupReadingView {
        match self {
            SetupReading::Setup { setup } => SetupReadingView::Setup { setup: setup.deep_view() },
            SetupReading::Undecodable { message } => SetupReadingView::Undecodable {
                message: message@,
            },
        }
    }
}

impl DeepClone for SetupReading {
    fn deep_clone(&self) -> (copy: Self) {
        match self {
            SetupReading::Setup { setup } => SetupReading::Setup { setup: setup.deep_clone() },
            SetupReading::Undecodable { message } => SetupReading::Undecodable {
                message: message.deep_clone(),
            },
        }
    }
}

/// What is known of a candidate's environment.
#[derive(Clone, Debug, PartialEq, Eq)]
pub enum EnvironmentLookup {
    /// The store's record speaks.
    Recorded { setup: EnvironmentSetup, evidence_id: String },
    /// A file speaks; with a store configured it is imported first.
    Exported { setup: EnvironmentSetup },
    Unknown,
}

/// The contents of a [`EnvironmentLookup`].
pub enum EnvironmentLookupView {
    Recorded { setup: EnvironmentSetupView, evidence_id: Seq<char> },
    Exported { setup: EnvironmentSetupView },
    Unknown,
}

impl DeepView for EnvironmentLookup {
    type V = EnvironmentLookupView;

    open spec fn deep_view(&self) -> EnvironmentLookupView {
        match self {
            EnvironmentLookup::Recorded { setup, evidence_id } => EnvironmentLookupView::Recorded {
                setup: setup.deep_view(),
                evidence_id: evidence_id@,
            },
            EnvironmentLookup::Exported { setup } => EnvironmentLookupView::Exported {
                setup: setup.deep_view(),
            },
            EnvironmentLookup::Unknown => EnvironmentLookupView::Unknown,
        }
    }
}

impl DeepClone for EnvironmentLookup {
    fn deep_clone(&self) -> (copy: Self) {
        match self {
            EnvironmentLookup::Recorded { setup, evidence_id } => EnvironmentLookup::Recorded {
                setup: setup.deep_clone(),
                evidence_id: evidence_id.deep_clone(),
            },
            EnvironmentLookup::Exported { setup } => EnvironmentLookup::Exported {
                setup: setup.deep_clone(),
            },
            EnvironmentLookup::Unknown => EnvironmentLookup::Unknown,
        }
    }
}

/// The failure to decode an environment's record.
pub open spec fn undecodable_environment(message: Seq<char>) -> EngineErrorView {
    EngineErrorView::State("undecodable environment evidence: "@ + message)
}

/// The setup that describes a candidate, if a given one does.
pub open spec fn describing(setup: Option<EnvironmentSetupView>, candidate: Seq<char>) -> Option<
    EnvironmentSetupView,
> {
    match setup {
        Some(given) => if given.candidate.name == candidate {
            Some(given)
        } else {
            None
        },
        None => None,
    }
}

fn setup_describing(setup: &Option<EnvironmentSetup>, candidate: &str) -> (r: Option<
    EnvironmentSetup,
>)
    ensures
        r.deep_view() == describing(setup.deep_view(), candidate@),
{
    match setup {
        Some(given) => if same(given.candidate.name.as_str(), candidate) {
            Some(given.deep_clone())
        } else {
            None
        },
        None => None,
    }
}

/// The setup that the artifact files hold for a candidate: its own file, then
/// the single slot, which only describes the candidate provisioned last.
pub open spec fn setup_in_files(
    own: Option<EnvironmentSetupView>,
    slot: Option<EnvironmentSetupView>,
    candidate: Seq<char>,
) -> Option<EnvironmentSetupView> {
    match describing(own, candidate) {
        Some(setup) => Some(setup),
        None => describing(slot, candidate),
    }
}

/// The setup that the artifact files hold for a candidate.
pub fn read_environment_files(
    candidate: &str,
    own: &Option<EnvironmentSetup>,
    slot: &Option<EnvironmentSetup>,
) -> (r: Option<EnvironmentSetup>)
    ensures
        r.deep_view() == setup_in_files(own.deep_view(), slot.deep_view(), candidate@),
{
    match setup_describing(own, candidate) {
        Some(setup) => Some(setup),
        None => setup_describing(slot, candidate),
    }
}

/// The recorded provisioning setup for a specific candidate. The store's newest
/// record alone speaks: one that does not decode, or that decodes to another
/// candidate's binding, fails rather than resurrect a binding that it
/// superseded. Without a record the artifact files speak.
pub open spec fn environment_lookup(
    candidate: Seq<char>,
    newest: Option<(Seq<char>, SetupReadingView)>,
    own: Option<EnvironmentSetupView>,
    slot: Option<EnvironmentSetupView>,
) -> Result<EnvironmentLookupView, EngineErrorView> {
    match newest {
        Some(record) => match record.1 {
            SetupReadingView::Undecodable { message } => Err(undecodable_environment(message)),
            SetupReadingView::Setup { setup } => if setup.candidate.name == candidate {
                Ok(EnvironmentLookupView::Recorded { setup, evidence_id: record.0 })
            } else {
                Err(
                    EngineErrorView::State(
                        "environment evidence recorded for `"@ + candidate
                            + "` decodes to a binding for `"@ + setup.candidate.name + "`"@,
                    ),
                )
            },
        },
        None => match setup_in_files(own, slot, candidate) {
            Some(setup) => Ok(EnvironmentLookupView::Exported { setup }),
            None => Ok(EnvironmentLookupView::Unknown),
        },
    }
}

/// The recorded provisioning setup for a specific candidate, from the newest
/// record of the store (its id and decoded payload) and the artifact files.
pub fn read_environment_evidence(
    candidate: &str,
    newest: &Option<(String, SetupReading)>,
    own: &Option<EnvironmentSetup>,
    slot: &Option<EnvironmentSetup>,
) -> (r: Result<EnvironmentLookup, EngineError>)
    ensures
        match environment_lookup(
            candidate@,
            newest.deep_view(),
            own.deep_view(),
            slot.deep_view(),
        ) {
            Ok(lookup) => r matches Ok(x) && x.deep_view() == lookup,
            Err(error) => r matches Err(e) && e.deep_view() == error,
        },
{
    match newest {
        Some(record) => match &record.1 {
            SetupReading::Undecodable { message } => Err(
                EngineError::State(cat2("undecodable environment evidence: ", message.as_str())),
            ),
            SetupReading::Setup { setup } => if same(setup.candidate.name.as_str(), candidate) {
                Ok(
                    EnvironmentLookup::Recorded {
                        setup: setup.deep_clone(),
                        evidence_id: record.0.clone(),
                    },
                )
            } else {
                Err(
                    EngineError::State(
                        cat5(
                            "environment evidence recorded for `",
                            candidate,
                            "` decodes to a binding for `",
                            setup.candidate.name.as_str(),
                            "`",
                        ),
                    ),
                )
            },
        },
        None => match read_environment_files(candidate, own, slot) {
            Some(setup) => Ok(EnvironmentLookup::Exported { setup }),
            None => Ok(EnvironmentLookup::Unknown),
        },
    }
}

/// Whether the setups hold one for a candidate.
pub open spec fn knows_candidate(setups: Seq<EnvironmentSetupView>, candidate: Seq<char>) -> bool {
    exists|i: int| 0 <= i < setups.len() && (#[trigger] setups[i]).candidate.name == candidate
}

fn candidate_is_known(setups: &Vec<EnvironmentSetup>, candidate: &str) -> (r: bool)
    ensures
        r == knows_candidate(setups.deep_view(), candidate@),
{
    let ghost views = setups.deep_view();
    for i in 0..setups.len()
        invariant
            views == setups.deep_view(),
            forall|k: int| 0 <= k < i ==> (#[trigger] views[k]).candidate.name != candidate@,
    {
        assert(views[i as int] == setups@[i as int].deep_view());
        if same(setups[i].candidate.name.as_str(), candidate) {
            return true;
        }
    }
    false
}

/// The live bindings among the first `k` records, newest first: only a
/// candidate's newest record claims its catalog. One that does not decode fails
/// the whole, since it could hide the claim being checked for.
pub open spec fn live_bindings(readings: Seq<SetupReadingView>, k: nat) -> Result<
    Seq<EnvironmentSetupView>,
    EngineErrorView,
>
    decreases k,
{
    if k == 0 {
        Ok(Seq::empty())
    } else {
        match live_bindings(readings, (k - 1) as nat) {
            Err(error) => Err(error),
            Ok(before) => match readings[k - 1] {
                SetupReadingView::Undecodable { message } => Err(undecodable_environment(message)),
                SetupReadingView::Setup { setup } => if knows_candidate(
                    before,
                    setup.candidate.name,
                ) {
                    Ok(before)
                } else {
                    Ok(before.push(setup))
                },
            },
        }
    }
}

/// The setups with those of the first `k` files added whose candidates are not
/// known yet.
pub open spec fn with_files(
    known: Seq<EnvironmentSetupView>,
    files: Seq<EnvironmentSetupView>,
    k: nat,
) -> Seq<EnvironmentSetupView>
    decreases k,
{
    if k == 0 {
        known
    } else {
        let before = with_files(known, files, (k - 1) as nat);
        if knows_candidate(before, files[k - 1].candidate.name) {
            before
        } else {
            before.push(files[k - 1])
        }
    }
}

proof fn lemma_bindings_fail(readings: Seq<SetupReadingView>, i: nat)
    requires
        i <= readings.len(),
        live_bindings(readings, i) is Err,
    ensures
        live_bindings(readings, readings.len()) == live_bindings(readings, i),
    decreases readings.len() - i,
{
    if i < readings.len() {
        lemma_bindings_fail(readings, i + 1);
    }
}

proof fn lemma_files_extend(
    known: Seq<EnvironmentSetupView>,
    files: Seq<EnvironmentSetupView>,
    k: nat,
)
    ensures
        known.len() <= with_files(known, files, k).len(),
        with_files(known, files, k).take(known.len() as int) == known,
    decreases k,
{
    if k == 0 {
        assert(known.take(known.len() as int) =~= known);
    } else {
        lemma_files_extend(known, files, (k - 1) as nat);
        assert(with_files(known, files, k).take(known.len() as int) =~= with_files(
            known,
            files,
            (k - 1) as nat,
        ).take(known.len() as int));
    }
}

/// Every recorded environment binding: the live record per candidate, plus the
/// artifact files of candidates the store does not know, in the order found. The
/// second result counts those that the store knows; the setups after them came
/// from files, and are imported where a store is configured.
pub fn environment_artifacts(readings: &Vec<SetupReading>, files: &Vec<EnvironmentSetup>) -> (r:
    Result<(Vec<EnvironmentSetup>, usize), EngineError>)
    ensures
        match live_bindings(readings.deep_view(), readings@.len()) {
            Err(error) => r matches Err(e) && e.deep_view() == error,
            Ok(known) => r matches Ok(found) && found.0.deep_view() == with_files(
                known,
                files.deep_view(),
                files@.len(),
            ) && found.1 == known.len() && found.0.deep_view().take(found.1 as int) == known,
        },
{
    let ghost reads = readings.deep_view();
    let ghost exported = files.deep_view();
    let mut setups: Vec<EnvironmentSetup> = none_of();
    for i in 0..readings.len()
        invariant
            reads == readings.deep_view(),
            live_bindings(reads, i as nat) == Ok::<Seq<EnvironmentSetupView>, EngineErrorView>(
                setups.deep_view(),
            ),
    {
        assert(reads[i as int] == readings@[i as int].deep_view());
        match &readings[i] {
            SetupReading::Undecodable { message } => {
                proof {
                    lemma_bindings_fail(reads, (i + 1) as nat);
                }
                return Err(
                    EngineError::State(
                        cat2("undecodable environment evidence: ", message.as_str()),
                    ),
                );
            },
            SetupReading::Setup { setup } => {
                if !candidate_is_known(&setups, setup.candidate.name.as_str()) {
                    put(&mut setups, setup.deep_clone());
                }
            },
        }
    }
    let ghost known = setups.deep_view();
    assert(known.len() == setups@.len());
    let recorded: usize = setups.len();
    for i in 0..files.len()
        invariant
            exported == files.deep_view(),
            setups.deep_view() == with_files(known, exported, i as nat),
    {
        assert(exported[i as int] == files@[i as int].deep_view());
        if !candidate_is_known(&setups, files[i].candidate.name.as_str()) {
            put(&mut setups, files[i].deep_clone());
        }
    }
    proof {
        lemma_files_extend(known, exported, files@.len());
    }
    Ok((setups, recorded))
}

/// What a model's breaking change is called.
pub open spec fn break_text(model: Seq<char>, change: ContractChangeView) -> Seq<char> {
    (if change.column.len() == 0 {
        model
    } else {
        model + "."@ + change.column
    }) + ": contract "@ + change.detail
}

/// Names a breaking change of a model.
pub open spec fn break_of(model: Seq<char>) -> spec_fn(ContractChangeView) -> Seq<Seq<char>> {
    |change: ContractChangeView|
        if change.safety == ContractSafety::Breaking {
            seq![break_text(model, change)]
        } else {
            Seq::empty()
        }
}

/// Every change between a model's recorded contract and its desired one, its key
/// last. The effective key is compared against the key the target's
/// materialisation persisted; a model never materialised has none.
pub open spec fn model_changes(
    model: CompiledModelView,
    record: Option<MaterializedRecordView>,
) -> Seq<ContractChangeView> {
    let contracts = contract_changes(
        match record {
            Some(row) => row.contract,
            None => None,
        },
        model.contract,
    );
    match key_difference(
        match record {
            Some(row) => key_on_record(row),
            None => RecordedKeyView::Known(None),
        },
        model_key(model),
    ) {
        Some(change) => contracts.push(change),
        None => contracts,
    }
}

/// The breaking changes of a model against what is recorded of it.
pub open spec fn breaks_of_model(base: Seq<(Seq<char>, MaterializedRecordView)>) -> spec_fn(
    CompiledModelView,
) -> Seq<Seq<char>> {
    |model: CompiledModelView|
        gather(model_changes(model, named(base, model.id)), break_of(model.id))
}

fn changes_of(model: &CompiledModel, record: Option<&MaterializedRecord>) -> (r: Vec<
    ContractChange,
>)
    ensures
        r.deep_view() == model_changes(model.deep_view(), record.deep_view()),
{
    let recorded: Option<&MaterializedRecord> = record;
    let mut changes: Vec<ContractChange> = match recorded {
        Some(row) => contract_diff(row.contract.as_ref(), model.contract.as_ref()),
        None => contract_diff(None, model.contract.as_ref()),
    };
    let key: RecordedKey = match recorded {
        Some(row) => row.recorded_key(),
        None => RecordedKey::Known(None),
    };
    let desired: Option<Vec<Vec<String>>> = effective_key(model);
    let difference: Option<ContractChange> = match &desired {
        Some(claims) => {
            let list: &[Vec<String>] = claims.as_slice();
            assert(list.deep_view() =~= claims.deep_view());
            key_change(&key, Some(list))
        },
        None => key_change(&key, None),
    };
    if let Some(change) = difference {
        put(&mut changes, change);
    }
    changes
}

fn breaks_in(model: &str, items: &Vec<ContractChange>) -> (r: Vec<String>)
    ensures
        r.deep_view() == gather(items.deep_view(), break_of(model@)),
{
    let ghost views = items.deep_view();
    let ghost f = break_of(model@);
    proof {
        lemma_gather_ends(views, f);
    }
    let mut r: Vec<String> = none_of();
    for i in 0..items.len()
        invariant
            views == items.deep_view(),
            f == break_of(model@),
            r.deep_view() == gather(views.take(i as int), f),
    {
        proof {
            lemma_gather_step(views, i as int, f);
        }
        let ghost before = r.deep_view();
        assert(views[i as int] == items@[i as int].deep_view());
        if items[i].safety == ContractSafety::Breaking {
            let column: Vec<char> = chars_of(items[i].column.as_str());
            let subject: String = if column.len() == 0 {
                model.to_owned()
            } else {
                cat3(model, ".", items[i].column.as_str())
            };
            put(&mut r, cat3(subject.as_str(), ": contract ", items[i].detail.as_str()));
        }
        assert(r.deep_view() =~= before + f(views[i as int]));
    }
    r
}

/// Breaking contract changes between the contracts recorded for the target (by
/// model name) and the desired workspace contracts: computed live at promotion
/// time, never from a stored artifact, so that an edit after `diff` cannot
/// bypass promotion.
pub fn contract_breaking_changes(
    base: &NameMap<MaterializedRecord>,
    compilation: &Compilation,
) -> (r: Vec<String>)
    ensures
        r.deep_view() == gather(
            compilation.deep_view().models,
            breaks_of_model(base.deep_view()),
        ),
{
    let items: &Vec<CompiledModel> = &compilation.models;
    let ghost views = items.deep_view();
    let ghost f = breaks_of_model(base.deep_view());
    proof {
        lemma_gather_ends(views, f);
    }
    let mut r: Vec<String> = none_of();
    for i in 0..items.len()
        invariant
            views == items.deep_view(),
            f == breaks_of_model(base.deep_view()),
            r.deep_view() == gather(views.take(i as int), f),
    {
        proof {
            lemma_gather_step(views, i as int, f);
        }
        let ghost before = r.deep_view();
        assert(views[i as int] == items@[i as int].deep_view());
        let record: Option<&MaterializedRecord> = base.get(items[i].id.as_str());
        let changes: Vec<ContractChange> = changes_of(&items[i], record);
        put_all(&mut r, breaks_in(items[i].id.as_str(), &changes));
        assert(r.deep_view() =~= before + f(views[i as int]));
    }
    r
}

/// What the persisted diff artifacts prove for a promotion.
#[derive(Clone, Debug, PartialEq, Eq)]
pub struct AuditEvidence {
    /// The audited diff's verdict, when an applicable artifact was inspected.
    pub diff_passed: Option<bool>,
    /// Why the artifact cannot stand as evidence, when rejected.
    pub diff_rejected: Option<String>,
    /// Breaking schema changes the audit recorded.
    pub breaking_schema_changes: Vec<String>,
    /// The base commit the artifact audited: a second provenance source for the
    /// base gate when branch-cut provenance is unavailable.
    pub audited_base_hash: Option<String>,
    /// A fresh, ref-and-commit-bound audit actually inspected this pair. `false`
    /// means "no evidence", which must never read as "no changes": a promotion is
    /// refused without it.
    pub schema_audited: bool,
    /// The id of the evidence record this audit resolved through. `None` when
    /// the consulted evidence was a file that never reached the store.
    pub diff_evidence_id: Option<String>,
}

/// The contents of a [`AuditEvidence`].
pub struct AuditEvidenceView {
    pub diff_passed: Option<bool>,
    pub diff_rejected: Option<Seq<char>>,
    pub breaking_schema_changes: Seq<Seq<char>>,
    pub audited_base_hash: Option<Seq<char>>,
    pub schema_audited: bool,
    pub diff_evidence_id: Option<Seq<char>>,
}

impl DeepView for AuditEvidence {
    type V = AuditEvidenceView;

    open spec fn deep_view(&self) -> AuditEvidenceView {
        AuditEvidenceView {
            diff_passed: self.diff_passed.deep_view(),
            diff_rejected: self.diff_rejected.deep_view(),
            breaking_schema_changes: self.breaking_schema_changes.deep_view(),
            audited_base_hash: self.audited_base_hash.deep_view(),
            schema_audited: self.schema_audited,
            diff_evidence_id: self.diff_evidence_id.deep_view(),
        }
    }
}

impl DeepClone for AuditEvidence {
    fn deep_clone(&self) -> (copy: Self) {
        AuditEvidence {
            diff_passed: self.diff_passed.deep_clone(),
            diff_rejected: self.diff_rejected.deep_clone(),
            breaking_schema_changes: self.breaking_schema_changes.deep_clone(),
            audited_base_hash: self.audited_base_hash.deep_clone(),
            schema_audited: self.schema_audited,
            diff_evidence_id: self.diff_evidence_id.deep_clone(),
        }
    }
}

/// No evidence.
pub open spec fn no_evidence() -> AuditEvidenceView {
    AuditEvidenceView {
        diff_passed: None,
        diff_rejected: None,
        breaking_schema_changes: Seq::empty(),
        audited_base_hash: None,
        schema_audited: false,
        diff_evidence_id: None,
    }
}

impl Default for AuditEvidence {
    fn default() -> (r: Self)
        ensures
            r.deep_view() == no_evidence(),
    {
        AuditEvidence {
            diff_passed: None,
            diff_rejected: None,
            breaking_schema_changes: none_of(),
            audited_base_hash: None,
            schema_audited: false,
            diff_evidence_id: None,
        }
    }
}

/// Which branch-diff evidence speaks for a promotion.
#[derive(Clone, Debug, PartialEq, Eq)]
pub enum DiffChoice {
    /// The artifact file.
    File,
    /// The candidate's record at this position.
    Record { index: usize },
    /// Nothing of the candidate's: the newest record anywhere, so that a
    /// rejection can name what was audited instead.
    Anywhere,
}

/// The contents of a [`DiffChoice`].
pub enum DiffChoiceView {
    File,
    Record { index: usize },
    Anywhere,
}

impl DeepView for DiffChoice {
    type V = DiffChoiceView;

    open spec fn deep_view(&self) -> DiffChoiceView {
        match self {
            DiffChoice::File => DiffChoiceView::File,
            DiffChoice::Record { index } => DiffChoiceView::Record { index: *index },
            DiffChoice::Anywhere => DiffChoiceView::Anywhere,
        }
    }
}

impl DeepClone for DiffChoice {
    fn deep_clone(&self) -> (copy: Self) {
        match self {
            DiffChoice::File => DiffChoice::File,
            DiffChoice::Record { index } => DiffChoice::Record { index: *index },
            DiffChoice::Anywhere => DiffChoice::Anywhere,
        }
    }
}

/// The position of the first record against a target.
pub open spec fn pair_position(records: Seq<EvidenceRecordView>, to: Seq<char>) -> Option<int>
    decreases records.len(),
{
    if records.len() == 0 {
        None
    } else {
        match pair_position(records.drop_last(), to) {
            Some(i) => Some(i),
            None => if records.last().target_ref == to {
                Some(records.len() - 1)
            } else {
                None
            },
        }
    }
}

fn find_pair(records: &Vec<EvidenceRecord>, to: &str) -> (r: Option<usize>)
    ensures
        match pair_position(records.deep_view(), to@) {
            Some(i) => r matches Some(k) && k == i && k < records@.len(),
            None => r is None,
        },
{
    let ghost views = records.deep_view();
    let mut found: Option<usize> = None;
    assert(views.take(0) =~= Seq::<EvidenceRecordView>::empty());
    for i in 0..records.len()
        invariant
            views == records.deep_view(),
            match pair_position(views.take(i as int), to@) {
                Some(k) => found matches Some(j) && j == k && j < i,
                None => found is None,
            },
    {
        assert(views[i as int] == records@[i as int].deep_view());
        assert(views.take(i as int + 1).drop_last() =~= views.take(i as int));
        if found.is_none() && same(records[i].target_ref.as_str(), to) {
            found = Some(i);
        }
    }
    assert(views.take(views.len() as int) =~= views);
    found
}

/// Whether the file outranks the store's record: it names this exact pair, and
/// it is later than the record for the pair or there is none.
pub open spec fn file_outranks(
    names_pair: bool,
    file_time: Option<Seq<char>>,
    record_time: Option<Seq<char>>,
) -> bool {
    names_pair && match record_time {
        Some(recorded) => file_time is Some && earlier(recorded, file_time->0),
        None => true,
    }
}

fn outranks(names_pair: bool, file_time: Option<&str>, record_time: Option<&str>) -> (r: bool)
    ensures
        r == file_outranks(names_pair, file_time.deep_view(), record_time.deep_view()),
{
    if !names_pair {
        return false;
    }
    match record_time {
        Some(recorded) => match file_time {
            Some(time) => earlier_than(recorded, time),
            None => false,
        },
        None => true,
    }
}

/// The time of the record for the pair.
pub open spec fn pair_time(records: Seq<EvidenceRecordView>, to: Seq<char>) -> Option<Seq<char>> {
    match pair_position(records, to) {
        Some(i) => Some(records[i].created_at),
        None => None,
    }
}

/// Which branch-diff evidence speaks for a promotion: the artifact file when it
/// names this exact pair and is later than the store's record for it, else the
/// store's record for this pair, else whatever the candidate's newest evidence
/// covers, so that a rejection names it.
pub open spec fn diff_choice(
    candidate: Seq<char>,
    to: Seq<char>,
    file: Option<BranchDiffReportView>,
    records: Seq<EvidenceRecordView>,
) -> DiffChoiceView {
    let outranked = match file {
        Some(report) => file_outranks(
            report.candidate_ref == candidate && report.base_ref == to,
            Some(report.finished_at),
            pair_time(records, to),
        ),
        None => false,
    };
    if outranked {
        DiffChoiceView::File
    } else {
        match pair_position(records, to) {
            Some(i) => DiffChoiceView::Record { index: i as usize },
            None => if records.len() > 0 {
                DiffChoiceView::Record { index: 0 }
            } else if file is Some {
                DiffChoiceView::File
            } else {
                DiffChoiceView::Anywhere
            },
        }
    }
}

/// Which branch-diff evidence speaks for a promotion, given the artifact file
/// and the candidate's records, newest first.
pub fn choose_branch_diff(
    candidate: &str,
    to: &str,
    file: &Option<BranchDiffReport>,
    records: &Vec<EvidenceRecord>,
) -> (r: DiffChoice)
    ensures
        r.deep_view() == diff_choice(candidate@, to@, file.deep_view(), records.deep_view()),
        r matches DiffChoice::Record { index } ==> index < records@.len(),
        r is File ==> file is Some,
{
    let pair: Option<usize> = find_pair(records, to);
    let ghost views = records.deep_view();
    assert(views.len() == records@.len());
    let time: Option<&str> = match pair {
        Some(i) => {
            assert(views[i as int] == records@[i as int].deep_view());
            Some(records[i].created_at.as_str())
        },
        None => None,
    };
    assert(time.deep_view() == pair_time(views, to@));
    if let Some(report) = file {
        let names_pair: bool = same(report.candidate_ref.as_str(), candidate) && same(
            report.base_ref.as_str(),
            to,
        );
        if outranks(names_pair, Some(report.finished_at.as_str()), time) {
            return DiffChoice::File;
        }
    }
    match pair {
        Some(i) => DiffChoice::Record { index: i },
        None => if records.len() > 0 {
            DiffChoice::Record { index: 0 }
        } else if file.is_some() {
            DiffChoice::File
        } else {
            DiffChoice::Anywhere
        },
    }
}

/// Where the branch-diff evidence for a promotion comes from.
#[derive(Clone, Debug, PartialEq, Eq)]
pub enum DiffSource {
    /// No branch-diff evidence anywhere.
    Missing,
    /// The artifact file, and the record that stands for it.
    File { evidence_id: Option<String> },
    /// A record, whose payload is to be decoded.
    Record { record: EvidenceRecord },
    /// The evidence cannot be read.
    Corrupt { reason: String },
}

/// The contents of a [`DiffSource`].
pub enum DiffSourceView {
    Missing,
    File { evidence_id: Option<Seq<char>> },
    Record { record: EvidenceRecordView },
    Corrupt { reason: Seq<char> },
}

impl DeepView for DiffSource {
    type V = DiffSourceView;

    open spec fn deep_view(&self) -> DiffSourceView {
        match self {
            DiffSource::Missing => DiffSourceView::Missing,
            DiffSource::File { evidence_id } => DiffSourceView::File {
                evidence_id: evidence_id.deep_view(),
            },
            DiffSource::Record { record } => DiffSourceView::Record { record: record.deep_view() },
            DiffSource::Corrupt { reason } => DiffSourceView::Corrupt { reason: reason@ },
        }
    }
}

impl DeepClone for DiffSource {
    fn deep_clone(&self) -> (copy: Self) {
        match self {
            DiffSource::Missing => DiffSource::Missing,
            DiffSource::File { evidence_id } => DiffSource::File {
                evidence_id: evidence_id.deep_clone(),
            },
            DiffSource::Record { record } => DiffSource::Record { record: record.deep_clone() },
            DiffSource::Corrupt { reason } => DiffSource::Corrupt { reason: reason.deep_clone() },
        }
    }
}

/// Whether `reason` says why rows cannot be read.
pub open spec fn is_read_failure(rows: Seq<EvidenceRecordView>, reason: Seq<char>) -> bool {
    exists|cause: EngineErrorView|
        #[trigger] is_corruption_of(rows, cause) && reason == "cannot read the evidence store: "@
            + engine_error_text(cause)
}

/// Whether `source` is the newest branch-diff record anywhere.
pub open spec fn is_newest_anywhere(tables: StateTablesView, source: DiffSourceView) -> bool {
    let rows = gather(tables.evidence, evidence_of(EvidenceKind::BranchDiff));
    if readable(rows) {
        exists|list: Seq<EvidenceRecordView>|
            #[trigger] is_newest_first(decoded_rows(rows), evidence_times(rows), list) && source
                == (if first_per_pair(list).len() == 0 {
                DiffSourceView::Missing
            } else {
                DiffSourceView::Record { record: first_per_pair(list)[0] }
            })
    } else {
        source matches DiffSourceView::Corrupt { reason } && is_read_failure(rows, reason)
    }
}

/// Whether `source` is what the choice between the file and the candidate's
/// records comes to.
pub open spec fn is_diff_chosen(
    candidate: Seq<char>,
    to: Seq<char>,
    file: Option<BranchDiffReportView>,
    file_id: Option<Seq<char>>,
    list: Seq<EvidenceRecordView>,
    after: StateTablesView,
    source: DiffSourceView,
) -> bool {
    match diff_choice(candidate, to, file, list) {
        DiffChoiceView::File => source == (DiffSourceView::File { evidence_id: file_id }),
        DiffChoiceView::Record { index } => source == (DiffSourceView::Record {
            record: list[index as int],
        }),
        DiffChoiceView::Anywhere => is_newest_anywhere(after, source),
    }
}

/// Whether `source` is where the branch-diff evidence for a promotion comes from,
/// once what the file attests has been imported.
pub open spec fn is_diff_source(
    before: StateTablesView,
    candidate: Seq<char>,
    to: Seq<char>,
    file: Option<BranchDiffReportView>,
    payload: Seq<char>,
    stamp: EvidenceStampView,
    after: StateTablesView,
    source: DiffSourceView,
) -> bool {
    let rows = gather(before.evidence, evidence_about(EvidenceKind::BranchDiff, candidate));
    if !readable(rows) {
        &&& after == before
        &&& source matches DiffSourceView::Corrupt { reason } && is_read_failure(rows, reason)
    } else {
        exists|list: Seq<EvidenceRecordView>|
            #[trigger] is_newest_first(decoded_rows(rows), evidence_times(rows), list) && (
            match file {
                None => after == before && is_diff_chosen(
                    candidate,
                    to,
                    file,
                    None,
                    list,
                    after,
                    source,
                ),
                Some(report) => exists|outcome: Result<Option<Seq<char>>, EngineErrorView>|
                    #[trigger] is_imported(
                        before,
                        branch_diff_row(report, payload, stamp),
                        after,
                        outcome,
                    ) && (match outcome {
                        Err(error) => source == (DiffSourceView::Corrupt {
                            reason: engine_error_text(error),
                        }),
                        Ok(id) => is_diff_chosen(candidate, to, file, id, list, after, source),
                    }),
            })
    }
}

fn newest_anywhere(state: &StateTables) -> (r: DiffSource)
    ensures
        is_newest_anywhere(state.deep_view(), r.deep_view()),
{
    match state.latest_evidence(EvidenceKind::BranchDiff) {
        Ok(latest) => {
            assert(latest.deep_view().len() == latest@.len());
            if latest.len() == 0 {
                DiffSource::Missing
            } else {
                assert(latest.deep_view()[0] == latest@[0].deep_view());
                DiffSource::Record { record: latest[0].deep_clone() }
            }
        },
        Err(error) => {
            assert(is_corruption_of(
                gather(state.deep_view().evidence, evidence_of(EvidenceKind::BranchDiff)),
                error.deep_view(),
            ));
            DiffSource::Corrupt {
                reason: cat2("cannot read the evidence store: ", error.message_text().as_str()),
            }
        },
    }
}

/// Where the branch-diff evidence for a promotion comes from. Whatever the file
/// attests (`payload` is its report as JSON) is first persisted under the subject
/// it names, so that the evidence is portable even when it is not this
/// candidate's; the report still has to pass the checks of [`audited_diff`].
pub fn branch_diff_evidence(
    state: &mut StateTables,
    candidate: &str,
    to: &str,
    file: &Option<BranchDiffReport>,
    payload: &str,
    stamp: &EvidenceStamp,
) -> (r: DiffSource)
    ensures
        is_diff_source(
            old(state).deep_view(),
            candidate@,
            to@,
            file.deep_view(),
            payload@,
            stamp.deep_view(),
            final(state).deep_view(),
            r.deep_view(),
        ),
{
    let ghost before = state.deep_view();
    let ghost rows = gather(before.evidence, evidence_about(EvidenceKind::BranchDiff, candidate@));
    let records: Vec<EvidenceRecord> = match state.evidence_for(
        EvidenceKind::BranchDiff,
        candidate,
    ) {
        Ok(records) => records,
        Err(error) => {
            assert(is_corruption_of(rows, error.deep_view()));
            return DiffSource::Corrupt {
                reason: cat2("cannot read the evidence store: ", error.message_text().as_str()),
            };
        },
    };
    let ghost list = records.deep_view();
    assert(is_newest_first(decoded_rows(rows), evidence_times(rows), list));
    let mut file_id: Option<String> = None;
    if let Some(report) = file {
        let record: EvidenceRecord = branch_diff_record(report, payload, stamp);
        let outcome: Result<Option<String>, EngineError> = import_evidence(state, &record);
        assert(is_imported(
            before,
            branch_diff_row(report.deep_view(), payload@, stamp.deep_view()),
            state.deep_view(),
            outcome_view(outcome),
        ));
        match outcome {
            Ok(id) => {
                file_id = id;
            },
            Err(error) => {
                return DiffSource::Corrupt { reason: error.message_text() };
            },
        }
    }
    let r: DiffSource = match choose_branch_diff(candidate, to, file, &records) {
        DiffChoice::File => DiffSource::File { evidence_id: file_id },
        DiffChoice::Record { index } => {
            assert(list[index as int] == records@[index as int].deep_view());
            DiffSource::Record { record: records[index].deep_clone() }
        },
        DiffChoice::Anywhere => newest_anywhere(state),
    };
    assert(is_diff_chosen(
        candidate@,
        to@,
        file.deep_view(),
        file_id.deep_view(),
        list,
        state.deep_view(),
        r.deep_view(),
    ));
    r
}

/// The lineage artifact file, as it was read.
#[derive(Clone, Debug, PartialEq, Eq)]
pub enum LineageFile {
    Absent,
    Unreadable { message: String },
    Artifact { artifact: LineageDiffArtifact },
}

/// The contents of a [`LineageFile`].
pub enum LineageFileView {
    Absent,
    Unreadable { message: Seq<char> },
    Artifact { artifact: LineageDiffArtifactView },
}

impl DeepView for LineageFile {
    type V = LineageFileView;

    open spec fn deep_view(&self) -> LineageFileView {
        match self {
            LineageFile::Absent => LineageFileView::Absent,
            LineageFile::Unreadable { message } => LineageFileView::Unreadable {
                message: message@,
            },
            LineageFile::Artifact { artifact } => LineageFileView::Artifact {
                artifact: artifact.deep_view(),
            },
        }
    }
}

impl DeepClone for LineageFile {
    fn deep_clone(&self) -> (copy: Self) {
        match self {
            LineageFile::Absent => LineageFile::Absent,
            LineageFile::Unreadable { message } => LineageFile::Unreadable {
                message: message.deep_clone(),
            },
            LineageFile::Artifact { artifact } => LineageFile::Artifact {
                artifact: artifact.deep_clone(),
            },
        }
    }
}

/// Where the lineage-diff evidence for a promotion comes from.
#[derive(Clone, Debug, PartialEq, Eq)]
pub enum LineageSource {
    /// The artifact file, whatever was read of it, and the record that stands
    /// for it.
    File { evidence_id: Option<String> },
    /// A record, whose payload is to be decoded.
    Record { record: EvidenceRecord },
    /// The evidence cannot be read.
    Corrupt { reason: String },
}

/// The contents of a [`LineageSource`].
pub enum LineageSourceView {
    File { evidence_id: Option<Seq<char>> },
    Record { record: EvidenceRecordView },
    Corrupt { reason: Seq<char> },
}

impl DeepView for LineageSource {
    type V = LineageSourceView;

    open spec fn deep_view(&self) -> LineageSourceView {
        match self {
            LineageSource::File { evidence_id } => LineageSourceView::File {
                evidence_id: evidence_id.deep_view(),
            },
            LineageSource::Record { record } => LineageSourceView::Record {
                record: record.deep_view(),
            },
            LineageSource::Corrupt { reason } => LineageSourceView::Corrupt { reason: reason@ },
        }
    }
}

impl DeepClone for LineageSource {
    fn deep_clone(&self) -> (copy: Self) {
        match self {
            LineageSource::File { evidence_id } => LineageSource::File {
                evidence_id: evidence_id.deep_clone(),
            },
            LineageSource::Record { record } => LineageSource::Record {
                record: record.deep_clone(),
            },
            LineageSource::Corrupt { reason } => LineageSource::Corrupt {
                reason: reason.deep_clone(),
            },
        }
    }
}

/// The artifact of a file that could be read.
pub open spec fn readable_artifact(file: LineageFileView) -> Option<LineageDiffArtifactView> {
    match file {
        LineageFileView::Artifact { artifact } => Some(artifact),
        _ => None,
    }
}

/// What the choice between the file and the candidate's records comes to.
pub open spec fn lineage_chosen(
    candidate: Seq<char>,
    to: Seq<char>,
    file: LineageFileView,
    file_id: Option<Seq<char>>,
    list: Seq<EvidenceRecordView>,
) -> LineageSourceView {
    match lineage_choice(candidate, to, readable_artifact(file), list) {
        Some(i) => LineageSourceView::Record { record: list[i] },
        None => LineageSourceView::File { evidence_id: file_id },
    }
}

/// Whether `source` is where the lineage-diff evidence for a promotion comes
/// from, once what the file attests has been imported. A file that cannot be
/// read, or that speaks for no candidate, is not imported.
pub open spec fn is_lineage_source(
    before: StateTablesView,
    candidate: Seq<char>,
    to: Seq<char>,
    file: LineageFileView,
    payload: Seq<char>,
    stamp: EvidenceStampView,
    after: StateTablesView,
    source: LineageSourceView,
) -> bool {
    let rows = gather(before.evidence, evidence_about(EvidenceKind::LineageDiff, candidate));
    if !readable(rows) {
        &&& after == before
        &&& source matches LineageSourceView::Corrupt { reason } && is_read_failure(rows, reason)
    } else {
        exists|list: Seq<EvidenceRecordView>|
            #[trigger] is_newest_first(decoded_rows(rows), evidence_times(rows), list) && (
            match readable_artifact(file) {
                Some(artifact) => if lineage_subject(artifact) is Some {
                    exists|outcome: Result<Option<Seq<char>>, EngineErrorView>|
                        #[trigger] is_imported(
                            before,
                            lineage_diff_row(artifact, payload, stamp),
                            after,
                            outcome,
                        ) && source == (match outcome {
                            Err(error) => LineageSourceView::Corrupt {
                                reason: engine_error_text(error),
                            },
                            Ok(id) => lineage_chosen(candidate, to, file, id, list),
                        })
                } else {
                    after == before && source == lineage_chosen(candidate, to, file, None, list)
                },
                None => after == before && source == lineage_chosen(
                    candidate,
                    to,
                    file,
                    None,
                    list,
                ),
            })
    }
}

/// Where the lineage-diff evidence for a promotion comes from; `payload` is the
/// file's artifact as JSON.
pub fn lineage_diff_evidence(
    state: &mut StateTables,
    candidate: &str,
    to: &str,
    file: &LineageFile,
    payload: &str,
    stamp: &EvidenceStamp,
) -> (r: LineageSource)
    ensures
        is_lineage_source(
            old(state).deep_view(),
            candidate@,
            to@,
            file.deep_view(),
            payload@,
            stamp.deep_view(),
            final(state).deep_view(),
            r.deep_view(),
        ),
{
    let ghost before = state.deep_view();
    let ghost rows = gather(before.evidence, evidence_about(EvidenceKind::LineageDiff, candidate@));
    let records: Vec<EvidenceRecord> = match state.evidence_for(
        EvidenceKind::LineageDiff,
        candidate,
    ) {
        Ok(records) => records,
        Err(error) => {
            assert(is_corruption_of(rows, error.deep_view()));
            return LineageSource::Corrupt {
                reason: cat2("cannot read the evidence store: ", error.message_text().as_str()),
            };
        },
    };
    let ghost list = records.deep_view();
    assert(is_newest_first(decoded_rows(rows), evidence_times(rows), list));
    let artifact: Option<LineageDiffArtifact> = match file {
        LineageFile::Artifact { artifact } => Some(artifact.deep_clone()),
        LineageFile::Absent => None,
        LineageFile::Unreadable { message } => None,
    };
    let mut file_id: Option<String> = None;
    if let Some(given) = &artifact {
        if lineage_diff_subject(given).is_some() {
            let record: EvidenceRecord = lineage_diff_record(given, payload, stamp);
            let outcome: Result<Option<String>, EngineError> = import_evidence(state, &record);
            assert(is_imported(
                before,
                lineage_diff_row(given.deep_view(), payload@, stamp.deep_view()),
                state.deep_view(),
                outcome_view(outcome),
            ));
            match outcome {
                Ok(id) => {
                    file_id = id;
                },
                Err(error) => {
                    return LineageSource::Corrupt { reason: error.message_text() };
                },
            }
        }
    }
    let r: LineageSource = match choose_lineage_diff(candidate, to, &artifact, &records) {
        Some(i) => {
            assert(list[i as int] == records@[i as int].deep_view());
            LineageSource::Record { record: records[i].deep_clone() }
        },
        None => LineageSource::File { evidence_id: file_id },
    };
    assert(r.deep_view() == lineage_chosen(
        candidate@,
        to@,
        file.deep_view(),
        file_id.deep_view(),
        list,
    ));
    r
}

/// Whether recording an environment's setup turns the tables `before` into
/// `after` with the given outcome: evidence that cannot be read fails it, and an
/// unchanged binding is not recorded again.
pub open spec fn is_binding_recorded(
    before: StateTablesView,
    given: EvidenceRecordView,
    after: StateTablesView,
    outcome: Result<(), Seq<char>>,
) -> bool {
    let rows = gather(before.evidence, evidence_about(EvidenceKind::Environment, given.subject));
    if !readable(rows) {
        &&& after == before
        &&& exists|cause: EngineErrorView|
            #[trigger] is_corruption_of(rows, cause) && outcome == Err::<(), Seq<char>>(
                engine_error_text(cause),
            )
    } else {
        exists|list: Seq<EvidenceRecordView>|
            #[trigger] is_newest_first(decoded_rows(rows), evidence_times(rows), list) && (
            if already_recorded(
                if list.len() == 0 {
                    None
                } else {
                    Some(list[0])
                },
                given,
            ) {
                after == before && outcome == Ok::<(), Seq<char>>(())
            } else if first_where(before.evidence, is_evidence(given.evidence_id)) is Some {
                after == before && outcome == Err::<(), Seq<char>>(
                    engine_error_text(
                        EngineErrorView::State("UNIQUE constraint failed: evidence.evidence_id"@),
                    ),
                )
            } else {
                after == (StateTablesView { evidence: before.evidence.push(given), ..before })
                    && outcome == Ok::<(), Seq<char>>(())
            })
    }
}

/// Record an environment's setup (`payload` is the setup as JSON) before its
/// files are written: a read prefers the store, so files written first could be
/// masked by an older record if this write then failed.
pub fn write_environment_artifacts(
    state: &mut StateTables,
    setup: &EnvironmentSetup,
    payload: &str,
    stamp: &EvidenceStamp,
) -> (r: Result<(), String>)
    ensures
        is_binding_recorded(
            old(state).deep_view(),
            environment_row(setup.deep_view(), payload@, stamp.deep_view()),
            final(state).deep_view(),
            match r {
                Ok(()) => Ok::<(), Seq<char>>(()),
                Err(message) => Err(message@),
            },
        ),
{
    let record: EvidenceRecord = environment_record(setup, payload, stamp);
    let ghost before = state.deep_view();
    let ghost rows = gather(
        before.evidence,
        evidence_about(EvidenceKind::Environment, record.subject@),
    );
    let records: Vec<EvidenceRecord> = match state.evidence_for(
        EvidenceKind::Environment,
        record.subject.as_str(),
    ) {
        Ok(records) => records,
        Err(error) => {
            assert(is_corruption_of(rows, error.deep_view()));
            return Err(error.message_text());
        },
    };
    assert(records.deep_view().len() == records@.len());
    assert(is_newest_first(decoded_rows(rows), evidence_times(rows), records.deep_view()));
    if binding_unchanged(&records, &record) {
        return Ok(());
    }
    match state.record_evidence(&record) {
        Ok(()) => Ok(()),
        Err(error) => Err(error.message_text()),
    }
}

/// What the freshest branch-diff evidence holds.
pub enum BranchDiffLookup {
    /// No branch-diff evidence anywhere.
    Missing,
    /// A report, and the id of the store record it resolved through, if any.
    Found { report: BranchDiffReport, evidence_id: Option<String> },
    /// The evidence exists but cannot be read: it is rejected, not skipped.
    Corrupt { reason: String },
}

/// The contents of a [`BranchDiffLookup`].
pub enum BranchDiffLookupView {
    Missing,
    Found { report: BranchDiffReportView, evidence_id: Option<Seq<char>> },
    Corrupt { reason: Seq<char> },
}

impl DeepView for BranchDiffLookup {
    type V = BranchDiffLookupView;

    open spec fn deep_view(&self) -> BranchDiffLookupView {
        match self {
            BranchDiffLookup::Missing => BranchDiffLookupView::Missing,
            BranchDiffLookup::Found { report, evidence_id } => BranchDiffLookupView::Found {
                report: report.deep_view(),
                evidence_id: evidence_id.deep_view(),
            },
            BranchDiffLookup::Corrupt { reason } => BranchDiffLookupView::Corrupt {
                reason: reason@,
            },
        }
    }
}

impl DeepClone for BranchDiffLookup {
    fn deep_clone(&self) -> (copy: Self) {
        match self {
            BranchDiffLookup::Missing => BranchDiffLookup::Missing,
            BranchDiffLookup::Found { report, evidence_id } => BranchDiffLookup::Found {
                report: report.deep_clone(),
                evidence_id: evidence_id.deep_clone(),
            },
            BranchDiffLookup::Corrupt { reason } => BranchDiffLookup::Corrupt {
                reason: reason.deep_clone(),
            },
        }
    }
}

/// What is recorded of one side of a promotion, or why it cannot be read.
pub enum SideReading {
    Records { records: SideRecords },
    Unreadable { message: String },
}

/// The contents of a [`SideReading`].
pub enum SideReadingView {
    Records { records: SideRecordsView },
    Unreadable { message: Seq<char> },
}

impl DeepView for SideReading {
    type V = SideReadingView;

    open spec fn deep_view(&self) -> SideReadingView {
        match self {
            SideReading::Records { records } => SideReadingView::Records {
                records: records.deep_view(),
            },
            SideReading::Unreadable { message } => SideReadingView::Unreadable {
                message: message@,
            },
        }
    }
}

impl DeepClone for SideReading {
    fn deep_clone(&self) -> (copy: Self) {
        match self {
            SideReading::Records { records } => SideReading::Records {
                records: records.deep_clone(),
            },
            SideReading::Unreadable { message } => SideReading::Unreadable {
                message: message.deep_clone(),
            },
        }
    }
}

/// The command that produces a value-level audit.
pub open spec fn full_diff_command(candidate: Seq<char>, to: Seq<char>) -> Seq<char> {
    "`diff --from "@ + candidate + " --to "@ + to + " --full`"@
}

fn command_text(candidate: &str, to: &str) -> (r: String)
    ensures
        r@ == full_diff_command(candidate@, to@),
{
    cat5("`diff --from ", candidate, " --to ", to, " --full`")
}

/// Why a report is not bound to the commit being promoted, if it is not.
pub open spec fn commit_reasons(
    side: Seq<char>,
    recorded: Option<Seq<char>>,
    expected: Option<Seq<char>>,
    command: Seq<char>,
) -> Seq<Seq<char>> {
    match (expected, recorded) {
        (None, _) => Seq::empty(),
        (Some(now), Some(then)) => if then == now {
            Seq::empty()
        } else {
            seq![
                "branch diff audited "@ + side + "@"@ + then + ", not current "@ + side + "@"@ + now
                    + "; rerun "@ + command,
            ]
        },
        (Some(now), None) => seq![
            "branch diff does not record the "@ + side + " commit it audited; rerun "@ + command,
        ],
    }
}

fn commit_complaints(
    side: &str,
    recorded: &Option<String>,
    expected: Option<&str>,
    command: &str,
) -> (r: Vec<String>)
    ensures
        r.deep_view() == commit_reasons(
            side@,
            recorded.deep_view(),
            expected.deep_view(),
            command@,
        ),
{
    let mut reasons: Vec<String> = none_of();
    if let Some(now) = expected {
        match recorded {
            Some(seen) => if !same(seen.as_str(), now) {
                let head: String = cat5("branch diff audited ", side, "@", seen.as_str(), ", not current ");
                put(&mut reasons, cat6(head.as_str(), side, "@", now, "; rerun ", command));
                assert(reasons.deep_view() =~= commit_reasons(
                    side@,
                    recorded.deep_view(),
                    expected.deep_view(),
                    command@,
                ));
            },
            None => {
                put(
                    &mut reasons,
                    cat4(
                        "branch diff does not record the ",
                        side,
                        " commit it audited; rerun ",
                        command,
                    ),
                );
                assert(reasons.deep_view() =~= commit_reasons(
                    side@,
                    recorded.deep_view(),
                    expected.deep_view(),
                    command@,
                ));
            },
        }
    }
    reasons
}

/// The records of a side; none where they cannot be read.
pub open spec fn records_of(side: SideReadingView) -> SideRecordsView {
    match side {
        SideReadingView::Records { records } => records,
        SideReadingView::Unreadable { .. } => SideRecordsView {
            models: Seq::empty(),
            seeds: Seq::empty(),
        },
    }
}

/// Why a side's records cannot confirm a report, if they cannot.
pub open spec fn reading_reasons(side: SideReadingView) -> Seq<Seq<char>> {
    match side {
        SideReadingView::Records { .. } => Seq::empty(),
        SideReadingView::Unreadable { message } => seq![
            "cannot confirm the diff is current: "@ + message,
        ],
    }
}

fn reading_complaints(side: &SideReading) -> (r: Vec<String>)
    ensures
        r.deep_view() == reading_reasons(side.deep_view()),
{
    let mut reasons: Vec<String> = none_of();
    if let SideReading::Unreadable { message } = side {
        put(&mut reasons, cat2("cannot confirm the diff is current: ", message.as_str()));
        assert(reasons.deep_view() =~= reading_reasons(side.deep_view()));
    }
    reasons
}

/// The version of a dataset that is on record now.
pub open spec fn version_now(side: SideRecordsView, dataset: DatasetDiffView) -> Option<
    Seq<char>,
> {
    match dataset.kind {
        DatasetKind::Model => match named(side.models, dataset.dataset) {
            Some(record) => Some(record.version.hash),
            None => None,
        },
        DatasetKind::Seed => match named(side.seeds, dataset.dataset) {
            Some(record) => Some(record.content_hash),
            None => None,
        },
    }
}

fn current_version(side: &SideRecords, dataset: &DatasetDiff) -> (r: Option<String>)
    ensures
        r.deep_view() == version_now(side.deep_view(), dataset.deep_view()),
{
    match dataset.kind {
        DatasetKind::Model => match side.models.get(dataset.dataset.as_str()) {
            Some(record) => Some(record.version.hash.clone()),
            None => None,
        },
        DatasetKind::Seed => match side.seeds.get(dataset.dataset.as_str()) {
            Some(record) => Some(record.content_hash.clone()),
            None => None,
        },
    }
}

/// The complaint about a dataset that moved since the diff.
pub open spec fn moved_text(dataset: Seq<char>, place: Seq<char>) -> Seq<char> {
    "branch diff is stale: `"@ + dataset + "` changed on "@ + place + " since the diff"@
}

/// The complaint about a dataset that the diff never compared.
pub open spec fn uncompared_text(dataset: Seq<char>, place: Seq<char>) -> Seq<char> {
    "branch diff is stale: `"@ + dataset + "` materialised on "@ + place + " after the diff"@
}

/// Why a dataset's comparison is out of date, if it is: a recorded version no
/// longer matches what is on record now, on either side.
pub open spec fn dataset_reasons(
    candidate: SideRecordsView,
    base: SideRecordsView,
    base_place: Seq<char>,
) -> spec_fn(DatasetDiffView) -> Seq<Seq<char>> {
    |dataset: DatasetDiffView|
        (if version_now(candidate, dataset) != dataset.candidate_version {
            seq![moved_text(dataset.dataset, "the candidate"@)]
        } else {
            Seq::empty()
        }) + (if version_now(base, dataset) != dataset.base_version {
            seq![moved_text(dataset.dataset, base_place)]
        } else {
            Seq::empty()
        })
}

fn dataset_complaints(
    items: &Vec<DatasetDiff>,
    candidate: &SideRecords,
    base: &SideRecords,
    base_place: &str,
) -> (r: Vec<String>)
    ensures
        r.deep_view() == gather(
            items.deep_view(),
            dataset_reasons(candidate.deep_view(), base.deep_view(), base_place@),
        ),
{
    let ghost views = items.deep_view();
    let ghost f = dataset_reasons(candidate.deep_view(), base.deep_view(), base_place@);
    proof {
        lemma_gather_ends(views, f);
    }
    let mut r: Vec<String> = none_of();
    for i in 0..items.len()
        invariant
            views == items.deep_view(),
            f == dataset_reasons(candidate.deep_view(), base.deep_view(), base_place@),
            r.deep_view() == gather(views.take(i as int), f),
    {
        proof {
            lemma_gather_step(views, i as int, f);
        }
        let ghost before = r.deep_view();
        assert(views[i as int] == items@[i as int].deep_view());
        let on_candidate: Option<String> = current_version(candidate, &items[i]);
        if !same_option(&on_candidate, &items[i].candidate_version) {
            put(
                &mut r,
                cat5(
                    "branch diff is stale: `",
                    items[i].dataset.as_str(),
                    "` changed on ",
                    "the candidate",
                    " since the diff",
                ),
            );
        }
        let on_base: Option<String> = current_version(base, &items[i]);
        if !same_option(&on_base, &items[i].base_version) {
            put(
                &mut r,
                cat5(
                    "branch diff is stale: `",
                    items[i].dataset.as_str(),
                    "` changed on ",
                    base_place,
                    " since the diff",
                ),
            );
        }
        assert(r.deep_view() =~= before + f(views[i as int]));
    }
    r
}

/// Whether a report compared a dataset.
pub open spec fn is_covered(
    datasets: Seq<DatasetDiffView>,
    name: Seq<char>,
    kind: DatasetKind,
) -> bool {
    exists|i: int|
        0 <= i < datasets.len() && (#[trigger] datasets[i]).dataset == name && datasets[i].kind
            == kind
}

fn covered(datasets: &Vec<DatasetDiff>, name: &str, kind: DatasetKind) -> (r: bool)
    ensures
        r == is_covered(datasets.deep_view(), name@, kind),
{
    let ghost views = datasets.deep_view();
    for i in 0..datasets.len()
        invariant
            views == datasets.deep_view(),
            forall|k: int|
                0 <= k < i ==> !((#[trigger] views[k]).dataset == name@ && views[k].kind == kind),
    {
        assert(views[i as int] == datasets@[i as int].deep_view());
        if same(datasets[i].dataset.as_str(), name) && datasets[i].kind == kind {
            return true;
        }
    }
    false
}

/// Why a dataset on record invalidates a report that never compared it.
pub open spec fn uncovered_reason(
    datasets: Seq<DatasetDiffView>,
    kind: DatasetKind,
    place: Seq<char>,
) -> spec_fn(Seq<char>) -> Seq<Seq<char>> {
    |name: Seq<char>|
        if is_covered(datasets, name, kind) {
            Seq::empty()
        } else {
            seq![uncompared_text(name, place)]
        }
}

/// Why a side's records invalidate a report that does not cover them.
pub open spec fn uncovered_reasons(
    datasets: Seq<DatasetDiffView>,
    side: SideRecordsView,
    place: Seq<char>,
) -> Seq<Seq<char>> {
    gather(names_in(side.models), uncovered_reason(datasets, DatasetKind::Model, place)) + gather(
        names_in(side.seeds),
        uncovered_reason(datasets, DatasetKind::Seed, place),
    )
}

fn uncovered_names(
    datasets: &Vec<DatasetDiff>,
    items: &Vec<String>,
    kind: DatasetKind,
    place: &str,
) -> (r: Vec<String>)
    ensures
        r.deep_view() == gather(
            items.deep_view(),
            uncovered_reason(datasets.deep_view(), kind, place@),
        ),
{
    let ghost views = items.deep_view();
    let ghost f = uncovered_reason(datasets.deep_view(), kind, place@);
    proof {
        lemma_gather_ends(views, f);
    }
    let mut r: Vec<String> = none_of();
    for i in 0..items.len()
        invariant
            views == items.deep_view(),
            f == uncovered_reason(datasets.deep_view(), kind, place@),
            r.deep_view() == gather(views.take(i as int), f),
    {
        proof {
            lemma_gather_step(views, i as int, f);
        }
        let ghost before = r.deep_view();
        assert(views[i as int] == items@[i as int]@);
        if !covered(datasets, items[i].as_str(), kind) {
            put(
                &mut r,
                cat5(
                    "branch diff is stale: `",
                    items[i].as_str(),
                    "` materialised on ",
                    place,
                    " after the diff",
                ),
            );
        }
        assert(r.deep_view() =~= before + f(views[i as int]));
    }
    r
}

fn uncovered_complaints(datasets: &Vec<DatasetDiff>, side: &SideRecords, place: &str) -> (r: Vec<
    String,
>)
    ensures
        r.deep_view() == uncovered_reasons(datasets.deep_view(), side.deep_view(), place@),
{
    let mut reasons: Vec<String> = uncovered_names(
        datasets,
        &keys_of(&side.models),
        DatasetKind::Model,
        place,
    );
    put_all(
        &mut reasons,
        uncovered_names(datasets, &keys_of(&side.seeds), DatasetKind::Seed, place),
    );
    reasons
}

/// Whether some value diff compared a relation to itself.
pub open spec fn compared_to_itself(diffs: Seq<DiffReportView>) -> bool {
    exists|i: int|
        0 <= i < diffs.len() && (#[trigger] diffs[i]).candidate_relation == diffs[i].base_relation
}

fn measured_nothing(diffs: &Vec<DiffReport>) -> (r: bool)
    ensures
        r == compared_to_itself(diffs.deep_view()),
{
    let ghost views = diffs.deep_view();
    for i in 0..diffs.len()
        invariant
            views == diffs.deep_view(),
            forall|k: int|
                0 <= k < i ==> (#[trigger] views[k]).candidate_relation != views[k].base_relation,
    {
        assert(views[i as int] == diffs@[i as int].deep_view());
        if same(diffs[i].candidate_relation.as_str(), diffs[i].base_relation.as_str()) {
            return true;
        }
    }
    false
}

/// What a promotion's evidence is audited against.
pub struct AuditContext {
    pub candidate: String,
    pub to: String,
    /// The refs' current heads, where they are known: a report must match them
    /// exactly.
    pub candidate_hash: Option<String>,
    pub base_hash: Option<String>,
    pub candidate_side: SideReading,
    pub base_side: SideReading,
}

/// The contents of a [`AuditContext`].
pub struct AuditContextView {
    pub candidate: Seq<char>,
    pub to: Seq<char>,
    pub candidate_hash: Option<Seq<char>>,
    pub base_hash: Option<Seq<char>>,
    pub candidate_side: SideReadingView,
    pub base_side: SideReadingView,
}

impl DeepView for AuditContext {
    type V = AuditContextView;

    open spec fn deep_view(&self) -> AuditContextView {
        AuditContextView {
            candidate: self.candidate@,
            to: self.to@,
            candidate_hash: self.candidate_hash.deep_view(),
            base_hash: self.base_hash.deep_view(),
            candidate_side: self.candidate_side.deep_view(),
            base_side: self.base_side.deep_view(),
        }
    }
}

impl DeepClone for AuditContext {
    fn deep_clone(&self) -> (copy: Self) {
        AuditContext {
            candidate: self.candidate.deep_clone(),
            to: self.to.deep_clone(),
            candidate_hash: self.candidate_hash.deep_clone(),
            base_hash: self.base_hash.deep_clone(),
            candidate_side: self.candidate_side.deep_clone(),
            base_side: self.base_side.deep_clone(),
        }
    }
}

/// A quoted reference.
pub open spec fn ticked(reference: Seq<char>) -> Seq<char> {
    "`"@ + reference + "`"@
}

/// Why a report about the right pair does not apply any more, if it does not:
/// commits that moved, records that cannot be read, datasets that moved, datasets
/// it never compared, and comparisons that measured nothing.
pub open spec fn stale_reasons(report: BranchDiffReportView, context: AuditContextView) -> Seq<
    Seq<char>,
> {
    let command = full_diff_command(context.candidate, context.to);
    let candidate = records_of(context.candidate_side);
    let base = records_of(context.base_side);
    commit_reasons("candidate"@, report.candidate_hash, context.candidate_hash, command)
        + commit_reasons("base"@, report.base_hash, context.base_hash, command) + reading_reasons(
        context.candidate_side,
    ) + reading_reasons(context.base_side) + gather(
        report.datasets,
        dataset_reasons(candidate, base, ticked(context.to)),
    ) + uncovered_reasons(report.datasets, candidate, "the candidate"@) + uncovered_reasons(
        report.datasets,
        base,
        ticked(context.to),
    ) + (if compared_to_itself(report.diffs) {
        seq![
            "branch diff compared a relation to itself; rerun against distinct candidate and base relations"@,
        ]
    } else {
        Seq::empty()
    })
}

/// Whether a report compared schema and row counts only: no data-diff policies
/// were evaluated, so it carries no verdict.
pub open spec fn is_shallow(report: BranchDiffReportView) -> bool {
    !report.deep && report.diffs.len() == 0
}

/// Why a report is rejected: the first reason for which it no longer applies,
/// else that it is shallow.
pub open spec fn rejection(report: BranchDiffReportView, context: AuditContextView) -> Option<
    Seq<char>,
> {
    let stale = stale_reasons(report, context);
    if stale.len() > 0 {
        Some(stale[0])
    } else if is_shallow(report) {
        Some(
            "branch diff ran without `--full`; rerun "@ + full_diff_command(
                context.candidate,
                context.to,
            ) + " for a value-level audit"@,
        )
    } else {
        None
    }
}

/// Names a breaking column change.
pub open spec fn breaking_column(model: Seq<char>) -> spec_fn(SchemaChangeView) -> Seq<Seq<char>> {
    |change: SchemaChangeView|
        if change.safety == "error"@ || change.safety == "full_rebuild_required"@ {
            seq![model + "."@ + change.column + ": "@ + change.detail]
        } else {
            Seq::empty()
        }
}

/// Names a model's breaking column changes.
pub open spec fn breaking_columns() -> spec_fn(ModelSchemaDiffView) -> Seq<Seq<char>> {
    |model: ModelSchemaDiffView| gather(model.changes, breaking_column(model.model))
}

fn breaking_in(model: &str, items: &Vec<SchemaChange>) -> (r: Vec<String>)
    ensures
        r.deep_view() == gather(items.deep_view(), breaking_column(model@)),
{
    let ghost views = items.deep_view();
    let ghost f = breaking_column(model@);
    proof {
        lemma_gather_ends(views, f);
    }
    let mut r: Vec<String> = none_of();
    for i in 0..items.len()
        invariant
            views == items.deep_view(),
            f == breaking_column(model@),
            r.deep_view() == gather(views.take(i as int), f),
    {
        proof {
            lemma_gather_step(views, i as int, f);
        }
        let ghost before = r.deep_view();
        assert(views[i as int] == items@[i as int].deep_view());
        if same(items[i].safety.as_str(), "error") || same(
            items[i].safety.as_str(),
            "full_rebuild_required",
        ) {
            put(
                &mut r,
                cat5(model, ".", items[i].column.as_str(), ": ", items[i].detail.as_str()),
            );
        }
        assert(r.deep_view() =~= before + f(views[i as int]));
    }
    r
}

fn breaking_schemas(items: &Vec<ModelSchemaDiff>) -> (r: Vec<String>)
    ensures
        r.deep_view() == gather(items.deep_view(), breaking_columns()),
{
    let ghost views = items.deep_view();
    let ghost f = breaking_columns();
    proof {
        lemma_gather_ends(views, f);
    }
    let mut r: Vec<String> = none_of();
    for i in 0..items.len()
        invariant
            views == items.deep_view(),
            f == breaking_columns(),
            r.deep_view() == gather(views.take(i as int), f),
    {
        proof {
            lemma_gather_step(views, i as int, f);
        }
        let ghost before = r.deep_view();
        assert(views[i as int] == items@[i as int].deep_view());
        put_all(&mut r, breaking_in(items[i].model.as_str(), &items[i].changes));
        assert(r.deep_view() =~= before + f(views[i as int]));
    }
    r
}

/// What a report proves for a promotion. An audit of another candidate, or
/// against another target, is no evidence; one that no longer applies is
/// rejected, and revokes the schema audit; a shallow one leaves the schema audit
/// standing and carries no verdict.
pub open spec fn report_audit(
    report: BranchDiffReportView,
    evidence_id: Option<Seq<char>>,
    context: AuditContextView,
) -> AuditEvidenceView {
    if report.candidate_ref != context.candidate || report.base_ref != context.to {
        AuditEvidenceView {
            diff_rejected: Some(
                "branch diff covers `"@ + report.candidate_ref + "` -> `"@ + report.base_ref
                    + "`, not `"@ + context.candidate + "` -> `"@ + context.to + "`; rerun "@
                    + full_diff_command(context.candidate, context.to),
            ),
            diff_evidence_id: evidence_id,
            ..no_evidence()
        }
    } else {
        AuditEvidenceView {
            diff_passed: if is_shallow(report) {
                None
            } else {
                Some(report.passed)
            },
            diff_rejected: rejection(report, context),
            breaking_schema_changes: gather(report.schema_changes, breaking_columns()),
            audited_base_hash: report.base_hash,
            schema_audited: stale_reasons(report, context).len() == 0,
            diff_evidence_id: evidence_id,
        }
    }
}

/// What the freshest branch-diff evidence proves for a promotion.
pub open spec fn audit_of(
    lookup: BranchDiffLookupView,
    context: AuditContextView,
    has_model_diff: bool,
) -> AuditEvidenceView {
    let command = full_diff_command(context.candidate, context.to);
    match lookup {
        BranchDiffLookupView::Corrupt { reason } => AuditEvidenceView {
            diff_rejected: Some(reason + "; rerun "@ + command),
            ..no_evidence()
        },
        BranchDiffLookupView::Found { report, evidence_id } => report_audit(
            report,
            evidence_id,
            context,
        ),
        BranchDiffLookupView::Missing => if has_model_diff {
            AuditEvidenceView {
                diff_rejected: Some(
                    "a single-model diff cannot audit a branch; run "@ + command,
                ),
                ..no_evidence()
            }
        } else {
            no_evidence()
        },
    }
}

fn side_records(side: &SideReading) -> (r: SideRecords)
    ensures
        r.deep_view() == records_of(side.deep_view()),
{
    match side {
        SideReading::Records { records } => records.deep_clone(),
        SideReading::Unreadable { message } => SideRecords {
            models: NameMap::new(),
            seeds: NameMap::new(),
        },
    }
}

fn borrowed_text(text: &Option<String>) -> (r: Option<&str>)
    ensures
        r.deep_view() == text.deep_view(),
{
    match text {
        Some(given) => Some(given.as_str()),
        None => None,
    }
}

fn stale_complaints(report: &BranchDiffReport, context: &AuditContext) -> (r: Vec<String>)
    ensures
        r.deep_view() == stale_reasons(report.deep_view(), context.deep_view()),
{
    let command: String = command_text(context.candidate.as_str(), context.to.as_str());
    let place: String = cat3("`", context.to.as_str(), "`");
    let candidate: SideRecords = side_records(&context.candidate_side);
    let base: SideRecords = side_records(&context.base_side);
    let mut reasons: Vec<String> = commit_complaints(
        "candidate",
        &report.candidate_hash,
        borrowed_text(&context.candidate_hash),
        command.as_str(),
    );
    put_all(
        &mut reasons,
        commit_complaints(
            "base",
            &report.base_hash,
            borrowed_text(&context.base_hash),
            command.as_str(),
        ),
    );
    put_all(&mut reasons, reading_complaints(&context.candidate_side));
    put_all(&mut reasons, reading_complaints(&context.base_side));
    put_all(
        &mut reasons,
        dataset_complaints(&report.datasets, &candidate, &base, place.as_str()),
    );
    put_all(&mut reasons, uncovered_complaints(&report.datasets, &candidate, "the candidate"));
    put_all(&mut reasons, uncovered_complaints(&report.datasets, &base, place.as_str()));
    let ghost before = reasons.deep_view();
    if measured_nothing(&report.diffs) {
        put(
            &mut reasons,
            "branch diff compared a relation to itself; rerun against distinct candidate and base relations".to_owned(),
        );
    } else {
        assert(before + Seq::<Seq<char>>::empty() =~= before);
    }
    assert(reasons.deep_view() =~= stale_reasons(report.deep_view(), context.deep_view()));
    reasons
}

fn audit_report(
    report: &BranchDiffReport,
    evidence_id: &Option<String>,
    context: &AuditContext,
) -> (r: AuditEvidence)
    ensures
        r.deep_view() == report_audit(
            report.deep_view(),
            evidence_id.deep_view(),
            context.deep_view(),
        ),
{
    let command: String = command_text(context.candidate.as_str(), context.to.as_str());
    if !same(report.candidate_ref.as_str(), context.candidate.as_str()) || !same(
        report.base_ref.as_str(),
        context.to.as_str(),
    ) {
        let covers: String = cat5(
            "branch diff covers `",
            report.candidate_ref.as_str(),
            "` -> `",
            report.base_ref.as_str(),
            "`, not `",
        );
        let mut evidence: AuditEvidence = AuditEvidence::default();
        evidence.diff_rejected = Some(
            cat6(
                covers.as_str(),
                context.candidate.as_str(),
                "` -> `",
                context.to.as_str(),
                "`; rerun ",
                command.as_str(),
            ),
        );
        evidence.diff_evidence_id = evidence_id.deep_clone();
        return evidence;
    }
    let stale: Vec<String> = stale_complaints(report, context);
    assert(stale.deep_view().len() == stale@.len());
    assert(report.diffs.deep_view().len() == report.diffs@.len());
    let shallow: bool = !report.deep && report.diffs.len() == 0;
    let diff_rejected: Option<String> = if stale.len() > 0 {
        assert(stale.deep_view()[0] == stale@[0]@);
        Some(stale[0].clone())
    } else if shallow {
        Some(
            cat3(
                "branch diff ran without `--full`; rerun ",
                command.as_str(),
                " for a value-level audit",
            ),
        )
    } else {
        None
    };
    AuditEvidence {
        diff_passed: if shallow {
            None
        } else {
            Some(report.passed)
        },
        diff_rejected,
        breaking_schema_changes: breaking_schemas(&report.schema_changes),
        audited_base_hash: report.base_hash.deep_clone(),
        schema_audited: stale.len() == 0,
        diff_evidence_id: evidence_id.deep_clone(),
    }
}

/// Derive what the freshest branch-diff evidence proves for a promotion: the
/// diff verdict, why the evidence cannot be used, the breaking schema changes it
/// recorded, and whether a schema audit genuinely ran.
///
/// The evidence only counts when it was produced for this candidate against this
/// target at the commits being promoted: a diff of another pair, of an older
/// head, or one that went stale since is rejected with a reason naming the rerun.
/// `has_model_diff` says whether a single-model `diff.json` is there.
pub fn audited_diff(
    lookup: &BranchDiffLookup,
    context: &AuditContext,
    has_model_diff: bool,
) -> (r: AuditEvidence)
    ensures
        r.deep_view() == audit_of(lookup.deep_view(), context.deep_view(), has_model_diff),
{
    match lookup {
        BranchDiffLookup::Found { report, evidence_id } => audit_report(
            report,
            evidence_id,
            context,
        ),
        BranchDiffLookup::Corrupt { reason } => {
            let command: String = command_text(context.candidate.as_str(), context.to.as_str());
            let mut evidence: AuditEvidence = AuditEvidence::default();
            evidence.diff_rejected = Some(cat3(reason.as_str(), "; rerun ", command.as_str()));
            evidence
        },
        BranchDiffLookup::Missing => {
            let mut evidence: AuditEvidence = AuditEvidence::default();
            if has_model_diff {
                let command: String = command_text(context.candidate.as_str(), context.to.as_str());
                evidence.diff_rejected = Some(
                    cat2("a single-model diff cannot audit a branch; run ", command.as_str()),
                );
            }
            evidence
        },
    }
}

/// Whatever the evidence, an audit that did not inspect this pair at these
/// commits with everything on record unchanged does not count as a schema audit,
/// and one that counts neither as schema audit nor as verdict says why.
pub proof fn law_stale_audits_are_rejected(
    report: BranchDiffReportView,
    evidence_id: Option<Seq<char>>,
    context: AuditContextView,
)
    ensures
        ({
            let audit = report_audit(report, evidence_id, context);
            &&& audit.schema_audited ==> report.candidate_ref == context.candidate
                && report.base_ref == context.to
            &&& audit.schema_audited && context.candidate_hash is Some ==> report.candidate_hash
                == context.candidate_hash
            &&& audit.schema_audited && context.base_hash is Some ==> report.base_hash
                == context.base_hash
            &&& audit.schema_audited ==> context.candidate_side is Records
                && context.base_side is Records
            &&& !audit.schema_audited ==> audit.diff_rejected is Some
            &&& audit.diff_passed is None ==> audit.diff_rejected is Some
        }),
{
}

/// The catalog the compiled models target.
pub open spec fn names_catalog() -> spec_fn(CompiledModelView) -> bool {
    |model: CompiledModelView| model.target.catalog is Some
}

/// The catalog the compiled models target (first explicit model catalog).
pub fn compiled_catalog(compilation: &Compilation) -> (r: Option<String>)
    ensures
        r.deep_view() == match first_where(compilation.deep_view().models, names_catalog()) {
            Some(model) => model.target.catalog,
            None => None,
        },
{
    let items: &Vec<CompiledModel> = &compilation.models;
    let ghost views = items.deep_view();
    let ghost p = names_catalog();
    proof {
        lemma_first_ends(views, p);
    }
    for i in 0..items.len()
        invariant
            views == items.deep_view(),
            p == names_catalog(),
            items.deep_view() == compilation.deep_view().models,
            first_where(views, p) == first_where(views.skip(i as int), p),
    {
        proof {
            lemma_first_step(views, i as int, p);
        }
        assert(views[i as int] == items@[i as int].deep_view());
        if items[i].target.catalog.is_some() {
            return items[i].target.catalog.deep_clone();
        }
    }
    proof {
        lemma_first_ends(views, p);
    }
    None
}

/// How a lineage diff stands as evidence.
#[derive(Clone, Copy, Debug, PartialEq, Eq, Structural)]
pub enum LineageStatus {
    /// The artifact audited this Nessie pair at these commits.
    Current,
    /// Only Git-bound, so there is no environment identity to check.
    Advisory,
    /// The identity it was produced for has moved, and it cannot be treated as
    /// describing the candidate being promoted.
    Stale,
}

impl DeepView for LineageStatus {
    type V = LineageStatus;

    open spec fn deep_view(&self) -> LineageStatus {
        *self
    }
}

impl DeepClone for LineageStatus {
    fn deep_clone(&self) -> (copy: Self) {
        *self
    }
}

impl LineageStatus {
    /// The word for a status.
    pub fn as_str(&self) -> (r: &'static str)
        ensures
            r@ == match *self {
                LineageStatus::Current => "current"@,
                LineageStatus::Advisory => "advisory"@,
                LineageStatus::Stale => "stale"@,
            },
    {
        match self {
            LineageStatus::Current => "current",
            LineageStatus::Advisory => "advisory",
            LineageStatus::Stale => "stale",
        }
    }
}

/// The lineage-diff artifact's standing as evidence for a promotion.
#[derive(Clone, Debug, PartialEq, Eq)]
pub struct LineageEvidence {
    pub status: LineageStatus,
    /// Why the artifact is not current evidence, when stale.
    pub reason: Option<String>,
    /// The base the diff was produced against (`ref (commit)`).
    pub base: String,
    /// Total lineage changes the artifact reports.
    pub changes: usize,
    /// The id of the evidence record this audit resolved through. `None` when
    /// the consulted evidence was a file that never reached the store.
    pub evidence_id: Option<String>,
}

/// The contents of a [`LineageEvidence`].
pub struct LineageEvidenceView {
    pub status: LineageStatus,
    pub reason: Option<Seq<char>>,
    pub base: Seq<char>,
    pub changes: usize,
    pub evidence_id: Option<Seq<char>>,
}

impl DeepView for LineageEvidence {
    type V = LineageEvidenceView;

    open spec fn deep_view(&self) -> LineageEvidenceView {
        LineageEvidenceView {
            status: self.status,
            reason: self.reason.deep_view(),
            base: self.base@,
            changes: self.changes,
            evidence_id: self.evidence_id.deep_view(),
        }
    }
}

impl DeepClone for LineageEvidence {
    fn deep_clone(&self) -> (copy: Self) {
        LineageEvidence {
            status: self.status,
            reason: self.reason.deep_clone(),
            base: self.base.deep_clone(),
            changes: self.changes,
            evidence_id: self.evidence_id.deep_clone(),
        }
    }
}

/// Which lineage-diff evidence speaks for a promotion: the file, if readable,
/// when it names this exact pair and carries a time later than the store's
/// record for it, else the record for the pair, else the candidate's newest
/// record, else the file. `None` is the file.
pub open spec fn lineage_choice(
    candidate: Seq<char>,
    to: Seq<char>,
    file: Option<LineageDiffArtifactView>,
    records: Seq<EvidenceRecordView>,
) -> Option<int> {
    let outranked = match file {
        Some(artifact) => file_outranks(
            lineage_subject(artifact) == Some(candidate) && lineage_target(artifact) == to,
            artifact.created_at,
            pair_time(records, to),
        ),
        None => false,
    };
    if outranked {
        None
    } else {
        match pair_position(records, to) {
            Some(i) => Some(i),
            None => if records.len() > 0 {
                Some(0)
            } else {
                None
            },
        }
    }
}

/// Which lineage-diff evidence speaks for a promotion, given the artifact file
/// where it is readable and the candidate's records, newest first: the position
/// of a record, or `None` for the file.
pub fn choose_lineage_diff(
    candidate: &str,
    to: &str,
    file: &Option<LineageDiffArtifact>,
    records: &Vec<EvidenceRecord>,
) -> (r: Option<usize>)
    ensures
        match lineage_choice(candidate@, to@, file.deep_view(), records.deep_view()) {
            Some(i) => r matches Some(k) && k == i && k < records@.len(),
            None => r is None,
        },
{
    let pair: Option<usize> = find_pair(records, to);
    let ghost views = records.deep_view();
    assert(views.len() == records@.len());
    let time: Option<&str> = match pair {
        Some(i) => {
            assert(views[i as int] == records@[i as int].deep_view());
            Some(records[i].created_at.as_str())
        },
        None => None,
    };
    assert(time.deep_view() == pair_time(views, to@));
    if let Some(artifact) = file {
        let names_candidate: bool = match lineage_diff_subject(artifact) {
            Some(subject) => same(subject.as_str(), candidate),
            None => false,
        };
        let names_pair: bool = names_candidate && same(lineage_diff_target(artifact).as_str(), to);
        if outranks(names_pair, borrowed_text(&artifact.created_at), time) {
            return None;
        }
    }
    match pair {
        Some(i) => Some(i),
        None => if records.len() > 0 {
            Some(0)
        } else {
            None
        },
    }
}

/// What the freshest lineage-diff evidence holds.
pub enum LineageReading {
    Missing,
    Unreadable { message: String },
    Found { artifact: LineageDiffArtifact, evidence_id: Option<String> },
}

/// The contents of a [`LineageReading`].
pub enum LineageReadingView {
    Missing,
    Unreadable { message: Seq<char> },
    Found { artifact: LineageDiffArtifactView, evidence_id: Option<Seq<char>> },
}

impl DeepView for LineageReading {
    type V = LineageReadingView;

    open spec fn deep_view(&self) -> LineageReadingView {
        match self {
            LineageReading::Missing => LineageReadingView::Missing,
            LineageReading::Unreadable { message } => LineageReadingView::Unreadable {
                message: message@,
            },
            LineageReading::Found { artifact, evidence_id } => LineageReadingView::Found {
                artifact: artifact.deep_view(),
                evidence_id: evidence_id.deep_view(),
            },
        }
    }
}

impl DeepClone for LineageReading {
    fn deep_clone(&self) -> (copy: Self) {
        match self {
            LineageReading::Missing => LineageReading::Missing,
            LineageReading::Unreadable { message } => LineageReading::Unreadable {
                message: message.deep_clone(),
            },
            LineageReading::Found { artifact, evidence_id } => LineageReading::Found {
                artifact: artifact.deep_clone(),
                evidence_id: evidence_id.deep_clone(),
            },
        }
    }
}

/// Where a worktree branched off a ref.
#[derive(Clone, Debug, PartialEq, Eq)]
pub struct ComparisonBase {
    pub commit: String,
    pub head: Option<String>,
    pub dirty: bool,
}

/// The contents of a [`ComparisonBase`].
pub struct ComparisonBaseView {
    pub commit: Seq<char>,
    pub head: Option<Seq<char>>,
    pub dirty: bool,
}

impl DeepView for ComparisonBase {
    type V = ComparisonBaseView;

    open spec fn deep_view(&self) -> ComparisonBaseView {
        ComparisonBaseView {
            commit: self.commit@,
            head: self.head.deep_view(),
            dirty: self.dirty,
        }
    }
}

impl DeepClone for ComparisonBase {
    fn deep_clone(&self) -> (copy: Self) {
        ComparisonBase {
            commit: self.commit.deep_clone(),
            head: self.head.deep_clone(),
            dirty: self.dirty,
        }
    }
}

/// What the Git repository says now of the refs that a lineage diff was produced
/// from; what does not resolve is absent.
#[derive(Clone, Debug, PartialEq, Eq)]
pub struct GitFacts {
    /// Where the worktree branches off the diff's base ref.
    pub comparison: Option<ComparisonBase>,
    /// The commit of the diff's base ref.
    pub base_commit: Option<String>,
    /// The commit of the diff's candidate ref.
    pub candidate_commit: Option<String>,
}

/// The contents of a [`GitFacts`].
pub struct GitFactsView {
    pub comparison: Option<ComparisonBaseView>,
    pub base_commit: Option<Seq<char>>,
    pub candidate_commit: Option<Seq<char>>,
}

impl DeepView for GitFacts {
    type V = GitFactsView;

    open spec fn deep_view(&self) -> GitFactsView {
        GitFactsView {
            comparison: self.comparison.deep_view(),
            base_commit: self.base_commit.deep_view(),
            candidate_commit: self.candidate_commit.deep_view(),
        }
    }
}

impl DeepClone for GitFacts {
    fn deep_clone(&self) -> (copy: Self) {
        GitFacts {
            comparison: self.comparison.deep_clone(),
            base_commit: self.base_commit.deep_clone(),
            candidate_commit: self.candidate_commit.deep_clone(),
        }
    }
}

/// The commits and the fingerprint being promoted.
#[derive(Clone, Debug, PartialEq, Eq)]
pub struct LineageContext {
    pub candidate: String,
    pub to: String,
    pub candidate_hash: String,
    pub target_hash: String,
    /// The fingerprint of the candidate's lineage as it compiles now.
    pub lineage_hash: Option<String>,
}

/// The contents of a [`LineageContext`].
pub struct LineageContextView {
    pub candidate: Seq<char>,
    pub to: Seq<char>,
    pub candidate_hash: Seq<char>,
    pub target_hash: Seq<char>,
    pub lineage_hash: Option<Seq<char>>,
}

impl DeepView for LineageContext {
    type V = LineageContextView;

    open spec fn deep_view(&self) -> LineageContextView {
        LineageContextView {
            candidate: self.candidate@,
            to: self.to@,
            candidate_hash: self.candidate_hash@,
            target_hash: self.target_hash@,
            lineage_hash: self.lineage_hash.deep_view(),
        }
    }
}

impl DeepClone for LineageContext {
    fn deep_clone(&self) -> (copy: Self) {
        LineageContext {
            candidate: self.candidate.deep_clone(),
            to: self.to.deep_clone(),
            candidate_hash: self.candidate_hash.deep_clone(),
            target_hash: self.target_hash.deep_clone(),
            lineage_hash: self.lineage_hash.deep_clone(),
        }
    }
}

/// The first 12 characters of a commit.
pub open spec fn brief(commit: Seq<char>) -> Seq<char> {
    if commit.len() > 12 {
        commit.take(12)
    } else {
        commit
    }
}

fn briefly(commit: &str) -> (r: String)
    ensures
        r@ == brief(commit@),
{
    let chars: Vec<char> = chars_of(commit);
    if chars.len() > 12 {
        let r: String = text_of(chars.as_slice(), 0, 12);
        assert(r@ =~= commit@.take(12));
        r
    } else {
        commit.to_owned()
    }
}

/// The command that produces a lineage diff.
pub open spec fn lineage_rerun(context: LineageContextView) -> Seq<char> {
    "rerun `lineage --diff "@ + context.to + " --ref "@ + context.candidate + "`"@
}

/// Why a Nessie-bound artifact does not describe the pair being promoted, if it
/// does not: the pair and both commits must match.
pub open spec fn binding_reason(
    artifact: LineageDiffArtifactView,
    context: LineageContextView,
) -> Option<Seq<char>> {
    let binding = artifact.environment->0;
    let rerun = lineage_rerun(context);
    if binding.candidate_ref != context.candidate || binding.target_ref != context.to {
        Some(
            "lineage diff covers `"@ + binding.candidate_ref + "` -> `"@ + binding.target_ref
                + "`, not `"@ + context.candidate + "` -> `"@ + context.to + "`; "@ + rerun,
        )
    } else if binding.candidate_hash != context.candidate_hash {
        Some("candidate `"@ + context.candidate + "` moved since the lineage diff; "@ + rerun)
    } else if binding.target_hash != context.target_hash {
        Some("target `"@ + context.to + "` moved since the lineage diff; "@ + rerun)
    } else {
        None
    }
}

/// Why a Git-bound artifact is out of date, if it is: the recorded candidate
/// identity must still hold.
pub open spec fn git_reason(
    artifact: LineageDiffArtifactView,
    git: GitFactsView,
    rerun: Seq<char>,
) -> Option<Seq<char>> {
    let lost = "base ref `"@ + artifact.base_ref + "` no longer resolves; "@ + rerun;
    if artifact.base_kind == "merge-base"@ {
        match git.comparison {
            Some(current) => if current.commit == artifact.base_commit && current.head
                == artifact.candidate.head && current.dirty == artifact.candidate.dirty {
                None
            } else {
                Some(
                    "the worktree or `"@ + artifact.base_ref + "` moved since the lineage diff; "@
                        + rerun,
                )
            },
            None => Some(lost),
        }
    } else if git.base_commit is None {
        Some(lost)
    } else {
        match artifact.candidate.git_ref {
            Some(git_ref) => if git.candidate_commit is None {
                Some("candidate ref `"@ + git_ref + "` no longer resolves; "@ + rerun)
            } else if artifact.candidate.head is None {
                Some("the artifact does not record a resolvable candidate ref; "@ + rerun)
            } else if git.candidate_commit == artifact.candidate.head && git.base_commit->0
                == artifact.base_commit {
                None
            } else {
                Some("a diffed ref moved since the lineage diff; "@ + rerun)
            },
            None => Some("the artifact does not record a resolvable candidate ref; "@ + rerun),
        }
    }
}

/// Why an artifact does not describe the candidate's current definitions, if it
/// does not: refs can sit still while edited code waits unpromoted.
pub open spec fn fingerprint_reason(
    artifact: LineageDiffArtifactView,
    now: Option<Seq<char>>,
    rerun: Seq<char>,
) -> Option<Seq<char>> {
    match (artifact.candidate.lineage_hash, now) {
        (Some(recorded), Some(current)) => if recorded == current {
            None
        } else {
            Some("the candidate's lineage changed since the diff; "@ + rerun)
        },
        (Some(_), None) => Some("the candidate's lineage could not be fingerprinted; "@ + rerun),
        (None, _) => Some("the lineage artifact predates candidate fingerprinting; "@ + rerun),
    }
}

/// Why an artifact is not current evidence, if it is not.
pub open spec fn lineage_reason(
    artifact: LineageDiffArtifactView,
    context: LineageContextView,
    git: GitFactsView,
) -> Option<Seq<char>> {
    let rerun = lineage_rerun(context);
    let identity = match artifact.environment {
        Some(_) => binding_reason(artifact, context),
        None => git_reason(artifact, git, rerun),
    };
    match identity {
        Some(reason) => Some(reason),
        None => fingerprint_reason(artifact, context.lineage_hash, rerun),
    }
}

/// How the freshest lineage-diff evidence stands.
pub open spec fn lineage_audit(
    reading: LineageReadingView,
    context: LineageContextView,
    git: GitFactsView,
) -> Option<LineageEvidenceView> {
    match reading {
        LineageReadingView::Missing => None,
        LineageReadingView::Unreadable { message } => Some(
            LineageEvidenceView {
                status: LineageStatus::Stale,
                reason: Some(message),
                base: "unknown"@,
                changes: 0,
                evidence_id: None,
            },
        ),
        LineageReadingView::Found { artifact, evidence_id } => {
            let reason = lineage_reason(artifact, context, git);
            Some(
                LineageEvidenceView {
                    status: if reason is Some {
                        LineageStatus::Stale
                    } else if artifact.environment is Some {
                        LineageStatus::Current
                    } else {
                        LineageStatus::Advisory
                    },
                    reason,
                    base: artifact.base_ref + " ("@ + brief(artifact.base_commit) + ")"@,
                    changes: artifact.diff.change_count,
                    evidence_id,
                },
            )
        },
    }
}

fn rerun_text(context: &LineageContext) -> (r: String)
    ensures
        r@ == lineage_rerun(context.deep_view()),
{
    cat5("rerun `lineage --diff ", context.to.as_str(), " --ref ", context.candidate.as_str(), "`")
}

fn check_binding(artifact: &LineageDiffArtifact, context: &LineageContext, rerun: &str) -> (r:
    Option<String>)
    requires
        artifact.environment is Some,
        rerun@ == lineage_rerun(context.deep_view()),
    ensures
        r.deep_view() == binding_reason(artifact.deep_view(), context.deep_view()),
{
    match &artifact.environment {
        Some(binding) => {
            if !same(binding.candidate_ref.as_str(), context.candidate.as_str()) || !same(
                binding.target_ref.as_str(),
                context.to.as_str(),
            ) {
                let covers: String = cat5(
                    "lineage diff covers `",
                    binding.candidate_ref.as_str(),
                    "` -> `",
                    binding.target_ref.as_str(),
                    "`, not `",
                );
                Some(
                    cat6(
                        covers.as_str(),
                        context.candidate.as_str(),
                        "` -> `",
                        context.to.as_str(),
                        "`; ",
                        rerun,
                    ),
                )
            } else if !same(binding.candidate_hash.as_str(), context.candidate_hash.as_str()) {
                Some(
                    cat4(
                        "candidate `",
                        context.candidate.as_str(),
                        "` moved since the lineage diff; ",
                        rerun,
                    ),
                )
            } else if !same(binding.target_hash.as_str(), context.target_hash.as_str()) {
                Some(
                    cat4(
                        "target `",
                        context.to.as_str(),
                        "` moved since the lineage diff; ",
                        rerun,
                    ),
                )
            } else {
                None
            }
        },
        None => None,
    }
}

fn check_git(artifact: &LineageDiffArtifact, git: &GitFacts, rerun: &str) -> (r: Option<String>)
    ensures
        r.deep_view() == git_reason(artifact.deep_view(), git.deep_view(), rerun@),
{
    if same(artifact.base_kind.as_str(), "merge-base") {
        return match &git.comparison {
            Some(current) => if same(
                current.commit.as_str(),
                artifact.base_commit.as_str(),
            ) && same_option(&current.head, &artifact.candidate.head) && current.dirty
                == artifact.candidate.dirty {
                None
            } else {
                Some(
                    cat4(
                        "the worktree or `",
                        artifact.base_ref.as_str(),
                        "` moved since the lineage diff; ",
                        rerun,
                    ),
                )
            },
            None => Some(
                cat4("base ref `", artifact.base_ref.as_str(), "` no longer resolves; ", rerun),
            ),
        };
    }
    let base_now: &String = match &git.base_commit {
        Some(commit) => commit,
        None => {
            return Some(
                cat4("base ref `", artifact.base_ref.as_str(), "` no longer resolves; ", rerun),
            );
        },
    };
    match &artifact.candidate.git_ref {
        Some(git_ref) => match (&git.candidate_commit, &artifact.candidate.head) {
            (None, _) => Some(
                cat4("candidate ref `", git_ref.as_str(), "` no longer resolves; ", rerun),
            ),
            (Some(now), None) => Some(
                cat2("the artifact does not record a resolvable candidate ref; ", rerun),
            ),
            (Some(now), Some(recorded)) => if same(now.as_str(), recorded.as_str()) && same(
                base_now.as_str(),
                artifact.base_commit.as_str(),
            ) {
                None
            } else {
                Some(cat2("a diffed ref moved since the lineage diff; ", rerun))
            },
        },
        None => Some(cat2("the artifact does not record a resolvable candidate ref; ", rerun)),
    }
}

fn check_fingerprint(artifact: &LineageDiffArtifact, now: &Option<String>, rerun: &str) -> (r:
    Option<String>)
    ensures
        r.deep_view() == fingerprint_reason(artifact.deep_view(), now.deep_view(), rerun@),
{
    match (&artifact.candidate.lineage_hash, now) {
        (Some(recorded), Some(current)) => if same(recorded.as_str(), current.as_str()) {
            None
        } else {
            Some(cat2("the candidate's lineage changed since the diff; ", rerun))
        },
        (Some(recorded), None) => Some(
            cat2("the candidate's lineage could not be fingerprinted; ", rerun),
        ),
        (None, _) => Some(cat2("the lineage artifact predates candidate fingerprinting; ", rerun)),
    }
}

/// Audit the provenance of the freshest lineage-diff evidence against the pair
/// being promoted. The evidence only counts when it was produced for this
/// candidate against this target (bound to the Nessie commits when it carries an
/// environment binding, else to the Git identity it recorded) and only while its
/// candidate fingerprint still matches the compiled workspace. Anything stale,
/// unreadable, or about another pair is rejected with a reason naming the rerun.
pub fn audited_lineage(reading: &LineageReading, context: &LineageContext, git: &GitFacts) -> (r:
    Option<LineageEvidence>)
    ensures
        r.deep_view() == lineage_audit(reading.deep_view(), context.deep_view(), git.deep_view()),
{
    match reading {
        LineageReading::Missing => None,
        LineageReading::Unreadable { message } => Some(
            LineageEvidence {
                status: LineageStatus::Stale,
                reason: Some(message.clone()),
                base: "unknown".to_owned(),
                changes: 0,
                evidence_id: None,
            },
        ),
        LineageReading::Found { artifact, evidence_id } => {
            let rerun: String = rerun_text(context);
            let identity: Option<String> = if artifact.environment.is_some() {
                check_binding(artifact, context, rerun.as_str())
            } else {
                check_git(artifact, git, rerun.as_str())
            };
            let reason: Option<String> = match identity {
                Some(reason) => Some(reason),
                None => check_fingerprint(artifact, &context.lineage_hash, rerun.as_str()),
            };
            let status: LineageStatus = if reason.is_some() {
                LineageStatus::Stale
            } else if artifact.environment.is_some() {
                LineageStatus::Current
            } else {
                LineageStatus::Advisory
            };
            Some(
                LineageEvidence {
                    status,
                    reason,
                    base: cat4(
                        artifact.base_ref.as_str(),
                        " (",
                        briefly(artifact.base_commit.as_str()).as_str(),
                        ")",
                    ),
                    changes: artifact.diff.change_count,
                    evidence_id: evidence_id.deep_clone(),
                },
            )
        },
    }
}

/// Lineage evidence counts as current only where the artifact is bound to this
/// pair at these commits and carries the candidate's present fingerprint.
pub proof fn law_current_lineage_is_bound(
    reading: LineageReadingView,
    context: LineageContextView,
    git: GitFactsView,
)
    ensures
        lineage_audit(reading, context, git) matches Some(evidence) ==> (evidence.status
            == LineageStatus::Current ==> {
            &&& reading is Found
            &&& reading->artifact.environment matches Some(binding) && binding.candidate_ref
                == context.candidate && binding.target_ref == context.to && binding.candidate_hash
                == context.candidate_hash && binding.target_hash == context.target_hash
            &&& reading->artifact.candidate.lineage_hash == context.lineage_hash
            &&& context.lineage_hash is Some
        }),
{
}

} // verus!
