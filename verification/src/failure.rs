//! Failure classification and retry policy.
//!
//! Every execution failure carries a stable machine-readable
//! [`FailureCategory`], so that callers never parse message strings. Retry
//! decisions are centralised in [`RetryPolicy`]: SQL-semantic failures are
//! never retried, transient adapter failures declared `retryable` by the
//! adapter may be, and test, cancellation, dependency and timeout failures are
//! not.

use vstd::prelude::*;

use crate::error::{adapter_error_text, AdapterError};
use crate::text::{cat3, chars_of, DeepClone};
use crate::util::{is_timestamp, now_rfc3339};

verus! {

/// A stable, machine-readable failure category.
#[derive(Clone, Copy, Debug, PartialEq, Eq, Structural)]
pub enum FailureCategory {
    /// The adapter or warehouse failed (transport, internal adapter error).
    Adapter,
    /// The model's SQL was rejected (syntax, type, missing column/relation).
    Sql,
    /// A test assertion failed or the test query errored.
    Test,
    /// Execution exceeded its configured timeout.
    Timeout,
    /// The run or node was cancelled before completing.
    Cancelled,
    /// A required upstream (model or seed) did not produce its dataset, so
    /// this node never executed.
    Dependency,
    /// The state store failed.
    State,
    /// An internal engine invariant broke.
    Internal,
}

impl DeepView for FailureCategory {
    type V = FailureCategory;

    open spec fn deep_view(&self) -> FailureCategory {
        *self
    }
}

impl DeepClone for FailureCategory {
    fn deep_clone(&self) -> (copy: Self) {
        *self
    }
}

impl Default for FailureCategory {
    fn default() -> (category: Self)
        ensures
            category == FailureCategory::Internal,
    {
        FailureCategory::Internal
    }
}

impl FailureCategory {
    pub open spec fn code_text(self) -> Seq<char> {
        match self {
            FailureCategory::Adapter => "adapter"@,
            FailureCategory::Sql => "sql"@,
            FailureCategory::Test => "test"@,
            FailureCategory::Timeout => "timeout"@,
            FailureCategory::Cancelled => "cancelled"@,
            FailureCategory::Dependency => "dependency"@,
            FailureCategory::State => "state"@,
            FailureCategory::Internal => "internal"@,
        }
    }

    /// Stable machine-readable code.
    pub fn code(self) -> (r: &'static str)
        ensures
            r@ == self.code_text(),
    {
        match self {
            FailureCategory::Adapter => "adapter",
            FailureCategory::Sql => "sql",
            FailureCategory::Test => "test",
            FailureCategory::Timeout => "timeout",
            FailureCategory::Cancelled => "cancelled",
            FailureCategory::Dependency => "dependency",
            FailureCategory::State => "state",
            FailureCategory::Internal => "internal",
        }
    }
}

/// A structured, inspectable failure attached to a result.
#[derive(Clone, Debug, PartialEq, Eq)]
pub struct Failure {
    pub category: FailureCategory,
    /// Human-readable explanation.
    pub message: String,
    /// The adapter/database error code, when the failure came from the
    /// adapter.
    pub adapter_code: Option<String>,
    /// The adapter/database error message, when it adds detail beyond
    /// `message`.
    pub adapter_message: Option<String>,
    /// The attempt that produced this failure (1-based). `0` for failures
    /// that never reached an attempt (blocked, cancelled while queued).
    pub attempt: u32,
    /// RFC3339 timestamp.
    pub at: String,
    /// Whether the policy judged another attempt could succeed.
    pub retryable: bool,
}

/// The contents of a [`Failure`].
pub struct FailureView {
    pub category: FailureCategory,
    pub message: Seq<char>,
    pub adapter_code: Option<Seq<char>>,
    pub adapter_message: Option<Seq<char>>,
    pub attempt: u32,
    pub at: Seq<char>,
    pub retryable: bool,
}

impl DeepView for Failure {
    type V = FailureView;

    open spec fn deep_view(&self) -> FailureView {
        FailureView {
            category: self.category,
            message: self.message@,
            adapter_code: self.adapter_code.deep_view(),
            adapter_message: self.adapter_message.deep_view(),
            attempt: self.attempt,
            at: self.at@,
            retryable: self.retryable,
        }
    }
}

impl DeepClone for Failure {
    fn deep_clone(&self) -> (copy: Self) {
        Failure {
            category: self.category,
            message: self.message.deep_clone(),
            adapter_code: self.adapter_code.deep_clone(),
            adapter_message: self.adapter_message.deep_clone(),
            attempt: self.attempt,
            at: self.at.deep_clone(),
            retryable: self.retryable,
        }
    }
}

/// The failure of a node that never reached execution.
pub open spec fn unattempted(
    category: FailureCategory,
    message: Seq<char>,
    at: Seq<char>,
) -> FailureView {
    FailureView {
        category,
        message,
        adapter_code: None,
        adapter_message: None,
        attempt: 0,
        at,
        retryable: false,
    }
}

impl Failure {
    /// A failure that never reached execution (blocked, cancelled while
    /// queued), stamped with the current time.
    pub fn without_attempt(category: FailureCategory, message: &str) -> (failure: Self)
        ensures
            is_timestamp(failure.at@),
            failure.deep_view() == unattempted(category, message@, failure.at@),
    {
        Failure::without_attempt_at(category, message, now_rfc3339().as_str())
    }

    /// A failure that never reached execution, stamped `at`.
    pub fn without_attempt_at(category: FailureCategory, message: &str, at: &str) -> (failure: Self)
        ensures
            failure.deep_view() == unattempted(category, message@, at@),
    {
        Failure {
            category,
            message: message.to_owned(),
            adapter_code: None,
            adapter_message: None,
            attempt: 0,
            at: at.to_owned(),
            retryable: false,
        }
    }
}

/// One execution attempt, recorded even when it fails, so that run history
/// shows every try.
#[derive(Clone, Debug, PartialEq, Eq)]
pub struct Attempt {
    /// 1-based attempt number.
    pub attempt: u32,
    pub started_at: String,
    pub duration_ms: u64,
    pub query_id: Option<String>,
    pub failure: Option<Failure>,
}

/// The contents of a [`Attempt`].
pub struct AttemptView {
    pub attempt: u32,
    pub started_at: Seq<char>,
    pub duration_ms: u64,
    pub query_id: Option<Seq<char>>,
    pub failure: Option<FailureView>,
}

impl DeepView for Attempt {
    type V = AttemptView;

    open spec fn deep_view(&self) -> AttemptView {
        AttemptView {
            attempt: self.attempt,
            started_at: self.started_at@,
            duration_ms: self.duration_ms,
            query_id: self.query_id.deep_view(),
            failure: self.failure.deep_view(),
        }
    }
}

impl DeepClone for Attempt {
    fn deep_clone(&self) -> (copy: Self) {
        Attempt {
            attempt: self.attempt,
            started_at: self.started_at.deep_clone(),
            duration_ms: self.duration_ms,
            query_id: self.query_id.deep_clone(),
            failure: self.failure.deep_clone(),
        }
    }
}

/// A span of time in whole seconds and a remainder of nanoseconds.
#[derive(Clone, Copy, Debug, PartialEq, Eq, Structural)]
pub struct Duration {
    secs: u64,
    nanos: u32,
}

impl DeepView for Duration {
    type V = Duration;

    open spec fn deep_view(&self) -> Duration {
        *self
    }
}

impl DeepClone for Duration {
    fn deep_clone(&self) -> (copy: Self) {
        *self
    }
}

impl Duration {
    pub closed spec fn whole_seconds(self) -> u64 {
        self.secs
    }

    pub closed spec fn remainder_nanos(self) -> u32 {
        self.nanos
    }

    #[verifier::type_invariant]
    spec fn remainder_below_a_second(self) -> bool {
        self.nanos < 1_000_000_000
    }

    /// The whole milliseconds of the span.
    pub open spec fn millis(self) -> nat {
        (self.whole_seconds() * 1000 + self.remainder_nanos() / 1_000_000) as nat
    }

    /// The nanoseconds of the span.
    pub open spec fn nanoseconds(self) -> nat {
        (self.whole_seconds() * 1_000_000_000 + self.remainder_nanos()) as nat
    }

    /// The span of a number of milliseconds.
    pub closed spec fn of_millis(millis: u64) -> Duration {
        Duration { secs: millis / 1000, nanos: ((millis % 1000) * 1_000_000) as u32 }
    }

    /// Whether the span is a whole number of milliseconds.
    pub open spec fn is_whole_millis(self) -> bool {
        self.remainder_nanos() < 1_000_000_000 && self.remainder_nanos() % 1_000_000 == 0
    }

    pub fn new(secs: u64, nanos: u32) -> (r: Self)
        requires
            nanos < 1_000_000_000,
        ensures
            r.whole_seconds() == secs,
            r.remainder_nanos() == nanos,
    {
        Duration { secs, nanos }
    }

    pub fn from_millis(millis: u64) -> (r: Self)
        ensures
            r == Duration::of_millis(millis),
            r.millis() == millis,
            r.whole_seconds() == millis / 1000,
            r.remainder_nanos() == (millis % 1000) * 1_000_000,
    {
        Duration { secs: millis / 1000, nanos: ((millis % 1000) * 1_000_000) as u32 }
    }

    pub fn from_secs(secs: u64) -> (r: Self)
        ensures
            r.whole_seconds() == secs,
            r.remainder_nanos() == 0,
    {
        Duration { secs, nanos: 0 }
    }

    pub fn as_millis(&self) -> (r: u128)
        ensures
            r == self.millis(),
    {
        self.secs as u128 * 1000 + (self.nanos / 1_000_000) as u128
    }

    pub fn as_secs(&self) -> (r: u64)
        ensures
            r == self.whole_seconds(),
    {
        self.secs
    }

    pub fn subsec_nanos(&self) -> (r: u32)
        ensures
            r == self.remainder_nanos(),
            r < 1_000_000_000,
    {
        proof {
            use_type_invariant(self);
        }
        self.nanos
    }
}

/// A span is its seconds and its remainder: two spans that agree in both are the
/// same.
pub proof fn law_spans_are_their_parts(a: Duration, b: Duration)
    requires
        a.whole_seconds() == b.whole_seconds(),
        a.remainder_nanos() == b.remainder_nanos(),
    ensures
        a == b,
{
}

/// Two spans of as many nanoseconds are the same.
pub proof fn law_spans_are_their_nanoseconds(a: Duration, b: Duration)
    requires
        a.remainder_nanos() < 1_000_000_000,
        b.remainder_nanos() < 1_000_000_000,
        a.nanoseconds() == b.nanoseconds(),
    ensures
        a == b,
{
    law_spans_are_their_parts(a, b);
}

/// A number of milliseconds as a span has its whole seconds and its remainder.
pub proof fn law_spans_of_milliseconds(millis: u64)
    ensures
        Duration::of_millis(millis).whole_seconds() == millis / 1000,
        Duration::of_millis(millis).remainder_nanos() == (millis % 1000) * 1_000_000,
        Duration::of_millis(millis).millis() == millis,
        Duration::of_millis(millis).nanoseconds() == millis * 1_000_000,
{
}

/// The shorter of two spans.
pub open spec fn shorter(a: Duration, b: Duration) -> Duration {
    if a.nanoseconds() <= b.nanoseconds() {
        a
    } else {
        b
    }
}

/// A span of time in seconds, written as the shortest decimal that the
/// floating-point value nearest to it reads back from.
pub uninterp spec fn seconds_text(secs: u64, nanos: u32) -> Seq<char>;

/// `std::time::Duration::as_secs_f64`, formatted. The text depends on the
/// span alone.
#[verifier::external_body]
fn render_seconds(secs: u64, nanos: u32) -> (r: String)
    requires
        nanos < 1_000_000_000,
    ensures
        r@ == seconds_text(secs, nanos),
{
    format!("{}", std::time::Duration::new(secs, nanos).as_secs_f64())
}

/// Centralised retry policy: bounded exponential backoff, classified
/// per-failure.
#[derive(Clone, Debug)]
pub struct RetryPolicy {
    /// Extra attempts after the first (`0` = try once).
    pub retries: u32,
    /// First retry delay; each retry doubles it.
    pub base_delay: Duration,
    /// Backoff ceiling.
    pub max_delay: Duration,
}

impl Default for RetryPolicy {
    fn default() -> (policy: Self)
        ensures
            policy.retries == 0,
            policy.base_delay.whole_seconds() == 0,
            policy.base_delay.remainder_nanos() == 200_000_000,
            policy.max_delay.whole_seconds() == 5,
            policy.max_delay.remainder_nanos() == 0,
    {
        RetryPolicy {
            retries: 0,
            base_delay: Duration::from_millis(200),
            max_delay: Duration::from_secs(5),
        }
    }
}

/// Two to the power `n`.
pub open spec fn power_of_two(n: nat) -> nat
    decreases n,
{
    if n == 0 {
        1
    } else {
        2 * power_of_two((n - 1) as nat)
    }
}

/// How often the delay has doubled before the attempt that follows `attempt`:
/// once per retry.
pub open spec fn doublings(attempt: u32) -> nat {
    if attempt == 0 {
        0
    } else {
        (attempt - 1) as nat
    }
}

impl RetryPolicy {
    /// Total attempts a node may get.
    pub open spec fn attempts(self) -> int {
        if self.retries == u32::MAX {
            u32::MAX as int
        } else {
            self.retries + 1
        }
    }

    /// The delay in milliseconds after failed attempt `attempt`: the base
    /// delay doubled once per earlier retry, up to the ceiling.
    pub open spec fn delay_millis(self, attempt: u32) -> nat {
        let grown = self.base_delay.millis() * power_of_two(doublings(attempt));
        if grown <= self.max_delay.millis() {
            grown
        } else {
            self.max_delay.millis()
        }
    }

    /// Whether another attempt follows `failure` on attempt `attempt`: it is
    /// marked retryable, attempts are left, and the adapter is to blame.
    pub open spec fn retries_after(self, failure: FailureView, attempt: u32) -> bool {
        failure.retryable && attempt < self.attempts() && failure.category
            == FailureCategory::Adapter
    }

    /// Total attempts a node may get (`1 + retries`).
    pub fn max_attempts(&self) -> (r: u32)
        ensures
            r == self.attempts(),
    {
        self.retries.saturating_add(1)
    }

    /// The delay after failed attempt `attempt`. A delay of more milliseconds than
    /// 64 bits hold keeps their low 64 bits.
    pub open spec fn delay_after(self, attempt: u32) -> Duration {
        Duration::of_millis((self.delay_millis(attempt) % 0x1_0000_0000_0000_0000) as u64)
    }

    /// Delay before the attempt following failed attempt `attempt`.
    pub fn delay(&self, attempt: u32) -> (r: Duration)
        ensures
            r == self.delay_after(attempt),
            r.millis() == self.delay_millis(attempt) % 0x1_0000_0000_0000_0000,
            r.whole_seconds() == (self.delay_millis(attempt) % 0x1_0000_0000_0000_0000) / 1000,
            r.remainder_nanos() == ((self.delay_millis(attempt) % 0x1_0000_0000_0000_0000) % 1000)
                * 1_000_000,
    {
        let base: u128 = self.base_delay.as_millis();
        let ceiling: u128 = self.max_delay.as_millis();
        let mut grown: u128 = base;
        let mut i: u32 = 1;
        assert(base * power_of_two(0) == base) by (nonlinear_arith)
            requires
                power_of_two(0) == 1,
        ;
        // A delay of nothing never grows, and one at the ceiling grows no more.
        while i < attempt && 0 < grown && grown < ceiling
            invariant
                1 <= i,
                i <= attempt || i == 1,
                base == self.base_delay.millis(),
                ceiling == self.max_delay.millis(),
                ceiling <= 0xffff_ffff_ffff_ffff_ffff,
                grown == base * power_of_two((i - 1) as nat),
            decreases attempt - i,
        {
            let ghost p = power_of_two((i - 1) as nat);
            assert(power_of_two(i as nat) == 2 * p);
            assert(base * (2 * p) == 2 * (base * p)) by (nonlinear_arith);
            grown = grown * 2;
            i = i + 1;
        }
        proof {
            let p = power_of_two((i - 1) as nat);
            let q = power_of_two(doublings(attempt));
            if i < attempt {
                lemma_power_monotone((i - 1) as nat, doublings(attempt));
                assert(base * p <= base * q) by (nonlinear_arith)
                    requires
                        p <= q,
                ;
                lemma_power_positive((i - 1) as nat);
                if grown == 0 {
                    assert(base == 0) by (nonlinear_arith)
                        requires
                            base * p == 0,
                            p > 0,
                    ;
                    assert(base * q == 0) by (nonlinear_arith)
                        requires
                            base == 0,
                    ;
                }
            }
        }
        let millis: u128 = if grown <= ceiling {
            grown
        } else {
            ceiling
        };
        Duration::from_millis((millis % 0x1_0000_0000_0000_0000) as u64)
    }

    /// Whether `failure` on attempt `attempt` may be retried. Only transient
    /// adapter failures are retried: SQL errors fail deterministically, tests
    /// are assertions, timeouts would likely recur, and dependency and
    /// cancellation states are scheduler decisions.
    pub fn should_retry(&self, failure: &Failure, attempt: u32) -> (r: bool)
        ensures
            r == self.retries_after(failure.deep_view(), attempt),
    {
        failure.retryable && attempt < self.max_attempts() && matches!(
            failure.category,
            FailureCategory::Adapter
        )
    }
}

/// An ASCII letter in upper case; any other character as it is.
pub open spec fn ascii_upper(c: char) -> char {
    if 'a' <= c && c <= 'z' {
        ((c as int) - 32) as char
    } else {
        c
    }
}

/// Whether two texts are equal but for the case of ASCII letters.
pub open spec fn same_ignoring_case(a: Seq<char>, b: Seq<char>) -> bool {
    a.len() == b.len() && forall|i: int|
        0 <= i < a.len() ==> ascii_upper(#[trigger] a[i]) == ascii_upper(b[i])
}

fn upper(c: char) -> (r: char)
    ensures
        r == ascii_upper(c),
{
    if 'a' <= c && c <= 'z' {
        ((c as u8) - 32) as char
    } else {
        c
    }
}

fn matches_ignoring_case(a: &str, b: &str) -> (r: bool)
    ensures
        r == same_ignoring_case(a@, b@),
{
    let left: Vec<char> = chars_of(a);
    let right: Vec<char> = chars_of(b);
    if left.len() != right.len() {
        return false;
    }
    for i in 0..left.len()
        invariant
            left@ == a@,
            right@ == b@,
            left@.len() == right@.len(),
            forall|j: int| 0 <= j < i ==> ascii_upper(#[trigger] left@[j]) == ascii_upper(right@[j]),
    {
        let l: char = left[i];
        let r: char = right[i];
        if upper(l) != upper(r) {
            assert(ascii_upper(a@[i as int]) != ascii_upper(b@[i as int]));
            return false;
        }
    }
    true
}

/// The adapter codes that mean "the SQL itself is wrong": retrying can never
/// help. Anything else is an adapter failure, retried only when the adapter
/// declared it retryable.
pub open spec fn sql_codes() -> Seq<Seq<char>> {
    seq![
        "SYNTAX_ERROR"@,
        "PARSE_ERROR"@,
        "COLUMN_NOT_FOUND"@,
        "TABLE_NOT_FOUND"@,
        "SCHEMA_NOT_FOUND"@,
        "CATALOG_NOT_FOUND"@,
        "FUNCTION_NOT_FOUND"@,
        "TYPE_MISMATCH"@,
        "TYPE_NOT_FOUND"@,
        "AMBIGUOUS_NAME"@,
        "DUPLICATE_COLUMN_NAME"@,
        "DIVISION_BY_ZERO"@,
        "INVALID_FUNCTION_ARGUMENT"@,
    ]
}

/// Whether an adapter code blames the SQL, in whatever case it is written.
pub open spec fn is_sql_code(code: Seq<char>) -> bool {
    exists|i: int|
        0 <= i < sql_codes().len() && same_ignoring_case(code, #[trigger] sql_codes()[i])
}

fn blames_sql(code: &str) -> (r: bool)
    ensures
        r == is_sql_code(code@),
{
    let codes: [&str; 13] = [
        "SYNTAX_ERROR",
        "PARSE_ERROR",
        "COLUMN_NOT_FOUND",
        "TABLE_NOT_FOUND",
        "SCHEMA_NOT_FOUND",
        "CATALOG_NOT_FOUND",
        "FUNCTION_NOT_FOUND",
        "TYPE_MISMATCH",
        "TYPE_NOT_FOUND",
        "AMBIGUOUS_NAME",
        "DUPLICATE_COLUMN_NAME",
        "DIVISION_BY_ZERO",
        "INVALID_FUNCTION_ARGUMENT",
    ];
    assert(sql_codes().len() == 13);
    assert forall|i: int| 0 <= i < 13 implies (#[trigger] codes@[i])@ == sql_codes()[i] by {}
    let mut i: usize = 0;
    while i < 13
        invariant
            i <= 13,
            sql_codes().len() == 13,
            forall|j: int| 0 <= j < 13 ==> (#[trigger] codes@[j])@ == sql_codes()[j],
            forall|j: int| 0 <= j < i ==> !same_ignoring_case(code@, #[trigger] sql_codes()[j]),
        decreases 13 - i,
    {
        assert(codes@[i as int]@ == sql_codes()[i as int]);
        if matches_ignoring_case(code, codes[i]) {
            return true;
        }
        i = i + 1;
    }
    false
}

/// What an adapter error on `attempt` comes to, stamped `at`.
pub open spec fn classified(
    error: crate::error::AdapterErrorView,
    attempt: u32,
    at: Seq<char>,
) -> FailureView {
    FailureView {
        category: if is_sql_code(error.code) {
            FailureCategory::Sql
        } else {
            FailureCategory::Adapter
        },
        message: adapter_error_text(error),
        adapter_code: Some(error.code),
        adapter_message: Some(error.message),
        attempt,
        at,
        retryable: error.retryable && !is_sql_code(error.code),
    }
}

/// Classify an adapter error into a category and retryability. The only
/// retryable class is transient adapter/transport failure; SQL-semantic
/// errors are never retried.
pub fn classify_adapter_error(error: &AdapterError, attempt: u32) -> (failure: Failure)
    ensures
        is_timestamp(failure.at@),
        failure.deep_view() == classified(error.deep_view(), attempt, failure.at@),
{
    let sql: bool = blames_sql(error.code.as_str());
    Failure {
        category: if sql {
            FailureCategory::Sql
        } else {
            FailureCategory::Adapter
        },
        message: error.message_text(),
        adapter_code: Some(error.code.clone()),
        adapter_message: Some(error.message.clone()),
        attempt,
        at: now_rfc3339(),
        retryable: error.retryable && !sql,
    }
}

/// The failure of an attempt that ran out of time, stamped `at`.
pub open spec fn timed_out(timeout: Duration, attempt: u32, at: Seq<char>) -> FailureView {
    FailureView {
        category: FailureCategory::Timeout,
        message: "exceeded the "@ + seconds_text(
            timeout.whole_seconds(),
            timeout.remainder_nanos(),
        ) + "s execution timeout"@,
        adapter_code: None,
        adapter_message: None,
        attempt,
        at,
        retryable: false,
    }
}

/// A timeout failure for a bounded attempt.
pub fn timeout_failure(timeout: Duration, attempt: u32) -> (failure: Failure)
    ensures
        is_timestamp(failure.at@),
        failure.deep_view() == timed_out(timeout, attempt, failure.at@),
{
    let seconds: String = render_seconds(timeout.as_secs(), timeout.subsec_nanos());
    Failure {
        category: FailureCategory::Timeout,
        message: cat3("exceeded the ", seconds.as_str(), "s execution timeout"),
        adapter_code: None,
        adapter_message: None,
        attempt,
        at: now_rfc3339(),
        retryable: false,
    }
}

/// An adapter error whose code blames the SQL is never retried, whatever the
/// policy allows and whatever the adapter says of it.
pub proof fn law_sql_errors_are_never_retried(
    policy: RetryPolicy,
    error: crate::error::AdapterErrorView,
    attempt: u32,
    at: Seq<char>,
)
    requires
        is_sql_code(error.code),
    ensures
        !policy.retries_after(classified(error, attempt, at), attempt),
{
}

/// A failure of any category but `adapter` is never retried.
pub proof fn law_only_adapter_failures_are_retried(
    policy: RetryPolicy,
    failure: FailureView,
    attempt: u32,
)
    requires
        failure.category != FailureCategory::Adapter,
    ensures
        !policy.retries_after(failure, attempt),
{
}

/// A node gets at most the policy's attempts: the last of them is not retried.
pub proof fn law_attempts_are_bounded(policy: RetryPolicy, failure: FailureView, attempt: u32)
    requires
        attempt >= policy.attempts(),
    ensures
        !policy.retries_after(failure, attempt),
{
}

/// The delay never shrinks from one attempt to the next and never exceeds the
/// ceiling.
pub proof fn law_backoff_grows_to_the_ceiling(policy: RetryPolicy, attempt: u32, later: u32)
    requires
        attempt <= later,
    ensures
        policy.delay_millis(attempt) <= policy.delay_millis(later) <= policy.max_delay.millis(),
{
    lemma_power_monotone(doublings(attempt), doublings(later));
    let a = power_of_two(doublings(attempt));
    let b = power_of_two(doublings(later));
    let base = policy.base_delay.millis();
    assert(base * a <= base * b) by (nonlinear_arith)
        requires
            a <= b,
    ;
}

proof fn lemma_power_monotone(m: nat, n: nat)
    requires
        m <= n,
    ensures
        power_of_two(m) <= power_of_two(n),
    decreases n,
{
    if m < n {
        lemma_power_monotone(m, (n - 1) as nat);
    }
}

proof fn lemma_power_positive(n: nat)
    ensures
        power_of_two(n) > 0,
    decreases n,
{
    if n > 0 {
        lemma_power_positive((n - 1) as nat);
    }
}

/// Below the ceiling each retry waits twice as long as the one before it.
pub proof fn law_backoff_doubles(policy: RetryPolicy, attempt: u32)
    requires
        1 <= attempt < u32::MAX,
        policy.delay_millis((attempt + 1) as u32) < policy.max_delay.millis(),
    ensures
        policy.delay_millis((attempt + 1) as u32) == 2 * policy.delay_millis(attempt),
{
    lemma_next_delay(policy, attempt);
}

proof fn lemma_next_delay(policy: RetryPolicy, attempt: u32)
    requires
        1 <= attempt < u32::MAX,
    ensures
        policy.delay_millis((attempt + 1) as u32) == (if 2 * policy.delay_millis(attempt)
            <= policy.max_delay.millis() {
            2 * policy.delay_millis(attempt)
        } else {
            policy.max_delay.millis()
        }),
{
    let base = policy.base_delay.millis();
    let p = power_of_two(doublings(attempt));
    assert(doublings((attempt + 1) as u32) == doublings(attempt) + 1);
    assert(power_of_two(doublings((attempt + 1) as u32)) == 2 * p);
    assert(base * (2 * p) == 2 * (base * p)) by (nonlinear_arith);
}

/// With delays of whole milliseconds the first retry waits the base delay, each
/// further one twice as long as the one before it, and none longer than the
/// ceiling; so no retry waits less than an earlier one.
pub proof fn law_delays_double_up_to_the_ceiling(policy: RetryPolicy, attempt: u32, later: u32)
    requires
        policy.base_delay.is_whole_millis(),
        policy.max_delay.is_whole_millis(),
        policy.max_delay.millis() <= u64::MAX,
        attempt <= later,
    ensures
        policy.delay_after(0) == shorter(policy.base_delay, policy.max_delay),
        policy.delay_after(1) == shorter(policy.base_delay, policy.max_delay),
        1 <= attempt < u32::MAX ==> policy.delay_after((attempt + 1) as u32).nanoseconds() == (
        if 2 * policy.delay_after(attempt).nanoseconds() <= policy.max_delay.nanoseconds() {
            2 * policy.delay_after(attempt).nanoseconds()
        } else {
            policy.max_delay.nanoseconds()
        }),
        policy.delay_after(attempt).nanoseconds() <= policy.delay_after(later).nanoseconds()
            <= policy.max_delay.nanoseconds(),
{
    let base = policy.base_delay;
    let ceiling = policy.max_delay;
    lemma_whole_millis(base);
    lemma_whole_millis(ceiling);
    law_backoff_grows_to_the_ceiling(policy, attempt, later);
    lemma_delay_nanoseconds(policy, attempt);
    lemma_delay_nanoseconds(policy, later);
    lemma_first_delay(policy);
    if 1 <= attempt < u32::MAX {
        lemma_next_delay(policy, attempt);
        lemma_delay_nanoseconds(policy, (attempt + 1) as u32);
    }
}

proof fn lemma_whole_millis(span: Duration)
    requires
        span.is_whole_millis(),
    ensures
        span.nanoseconds() == span.millis() * 1_000_000,
        span.whole_seconds() == span.millis() / 1000,
        span.remainder_nanos() == (span.millis() % 1000) * 1_000_000,
{
}

proof fn lemma_delay_nanoseconds(policy: RetryPolicy, attempt: u32)
    requires
        policy.max_delay.millis() <= u64::MAX,
    ensures
        policy.delay_millis(attempt) <= policy.max_delay.millis(),
        policy.delay_after(attempt).nanoseconds() == policy.delay_millis(attempt) * 1_000_000,
{
    let millis = policy.delay_millis(attempt);
    assert(millis % 0x1_0000_0000_0000_0000 == millis);
    law_spans_of_milliseconds(millis as u64);
}

proof fn lemma_first_delay(policy: RetryPolicy)
    requires
        policy.base_delay.is_whole_millis(),
        policy.max_delay.is_whole_millis(),
        policy.max_delay.millis() <= u64::MAX,
    ensures
        policy.delay_after(0) == shorter(policy.base_delay, policy.max_delay),
        policy.delay_after(1) == shorter(policy.base_delay, policy.max_delay),
{
    let base = policy.base_delay;
    let ceiling = policy.max_delay;
    let first = shorter(base, ceiling);
    lemma_whole_millis(base);
    lemma_whole_millis(ceiling);
    assert(base.millis() * power_of_two(0) == base.millis()) by (nonlinear_arith)
        requires
            power_of_two(0) == 1,
    ;
    let millis = policy.delay_millis(1);
    assert(policy.delay_millis(0) == millis);
    assert(millis == first.millis());
    assert(millis % 0x1_0000_0000_0000_0000 == millis);
    law_spans_of_milliseconds(millis as u64);
    law_spans_are_their_parts(policy.delay_after(1), first);
}

} // verus!
