//! Engine errors.

use vstd::prelude::*;

use crate::text::{cat2, cat3, cat5, join, join_text, DeepClone};

verus! {

/// A structured adapter failure.
#[derive(Clone, Debug, PartialEq, Eq)]
pub struct AdapterError {
    pub code: String,
    pub message: String,
    /// Whether a retry could plausibly succeed.
    pub retryable: bool,
}

/// The contents of a [`AdapterError`].
pub struct AdapterErrorView {
    pub code: Seq<char>,
    pub message: Seq<char>,
    pub retryable: bool,
}

impl DeepView for AdapterError {
    type V = AdapterErrorView;

    open spec fn deep_view(&self) -> AdapterErrorView {
        AdapterErrorView {
            code: self.code@,
            message: self.message@,
            retryable: self.retryable,
        }
    }
}

impl DeepClone for AdapterError {
    fn deep_clone(&self) -> (copy: Self) {
        AdapterError {
            code: self.code.deep_clone(),
            message: self.message.deep_clone(),
            retryable: self.retryable,
        }
    }
}

/// How an adapter error reads: its code, then its message.
pub open spec fn adapter_error_text(error: AdapterErrorView) -> Seq<char> {
    error.code + ": "@ + error.message
}

impl AdapterError {
    /// An error that no retry is expected to help.
    pub fn new(code: &str, message: &str) -> (error: Self)
        ensures
            error.code@ == code@,
            error.message@ == message@,
            error.retryable == false,
    {
        AdapterError { code: code.to_owned(), message: message.to_owned(), retryable: false }
    }

    /// The same error, marked as one that a retry could help.
    pub fn retryable(self) -> (error: Self)
        ensures
            error.code@ == self.code@,
            error.message@ == self.message@,
            error.retryable == true,
    {
        AdapterError { code: self.code, message: self.message, retryable: true }
    }

    /// The error as one line of text.
    pub fn message_text(&self) -> (r: String)
        ensures
            r@ == adapter_error_text(self.deep_view()),
    {
        cat3(self.code.as_str(), ": ", self.message.as_str())
    }
}

/// A compiler diagnostic, already rendered for people.
#[derive(Clone, Debug, PartialEq, Eq)]
pub struct Diagnostic {
    pub rendered: String,
}

/// The contents of a [`Diagnostic`].
pub struct DiagnosticView {
    pub rendered: Seq<char>,
}

impl DeepView for Diagnostic {
    type V = DiagnosticView;

    open spec fn deep_view(&self) -> DiagnosticView {
        DiagnosticView {
            rendered: self.rendered@,
        }
    }
}

impl DeepClone for Diagnostic {
    fn deep_clone(&self) -> (copy: Self) {
        Diagnostic {
            rendered: self.rendered.deep_clone(),
        }
    }
}

/// An engine-level failure.
#[derive(Clone, Debug, PartialEq, Eq)]
pub enum EngineError {
    Adapter(AdapterError),
    Compilation,
    /// A workspace or a checked-out tree failed to load or compile; carries
    /// the diagnostics so that callers can report them in their own format.
    FailedDiagnostics { label: String, problem: String, diagnostics: Vec<Diagnostic> },
    /// A Git operation failed: ref resolution, merge base, tree checkout.
    Git(String),
    /// A required capability was not configured.
    NotConfigured(String),
    /// A named reference or run does not exist.
    NotFound(String),
    /// A name matches more than one run.
    Ambiguous(String),
    State(String),
    Artifact(String),
    InvalidPlan(String),
    StalePlan(String),
    Promotion(String),
    Environment(String),
}

/// The contents of a [`EngineError`].
pub enum EngineErrorView {
    Adapter(AdapterErrorView),
    Compilation,
    FailedDiagnostics { label: Seq<char>, problem: Seq<char>, diagnostics: Seq<DiagnosticView> },
    Git(Seq<char>),
    NotConfigured(Seq<char>),
    NotFound(Seq<char>),
    Ambiguous(Seq<char>),
    State(Seq<char>),
    Artifact(Seq<char>),
    InvalidPlan(Seq<char>),
    StalePlan(Seq<char>),
    Promotion(Seq<char>),
    Environment(Seq<char>),
}

impl DeepView for EngineError {
    type V = EngineErrorView;

    open spec fn deep_view(&self) -> EngineErrorView {
        match self {
            EngineError::Adapter(value) => EngineErrorView::Adapter(value.deep_view()),
            EngineError::Compilation => EngineErrorView::Compilation,
            EngineError::FailedDiagnostics {
                label,
                problem,
                diagnostics,
            } => EngineErrorView::FailedDiagnostics {
                label: label@,
                problem: problem@,
                diagnostics: diagnostics.deep_view(),
            },
            EngineError::Git(value) => EngineErrorView::Git(value@),
            EngineError::NotConfigured(value) => EngineErrorView::NotConfigured(value@),
            EngineError::NotFound(value) => EngineErrorView::NotFound(value@),
            EngineError::Ambiguous(value) => EngineErrorView::Ambiguous(value@),
            EngineError::State(value) => EngineErrorView::State(value@),
            EngineError::Artifact(value) => EngineErrorView::Artifact(value@),
            EngineError::InvalidPlan(value) => EngineErrorView::InvalidPlan(value@),
            EngineError::StalePlan(value) => EngineErrorView::StalePlan(value@),
            EngineError::Promotion(value) => EngineErrorView::Promotion(value@),
            EngineError::Environment(value) => EngineErrorView::Environment(value@),
        }
    }
}

impl DeepClone for EngineError {
    fn deep_clone(&self) -> (copy: Self) {
        match self {
            EngineError::Adapter(value) => EngineError::Adapter(value.deep_clone()),
            EngineError::Compilation => EngineError::Compilation,
            EngineError::FailedDiagnostics {
                label,
                problem,
                diagnostics,
            } => EngineError::FailedDiagnostics {
                label: label.deep_clone(),
                problem: problem.deep_clone(),
                diagnostics: diagnostics.deep_clone(),
            },
            EngineError::Git(value) => EngineError::Git(value.deep_clone()),
            EngineError::NotConfigured(value) => EngineError::NotConfigured(value.deep_clone()),
            EngineError::NotFound(value) => EngineError::NotFound(value.deep_clone()),
            EngineError::Ambiguous(value) => EngineError::Ambiguous(value.deep_clone()),
            EngineError::State(value) => EngineError::State(value.deep_clone()),
            EngineError::Artifact(value) => EngineError::Artifact(value.deep_clone()),
            EngineError::InvalidPlan(value) => EngineError::InvalidPlan(value.deep_clone()),
            EngineError::StalePlan(value) => EngineError::StalePlan(value.deep_clone()),
            EngineError::Promotion(value) => EngineError::Promotion(value.deep_clone()),
            EngineError::Environment(value) => EngineError::Environment(value.deep_clone()),
        }
    }
}

/// The rendered texts of diagnostics.
pub open spec fn rendered_texts(diagnostics: Seq<DiagnosticView>) -> Seq<Seq<char>> {
    Seq::new(diagnostics.len(), |i: int| diagnostics[i].rendered)
}

/// How an engine error reads.
pub open spec fn engine_error_text(error: EngineErrorView) -> Seq<char> {
    match error {
        EngineErrorView::Adapter(inner) => adapter_error_text(inner),
        EngineErrorView::Compilation =>
            "workspace did not compile; fix the reported diagnostics first"@,
        EngineErrorView::FailedDiagnostics { label, problem, diagnostics } => "`"@ + label + "` "@
            + problem + (": "@ + join_text(rendered_texts(diagnostics), "; "@)),
        EngineErrorView::Git(detail) => "git: "@ + detail,
        EngineErrorView::NotConfigured(detail) => "not configured: "@ + detail,
        EngineErrorView::NotFound(detail) => "not found: "@ + detail,
        EngineErrorView::Ambiguous(detail) => "ambiguous: "@ + detail,
        EngineErrorView::State(detail) => "state store error: "@ + detail,
        EngineErrorView::Artifact(detail) => "artifact error: "@ + detail,
        EngineErrorView::InvalidPlan(detail) => "invalid plan: "@ + detail,
        EngineErrorView::StalePlan(detail) => "plan is stale: "@ + detail
            + "; run `phlo-transform plan` again"@,
        EngineErrorView::Promotion(detail) => "promotion failed: "@ + detail,
        EngineErrorView::Environment(detail) => "environment error: "@ + detail,
    }
}

/// The diagnostics on one line, separated by semicolons.
pub fn render_diagnostics(diagnostics: &Vec<Diagnostic>) -> (r: String)
    ensures
        r@ == join_text(rendered_texts(diagnostics.deep_view()), "; "@),
{
    let mut lines: Vec<String> = Vec::new();
    for i in 0..diagnostics.len()
        invariant
            lines@.len() == i,
            forall|j: int| 0 <= j < i ==> (#[trigger] lines@[j])@ == diagnostics@[j].rendered@,
    {
        lines.push(diagnostics[i].rendered.clone());
    }
    assert(lines.deep_view() =~= rendered_texts(diagnostics.deep_view()));
    let slice: &[String] = lines.as_slice();
    assert(slice.deep_view() =~= lines.deep_view());
    join(slice, "; ")
}

impl EngineError {
    /// The error as one line of text.
    pub fn message_text(&self) -> (r: String)
        ensures
            r@ == engine_error_text(self.deep_view()),
    {
        match self {
            EngineError::Adapter(inner) => inner.message_text(),
            EngineError::Compilation =>
                "workspace did not compile; fix the reported diagnostics first".to_owned(),
            EngineError::FailedDiagnostics { label, problem, diagnostics } => {
                let tail: String = cat2(": ", render_diagnostics(diagnostics).as_str());
                cat5("`", label.as_str(), "` ", problem.as_str(), tail.as_str())
            },
            EngineError::Git(detail) => cat2("git: ", detail.as_str()),
            EngineError::NotConfigured(detail) => cat2("not configured: ", detail.as_str()),
            EngineError::NotFound(detail) => cat2("not found: ", detail.as_str()),
            EngineError::Ambiguous(detail) => cat2("ambiguous: ", detail.as_str()),
            EngineError::State(detail) => cat2("state store error: ", detail.as_str()),
            EngineError::Artifact(detail) => cat2("artifact error: ", detail.as_str()),
            EngineError::InvalidPlan(detail) => cat2("invalid plan: ", detail.as_str()),
            EngineError::StalePlan(detail) => cat3(
                "plan is stale: ",
                detail.as_str(),
                "; run `phlo-transform plan` again",
            ),
            EngineError::Promotion(detail) => cat2("promotion failed: ", detail.as_str()),
            EngineError::Environment(detail) => cat2("environment error: ", detail.as_str()),
        }
    }
}

} // verus!
