//! Severity-tagged messages that stages accumulate instead of failing.

use vstd::prelude::*;
use crate::text::{Span, Text};

verus! {

/// How serious a diagnostic is. From least to most severe: `Help`, `Note`,
/// `Warning`, `Error`, `Bug`.
#[derive(Debug, Copy, Clone, PartialEq, Eq, Hash, Structural)]
pub enum Severity {
    Help,
    Note,
    Warning,
    Error,
    Bug,
}

/// The rank of a severity in the order `Help < Note < Warning < Error < Bug`.
pub open spec fn severity_rank(s: Severity) -> nat {
    match s {
        Severity::Help => 0,
        Severity::Note => 1,
        Severity::Warning => 2,
        Severity::Error => 3,
        Severity::Bug => 4,
    }
}

impl Severity {
    /// The rank of this severity (see [`severity_rank`]).
    pub fn rank(self) -> (r: u8)
        ensures
            r as nat == severity_rank(self),
    {
        match self {
            Severity::Help => 0,
            Severity::Note => 1,
            Severity::Warning => 2,
            Severity::Error => 3,
            Severity::Bug => 4,
        }
    }

    /// Whether this severity is at least as severe as `other`.
    pub fn at_least(self, other: Severity) -> (r: bool)
        ensures
            r == (severity_rank(self) >= severity_rank(other)),
    {
        self.rank() >= other.rank()
    }
}

/// A source range with a note attached to it.
#[derive(Debug, Clone, PartialEq, Eq, Hash)]
pub struct Label {
    pub span: Span,
    pub message: Text,
}

/// A diagnostic message with its severity, optional code and labels.
#[derive(Debug, Clone, PartialEq, Eq, Hash)]
pub struct Diagnostic {
    pub severity: Severity,
    pub message: Text,
    pub code: Option<Text>,
    pub labels: Vec<Label>,
}

/// Mathematical model of a [`Diagnostic`].
pub struct DiagnosticModel {
    pub severity: Severity,
    pub message: Seq<char>,
    pub code: Option<Seq<char>>,
    pub labels: Seq<(Span, Seq<char>)>,
}

impl View for Label {
    type V = (Span, Seq<char>);

    open spec fn view(&self) -> (Span, Seq<char>) {
        (self.span, self.message@)
    }
}

impl View for Diagnostic {
    type V = DiagnosticModel;

    open spec fn view(&self) -> DiagnosticModel {
        DiagnosticModel {
            severity: self.severity,
            message: self.message@,
            code: match self.code {
                Some(c) => Some(c@),
                None => None,
            },
            labels: self.labels@.map_values(|l: Label| l@),
        }
    }
}

/// The models of a sequence of diagnostics, in order.
pub open spec fn diagnostics_model(v: Seq<Diagnostic>) -> Seq<DiagnosticModel> {
    v.map_values(|d: Diagnostic| d@)
}

/// The code carried by diagnostics about constructs that are not supported.
pub open spec fn unimplemented_code() -> Seq<char> {
    "type_check::unimplemented"@
}

/// A diagnostic with one label on `span` carrying `note`.
pub open spec fn labelled(
    severity: Severity,
    message: Seq<char>,
    code: Option<Seq<char>>,
    span: Span,
    note: Seq<char>,
) -> DiagnosticModel {
    DiagnosticModel { severity, message, code, labels: seq![(span, note)] }
}

/// Whether any diagnostic of `diags` is an error or worse.
pub open spec fn has_errors(diags: Seq<DiagnosticModel>) -> bool {
    exists|i: int|
        0 <= i < diags.len() && severity_rank(#[trigger] diags[i].severity) >= severity_rank(
            Severity::Error,
        )
}

impl Diagnostic {
    /// A diagnostic with a single label.
    pub fn with_label(
        severity: Severity,
        message: &str,
        code: Option<&str>,
        span: Span,
        note: Text,
    ) -> (r: Diagnostic)
        ensures
            r@ == labelled(
                severity,
                message@,
                match code {
                    Some(c) => Some(c@),
                    None => None,
                },
                span,
                note@,
            ),
    {
        let code = match code {
            Some(c) => Some(Text::new(c)),
            None => None,
        };
        let mut labels: Vec<Label> = Vec::new();
        labels.push(Label { span, message: note });
        let r = Diagnostic { severity, message: Text::new(message), code, labels };
        assert(r@.labels =~= seq![(span, r.labels@[0].message@)]);
        r
    }

    /// A "not implemented" diagnostic of severity `Bug` on `span`, whose label
    /// names the construct.
    pub fn unimplemented(message: &str, span: Span, kind: Text) -> (r: Diagnostic)
        ensures
            r@ == labelled(Severity::Bug, message@, Some(unimplemented_code()), span, kind@),
    {
        Diagnostic::with_label(Severity::Bug, message, Some("type_check::unimplemented"), span, kind)
    }
}

/// Whether any of `diags` is an error or worse.
pub fn any_errors(diags: &Vec<Diagnostic>) -> (r: bool)
    ensures
        r == has_errors(diagnostics_model(diags@)),
{
    let mut i: usize = 0;
    while i < diags.len()
        invariant
            0 <= i <= diags.len(),
            forall|j: int|
                0 <= j < i ==> severity_rank(#[trigger] diags@[j].severity) < severity_rank(
                    Severity::Error,
                ),
        decreases diags.len() - i,
    {
        if diags[i].severity.at_least(Severity::Error) {
            assert(diagnostics_model(diags@)[i as int].severity == diags@[i as int].severity);
            return true;
        }
        i = i + 1;
    }
    assert forall|j: int| 0 <= j < diags@.len() implies severity_rank(
        #[trigger] diagnostics_model(diags@)[j].severity,
    ) < severity_rank(Severity::Error) by {
        assert(diagnostics_model(diags@)[j].severity == diags@[j].severity);
    }
    false
}

} // verus!
