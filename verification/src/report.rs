//! The findings this analyzer emits, as plain values: the fields of a
//! `forensicnomicon::report::Finding` that the audit fills in.
use vstd::prelude::*;

verus! {

/// Severity of a finding (`Info` < `Low` < `Medium` < `High` < `Critical`).
#[derive(Debug, Clone, Copy, PartialEq, Eq, Hash, Structural)]
pub enum Severity {
    Info,
    Low,
    Medium,
    High,
    Critical,
}

/// The forensic lens a finding belongs to.
#[derive(Debug, Clone, Copy, PartialEq, Eq, Hash, Structural)]
pub enum Category {
    Integrity,
    Structure,
    Residue,
    Provenance,
    History,
    Concealment,
    Threat,
}

/// The analyzer (and the scope within the medium) that produced a finding.
#[derive(Debug, Clone, PartialEq, Eq)]
pub struct Source {
    /// Analyzer name.
    pub analyzer: String,
    /// Scope within the medium (a case, a host).
    pub scope: String,
    /// Analyzer version.
    pub version: Option<String>,
}

/// One evidence row of a finding.
#[derive(Debug, Clone, PartialEq, Eq)]
pub struct Evidence {
    /// What the value is.
    pub field: String,
    /// The value.
    pub value: String,
}

/// A finding: an observation ("consistent with …"), never a verdict.
#[derive(Debug, Clone, PartialEq, Eq)]
pub struct Finding {
    /// Severity, or `None` when not scored.
    pub severity: Option<Severity>,
    /// Analytical lens.
    pub category: Category,
    /// Stable, scheme-prefixed anomaly code.
    pub code: String,
    /// Human-readable observation.
    pub note: String,
    /// Producing analyzer + scope.
    pub source: Source,
    /// Backing evidence rows, in order.
    pub evidence: Vec<Evidence>,
    /// MITRE ATT&CK techniques the finding is consistent with, in order.
    pub mitre: Vec<String>,
}

/// The model of a [`Source`].
pub struct SourceView {
    pub analyzer: Seq<char>,
    pub scope: Seq<char>,
    pub version: Option<Seq<char>>,
}

/// The model of a [`Finding`]: evidence rows as (field, value) pairs.
pub struct FindingView {
    pub severity: Option<Severity>,
    pub category: Category,
    pub code: Seq<char>,
    pub note: Seq<char>,
    pub source: SourceView,
    pub evidence: Seq<(Seq<char>, Seq<char>)>,
    pub mitre: Seq<Seq<char>>,
}

impl View for Source {
    type V = SourceView;

    open spec fn view(&self) -> SourceView {
        SourceView {
            analyzer: self.analyzer@,
            scope: self.scope@,
            version: match self.version {
                Some(v) => Some(v@),
                None => None,
            },
        }
    }
}

impl View for Evidence {
    type V = (Seq<char>, Seq<char>);

    open spec fn view(&self) -> (Seq<char>, Seq<char>) {
        (self.field@, self.value@)
    }
}

impl DeepView for Evidence {
    type V = (Seq<char>, Seq<char>);

    open spec fn deep_view(&self) -> (Seq<char>, Seq<char>) {
        self.view()
    }
}

impl View for Finding {
    type V = FindingView;

    open spec fn view(&self) -> FindingView {
        FindingView {
            severity: self.severity,
            category: self.category,
            code: self.code@,
            note: self.note@,
            source: self.source@,
            evidence: self.evidence.deep_view(),
            mitre: self.mitre.deep_view(),
        }
    }
}

impl DeepView for Finding {
    type V = FindingView;

    open spec fn deep_view(&self) -> FindingView {
        self.view()
    }
}

/// The name this analyzer stamps on its findings.
pub open spec fn analyzer_name() -> Seq<char> {
    "useract-forensic"@
}

/// The version this analyzer stamps on its findings.
pub open spec fn analyzer_version() -> Seq<char> {
    "0.1.0"@
}

/// The source stamp for findings of this analyzer within `scope`.
pub open spec fn source_stamp(scope: Seq<char>) -> SourceView {
    SourceView { analyzer: analyzer_name(), scope, version: Some(analyzer_version()) }
}

/// The [`Source`] stamp for findings this analyzer emits.
pub fn source(scope: &str) -> (r: Source)
    ensures
        r@ == source_stamp(scope@),
{
    Source {
        analyzer: String::from_str("useract-forensic"),
        scope: scope.to_owned(),
        version: Some(String::from_str("0.1.0")),
    }
}

/// A copy of a source stamp.
pub fn copy_source(s: &Source) -> (r: Source)
    ensures
        r@ == s@,
{
    Source {
        analyzer: s.analyzer.clone(),
        scope: s.scope.clone(),
        version: match &s.version {
            Some(v) => Some(v.clone()),
            None => None,
        },
    }
}


/// Findings are stamped with this analyzer's name and version and with the scope
/// the caller gives.
pub proof fn source_stamp_names_this_analyzer(scope: Seq<char>)
    ensures
        source_stamp(scope).analyzer == "useract-forensic"@,
        source_stamp(scope).scope == scope,
        source_stamp(scope).version == Some("0.1.0"@),
{
}

} // verus!
