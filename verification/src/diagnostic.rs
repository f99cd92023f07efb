//! Structured, source-aware diagnostics.
use vstd::prelude::*;

use crate::digest::Sha256Digest;
use crate::ir::SourceIdentity;
use crate::text::decimal_string;

verus! {

/// Machine-actionable severity of a diagnostic.
#[derive(Clone, Copy, Debug, PartialEq, Eq, Structural)]
pub enum Severity {
    /// The operation cannot produce a valid artifact.
    Error,
    /// The artifact remains usable but deserves attention.
    Warning,
}

/// A stable location in an ingested source.
#[derive(Debug, PartialEq, Eq)]
pub struct SourceLocation {
    /// Logical identity supplied by the caller.
    pub identity: SourceIdentity,
    /// Digest of the exact source bytes.
    pub digest: Sha256Digest,
    /// Zero-based position of the source in the explicit history.
    pub source_position: usize,
    /// Zero-based operation position, when known.
    pub operation_position: Option<usize>,
    /// One-based line, when reported by a parser.
    pub line: Option<usize>,
    /// One-based column, when reported by a parser.
    pub column: Option<usize>,
}

/// The content of a source location.
pub struct LocationView {
    pub identity: Seq<char>,
    pub digest: Seq<char>,
    pub source_position: usize,
    pub operation_position: Option<usize>,
    pub line: Option<usize>,
    pub column: Option<usize>,
}

impl View for SourceLocation {
    type V = LocationView;

    open spec fn view(&self) -> LocationView {
        LocationView {
            identity: self.identity@,
            digest: self.digest@,
            source_position: self.source_position,
            operation_position: self.operation_position,
            line: self.line,
            column: self.column,
        }
    }
}

/// The content of an optional location.
pub open spec fn loc_view(o: Option<SourceLocation>) -> Option<LocationView> {
    match o {
        Some(l) => Some(l@),
        None => None,
    }
}

impl Clone for SourceLocation {
    fn clone(&self) -> (r: Self)
        ensures
            r == *self,
    {
        SourceLocation {
            identity: self.identity.clone(),
            digest: self.digest.clone(),
            source_position: self.source_position,
            operation_position: self.operation_position,
            line: self.line,
            column: self.column,
        }
    }
}

impl SourceLocation {
    /// Creates a location for a source as a whole.
    pub fn source(identity: SourceIdentity, digest: Sha256Digest, source_position: usize) -> (r:
        Self)
        ensures
            r == (SourceLocation {
                identity,
                digest,
                source_position,
                operation_position: None,
                line: None,
                column: None,
            }),
    {
        SourceLocation {
            identity,
            digest,
            source_position,
            operation_position: None,
            line: None,
            column: None,
        }
    }

    /// Adds an operation position.
    pub fn at_operation(self, operation_position: usize) -> (r: Self)
        ensures
            r == (SourceLocation { operation_position: Some(operation_position), ..self }),
    {
        SourceLocation { operation_position: Some(operation_position), ..self }
    }

    /// Adds a parser line and column.
    pub fn at_text(self, line: usize, column: usize) -> (r: Self)
        ensures
            r == (SourceLocation { line: Some(line), column: Some(column), ..self }),
    {
        SourceLocation { line: Some(line), column: Some(column), ..self }
    }
}

/// A secondary location that explains a diagnostic.
#[derive(Debug, PartialEq, Eq)]
pub struct DiagnosticRelated {
    /// Human-readable relationship to the primary location.
    pub message: String,
    /// Location of the related input.
    pub location: SourceLocation,
}

impl Clone for DiagnosticRelated {
    fn clone(&self) -> (r: Self)
        ensures
            r == *self,
    {
        DiagnosticRelated { message: self.message.clone(), location: self.location.clone() }
    }
}

/// A structured compiler or resolver diagnostic.
#[derive(Debug, PartialEq, Eq)]
pub struct Diagnostic {
    /// Stable code suitable for CI policy and documentation.
    pub code: String,
    /// Severity that determines artifact usability.
    pub severity: Severity,
    /// Concise human-readable explanation.
    pub message: String,
    /// Primary source location, if the failure came from input.
    pub primary: Option<SourceLocation>,
    /// Other locations needed to understand a conflict.
    pub related: Vec<DiagnosticRelated>,
}

/// Copies a list of related locations.
fn clone_related(v: &Vec<DiagnosticRelated>) -> (r: Vec<DiagnosticRelated>)
    ensures
        r@ == v@,
{
    let mut out: Vec<DiagnosticRelated> = Vec::new();
    let mut i: usize = 0;
    while i < v.len()
        invariant
            i <= v@.len(),
            out@ == v@.take(i as int),
        decreases v@.len() - i,
    {
        out.push(v[i].clone());
        assert(v@.take(i + 1) =~= v@.take(i as int).push(v@[i as int]));
        i = i + 1;
    }
    assert(v@.take(v@.len() as int) =~= v@);
    out
}

impl Clone for Diagnostic {
    fn clone(&self) -> (r: Self)
        ensures
            r.code == self.code,
            r.severity == self.severity,
            r.message == self.message,
            r.primary == self.primary,
            r.related@ == self.related@,
    {
        Diagnostic {
            code: self.code.clone(),
            severity: self.severity,
            message: self.message.clone(),
            primary: match &self.primary {
                Some(p) => Some(p.clone()),
                None => None,
            },
            related: clone_related(&self.related),
        }
    }
}

/// The diagnostic that `Diagnostic::error` creates, before locations are attached.
pub open spec fn is_plain_error(d: Diagnostic, code: Seq<char>, message: Seq<char>) -> bool {
    &&& d.code@ == code
    &&& d.severity == Severity::Error
    &&& d.message@ == message
    &&& d.primary is None
    &&& d.related@.len() == 0
}

impl Diagnostic {
    /// Creates an error diagnostic.
    pub fn error(code: &str, message: &str) -> (r: Self)
        ensures
            is_plain_error(r, code@, message@),
    {
        Diagnostic {
            code: String::from_str(code),
            severity: Severity::Error,
            message: String::from_str(message),
            primary: None,
            related: Vec::new(),
        }
    }

    /// Associates a primary location.
    pub fn with_primary(self, primary: SourceLocation) -> (r: Self)
        ensures
            r.code == self.code,
            r.severity == self.severity,
            r.message == self.message,
            r.primary == Some(primary),
            r.related@ == self.related@,
    {
        Diagnostic { primary: Some(primary), ..self }
    }

    /// Associates a source that contributed to the same failure.
    pub fn with_related(self, message: &str, location: SourceLocation) -> (r: Self)
        ensures
            r.code == self.code,
            r.severity == self.severity,
            r.message == self.message,
            r.primary == self.primary,
            r.related@.len() == self.related@.len() + 1,
            r.related@.take(self.related@.len() as int) == self.related@,
            r.related@.last().message@ == message@,
            r.related@.last().location == location,
    {
        let mut d = self;
        d.related.push(DiagnosticRelated { message: String::from_str(message), location });
        assert(d.related@.take(self.related@.len() as int) =~= self.related@);
        d
    }

    /// Human-readable one-line rendering: `code: message`, followed by the
    /// primary location when there is one.
    pub fn to_display_string(&self) -> (r: String)
        ensures
            self.primary is None ==> r@ == self.code@ + ": "@ + self.message@,
    {
        let mut out = String::from_str(self.code.as_str());
        out.append(": ");
        out.append(self.message.as_str());
        match &self.primary {
            Some(primary) => {
                out.append(" [");
                out.append(primary.identity.as_str());
                out.append(" at source ");
                out.append(decimal_string(primary.source_position).as_str());
                out.append(", operation ");
                match primary.operation_position {
                    Some(position) => out.append(decimal_string(position).as_str()),
                    None => out.append("?"),
                }
                out.append("]");
            },
            None => {},
        }
        out
    }
}

/// What an error diagnostic reports: code, message, primary location and
/// related locations with their explanations.
pub struct DiagnosticSpec {
    pub code: Seq<char>,
    pub message: Seq<char>,
    pub primary: Option<LocationView>,
    pub related: Seq<(Seq<char>, LocationView)>,
}

/// A diagnostic is the error that the specification describes.
pub open spec fn diagnostic_is(d: Diagnostic, s: DiagnosticSpec) -> bool {
    &&& d.code@ == s.code
    &&& d.severity == Severity::Error
    &&& d.message@ == s.message
    &&& loc_view(d.primary) == s.primary
    &&& d.related@.len() == s.related.len()
    &&& forall|i: int|
        0 <= i < s.related.len() ==> (#[trigger] d.related@[i]).message@ == s.related[i].0
            && d.related@[i].location@ == s.related[i].1
}

pub open spec fn diagnostics_are(ds: Seq<Diagnostic>, ss: Seq<DiagnosticSpec>) -> bool {
    &&& ds.len() == ss.len()
    &&& forall|i: int| 0 <= i < ds.len() ==> diagnostic_is(#[trigger] ds[i], ss[i])
}

pub proof fn lemma_diagnostics_push(
    ds: Seq<Diagnostic>,
    ss: Seq<DiagnosticSpec>,
    d: Diagnostic,
    s: DiagnosticSpec,
)
    requires
        diagnostics_are(ds, ss),
        diagnostic_is(d, s),
    ensures
        diagnostics_are(ds.push(d), ss.push(s)),
{
    assert forall|i: int| 0 <= i < ds.push(d).len() implies diagnostic_is(
        #[trigger] ds.push(d)[i],
        ss.push(s)[i],
    ) by {
        if i < ds.len() {
            assert(ds.push(d)[i] == ds[i]);
            assert(ss.push(s)[i] == ss[i]);
        }
    }
}

/// Appends a diagnostic to a list, following its specification.
pub(crate) fn push_diagnostic(
    ds: &mut Vec<Diagnostic>,
    d: Diagnostic,
    Ghost(ss): Ghost<Seq<DiagnosticSpec>>,
    Ghost(s): Ghost<DiagnosticSpec>,
)
    requires
        diagnostics_are(old(ds)@, ss),
        diagnostic_is(d, s),
    ensures
        diagnostics_are(final(ds)@, ss.push(s)),
{
    proof {
        lemma_diagnostics_push(ds@, ss, d, s);
    }
    ds.push(d);
}

/// Appends a diagnostic when a condition holds; the list then follows its
/// specification extended by that one item, or unchanged.
pub(crate) fn push_if(
    ds: &mut Vec<Diagnostic>,
    cond: bool,
    d: Diagnostic,
    Ghost(ss): Ghost<Seq<DiagnosticSpec>>,
    Ghost(s): Ghost<DiagnosticSpec>,
)
    requires
        diagnostics_are(old(ds)@, ss),
        cond ==> diagnostic_is(d, s),
    ensures
        diagnostics_are(
            final(ds)@,
            ss + if cond {
                seq![s]
            } else {
                Seq::<DiagnosticSpec>::empty()
            },
        ),
{
    if cond {
        push_diagnostic(ds, d, Ghost(ss), Ghost(s));
        assert(ss.push(s) =~= ss + seq![s]);
    } else {
        assert(ss + Seq::<DiagnosticSpec>::empty() =~= ss);
    }
}

} // verus!
