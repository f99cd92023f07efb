//! Deterministic ingestion and compilation of positioned source documents
//! into a canonical contract.
use vstd::prelude::*;
use vstd::utf8::encode_utf8;

use crate::contract::{contract_problems, digest_text, new_contract, ContractIr, ContractView};
use crate::decode::{decode_envelope, read_envelope, EnvelopeView};
use crate::canonical::opt_view;
use crate::diagnostic::{
    diagnostic_is, diagnostics_are, push_diagnostic, Diagnostic, DiagnosticSpec, LocationView,
    SourceLocation,
};
use crate::digest::digest_of;
use crate::ir::{
    record_location, records_view, spec_source_identity, ContractMetadata, RecordView,
    SourceIdentity, SourceIdentityError, SourceRecord,
};
use crate::json::{json_parse, parse_json, JsonSyntaxError, JsonValue};
use crate::resolution::{
    conflict_is, conflicts_are, events_view, resolve_history, spec_resolve, Conflict, ConflictSpec, EventView,
    History, HistoryEvent, OperationView, Precedence, ResolutionPolicy,
};
use crate::text::{concat3, concat5, decimal, decimal_string, seq_lt, str_lt};

verus! {

/// Schema identifier accepted by the JSON source compiler.
pub const SOURCE_SCHEMA_VERSION: &'static str = "xunlie.source/v1";

/// Exact source content plus caller-controlled identity and history position.
#[derive(Debug, PartialEq, Eq)]
pub struct SourceDocument {
    identity: String,
    position: usize,
    source: String,
}

/// The content of a source document.
pub struct DocView {
    pub identity: Seq<char>,
    pub position: usize,
    pub source: Seq<char>,
}

impl View for SourceDocument {
    type V = DocView;

    closed spec fn view(&self) -> DocView {
        DocView { identity: self.identity@, position: self.position, source: self.source@ }
    }
}

impl Clone for SourceDocument {
    fn clone(&self) -> (r: Self)
        ensures
            r@ == self@,
    {
        SourceDocument {
            identity: self.identity.clone(),
            position: self.position,
            source: self.source.clone(),
        }
    }
}

/// The content of every document of a list.
pub open spec fn docs_view(s: Seq<SourceDocument>) -> Seq<DocView> {
    s.map_values(|d: SourceDocument| d@)
}

impl SourceDocument {
    /// Creates a source document without performing IO or implicit normalization.
    ///
    /// Validation happens during compilation so all input failures share the
    /// structured `CompileError` surface.
    pub fn new(identity: &str, position: usize, source: &str) -> (r: Self)
        ensures
            r@ == (DocView { identity: identity@, position, source: source@ }),
    {
        SourceDocument {
            identity: String::from_str(identity),
            position,
            source: String::from_str(source),
        }
    }

    /// Returns the logical source identity.
    pub fn identity(&self) -> (r: &str)
        ensures
            r@ == self@.identity,
    {
        self.identity.as_str()
    }

    /// Returns the explicit source position.
    pub fn position(&self) -> (r: usize)
        ensures
            r == self@.position,
    {
        self.position
    }

    /// Returns the exact input text whose bytes are digested.
    pub fn source(&self) -> (r: &str)
        ensures
            r@ == self@.source,
    {
        self.source.as_str()
    }

    /// Whether two documents have the same identity, position and text.
    pub fn same_as(&self, other: &Self) -> (r: bool)
        ensures
            r == (self@ == other@),
    {
        self.identity == other.identity && self.position == other.position && self.source
            == other.source
    }

    /// `identity@position`.
    pub fn to_display_string(&self) -> (r: String)
        ensures
            r@ == self@.identity + "@"@ + decimal(self@.position as nat),
    {
        let digits = decimal_string(self.position);
        concat3(self.identity.as_str(), "@", digits.as_str())
    }
}

// ---------------------------------------------------------------------------
// Canonical document order
// ---------------------------------------------------------------------------

/// Documents are ordered by position, then by identity.
pub open spec fn doc_lt(a: DocView, b: DocView) -> bool {
    a.position < b.position || (a.position == b.position && seq_lt(a.identity, b.identity))
}

/// Inserts a document after every document that does not follow it (a stable insertion).
pub open spec fn insert_doc(t: Seq<DocView>, x: DocView) -> Seq<DocView>
    decreases t.len(),
{
    if t.len() == 0 {
        seq![x]
    } else if doc_lt(x, t.last()) {
        insert_doc(t.drop_last(), x).push(t.last())
    } else {
        t.push(x)
    }
}

/// The documents stably sorted by position, then identity.
pub open spec fn sort_docs(s: Seq<DocView>) -> Seq<DocView>
    decreases s.len(),
{
    if s.len() == 0 {
        Seq::empty()
    } else {
        insert_doc(sort_docs(s.drop_last()), s.last())
    }
}

fn doc_less(a: &SourceDocument, b: &SourceDocument) -> (r: bool)
    ensures
        r == doc_lt(a@, b@),
{
    a.position < b.position || (a.position == b.position && str_lt(
        a.identity.as_str(),
        b.identity.as_str(),
    ))
}

fn insert_doc_exec(t: &mut Vec<SourceDocument>, x: SourceDocument)
    ensures
        docs_view(final(t)@) == insert_doc(docs_view(old(t)@), x@),
    decreases old(t)@.len(),
{
    let ghost before = t@;
    if t.len() == 0 {
        t.push(x);
        assert(docs_view(t@) =~= seq![x@]);
        return;
    }
    if doc_less(&x, &t[t.len() - 1]) {
        let last = t.pop().unwrap();
        assert(docs_view(t@) =~= docs_view(before).drop_last());
        insert_doc_exec(t, x);
        let ghost inner = t@;
        t.push(last);
        assert(docs_view(t@) =~= docs_view(inner).push(last@));
    } else {
        t.push(x);
        assert(docs_view(t@) =~= docs_view(before).push(x@));
    }
}

/// Sorts documents by position, then identity, keeping the order of equal keys.
pub fn sort_documents(s: Vec<SourceDocument>) -> (r: Vec<SourceDocument>)
    ensures
        docs_view(r@) == sort_docs(docs_view(s@)),
{
    let mut input = s;
    let ghost original = docs_view(input@);
    let mut out: Vec<SourceDocument> = Vec::new();
    let mut i: usize = 0;
    assert(original.skip(0) =~= original);
    assert(original.len() == input.len());
    assert(docs_view(out@) =~= sort_docs(original.take(0)));
    while input.len() > 0
        invariant
            input@.len() + i == original.len(),
            original.len() <= usize::MAX,
            docs_view(input@) == original.skip(i as int),
            docs_view(out@) == sort_docs(original.take(i as int)),
        decreases input@.len(),
    {
        let ghost pre = input@;
        let x = input.remove(0);
        assert(x@ == docs_view(pre)[0]);
        insert_doc_exec(&mut out, x);
        assert(original.take(i + 1).drop_last() =~= original.take(i as int));
        assert(input@ =~= pre.skip(1));
        assert(docs_view(input@) =~= docs_view(pre).skip(1));
        i = i + 1;
    }
    assert(original.take(original.len() as int) =~= original);
    out
}

// ---------------------------------------------------------------------------
// Options and errors
// ---------------------------------------------------------------------------

/// Caller-supplied deterministic compilation settings.
#[derive(Debug, PartialEq, Eq)]
pub struct CompileOptions {
    /// Conflict behavior recorded in the resulting IR.
    pub resolution_policy: ResolutionPolicy,
    /// Producer and optional caller-provided timestamp.
    pub metadata: ContractMetadata,
}

impl Default for CompileOptions {
    fn default() -> (r: Self)
        ensures
            r.resolution_policy == ResolutionPolicy::Strict,
            r.metadata.producer.name@ == "xunlie-engine"@,
            r.metadata.producer.version@ == crate::ir::PRODUCER_VERSION@,
            r.metadata.created_at is None,
    {
        CompileOptions {
            resolution_policy: ResolutionPolicy::Strict,
            metadata: ContractMetadata::default_metadata(),
        }
    }
}

/// Compilation failure containing diagnostics and deliberately no partial IR.
#[derive(Debug)]
pub struct CompileError {
    diagnostics: Vec<Diagnostic>,
}

impl CompileError {
    pub closed spec fn diagnostic_seq(&self) -> Seq<Diagnostic> {
        self.diagnostics@
    }

    /// Returns every structured diagnostic in deterministic source order.
    pub fn diagnostics(&self) -> (r: &Vec<Diagnostic>)
        ensures
            r@ == self.diagnostic_seq(),
    {
        &self.diagnostics
    }

    /// Consumes the error and returns its diagnostics.
    pub fn into_diagnostics(self) -> (r: Vec<Diagnostic>)
        ensures
            r@ == self.diagnostic_seq(),
    {
        self.diagnostics
    }

    /// `contract compilation failed with N diagnostic(s)`.
    pub fn to_display_string(&self) -> (r: String)
        ensures
            r@ == "contract compilation failed with "@ + decimal(self.diagnostic_seq().len())
                + " diagnostic(s)"@,
    {
        let n = decimal_string(self.diagnostics.len());
        concat3("contract compilation failed with ", n.as_str(), " diagnostic(s)")
    }
}

// ---------------------------------------------------------------------------
// Ingestion
// ---------------------------------------------------------------------------

/// What ingestion has gathered so far: input diagnostics, provenance records
/// and located history events.
pub struct IngestState {
    pub diagnostics: Seq<DiagnosticSpec>,
    pub records: Seq<RecordView>,
    pub events: Seq<EventView>,
}

pub open spec fn identity_error_text(e: SourceIdentityError) -> Seq<char> {
    match e {
        SourceIdentityError::Empty => "source identity must not be empty"@,
        SourceIdentityError::ControlCharacter => "source identity must not contain control characters"@,
    }
}

/// The provenance record of a document: its identity, the digest of its exact bytes, its position.
pub open spec fn doc_record(d: DocView) -> RecordView {
    RecordView {
        identity: d.identity,
        digest: digest_of(encode_utf8(d.source)),
        position: d.position,
    }
}

/// The location of a source as a whole.
pub open spec fn whole_source(r: RecordView) -> LocationView {
    LocationView {
        identity: r.identity,
        digest: r.digest,
        source_position: r.position,
        operation_position: None,
        line: None,
        column: None,
    }
}

/// The events of a source's operations, each located at its own operation position.
pub open spec fn operation_events(r: RecordView, ops: Seq<OperationView>) -> Seq<EventView> {
    Seq::new(
        ops.len(),
        |i: int|
            EventView {
                precedence: Precedence { source_position: r.position, operation_position: i as usize },
                location: record_location(r, i as usize),
                operation: ops[i],
            },
    )
}

pub open spec fn error_at(code: Seq<char>, message: Seq<char>, primary: Option<LocationView>) -> DiagnosticSpec {
    DiagnosticSpec { code, message, primary, related: Seq::empty() }
}

pub open spec fn invalid_json_prefix() -> Seq<char> {
    "source is not valid xunlie.source/v1 JSON: "@
}

/// What one document adds once its identity is accepted, given what its text
/// parsed to: the diagnostic that rejects it (a syntax error at its line and
/// column, an envelope that does not decode, an unsupported schema), or the
/// events of its operations.
pub open spec fn parsed_outcome(rec: RecordView, parsed: Result<JsonValue, JsonSyntaxError>) -> (
    Option<DiagnosticSpec>,
    Seq<EventView>,
) {
    match parsed {
        Err(syntax) => (
            Some(
                error_at(
                    "XUNLIE-SOURCE-INVALID-JSON"@,
                    invalid_json_prefix() + syntax.message@,
                    Some(
                        LocationView {
                            line: Some(syntax.line),
                            column: Some(syntax.column),
                            ..whole_source(rec)
                        },
                    ),
                ),
            ),
            Seq::empty(),
        ),
        Ok(tree) => match decode_envelope(tree) {
            Err(message) => (
                Some(
                    error_at(
                        "XUNLIE-SOURCE-INVALID-JSON"@,
                        invalid_json_prefix() + message,
                        Some(whole_source(rec)),
                    ),
                ),
                Seq::empty(),
            ),
            Ok(env) => if env.schema_version != SOURCE_SCHEMA_VERSION@ {
                (
                    Some(
                        error_at(
                            "XUNLIE-SOURCE-UNSUPPORTED-SCHEMA"@,
                            "source schema `"@ + env.schema_version + "` is unsupported; expected `"@
                                + SOURCE_SCHEMA_VERSION@ + "`"@,
                            Some(whole_source(rec)),
                        ),
                    ),
                    Seq::empty(),
                )
            } else {
                (None, operation_events(rec, env.operations))
            },
        },
    }
}

/// The effect of one document on ingestion.
///
/// An invalid identity is reported and the document skipped. Otherwise the
/// document's record is kept and its text parsed: a syntax error is reported
/// at its line and column, a document that is not a `xunlie.source/v1`
/// envelope or names another schema is reported at the source; a valid
/// document contributes one event per operation.
pub open spec fn ingest_step(st: IngestState, d: DocView) -> IngestState {
    match spec_source_identity(d.identity) {
        Err(e) => IngestState {
            diagnostics: st.diagnostics.push(
                error_at(
                    "XUNLIE-SOURCE-INVALID-IDENTITY"@,
                    "source at position "@ + decimal(d.position as nat) + ": "@ + identity_error_text(e),
                    None,
                ),
            ),
            ..st
        },
        Ok(_) => {
            let rec = doc_record(d);
            let records = st.records.push(rec);
            match json_parse(d.source) {
                Err(syntax) => IngestState {
                    diagnostics: st.diagnostics.push(
                        error_at(
                            "XUNLIE-SOURCE-INVALID-JSON"@,
                            invalid_json_prefix() + syntax.message@,
                            Some(
                                LocationView {
                                    line: Some(syntax.line),
                                    column: Some(syntax.column),
                                    ..whole_source(rec)
                                },
                            ),
                        ),
                    ),
                    records,
                    events: st.events,
                },
                Ok(tree) => match decode_envelope(tree) {
                    Err(message) => IngestState {
                        diagnostics: st.diagnostics.push(
                            error_at(
                                "XUNLIE-SOURCE-INVALID-JSON"@,
                                invalid_json_prefix() + message,
                                Some(whole_source(rec)),
                            ),
                        ),
                        records,
                        events: st.events,
                    },
                    Ok(env) => if env.schema_version != SOURCE_SCHEMA_VERSION@ {
                        IngestState {
                            diagnostics: st.diagnostics.push(
                                error_at(
                                    "XUNLIE-SOURCE-UNSUPPORTED-SCHEMA"@,
                                    "source schema `"@ + env.schema_version
                                        + "` is unsupported; expected `"@ + SOURCE_SCHEMA_VERSION@
                                        + "`"@,
                                    Some(whole_source(rec)),
                                ),
                            ),
                            records,
                            events: st.events,
                        }
                    } else {
                        IngestState {
                            diagnostics: st.diagnostics,
                            records,
                            events: st.events + operation_events(rec, env.operations),
                        }
                    },
                },
            }
        },
    }
}

/// Ingestion of documents in the given order.
pub open spec fn ingest(docs: Seq<DocView>) -> IngestState
    decreases docs.len(),
{
    if docs.len() == 0 {
        IngestState { diagnostics: Seq::empty(), records: Seq::empty(), events: Seq::empty() }
    } else {
        ingest_step(ingest(docs.drop_last()), docs.last())
    }
}

/// The diagnostic of a resolution conflict.
pub open spec fn conflict_diagnostic(c: ConflictSpec) -> DiagnosticSpec {
    DiagnosticSpec { code: c.code, message: c.message, primary: c.primary, related: c.related }
}

/// The outcome of compiling documents: the contract, or every diagnostic.
///
/// Documents are taken in canonical order (position, then identity). Input
/// problems stop compilation before resolution; resolution conflicts stop it
/// before the contract is assembled; the contract's own problems are last.
pub open spec fn spec_compile(
    docs: Seq<DocView>,
    resolution_policy: ResolutionPolicy,
    producer: crate::ir::ProducerView,
    created_at: Option<Seq<char>>,
) -> Result<ContractView, Seq<DiagnosticSpec>> {
    if docs.len() == 0 {
        Err(
            seq![
                error_at(
                    "XUNLIE-SOURCE-EMPTY-SET"@,
                    "at least one source document is required"@,
                    None,
                ),
            ],
        )
    } else {
        let ing = ingest(sort_docs(docs));
        if ing.diagnostics.len() > 0 {
            Err(ing.diagnostics)
        } else {
            match spec_resolve(ing.records, ing.events) {
                Err(conflicts) => Err(conflicts.map_values(|c: ConflictSpec| conflict_diagnostic(c))),
                Ok(resolved) => {
                    let c = new_contract(
                        producer,
                        created_at,
                        ing.records,
                        resolution_policy,
                        resolved.0,
                    );
                    if contract_problems(c).len() == 0 {
                        Ok(c)
                    } else {
                        Err(contract_problems(c))
                    }
                },
            }
        }
    }
}

// ---------------------------------------------------------------------------
// Compilation
// ---------------------------------------------------------------------------

/// Explains why a source identity was rejected.
pub fn identity_error_message(e: SourceIdentityError) -> (r: &'static str)
    ensures
        r@ == identity_error_text(e),
{
    match e {
        SourceIdentityError::Empty => "source identity must not be empty",
        SourceIdentityError::ControlCharacter => "source identity must not contain control characters",
    }
}

fn clone_records(v: &Vec<SourceRecord>) -> (r: Vec<SourceRecord>)
    ensures
        r@ == v@,
{
    let mut out: Vec<SourceRecord> = Vec::new();
    let mut i: usize = 0;
    while i < v.len()
        invariant
            i <= v@.len(),
            out@ == v@.take(i as int),
        decreases v@.len() - i,
    {
        out.push(v[i].clone());
        assert(v@.take(i + 1) =~= v@.take(i as int).push(v@[i as int]));
        i = i + 1;
    }
    assert(v@.take(v@.len() as int) =~= v@);
    out
}

fn whole_source_location(record: &SourceRecord) -> (r: SourceLocation)
    ensures
        r@ == whole_source(record@),
{
    SourceLocation::source(record.identity.clone(), record.digest.clone(), record.position)
}

/// Appends the events of a valid document's operations.
fn push_operation_events(
    events: &mut Vec<HistoryEvent>,
    record: &SourceRecord,
    env: &crate::decode::SourceEnvelope,
)
    ensures
        events_view(final(events)@) == events_view(old(events)@) + operation_events(
            record@,
            env@.operations,
        ),
{
    let ghost start = events_view(events@);
    let ghost ops = env@.operations;
    let mut k: usize = 0;
    while k < env.operations.len()
        invariant
            k <= env.operations@.len(),
            ops == env@.operations,
            ops.len() == env.operations@.len(),
            events_view(events@) == start + operation_events(record@, ops.take(k as int)),
        decreases env.operations@.len() - k,
    {
        let ghost before = events@;
        let event = HistoryEvent {
            precedence: Precedence { source_position: record.position, operation_position: k },
            location: record.location(k),
            operation: env.operations[k].clone(),
        };
        events.push(event);
        assert(ops[k as int] == env.operations@[k as int]@);
        assert(events_view(events@) =~= events_view(before).push(event@));
        assert(operation_events(record@, ops.take(k + 1)) =~= operation_events(
            record@,
            ops.take(k as int),
        ).push(event@));
        k = k + 1;
    }
    assert(ops.take(ops.len() as int) =~= ops);
}

/// One ingestion step, for a document whose identity is accepted, is its
/// record followed by what its parsed text adds.
pub proof fn lemma_ingest_step_parsed(st: IngestState, d: DocView)
    requires
        spec_source_identity(d.identity) is Ok,
    ensures
        ({
            let out = parsed_outcome(doc_record(d), json_parse(d.source));
            ingest_step(st, d) == (IngestState {
                diagnostics: match out.0 {
                    Some(x) => st.diagnostics.push(x),
                    None => st.diagnostics,
                },
                records: st.records.push(doc_record(d)),
                events: st.events + out.1,
            })
        }),
{
    let out = parsed_outcome(doc_record(d), json_parse(d.source));
    if out.0 is Some {
        assert(st.events + out.1 =~= st.events);
    }
}

/// What one document adds, given its provenance record and what its text
/// parsed to: the diagnostic that rejects it, or the events of its operations.
pub fn ingest_parsed(record: &SourceRecord, parsed: &Result<JsonValue, JsonSyntaxError>) -> (r: (
    Option<Diagnostic>,
    Vec<HistoryEvent>,
))
    ensures
        match (r.0, parsed_outcome(record@, *parsed).0) {
            (Some(d), Some(x)) => diagnostic_is(d, x),
            (None, None) => true,
            _ => false,
        },
        events_view(r.1@) == parsed_outcome(record@, *parsed).1,
{
    let mut events: Vec<HistoryEvent> = Vec::new();
    assert(events_view(events@) =~= Seq::<EventView>::empty());
    match parsed {
        Err(syntax) => {
            let mut message = String::from_str("source is not valid xunlie.source/v1 JSON: ");
            message.append(syntax.message.as_str());
            let location = whole_source_location(record).at_text(syntax.line, syntax.column);
            let d = Diagnostic::error("XUNLIE-SOURCE-INVALID-JSON", message.as_str()).with_primary(
                location,
            );
            (Some(d), events)
        },
        Ok(tree) => match read_envelope(tree) {
            Err(reason) => {
                let mut message = String::from_str("source is not valid xunlie.source/v1 JSON: ");
                message.append(reason.as_str());
                let location = whole_source_location(record);
                let d = Diagnostic::error("XUNLIE-SOURCE-INVALID-JSON", message.as_str()).with_primary(
                    location,
                );
                (Some(d), events)
            },
            Ok(env) => {
                if !(env.schema_version == String::from_str(SOURCE_SCHEMA_VERSION)) {
                    let message = concat5(
                        "source schema `",
                        env.schema_version.as_str(),
                        "` is unsupported; expected `",
                        SOURCE_SCHEMA_VERSION,
                        "`",
                    );
                    let location = whole_source_location(record);
                    let d = Diagnostic::error(
                        "XUNLIE-SOURCE-UNSUPPORTED-SCHEMA",
                        message.as_str(),
                    ).with_primary(location);
                    (Some(d), events)
                } else {
                    push_operation_events(&mut events, record, &env);
                    assert(Seq::<EventView>::empty() + operation_events(record@, env@.operations)
                        =~= operation_events(record@, env@.operations));
                    (None, events)
                }
            },
        },
    }
}

/// Ingests one document: its diagnostics, its provenance record and its events.
fn ingest_document(
    doc: &SourceDocument,
    diagnostics: &mut Vec<Diagnostic>,
    records: &mut Vec<SourceRecord>,
    events: &mut Vec<HistoryEvent>,
    Ghost(st): Ghost<IngestState>,
)
    requires
        diagnostics_are(old(diagnostics)@, st.diagnostics),
        records_view(old(records)@) == st.records,
        events_view(old(events)@) == st.events,
    ensures
        diagnostics_are(final(diagnostics)@, ingest_step(st, doc@).diagnostics),
        records_view(final(records)@) == ingest_step(st, doc@).records,
        events_view(final(events)@) == ingest_step(st, doc@).events,
{
    let ghost next = ingest_step(st, doc@);
    let digest = digest_text(&doc.source);
    let identity = match SourceIdentity::new(doc.identity.as_str()) {
        Ok(id) => id,
        Err(e) => {
            let position = decimal_string(doc.position);
            let message = concat5(
                "source at position ",
                position.as_str(),
                ": ",
                identity_error_message(e),
                "",
            );
            proof {
                reveal_strlit("");
                assert(message@ =~= "source at position "@ + decimal(doc@.position as nat) + ": "@
                    + identity_error_text(e));
            }
            push_diagnostic(
                diagnostics,
                Diagnostic::error("XUNLIE-SOURCE-INVALID-IDENTITY", message.as_str()),
                Ghost(st.diagnostics),
                Ghost(next.diagnostics.last()),
            );
            return;
        },
    };
    let record = SourceRecord { identity, digest, position: doc.position };
    assert(record@ == doc_record(doc@));
    let parsed = parse_json(doc.source.as_str());
    let (diagnostic, mut added) = ingest_parsed(&record, &parsed);
    proof {
        lemma_ingest_step_parsed(st, doc@);
    }
    let ghost out = parsed_outcome(record@, json_parse(doc@.source));
    match diagnostic {
        Some(d) => {
            push_diagnostic(diagnostics, d, Ghost(st.diagnostics), Ghost(out.0->Some_0));
        },
        None => {},
    }
    let ghost before = events@;
    let ghost more = added@;
    events.append(&mut added);
    assert(events_view(events@) =~= events_view(before) + events_view(more));
    records.push(record);
    assert(records_view(records@) =~= st.records.push(doc_record(doc@)));
}

proof fn lemma_failure_diagnostics(cs: Seq<Conflict>, ss: Seq<ConflictSpec>, ds: Seq<Diagnostic>)
    requires
        conflicts_are(cs, ss),
        ds.len() == cs.len(),
        forall|i: int|
            0 <= i < ds.len() ==> {
                let d = #[trigger] ds[i];
                let o = cs[i].diagnostic;
                &&& d.code == o.code
                &&& d.severity == o.severity
                &&& d.message == o.message
                &&& d.primary == o.primary
                &&& d.related@ == o.related@
            },
    ensures
        diagnostics_are(ds, ss.map_values(|c: ConflictSpec| conflict_diagnostic(c))),
{
    let target = ss.map_values(|c: ConflictSpec| conflict_diagnostic(c));
    assert forall|i: int| 0 <= i < ds.len() implies diagnostic_is(#[trigger] ds[i], target[i]) by {
        assert(conflict_is(cs[i], ss[i]));
        assert(target[i] == conflict_diagnostic(ss[i]));
        assert forall|j: int| 0 <= j < target[i].related.len() implies (#[trigger] ds[i].related@[j]).message@
            == target[i].related[j].0 && ds[i].related@[j].location@ == target[i].related[j].1 by {
            assert(ds[i].related@[j] == cs[i].diagnostic.related@[j]);
        }
    }
}

/// Compiles sources using explicit metadata and resolution policy.
pub fn compile_sources_with_options(sources: Vec<SourceDocument>, options: CompileOptions) -> (r:
    Result<ContractIr, CompileError>)
    ensures
        ({
            let spec = spec_compile(
                docs_view(sources@),
                options.resolution_policy,
                options.metadata.producer@,
                opt_view(options.metadata.created_at),
            );
            &&& r is Ok <==> spec is Ok
            &&& r matches Ok(ir) ==> spec == Ok::<ContractView, Seq<DiagnosticSpec>>(ir@)
            &&& r matches Err(e) ==> diagnostics_are(e.diagnostic_seq(), spec->Err_0)
        }),
{
    if sources.len() == 0 {
        let mut diagnostics: Vec<Diagnostic> = Vec::new();
        push_diagnostic(
            &mut diagnostics,
            Diagnostic::error(
                "XUNLIE-SOURCE-EMPTY-SET",
                "at least one source document is required",
            ),
            Ghost(Seq::empty()),
            Ghost(
                error_at(
                    "XUNLIE-SOURCE-EMPTY-SET"@,
                    "at least one source document is required"@,
                    None,
                ),
            ),
        );
        assert(Seq::<DiagnosticSpec>::empty().push(
            error_at("XUNLIE-SOURCE-EMPTY-SET"@, "at least one source document is required"@, None),
        ) =~= seq![
            error_at("XUNLIE-SOURCE-EMPTY-SET"@, "at least one source document is required"@, None),
        ]);
        return Err(CompileError { diagnostics });
    }
    let ghost docs = docs_view(sources@);
    let ordered = sort_documents(sources);
    let ghost sorted = sort_docs(docs);
    let mut diagnostics: Vec<Diagnostic> = Vec::new();
    let mut records: Vec<SourceRecord> = Vec::new();
    let mut events: Vec<HistoryEvent> = Vec::new();
    assert(records_view(records@) =~= Seq::<RecordView>::empty());
    assert(events_view(events@) =~= Seq::<EventView>::empty());
    assert(sorted.take(0) =~= Seq::<DocView>::empty());
    let mut i: usize = 0;
    while i < ordered.len()
        invariant
            i <= ordered@.len(),
            docs_view(ordered@) == sorted,
            diagnostics_are(diagnostics@, ingest(sorted.take(i as int)).diagnostics),
            records_view(records@) == ingest(sorted.take(i as int)).records,
            events_view(events@) == ingest(sorted.take(i as int)).events,
        decreases ordered@.len() - i,
    {
        assert(sorted[i as int] == ordered@[i as int]@);
        ingest_document(
            &ordered[i],
            &mut diagnostics,
            &mut records,
            &mut events,
            Ghost(ingest(sorted.take(i as int))),
        );
        assert(sorted.take(i + 1).drop_last() =~= sorted.take(i as int));
        i = i + 1;
    }
    assert(sorted.take(sorted.len() as int) =~= sorted);
    let ghost ing = ingest(sorted);
    if diagnostics.len() > 0 {
        return Err(CompileError { diagnostics });
    }
    let history = History {
        policy: options.resolution_policy,
        sources: clone_records(&records),
        events,
    };
    match resolve_history(&history) {
        Err(failure) => {
            let ds = failure.diagnostics();
            proof {
                lemma_failure_diagnostics(
                    failure.conflict_seq(),
                    spec_resolve(ing.records, ing.events)->Err_0,
                    ds@,
                );
            }
            Err(CompileError { diagnostics: ds })
        },
        Ok(resolved) => {
            let requirements = resolved.into_requirements();
            match ContractIr::new(
                options.metadata,
                records,
                options.resolution_policy,
                requirements,
            ) {
                Ok(ir) => Ok(ir),
                Err(ds) => Err(CompileError { diagnostics: ds }),
            }
        },
    }
}

/// Compiles positioned sources into a canonical contract under strict policy.
pub fn compile_sources(sources: Vec<SourceDocument>) -> (r: Result<ContractIr, CompileError>)
    ensures
        ({
            let spec = spec_compile(
                docs_view(sources@),
                ResolutionPolicy::Strict,
                crate::ir::ProducerView {
                    name: "xunlie-engine"@,
                    version: crate::ir::PRODUCER_VERSION@,
                },
                None,
            );
            &&& r is Ok <==> spec is Ok
            &&& r matches Ok(ir) ==> spec == Ok::<ContractView, Seq<DiagnosticSpec>>(ir@)
            &&& r matches Err(e) ==> diagnostics_are(e.diagnostic_seq(), spec->Err_0)
        }),
{
    compile_sources_with_options(sources, CompileOptions::default())
}

/// The identity under which `compile` records its single in-memory source.
pub const STDIN_IDENTITY: &'static str = "memory://stdin";

/// Compiles one in-memory JSON source using a deterministic conventional identity.
pub fn compile(source: &str) -> (r: Result<ContractIr, CompileError>)
    ensures
        ({
            let spec = spec_compile(
                seq![DocView { identity: STDIN_IDENTITY@, position: 0, source: source@ }],
                ResolutionPolicy::Strict,
                crate::ir::ProducerView {
                    name: "xunlie-engine"@,
                    version: crate::ir::PRODUCER_VERSION@,
                },
                None,
            );
            &&& r is Ok <==> spec is Ok
            &&& r matches Ok(ir) ==> spec == Ok::<ContractView, Seq<DiagnosticSpec>>(ir@)
            &&& r matches Err(e) ==> diagnostics_are(e.diagnostic_seq(), spec->Err_0)
        }),
{
    let mut docs: Vec<SourceDocument> = Vec::new();
    docs.push(SourceDocument::new(STDIN_IDENTITY, 0, source));
    assert(docs_view(docs@) =~= seq![
        DocView { identity: STDIN_IDENTITY@, position: 0, source: source@ },
    ]);
    compile_sources(docs)
}

} // verus!
