//! Certified history variants: an operator proposes a different history, and
//! only a recompilation that reproduces the same semantic contract certifies it.
use vstd::prelude::*;
use vstd::utf8::encode_utf8;

use crate::canonical::{
    created_at_json, json_join, lemma_join_push, opt_view, producer_json, write_created_at,
    write_producer,
};
use crate::certificate::{
    certificate_json, certificate_problems, evaluations_view, new_certificate, CertificateView,
    CertifiedHistory, EquivalenceCertificate, HistoryDigestsView, OperatorView,
    PreconditionEvaluation, PreconditionStatus, PreconditionView, VariantOperatorIdentity,
};
use crate::contract::{digest_text, ContractIr, ContractView};
use crate::diagnostic::{diagnostics_are, push_diagnostic, Diagnostic, DiagnosticSpec};
use crate::digest::{digest_of, Sha256Digest};
use crate::engine::{
    compile_sources, docs_view, sort_docs, sort_documents, spec_compile, DocView, SourceDocument,
};
use crate::ir::{Producer, ProducerView, PRODUCER_VERSION};
use crate::operators::{
    builtin_evaluations, builtin_identity, builtin_operator, builtin_operator_for,
    builtin_transform, BuiltinOperator, VariantOperator,
};
use crate::json::{json_str, write_str};
use crate::resolution::ResolutionPolicy;
use crate::text::{concat3, concat5, decimal, decimal_string, is_blank, str_is_blank};

verus! {

/// Schema identifier for the persisted source history and certificate bundle.
pub const CERTIFIED_VARIANT_SCHEMA_VERSION: &'static str = "xunlie.certified-variant/v1";

/// Schema identifier of the fingerprint over an ordered source history.
pub const HISTORY_FINGERPRINT_SCHEMA_VERSION: &'static str = "xunlie.source-history/v1";

/// Stable identity of `JsonNormalizationOperator`.
pub const JSON_NORMALIZATION_OPERATOR_ID: &'static str = "json.presentation.normalize";

/// Stable identity of `ReverseIndependentAddsOperator`.
pub const REVERSE_INDEPENDENT_ADDS_OPERATOR_ID: &'static str = "history.independent-adds.reverse";

/// Version shared by the initial built-in operator implementations.
pub const BUILTIN_OPERATOR_VERSION: &'static str = "1.0.0";

/// Stable identifiers accepted by `generate_builtin_variant`.
pub const BUILTIN_OPERATOR_IDS: [&'static str; 2] = [
    JSON_NORMALIZATION_OPERATOR_ID,
    REVERSE_INDEPENDENT_ADDS_OPERATOR_ID,
];

/// The producer recorded in certificates and variants made by this library.
pub open spec fn engine_producer() -> ProducerView {
    ProducerView { name: "xunlie-engine"@, version: PRODUCER_VERSION@ }
}

fn engine_producer_value() -> (r: Producer)
    ensures
        r@ == engine_producer(),
{
    Producer {
        name: String::from_str("xunlie-engine"),
        version: String::from_str(PRODUCER_VERSION),
    }
}

/// Compilation of documents with the default options.
pub open spec fn compile_default(docs: Seq<DocView>) -> Result<ContractView, Seq<DiagnosticSpec>> {
    spec_compile(docs, ResolutionPolicy::Strict, engine_producer(), None)
}

// ---------------------------------------------------------------------------
// Canonical JSON of histories and variants
// ---------------------------------------------------------------------------

/// A source document: `identity`, `position`, `source`.
pub open spec fn doc_json(d: DocView) -> Seq<char> {
    "{\"identity\":"@ + json_str(d.identity) + ",\"position\":"@ + decimal(d.position as nat)
        + ",\"source\":"@ + json_str(d.source) + "}"@
}

pub open spec fn docs_json(s: Seq<DocView>) -> Seq<char> {
    seq!['['] + json_join(s.map_values(|d: DocView| doc_json(d))) + seq![']']
}

/// The fingerprint of a history: its documents in canonical order.
pub open spec fn history_fingerprint_json(s: Seq<DocView>) -> Seq<char> {
    "{\"schemaVersion\":"@ + json_str(HISTORY_FINGERPRINT_SCHEMA_VERSION@) + ",\"sources\":"@
        + docs_json(sort_docs(s)) + "}"@
}

/// The digest over ordered source identities, positions, and exact source texts.
pub open spec fn history_digest_of(s: Seq<DocView>) -> Seq<char> {
    digest_of(encode_utf8(history_fingerprint_json(s)))
}

fn write_docs(out: &mut String, s: &Vec<SourceDocument>)
    ensures
        final(out)@ == old(out)@ + docs_json(docs_view(s@)),
{
    let ghost start = out@;
    let ghost items = docs_view(s@).map_values(|d: DocView| doc_json(d));
    proof {
        reveal_strlit("[");
        reveal_strlit("]");
        reveal_strlit(",");
    }
    out.append("[");
    let mut i: usize = 0;
    assert(json_join(items.take(0)) =~= Seq::<char>::empty());
    while i < s.len()
        invariant
            i <= s@.len(),
            items == docs_view(s@).map_values(|d: DocView| doc_json(d)),
            out@ == start + seq!['['] + json_join(items.take(i as int)),
            ","@ == seq![','],
        decreases s@.len() - i,
    {
        proof {
            lemma_join_push(items, i as int);
        }
        if i > 0 {
            out.append(",");
        }
        let d = &s[i];
        out.append("{\"identity\":");
        write_str(out, d.identity());
        out.append(",\"position\":");
        out.append(decimal_string(d.position()).as_str());
        out.append(",\"source\":");
        write_str(out, d.source());
        out.append("}");
        assert(out@ =~= start + seq!['['] + json_join(items.take(i + 1)));
        i = i + 1;
    }
    assert(items.take(s@.len() as int) =~= items);
    out.append("]");
    assert(out@ =~= start + docs_json(docs_view(s@)));
}

fn clone_docs(v: &Vec<SourceDocument>) -> (r: Vec<SourceDocument>)
    ensures
        docs_view(r@) == docs_view(v@),
{
    let mut out: Vec<SourceDocument> = Vec::new();
    let mut i: usize = 0;
    assert(docs_view(out@) =~= docs_view(v@).take(0));
    while i < v.len()
        invariant
            i <= v@.len(),
            docs_view(out@) == docs_view(v@).take(i as int),
        decreases v@.len() - i,
    {
        let ghost before = out@;
        out.push(v[i].clone());
        assert(docs_view(out@) =~= docs_view(before).push(v@[i as int]@));
        assert(docs_view(v@).take(i + 1) =~= docs_view(v@).take(i as int).push(v@[i as int]@));
        i = i + 1;
    }
    assert(docs_view(v@).take(v@.len() as int) =~= docs_view(v@));
    out
}

/// Hashes the fingerprint of a history.
fn history_digest(sources: &Vec<SourceDocument>) -> (r: Sha256Digest)
    ensures
        r@ == history_digest_of(docs_view(sources@)),
{
    let ordered = sort_documents(clone_docs(sources));
    let mut out = String::new();
    out.append("{\"schemaVersion\":");
    write_str(&mut out, HISTORY_FINGERPRINT_SCHEMA_VERSION);
    out.append(",\"sources\":");
    write_docs(&mut out, &ordered);
    out.append("}");
    digest_text(&out)
}

/// Whether two document lists are equal, document by document.
fn same_docs(a: &Vec<SourceDocument>, b: &Vec<SourceDocument>) -> (r: bool)
    ensures
        r == (docs_view(a@) == docs_view(b@)),
{
    if a.len() != b.len() {
        assert(docs_view(a@).len() != docs_view(b@).len());
        return false;
    }
    let mut i: usize = 0;
    while i < a.len()
        invariant
            i <= a@.len(),
            a@.len() == b@.len(),
            forall|j: int| 0 <= j < i ==> #[trigger] docs_view(a@)[j] == docs_view(b@)[j],
        decreases a@.len() - i,
    {
        if !a[i].same_as(&b[i]) {
            assert(docs_view(a@)[i as int] != docs_view(b@)[i as int]);
            return false;
        }
        i = i + 1;
    }
    assert(docs_view(a@) =~= docs_view(b@));
    true
}

// ---------------------------------------------------------------------------
// Errors
// ---------------------------------------------------------------------------

/// Fail-closed variant generation or verification error.
#[derive(Debug)]
pub struct VariantError {
    code: &'static str,
    message: String,
    diagnostics: Vec<Diagnostic>,
}

/// What a variant error reports: its code, its message and its diagnostics.
pub struct ErrorSpec {
    pub code: Seq<char>,
    pub message: Seq<char>,
    pub diagnostics: Seq<DiagnosticSpec>,
}

/// An error whose only diagnostic repeats its own code and message.
pub open spec fn simple_error(code: Seq<char>, message: Seq<char>) -> ErrorSpec {
    ErrorSpec {
        code,
        message,
        diagnostics: seq![DiagnosticSpec { code, message, primary: None, related: Seq::empty() }],
    }
}

impl VariantError {
    pub closed spec fn is(&self, s: ErrorSpec) -> bool {
        &&& self.code@ == s.code
        &&& self.message@ == s.message
        &&& diagnostics_are(self.diagnostics@, s.diagnostics)
    }

    pub closed spec fn code_view(&self) -> Seq<char> {
        self.code@
    }

    pub closed spec fn diagnostic_seq(&self) -> Seq<Diagnostic> {
        self.diagnostics@
    }

    /// What an error that meets a specification reports: that code, and
    /// diagnostics that are those of the specification.
    pub proof fn lemma_is(&self, s: ErrorSpec)
        requires
            self.is(s),
        ensures
            self.code_view() == s.code,
            diagnostics_are(self.diagnostic_seq(), s.diagnostics),
    {
    }

    fn new(code: &'static str, message: String) -> (r: Self)
        ensures
            r.is(simple_error(code@, message@)),
    {
        let mut diagnostics: Vec<Diagnostic> = Vec::new();
        let ghost s = DiagnosticSpec {
            code: code@,
            message: message@,
            primary: None,
            related: Seq::empty(),
        };
        push_diagnostic(
            &mut diagnostics,
            Diagnostic::error(code, message.as_str()),
            Ghost(Seq::empty()),
            Ghost(s),
        );
        assert(Seq::<DiagnosticSpec>::empty().push(s) =~= seq![s]);
        VariantError { code, message, diagnostics }
    }

    fn from_diagnostics(code: &'static str, message: String, diagnostics: Vec<Diagnostic>) -> (r:
        Self)
        ensures
            r.code@ == code@,
            r.message@ == message@,
            r.diagnostics@ == diagnostics@,
    {
        VariantError { code, message, diagnostics }
    }

    /// Returns the stable failure classification.
    pub fn code(&self) -> (r: &'static str)
        ensures
            r@ == self.code_view(),
            forall|s: ErrorSpec| #[trigger] self.is(s) ==> r@ == s.code,
    {
        self.code
    }

    /// Returns structured diagnostics without any partial certified artifact.
    pub fn diagnostics(&self) -> (r: &Vec<Diagnostic>)
        ensures
            r@ == self.diagnostic_seq(),
            forall|s: ErrorSpec| #[trigger] self.is(s) ==> diagnostics_are(r@, s.diagnostics),
    {
        &self.diagnostics
    }

    /// Takes the structured diagnostics.
    pub fn into_diagnostics(self) -> (r: Vec<Diagnostic>)
        ensures
            r@ == self.diagnostic_seq(),
            forall|s: ErrorSpec| #[trigger] self.is(s) ==> diagnostics_are(r@, s.diagnostics),
    {
        self.diagnostics
    }

    /// The human-readable message.
    pub fn to_display_string(&self) -> (r: String)
        ensures
            forall|s: ErrorSpec| #[trigger] self.is(s) ==> r@ == s.message,
    {
        self.message.clone()
    }
}

// ---------------------------------------------------------------------------
// The certified variant
// ---------------------------------------------------------------------------

/// A successfully transformed history and its independently checkable certificate.
#[derive(Debug, PartialEq, Eq)]
pub struct CertifiedVariant {
    schema_version: String,
    producer: Producer,
    created_at: Option<String>,
    content_digest: Sha256Digest,
    sources: Vec<SourceDocument>,
    certificate: EquivalenceCertificate,
}

/// The content of a certified variant.
pub struct VariantView {
    pub schema_version: Seq<char>,
    pub producer: ProducerView,
    pub created_at: Option<Seq<char>>,
    pub content_digest: Seq<char>,
    pub sources: Seq<DocView>,
    pub certificate: CertificateView,
}

impl View for CertifiedVariant {
    type V = VariantView;

    closed spec fn view(&self) -> VariantView {
        VariantView {
            schema_version: self.schema_version@,
            producer: self.producer@,
            created_at: opt_view(self.created_at),
            content_digest: self.content_digest@,
            sources: docs_view(self.sources@),
            certificate: self.certificate@,
        }
    }
}

impl Clone for CertifiedVariant {
    fn clone(&self) -> (r: Self)
        ensures
            r@ == self@,
    {
        CertifiedVariant {
            schema_version: self.schema_version.clone(),
            producer: self.producer.clone(),
            created_at: match &self.created_at {
                Some(t) => Some(t.clone()),
                None => None,
            },
            content_digest: self.content_digest.clone(),
            sources: clone_docs(&self.sources),
            certificate: self.certificate.clone(),
        }
    }
}

/// Schema, producer and timestamp, without the closing brace.
pub open spec fn variant_head_json(v: VariantView) -> Seq<char> {
    "{\"schemaVersion\":"@ + json_str(v.schema_version) + ",\"producer\":"@ + producer_json(
        v.producer,
    ) + created_at_json(v.created_at)
}

/// The content the variant digest covers: every field but the digest itself.
pub open spec fn variant_payload_json(v: VariantView) -> Seq<char> {
    variant_head_json(v) + ",\"sources\":"@ + docs_json(v.sources) + ",\"certificate\":"@
        + certificate_json(v.certificate) + "}"@
}

pub open spec fn variant_digest_of(v: VariantView) -> Seq<char> {
    digest_of(encode_utf8(variant_payload_json(v)))
}

/// The complete persisted variant.
pub open spec fn variant_json(v: VariantView) -> Seq<char> {
    variant_head_json(v) + ",\"contentDigest\":"@ + json_str(v.content_digest) + ",\"sources\":"@
        + docs_json(v.sources) + ",\"certificate\":"@ + certificate_json(v.certificate) + "}"@
}

/// The checks of a persisted variant, the first failing one reported: schema,
/// producer, certificate, digest, history fingerprint, and a recompilation of
/// its history that must reproduce the certificate's after-state.
pub open spec fn spec_check_variant(v: VariantView) -> Result<(), ErrorSpec> {
    let after = v.certificate.after;
    if v.schema_version != CERTIFIED_VARIANT_SCHEMA_VERSION@ {
        Err(
            simple_error(
                "XUNLIE-VARIANT-SCHEMA"@,
                "unsupported variant schema `"@ + v.schema_version + "`; expected `"@
                    + CERTIFIED_VARIANT_SCHEMA_VERSION@ + "`"@,
            ),
        )
    } else if is_blank(v.producer.name) || is_blank(v.producer.version) {
        Err(
            simple_error(
                "XUNLIE-VARIANT-PRODUCER"@,
                "variant producer name and version must not be empty"@,
            ),
        )
    } else if certificate_problems(v.certificate).len() > 0 {
        Err(
            ErrorSpec {
                code: "XUNLIE-VARIANT-CERTIFICATE-INVALID"@,
                message: "equivalence certificate failed validation"@,
                diagnostics: certificate_problems(v.certificate),
            },
        )
    } else if v.content_digest != variant_digest_of(v) {
        Err(
            simple_error(
                "XUNLIE-VARIANT-DIGEST-MISMATCH"@,
                "variant content digest is `"@ + v.content_digest
                    + "` but canonical content hashes to `"@ + variant_digest_of(v) + "`"@,
            ),
        )
    } else if history_digest_of(v.sources) != after.history_digest {
        Err(
            simple_error(
                "XUNLIE-VARIANT-HISTORY-DIGEST-MISMATCH"@,
                "variant history hashes to `"@ + history_digest_of(v.sources)
                    + "` but certificate records `"@ + after.history_digest + "`"@,
            ),
        )
    } else {
        match compile_default(v.sources) {
            Err(ds) => Err(
                ErrorSpec {
                    code: "XUNLIE-VARIANT-INVALID-OUTPUT"@,
                    message: "persisted variant history did not compile"@,
                    diagnostics: ds,
                },
            ),
            Ok(c) => if c.content_digest != after.content_digest || c.artifact_digest
                != after.artifact_digest {
                Err(
                    simple_error(
                        "XUNLIE-VARIANT-CONTRACT-DIGEST-MISMATCH"@,
                        "compiled variant contract does not match the certificate after-state"@,
                    ),
                )
            } else {
                Ok(())
            },
        }
    }
}

/// The variant that `CertifiedVariant::new` assembles.
pub open spec fn new_variant(sources: Seq<DocView>, certificate: CertificateView) -> VariantView {
    let unsigned = VariantView {
        schema_version: CERTIFIED_VARIANT_SCHEMA_VERSION@,
        producer: engine_producer(),
        created_at: None,
        content_digest: Seq::empty(),
        sources,
        certificate,
    };
    VariantView { content_digest: variant_digest_of(unsigned), ..unsigned }
}

impl CertifiedVariant {
    fn write_head(&self, out: &mut String)
        ensures
            final(out)@ == old(out)@ + variant_head_json(self@),
    {
        out.append("{\"schemaVersion\":");
        write_str(out, self.schema_version.as_str());
        out.append(",\"producer\":");
        write_producer(out, &self.producer);
        write_created_at(out, &self.created_at);
    }

    /// The digest of this variant's content, recomputed from every field but
    /// the stored digest.
    pub fn payload_digest(&self) -> (r: Sha256Digest)
        ensures
            r@ == variant_digest_of(self@),
    {
        let mut out = String::new();
        self.write_head(&mut out);
        out.append(",\"sources\":");
        write_docs(&mut out, &self.sources);
        out.append(",\"certificate\":");
        out.append(self.certificate.canonical_json().as_str());
        out.append("}");
        digest_text(&out)
    }

    /// Returns compact deterministic JSON for persistence.
    pub fn canonical_json(&self) -> (r: String)
        ensures
            r@ == variant_json(self@),
    {
        let mut out = String::new();
        self.write_head(&mut out);
        out.append(",\"contentDigest\":");
        write_str(&mut out, self.content_digest.as_str());
        out.append(",\"sources\":");
        write_docs(&mut out, &self.sources);
        out.append(",\"certificate\":");
        out.append(self.certificate.canonical_json().as_str());
        out.append("}");
        out
    }

    /// Validates container integrity and recompiles its transformed history.
    pub fn validate(&self) -> (r: Result<(), VariantError>)
        ensures
            r is Ok <==> spec_check_variant(self@) is Ok,
            r matches Err(e) ==> e.is(spec_check_variant(self@)->Err_0),
    {
        let ghost v = self@;
        if !(self.schema_version == String::from_str(CERTIFIED_VARIANT_SCHEMA_VERSION)) {
            return Err(
                VariantError::new(
                    "XUNLIE-VARIANT-SCHEMA",
                    concat5(
                        "unsupported variant schema `",
                        self.schema_version.as_str(),
                        "`; expected `",
                        CERTIFIED_VARIANT_SCHEMA_VERSION,
                        "`",
                    ),
                ),
            );
        }
        if str_is_blank(self.producer.name.as_str()) || str_is_blank(
            self.producer.version.as_str(),
        ) {
            return Err(
                VariantError::new(
                    "XUNLIE-VARIANT-PRODUCER",
                    String::from_str("variant producer name and version must not be empty"),
                ),
            );
        }
        match self.certificate.validate() {
            Err(ds) => {
                return Err(
                    VariantError::from_diagnostics(
                        "XUNLIE-VARIANT-CERTIFICATE-INVALID",
                        String::from_str("equivalence certificate failed validation"),
                        ds,
                    ),
                );
            },
            Ok(()) => {},
        }
        let expected = self.payload_digest();
        if !self.content_digest.same_as(&expected) {
            return Err(
                VariantError::new(
                    "XUNLIE-VARIANT-DIGEST-MISMATCH",
                    concat5(
                        "variant content digest is `",
                        self.content_digest.as_str(),
                        "` but canonical content hashes to `",
                        expected.as_str(),
                        "`",
                    ),
                ),
            );
        }
        let observed = history_digest(&self.sources);
        if !observed.same_as(&self.certificate.after().history_digest) {
            return Err(
                VariantError::new(
                    "XUNLIE-VARIANT-HISTORY-DIGEST-MISMATCH",
                    concat5(
                        "variant history hashes to `",
                        observed.as_str(),
                        "` but certificate records `",
                        self.certificate.after().history_digest.as_str(),
                        "`",
                    ),
                ),
            );
        }
        match compile_sources(clone_docs(&self.sources)) {
            Err(error) => Err(
                VariantError::from_diagnostics(
                    "XUNLIE-VARIANT-INVALID-OUTPUT",
                    String::from_str("persisted variant history did not compile"),
                    error.into_diagnostics(),
                ),
            ),
            Ok(contract) => {
                let after = self.certificate.after();
                if !contract.content_digest().same_as(&after.content_digest)
                    || !contract.artifact_digest().same_as(&after.artifact_digest) {
                    Err(
                        VariantError::new(
                            "XUNLIE-VARIANT-CONTRACT-DIGEST-MISMATCH",
                            String::from_str(
                                "compiled variant contract does not match the certificate after-state",
                            ),
                        ),
                    )
                } else {
                    Ok(())
                }
            },
        }
    }

    /// Assembles a variant of a transformed history and its certificate, then validates it.
    fn new(sources: Vec<SourceDocument>, certificate: EquivalenceCertificate) -> (r: Result<
        Self,
        VariantError,
    >)
        ensures
            ({
                let v = new_variant(docs_view(sources@), certificate@);
                &&& r is Ok <==> spec_check_variant(v) is Ok
                &&& r matches Ok(x) ==> x@ == v
                &&& r matches Err(e) ==> e.is(spec_check_variant(v)->Err_0)
            }),
    {
        let unsigned = CertifiedVariant {
            schema_version: String::from_str(CERTIFIED_VARIANT_SCHEMA_VERSION),
            producer: engine_producer_value(),
            created_at: None,
            content_digest: Sha256Digest::of_bytes(&[]),
            sources,
            certificate,
        };
        let digest = unsigned.payload_digest();
        proof {
            assert(variant_payload_json(unsigned@) == variant_payload_json(
                VariantView { content_digest: Seq::empty(), ..unsigned@ },
            ));
        }
        let artifact = CertifiedVariant { content_digest: digest, ..unsigned };
        assert(artifact@ == new_variant(artifact@.sources, artifact@.certificate));
        match artifact.validate() {
            Ok(()) => Ok(artifact),
            Err(e) => Err(e),
        }
    }

    /// Reassembles a variant from its persisted fields, without any check.
    pub fn from_parts(
        schema_version: String,
        producer: Producer,
        created_at: Option<String>,
        content_digest: Sha256Digest,
        sources: Vec<SourceDocument>,
        certificate: EquivalenceCertificate,
    ) -> (r: Self)
        ensures
            r@ == (VariantView {
                schema_version: schema_version@,
                producer: producer@,
                created_at: opt_view(created_at),
                content_digest: content_digest@,
                sources: docs_view(sources@),
                certificate: certificate@,
            }),
    {
        CertifiedVariant { schema_version, producer, created_at, content_digest, sources, certificate }
    }

    /// Returns the transformed source history.
    pub fn sources(&self) -> (r: &Vec<SourceDocument>)
        ensures
            docs_view(r@) == self@.sources,
    {
        &self.sources
    }

    /// Returns the equivalence evidence bound to this history.
    pub fn certificate(&self) -> (r: &EquivalenceCertificate)
        ensures
            r@ == self@.certificate,
    {
        &self.certificate
    }

    /// Returns the digest over the complete bundle except this field itself.
    pub fn content_digest(&self) -> (r: &Sha256Digest)
        ensures
            r@ == self@.content_digest,
    {
        &self.content_digest
    }

    /// Returns the persisted artifact schema.
    pub fn schema_version(&self) -> (r: &str)
        ensures
            r@ == self@.schema_version,
    {
        self.schema_version.as_str()
    }

    /// Returns the producer identity.
    pub fn producer(&self) -> (r: &Producer)
        ensures
            r@ == self@.producer,
    {
        &self.producer
    }

    /// Returns the caller-supplied timestamp, if any.
    pub fn created_at(&self) -> (r: Option<&str>)
        ensures
            r matches Some(t) ==> self@.created_at == Some(t@),
            r is None ==> self@.created_at is None,
    {
        match &self.created_at {
            Some(t) => Some(t.as_str()),
            None => None,
        }
    }

    /// Whether two variants have the same content.
    pub fn same_as(&self, other: &Self) -> (r: bool)
        ensures
            r == (self@ == other@),
    {
        let same_created = match (&self.created_at, &other.created_at) {
            (Some(a), Some(b)) => *a == *b,
            (None, None) => true,
            _ => false,
        };
        self.schema_version == other.schema_version && self.producer.name == other.producer.name
            && self.producer.version == other.producer.version && same_created
            && self.content_digest.same_as(&other.content_digest) && same_docs(
            &self.sources,
            &other.sources,
        ) && self.certificate.same_as(&other.certificate)
    }
}

// ---------------------------------------------------------------------------
// Generation
// ---------------------------------------------------------------------------

/// Safe-domain exclusion with every evaluated reason retained.
#[derive(Debug, PartialEq, Eq)]
pub struct ExcludedVariant {
    operator: VariantOperatorIdentity,
    preconditions: Vec<PreconditionEvaluation>,
}

impl ExcludedVariant {
    pub closed spec fn operator_view(&self) -> OperatorView {
        self.operator@
    }

    pub closed spec fn precondition_views(&self) -> Seq<PreconditionView> {
        evaluations_view(self.preconditions@)
    }

    /// Returns the operator that could not safely transform the input.
    pub fn operator(&self) -> (r: &VariantOperatorIdentity)
        ensures
            r@ == self.operator_view(),
    {
        &self.operator
    }

    /// Returns passed and failed checks; failed checks explain the exclusion.
    pub fn preconditions(&self) -> (r: &Vec<PreconditionEvaluation>)
        ensures
            evaluations_view(r@) == self.precondition_views(),
    {
        &self.preconditions
    }
}

/// Result of requesting a certified variant.
#[derive(Debug, PartialEq, Eq)]
pub enum VariantGeneration {
    /// The transformed history passed independent equivalence verification.
    Certified(Box<CertifiedVariant>),
    /// One or more executable preconditions excluded the candidate.
    Excluded(ExcludedVariant),
}

/// The content of a generation result.
pub enum GenerationView {
    Certified(VariantView),
    Excluded(OperatorView, Seq<PreconditionView>),
}

impl View for VariantGeneration {
    type V = GenerationView;

    open spec fn view(&self) -> GenerationView {
        match self {
            VariantGeneration::Certified(v) => GenerationView::Certified((**v)@),
            VariantGeneration::Excluded(x) => GenerationView::Excluded(
                x.operator_view(),
                x.precondition_views(),
            ),
        }
    }
}

/// A result is the outcome that the specification describes.
pub open spec fn generation_is(
    r: Result<VariantGeneration, VariantError>,
    s: Result<GenerationView, ErrorSpec>,
) -> bool {
    match r {
        Ok(g) => s == Ok::<GenerationView, ErrorSpec>(g@),
        Err(e) => s is Err && e.is(s->Err_0),
    }
}

pub open spec fn passed_view(id: Seq<char>, explanation: Seq<char>) -> PreconditionView {
    PreconditionView { id, status: PreconditionStatus::Passed, explanation }
}

pub open spec fn failed_view(id: Seq<char>, explanation: Seq<char>) -> PreconditionView {
    PreconditionView { id, status: PreconditionStatus::Failed, explanation }
}

pub open spec fn any_failed(s: Seq<PreconditionView>) -> bool {
    exists|i: int| 0 <= i < s.len() && (#[trigger] s[i]).status == PreconditionStatus::Failed
}

/// What an operator's transformation returned.
pub open spec fn transformed_view(t: Result<Vec<SourceDocument>, String>) -> Result<
    Seq<DocView>,
    Seq<char>,
> {
    match t {
        Ok(docs) => Ok(docs_view(docs@)),
        Err(m) => Err(m@),
    }
}

/// The outcome of certifying an operator's proposal for a baseline history
/// that compiled to `baseline`.
///
/// A failed precondition excludes the candidate; otherwise the operator's
/// output, in canonical order, must differ from the baseline (or it is
/// excluded), must compile, and must compile to the same content digest.
/// The certificate records every check; the variant is then validated.
pub open spec fn spec_certify(
    sources: Seq<DocView>,
    baseline: ContractView,
    identity: OperatorView,
    evaluations: Seq<PreconditionView>,
    transformed: Result<Seq<DocView>, Seq<char>>,
) -> Result<GenerationView, ErrorSpec> {
    let pre0 = seq![
        passed_view(
            "xunlie.variant.baseline-compiles"@,
            "baseline compiled to content digest "@ + baseline.content_digest,
        ),
    ] + evaluations;
    if any_failed(pre0) {
        Ok(GenerationView::Excluded(identity, pre0))
    } else {
        match transformed {
            Err(message) => Err(
                simple_error(
                    "XUNLIE-VARIANT-OPERATOR-FAILED"@,
                    "operator `"@ + identity.id + "` failed after its preconditions passed: "@
                        + message,
                ),
            ),
            Ok(output) => {
                let t = sort_docs(output);
                if t == sources {
                    Ok(
                        GenerationView::Excluded(
                            identity,
                            pre0.push(
                                failed_view(
                                    "xunlie.variant.output-differs"@,
                                    "operator output is byte-for-byte identical to the baseline history"@,
                                ),
                            ),
                        ),
                    )
                } else {
                    let pre1 = pre0.push(
                        passed_view(
                            "xunlie.variant.output-differs"@,
                            "operator changed the exact source history representation"@,
                        ),
                    );
                    match compile_default(t) {
                        Err(ds) => Err(
                            ErrorSpec {
                                code: "XUNLIE-VARIANT-INVALID-OUTPUT"@,
                                message: "operator `"@ + identity.id
                                    + "` produced a history that did not compile"@,
                                diagnostics: ds,
                            },
                        ),
                        Ok(candidate) => {
                            let pre2 = pre1.push(
                                passed_view(
                                    "xunlie.variant.output-compiles"@,
                                    "transformed history compiled to content digest "@
                                        + candidate.content_digest,
                                ),
                            );
                            if baseline.content_digest != candidate.content_digest {
                                Err(
                                    simple_error(
                                        "XUNLIE-VARIANT-NOT-EQUIVALENT"@,
                                        "operator `"@ + identity.id
                                            + "` changed semantic content from "@
                                            + baseline.content_digest + " to "@
                                            + candidate.content_digest,
                                    ),
                                )
                            } else {
                                let pre3 = pre2.push(
                                    passed_view(
                                        "xunlie.variant.content-digest-equal"@,
                                        "both histories compile to content digest "@
                                            + baseline.content_digest,
                                    ),
                                );
                                let before = HistoryDigestsView {
                                    history_digest: history_digest_of(sources),
                                    content_digest: baseline.content_digest,
                                    artifact_digest: baseline.artifact_digest,
                                };
                                let after = HistoryDigestsView {
                                    history_digest: history_digest_of(t),
                                    content_digest: candidate.content_digest,
                                    artifact_digest: candidate.artifact_digest,
                                };
                                let cert = new_certificate(
                                    engine_producer(),
                                    identity,
                                    pre3,
                                    before,
                                    after,
                                );
                                if certificate_problems(cert).len() > 0 {
                                    Err(
                                        ErrorSpec {
                                            code: "XUNLIE-VARIANT-CERTIFICATE-INVALID"@,
                                            message: "generated equivalence evidence did not satisfy certificate invariants"@,
                                            diagnostics: certificate_problems(cert),
                                        },
                                    )
                                } else {
                                    let v = new_variant(t, cert);
                                    match spec_check_variant(v) {
                                        Err(e) => Err(e),
                                        Ok(()) => Ok(GenerationView::Certified(v)),
                                    }
                                }
                            }
                        },
                    }
                }
            },
        }
    }
}

/// The outcome of generating a variant of `docs` when the operator identifies
/// itself, evaluates the canonically ordered baseline and transforms it as given.
pub open spec fn spec_generate(
    docs: Seq<DocView>,
    identity: OperatorView,
    evaluations: Seq<PreconditionView>,
    transformed: Result<Seq<DocView>, Seq<char>>,
) -> Result<GenerationView, ErrorSpec> {
    match compile_default(sort_docs(docs)) {
        Err(ds) => Err(invalid_baseline(ds)),
        Ok(baseline) => spec_certify(sort_docs(docs), baseline, identity, evaluations, transformed),
    }
}

/// The error for a baseline history that does not compile, carrying its diagnostics.
pub open spec fn invalid_baseline(ds: Seq<DiagnosticSpec>) -> ErrorSpec {
    ErrorSpec {
        code: "XUNLIE-VARIANT-INVALID-BASELINE"@,
        message: "baseline history did not compile"@,
        diagnostics: ds,
    }
}

/// What `operator` answered when asked about the documents `docs` in canonical
/// order: this identity, these evaluations and, when every evaluation passed,
/// this transformation. Each is a possible result of the operator's own method
/// on those arguments.
pub open spec fn answered<O: VariantOperator>(
    operator: &O,
    docs: Seq<DocView>,
    identity: OperatorView,
    evaluations: Seq<PreconditionView>,
    transformed: Result<Seq<DocView>, Seq<char>>,
) -> bool {
    exists|
        s: &[SourceDocument],
        i: VariantOperatorIdentity,
        e: Vec<PreconditionEvaluation>,
        t: Result<Vec<SourceDocument>, String>,
    |
        {
            &&& docs_view(s@) == sort_docs(docs)
            &&& call_ensures(O::identity, (operator,), i) && i@ == identity
            &&& call_ensures(O::evaluate, (operator, s), e) && evaluations_view(e@) == evaluations
            &&& !any_failed(evaluations) ==> call_ensures(O::transform, (operator, s), t)
                && transformed_view(t) == transformed
        }
}

/// The outcomes that generating a variant of `docs` with `operator` can have:
/// the baseline's own error, or what `spec_generate` gives for the operator's
/// answers.
pub open spec fn generated_by<O: VariantOperator>(
    operator: &O,
    docs: Seq<DocView>,
    g: Result<GenerationView, ErrorSpec>,
) -> bool {
    match compile_default(sort_docs(docs)) {
        Err(ds) => g == Err::<GenerationView, ErrorSpec>(invalid_baseline(ds)),
        Ok(_) => exists|
            identity: OperatorView,
            evaluations: Seq<PreconditionView>,
            transformed: Result<Seq<DocView>, Seq<char>>,
        |
            answered(operator, docs, identity, evaluations, transformed) && g == spec_generate(
                docs,
                identity,
                evaluations,
                transformed,
            ),
    }
}

fn has_failed_precondition(s: &Vec<PreconditionEvaluation>) -> (r: bool)
    ensures
        r == any_failed(evaluations_view(s@)),
{
    let mut i: usize = 0;
    while i < s.len()
        invariant
            i <= s@.len(),
            forall|j: int|
                0 <= j < i ==> (#[trigger] evaluations_view(s@)[j]).status
                    == PreconditionStatus::Passed,
        decreases s@.len() - i,
    {
        if !s[i].is_passed() {
            assert(evaluations_view(s@)[i as int].status == PreconditionStatus::Failed);
            return true;
        }
        i = i + 1;
    }
    false
}

fn certified_history(sources: &Vec<SourceDocument>, contract: &ContractIr) -> (r: CertifiedHistory)
    ensures
        r@ == (HistoryDigestsView {
            history_digest: history_digest_of(docs_view(sources@)),
            content_digest: contract@.content_digest,
            artifact_digest: contract@.artifact_digest,
        }),
{
    CertifiedHistory {
        history_digest: history_digest(sources),
        content_digest: contract.content_digest().clone(),
        artifact_digest: contract.artifact_digest().clone(),
    }
}

fn push_evaluation(s: &mut Vec<PreconditionEvaluation>, e: PreconditionEvaluation)
    ensures
        evaluations_view(final(s)@) == evaluations_view(old(s)@).push(e@),
{
    let ghost before = s@;
    s.push(e);
    assert(evaluations_view(s@) =~= evaluations_view(before).push(e@));
}

/// Certifies an operator's proposal: takes the canonically ordered baseline,
/// its compiled contract, and what the operator returned.
pub fn certify_transformation(
    sources: Vec<SourceDocument>,
    baseline: &ContractIr,
    identity: VariantOperatorIdentity,
    evaluations: Vec<PreconditionEvaluation>,
    transformed: Result<Vec<SourceDocument>, String>,
) -> (r: Result<VariantGeneration, VariantError>)
    ensures
        generation_is(
            r,
            spec_certify(
                docs_view(sources@),
                baseline@,
                identity@,
                evaluations_view(evaluations@),
                transformed_view(transformed),
            ),
        ),
{
    let ghost spec = spec_certify(
        docs_view(sources@),
        baseline@,
        identity@,
        evaluations_view(evaluations@),
        transformed_view(transformed),
    );
    let first = PreconditionEvaluation::passed(
        "xunlie.variant.baseline-compiles",
        concat3("baseline compiled to content digest ", baseline.content_digest().as_str(), "").as_str(),
    );
    proof {
        reveal_strlit("");
    }
    let mut preconditions: Vec<PreconditionEvaluation> = Vec::new();
    push_evaluation(&mut preconditions, first);
    let mut k: usize = 0;
    while k < evaluations.len()
        invariant
            k <= evaluations@.len(),
            evaluations_view(preconditions@) == seq![first@] + evaluations_view(evaluations@).take(
                k as int,
            ),
        decreases evaluations@.len() - k,
    {
        push_evaluation(&mut preconditions, evaluations[k].clone());
        assert(evaluations_view(evaluations@).take(k + 1) =~= evaluations_view(evaluations@).take(
            k as int,
        ).push(evaluations@[k as int]@));
        assert(seq![first@] + evaluations_view(evaluations@).take(k + 1) =~= (seq![first@]
            + evaluations_view(evaluations@).take(k as int)).push(evaluations@[k as int]@));
        k = k + 1;
    }
    assert(evaluations_view(evaluations@).take(evaluations@.len() as int) =~= evaluations_view(
        evaluations@,
    ));
    if has_failed_precondition(&preconditions) {
        return Ok(VariantGeneration::Excluded(ExcludedVariant { operator: identity, preconditions }));
    }
    let output = match transformed {
        Err(message) => {
            let mut text = concat3("operator `", identity.id.as_str(), "` failed after its preconditions passed: ");
            text.append(message.as_str());
            return Err(VariantError::new("XUNLIE-VARIANT-OPERATOR-FAILED", text));
        },
        Ok(output) => output,
    };
    let candidate_sources = sort_documents(output);
    if same_docs(&sources, &candidate_sources) {
        push_evaluation(
            &mut preconditions,
            PreconditionEvaluation::failed(
                "xunlie.variant.output-differs",
                "operator output is byte-for-byte identical to the baseline history",
            ),
        );
        return Ok(VariantGeneration::Excluded(ExcludedVariant { operator: identity, preconditions }));
    }
    push_evaluation(
        &mut preconditions,
        PreconditionEvaluation::passed(
            "xunlie.variant.output-differs",
            "operator changed the exact source history representation",
        ),
    );
    let candidate = match compile_sources(clone_docs(&candidate_sources)) {
        Err(error) => {
            let text = concat3(
                "operator `",
                identity.id.as_str(),
                "` produced a history that did not compile",
            );
            return Err(
                VariantError::from_diagnostics(
                    "XUNLIE-VARIANT-INVALID-OUTPUT",
                    text,
                    error.into_diagnostics(),
                ),
            );
        },
        Ok(c) => c,
    };
    let compiled_message = concat3(
        "transformed history compiled to content digest ",
        candidate.content_digest().as_str(),
        "",
    );
    push_evaluation(
        &mut preconditions,
        PreconditionEvaluation::passed("xunlie.variant.output-compiles", compiled_message.as_str()),
    );
    if !baseline.content_digest().same_as(candidate.content_digest()) {
        let mut text = concat5(
            "operator `",
            identity.id.as_str(),
            "` changed semantic content from ",
            baseline.content_digest().as_str(),
            " to ",
        );
        text.append(candidate.content_digest().as_str());
        return Err(VariantError::new("XUNLIE-VARIANT-NOT-EQUIVALENT", text));
    }
    let equal_message = concat3(
        "both histories compile to content digest ",
        baseline.content_digest().as_str(),
        "",
    );
    push_evaluation(
        &mut preconditions,
        PreconditionEvaluation::passed("xunlie.variant.content-digest-equal", equal_message.as_str()),
    );
    let before = certified_history(&sources, baseline);
    let after = certified_history(&candidate_sources, &candidate);
    let certificate = match EquivalenceCertificate::new(
        engine_producer_value(),
        identity,
        preconditions,
        before,
        after,
    ) {
        Err(ds) => {
            return Err(
                VariantError::from_diagnostics(
                    "XUNLIE-VARIANT-CERTIFICATE-INVALID",
                    String::from_str(
                        "generated equivalence evidence did not satisfy certificate invariants",
                    ),
                    ds,
                ),
            );
        },
        Ok(c) => c,
    };
    match CertifiedVariant::new(candidate_sources, certificate) {
        Err(e) => Err(e),
        Ok(v) => Ok(VariantGeneration::Certified(Box::new(v))),
    }
}

// ---------------------------------------------------------------------------
// Generation and verification entry points
// ---------------------------------------------------------------------------

fn baseline_error(error: crate::engine::CompileError, Ghost(ds): Ghost<Seq<DiagnosticSpec>>) -> (r:
    VariantError)
    requires
        diagnostics_are(error.diagnostic_seq(), ds),
    ensures
        r.is(
            ErrorSpec {
                code: "XUNLIE-VARIANT-INVALID-BASELINE"@,
                message: "baseline history did not compile"@,
                diagnostics: ds,
            },
        ),
{
    VariantError::from_diagnostics(
        "XUNLIE-VARIANT-INVALID-BASELINE",
        String::from_str("baseline history did not compile"),
        error.into_diagnostics(),
    )
}

/// Applies an operator, recompiles both histories, and certifies only equality.
///
/// The operator is asked for its identity, its evaluations of the baseline in
/// canonical order and, when all of them passed, its transformation; the
/// result is what `spec_generate` gives for those answers.
pub fn generate_certified_variant<O: VariantOperator>(sources: Vec<SourceDocument>, operator: &O) -> (r:
    Result<VariantGeneration, VariantError>)
    ensures
        exists|g: Result<GenerationView, ErrorSpec>|
            generated_by(operator, docs_view(sources@), g) && #[trigger] generation_is(r, g),
{
    let ghost docs = docs_view(sources@);
    let sorted = sort_documents(sources);
    let baseline = match compile_sources(clone_docs(&sorted)) {
        Err(error) => {
            let ghost ds = compile_default(sort_docs(docs))->Err_0;
            let e = baseline_error(error, Ghost(ds));
            let r = Err(e);
            assert(generation_is(r, Err::<GenerationView, ErrorSpec>(invalid_baseline(ds))));
            return r;
        },
        Ok(c) => c,
    };
    let slice = sorted.as_slice();
    let identity = operator.identity();
    let evaluations = operator.evaluate(slice);
    let transformed = if has_failed_precondition(&evaluations) {
        Err(String::new())
    } else {
        operator.transform(slice)
    };
    let ghost w1 = identity@;
    let ghost w2 = evaluations_view(evaluations@);
    let ghost w3 = transformed_view(transformed);
    assert(answered(operator, docs, w1, w2, w3));
    let r = certify_transformation(sorted, &baseline, identity, evaluations, transformed);
    assert(generation_is(r, spec_generate(docs, w1, w2, w3)));
    r
}

/// A failed evaluation excludes the candidate whatever the transformation.
pub proof fn lemma_excluded_ignores_transform(
    sources: Seq<DocView>,
    baseline: ContractView,
    identity: OperatorView,
    evaluations: Seq<PreconditionView>,
    t1: Result<Seq<DocView>, Seq<char>>,
    t2: Result<Seq<DocView>, Seq<char>>,
)
    requires
        any_failed(evaluations),
    ensures
        spec_certify(sources, baseline, identity, evaluations, t1) == spec_certify(
            sources,
            baseline,
            identity,
            evaluations,
            t2,
        ),
{
    let pre0 = seq![
        passed_view(
            "xunlie.variant.baseline-compiles"@,
            "baseline compiled to content digest "@ + baseline.content_digest,
        ),
    ] + evaluations;
    let i = choose|i: int|
        0 <= i < evaluations.len() && (#[trigger] evaluations[i]).status == PreconditionStatus::Failed;
    assert(pre0[i + 1] == evaluations[i]);
    assert(any_failed(pre0));
}

/// Generation with a built-in operator is the generation that its fully
/// specified answers give: whatever the generic path can return with a
/// built-in operator is the built-in outcome.
pub proof fn lemma_builtin_generation(op: BuiltinOperator, docs: Seq<DocView>, g: Result<GenerationView, ErrorSpec>)
    requires
        generated_by(&op, docs, g),
    ensures
        g == spec_generate(
            docs,
            builtin_identity(op),
            builtin_evaluations(op, sort_docs(docs)),
            builtin_transform(op, sort_docs(docs)),
        ),
{
    match compile_default(sort_docs(docs)) {
        Err(ds) => {},
        Ok(baseline) => {
            let (identity, evaluations, transformed) = choose|
                identity: OperatorView,
                evaluations: Seq<PreconditionView>,
                transformed: Result<Seq<DocView>, Seq<char>>,
            |
                answered(&op, docs, identity, evaluations, transformed) && g == spec_generate(
                    docs,
                    identity,
                    evaluations,
                    transformed,
                );
            let (s, i, e, t) = choose|
                s: &[SourceDocument],
                i: VariantOperatorIdentity,
                e: Vec<PreconditionEvaluation>,
                t: Result<Vec<SourceDocument>, String>,
            |
                {
                    &&& docs_view(s@) == sort_docs(docs)
                    &&& call_ensures(BuiltinOperator::identity, (&op,), i) && i@ == identity
                    &&& call_ensures(BuiltinOperator::evaluate, (&op, s), e) && evaluations_view(e@)
                        == evaluations
                    &&& !any_failed(evaluations) ==> call_ensures(
                        BuiltinOperator::transform,
                        (&op, s),
                        t,
                    ) && transformed_view(t) == transformed
                };
            assert(identity == builtin_identity(op));
            assert(evaluations == builtin_evaluations(op, sort_docs(docs)));
            if any_failed(evaluations) {
                lemma_excluded_ignores_transform(
                    sort_docs(docs),
                    baseline,
                    identity,
                    evaluations,
                    transformed,
                    builtin_transform(op, sort_docs(docs)),
                );
            } else {
                assert(transformed == builtin_transform(op, sort_docs(docs)));
            }
        },
    }
}

/// Generation with a built-in operator, whose behaviour is fully specified.
fn generate_with_builtin(sources: Vec<SourceDocument>, operator: BuiltinOperator) -> (r: Result<
    VariantGeneration,
    VariantError,
>)
    ensures
        generation_is(
            r,
            spec_generate(
                docs_view(sources@),
                builtin_identity(operator),
                builtin_evaluations(operator, sort_docs(docs_view(sources@))),
                builtin_transform(operator, sort_docs(docs_view(sources@))),
            ),
        ),
{
    let ghost docs = docs_view(sources@);
    let r = generate_certified_variant(sources, &operator);
    proof {
        let g = choose|g: Result<GenerationView, ErrorSpec>|
            generated_by(&operator, docs, g) && #[trigger] generation_is(r, g);
        lemma_builtin_generation(operator, docs, g);
    }
    r
}

/// The error for an operator id that names no built-in operator.
pub open spec fn unknown_builtin_error(id: Seq<char>) -> ErrorSpec {
    simple_error(
        "XUNLIE-VARIANT-UNKNOWN-OPERATOR"@,
        "unknown variant operator `"@ + id + "`; expected one of "@
            + JSON_NORMALIZATION_OPERATOR_ID@ + ", "@ + REVERSE_INDEPENDENT_ADDS_OPERATOR_ID@,
    )
}

/// Generates a variant with one registered built-in operator.
pub fn generate_builtin_variant(sources: Vec<SourceDocument>, operator_id: &str) -> (r: Result<
    VariantGeneration,
    VariantError,
>)
    ensures
        builtin_operator_for(operator_id@) is None ==> generation_is(
            r,
            Err(unknown_builtin_error(operator_id@)),
        ),
        builtin_operator_for(operator_id@) matches Some(op) ==> generation_is(
            r,
            spec_generate(
                docs_view(sources@),
                builtin_identity(op),
                builtin_evaluations(op, sort_docs(docs_view(sources@))),
                builtin_transform(op, sort_docs(docs_view(sources@))),
            ),
        ),
{
    match builtin_operator(operator_id) {
        None => {
            let mut message = concat5(
                "unknown variant operator `",
                operator_id,
                "`; expected one of ",
                JSON_NORMALIZATION_OPERATOR_ID,
                ", ",
            );
            message.append(REVERSE_INDEPENDENT_ADDS_OPERATOR_ID);
            Err(VariantError::new("XUNLIE-VARIANT-UNKNOWN-OPERATOR", message))
        },
        Some(op) => generate_with_builtin(sources, op),
    }
}

/// The outcome of verifying a persisted variant against a replay: the
/// variant's own checks, the operator it names, and equality with the
/// regenerated variant.
pub open spec fn spec_verify(
    artifact: VariantView,
    identity: OperatorView,
    regenerated: Result<GenerationView, ErrorSpec>,
) -> Result<(), ErrorSpec> {
    match spec_check_variant(artifact) {
        Err(e) => Err(e),
        Ok(()) => if artifact.certificate.operator != identity {
            Err(
                simple_error(
                    "XUNLIE-VARIANT-OPERATOR-MISMATCH"@,
                    "certificate operator "@ + artifact.certificate.operator.id + "@"@
                        + artifact.certificate.operator.version + " does not match verifier "@
                        + identity.id + "@"@ + identity.version,
                ),
            )
        } else {
            match regenerated {
                Err(e) => Err(e),
                Ok(GenerationView::Excluded(_, _)) => Err(
                    simple_error(
                        "XUNLIE-VARIANT-REPLAY-EXCLUDED"@,
                        "operator no longer admits the baseline under its recorded preconditions"@,
                    ),
                ),
                Ok(GenerationView::Certified(expected)) => if expected != artifact {
                    Err(
                        simple_error(
                            "XUNLIE-VARIANT-REPLAY-MISMATCH"@,
                            "persisted variant or certificate differs from deterministic operator replay"@,
                        ),
                    )
                } else {
                    Ok(())
                },
            }
        },
    }
}

/// A verification result is the outcome that the specification describes.
pub open spec fn verification_is(r: Result<(), VariantError>, s: Result<(), ErrorSpec>) -> bool {
    match r {
        Ok(()) => s is Ok,
        Err(e) => s is Err && e.is(s->Err_0),
    }
}

/// Compares a persisted variant with its replay, once the identity and the
/// replay are known.
pub fn check_replay(
    artifact: &CertifiedVariant,
    identity: &VariantOperatorIdentity,
    regenerated: Result<VariantGeneration, VariantError>,
) -> (r: Result<(), VariantError>)
    requires
        spec_check_variant(artifact@) is Ok,
    ensures
        forall|g: Result<GenerationView, ErrorSpec>|
            #[trigger] generation_is(regenerated, g) ==> verification_is(
                r,
                spec_verify(artifact@, identity@, g),
            ),
{
    if !artifact.certificate().operator().same_as(identity) {
        let op = artifact.certificate().operator();
        let mut message = concat5(
            "certificate operator ",
            op.id.as_str(),
            "@",
            op.version.as_str(),
            " does not match verifier ",
        );
        message.append(identity.id.as_str());
        message.append("@");
        message.append(identity.version.as_str());
        return Err(VariantError::new("XUNLIE-VARIANT-OPERATOR-MISMATCH", message));
    }
    match regenerated {
        Err(e) => Err(e),
        Ok(VariantGeneration::Excluded(_)) => Err(
            VariantError::new(
                "XUNLIE-VARIANT-REPLAY-EXCLUDED",
                String::from_str(
                    "operator no longer admits the baseline under its recorded preconditions",
                ),
            ),
        ),
        Ok(VariantGeneration::Certified(expected)) => {
            if !expected.same_as(artifact) {
                Err(
                    VariantError::new(
                        "XUNLIE-VARIANT-REPLAY-MISMATCH",
                        String::from_str(
                            "persisted variant or certificate differs from deterministic operator replay",
                        ),
                    ),
                )
            } else {
                Ok(())
            }
        },
    }
}

/// Replays an operator and compares all persisted source and certificate evidence.
///
/// The artifact's own checks come first; then the identity that the operator
/// reports must be the certificate's, and a fresh generation with the same
/// operator from the baseline must reproduce the artifact exactly.
pub fn verify_certified_variant_with_operator<O: VariantOperator>(
    baseline_sources: Vec<SourceDocument>,
    artifact: &CertifiedVariant,
    operator: &O,
) -> (r: Result<(), VariantError>)
    ensures
        spec_check_variant(artifact@) matches Err(x) ==> verification_is(
            r,
            Err::<(), ErrorSpec>(x),
        ),
        spec_check_variant(artifact@) is Ok ==> exists|
            i: VariantOperatorIdentity,
            g: Result<GenerationView, ErrorSpec>,
        |
            {
                &&& call_ensures(O::identity, (operator,), i)
                &&& artifact@.certificate.operator == i@ ==> generated_by(
                    operator,
                    docs_view(baseline_sources@),
                    g,
                )
                &&& #[trigger] verification_is(r, spec_verify(artifact@, i@, g))
            },
{
    let ghost docs = docs_view(baseline_sources@);
    match artifact.validate() {
        Err(e) => {
            return Err(e);
        },
        Ok(()) => {},
    }
    let identity = operator.identity();
    if !artifact.certificate().operator().same_as(&identity) {
        let op = artifact.certificate().operator();
        let mut message = concat5(
            "certificate operator ",
            op.id.as_str(),
            "@",
            op.version.as_str(),
            " does not match verifier ",
        );
        message.append(identity.id.as_str());
        message.append("@");
        message.append(identity.version.as_str());
        let r = Err(VariantError::new("XUNLIE-VARIANT-OPERATOR-MISMATCH", message));
        let ghost g = Err::<GenerationView, ErrorSpec>(simple_error(Seq::empty(), Seq::empty()));
        assert(verification_is(r, spec_verify(artifact@, identity@, g)));
        return r;
    }
    let regenerated = generate_certified_variant(baseline_sources, operator);
    let ghost g = choose|g: Result<GenerationView, ErrorSpec>|
        generated_by(operator, docs, g) && #[trigger] generation_is(regenerated, g);
    let r = check_replay(artifact, &identity, regenerated);
    assert(verification_is(r, spec_verify(artifact@, identity@, g)));
    r
}

/// The error for a certificate that names no built-in operator.
pub open spec fn unsupported_operator_error(id: Seq<char>) -> ErrorSpec {
    simple_error(
        "XUNLIE-VARIANT-UNKNOWN-OPERATOR"@,
        "certificate names unsupported operator `"@ + id + "`"@,
    )
}

/// Verifies a persisted artifact using the built-in operator named by its certificate.
pub fn verify_certified_variant(baseline_sources: Vec<SourceDocument>, artifact: &CertifiedVariant) -> (r:
    Result<(), VariantError>)
    ensures
        builtin_operator_for(artifact@.certificate.operator.id) is None ==> verification_is(
            r,
            Err(unsupported_operator_error(artifact@.certificate.operator.id)),
        ),
        builtin_operator_for(artifact@.certificate.operator.id) matches Some(op) ==> verification_is(
            r,
            spec_verify(
                artifact@,
                builtin_identity(op),
                spec_generate(
                    docs_view(baseline_sources@),
                    builtin_identity(op),
                    builtin_evaluations(op, sort_docs(docs_view(baseline_sources@))),
                    builtin_transform(op, sort_docs(docs_view(baseline_sources@))),
                ),
            ),
        ),
{
    let id = artifact.certificate().operator().id.as_str();
    let operator = match builtin_operator(id) {
        None => {
            let message = concat3("certificate names unsupported operator `", id, "`");
            return Err(VariantError::new("XUNLIE-VARIANT-UNKNOWN-OPERATOR", message));
        },
        Some(op) => op,
    };
    let ghost docs = docs_view(baseline_sources@);
    let r = verify_certified_variant_with_operator(baseline_sources, artifact, &operator);
    proof {
        if spec_check_variant(artifact@) is Ok {
            let (i, g) = choose|i: VariantOperatorIdentity, g: Result<GenerationView, ErrorSpec>|
                {
                    &&& call_ensures(BuiltinOperator::identity, (&operator,), i)
                    &&& artifact@.certificate.operator == i@ ==> generated_by(&operator, docs, g)
                    &&& #[trigger] verification_is(r, spec_verify(artifact@, i@, g))
                };
            if artifact@.certificate.operator == i@ {
                lemma_builtin_generation(operator, docs, g);
            }
        }
    }
    r
}

} // verus!
