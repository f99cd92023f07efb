//! Self-validating evidence that two different histories compile to one
//! effective contract.
use vstd::prelude::*;
use vstd::utf8::encode_utf8;

use crate::canonical::{
    created_at_json, json_join, lemma_join_push, opt_view, producer_json, write_created_at,
    write_producer,
};
use crate::contract::digest_text;
use crate::diagnostic::{diagnostics_are, push_diagnostic, push_if, Diagnostic, DiagnosticSpec};
use crate::digest::{digest_of, Sha256Digest};
use crate::ir::{Producer, ProducerView};
use crate::json::{json_str, write_str};
use crate::text::{concat3, concat5, is_blank, str_is_blank};

verus! {

/// Schema identifier for persisted equivalence certificates.
pub const EQUIVALENCE_CERTIFICATE_SCHEMA_VERSION: &'static str = "xunlie.equivalence-certificate/v1";

/// Proof procedure implemented by the engine.
pub const RECOMPILE_PROOF_METHOD: &'static str = "xunlie.recompile-and-compare/v1";

/// Stable identity of the deterministic operator that proposed a variant.
#[derive(Debug, PartialEq, Eq)]
pub struct VariantOperatorIdentity {
    /// Stable operator name. Meaning changes require a new name or major version.
    pub id: String,
    /// Operator implementation version.
    pub version: String,
}

pub struct OperatorView {
    pub id: Seq<char>,
    pub version: Seq<char>,
}

impl View for VariantOperatorIdentity {
    type V = OperatorView;

    open spec fn view(&self) -> OperatorView {
        OperatorView { id: self.id@, version: self.version@ }
    }
}

impl Clone for VariantOperatorIdentity {
    fn clone(&self) -> (r: Self)
        ensures
            r == *self,
    {
        VariantOperatorIdentity { id: self.id.clone(), version: self.version.clone() }
    }
}

impl VariantOperatorIdentity {
    /// Creates an operator identity.
    pub fn new(id: &str, version: &str) -> (r: Self)
        ensures
            r@ == (OperatorView { id: id@, version: version@ }),
    {
        VariantOperatorIdentity { id: String::from_str(id), version: String::from_str(version) }
    }

    /// Whether two identities name the same operator and version.
    pub fn same_as(&self, other: &Self) -> (r: bool)
        ensures
            r == (self@ == other@),
    {
        self.id == other.id && self.version == other.version
    }
}

/// Result of evaluating one executable operator precondition.
#[derive(Clone, Copy, Debug, PartialEq, Eq, Structural)]
pub enum PreconditionStatus {
    /// The input satisfies the precondition.
    Passed,
    /// The input does not satisfy the precondition and must be excluded.
    Failed,
}

/// Auditable evidence for one executable precondition.
#[derive(Debug, PartialEq, Eq)]
pub struct PreconditionEvaluation {
    /// Stable check identifier.
    pub id: String,
    /// Machine-readable result.
    pub status: PreconditionStatus,
    /// Human-readable observation explaining the result.
    pub explanation: String,
}

pub struct PreconditionView {
    pub id: Seq<char>,
    pub status: PreconditionStatus,
    pub explanation: Seq<char>,
}

impl View for PreconditionEvaluation {
    type V = PreconditionView;

    open spec fn view(&self) -> PreconditionView {
        PreconditionView { id: self.id@, status: self.status, explanation: self.explanation@ }
    }
}

impl Clone for PreconditionEvaluation {
    fn clone(&self) -> (r: Self)
        ensures
            r == *self,
    {
        PreconditionEvaluation {
            id: self.id.clone(),
            status: self.status,
            explanation: self.explanation.clone(),
        }
    }
}

/// The content of every evaluation of a list.
pub open spec fn evaluations_view(s: Seq<PreconditionEvaluation>) -> Seq<PreconditionView> {
    s.map_values(|p: PreconditionEvaluation| p@)
}

impl PreconditionEvaluation {
    /// Records a satisfied precondition.
    pub fn passed(id: &str, explanation: &str) -> (r: Self)
        ensures
            r@ == (PreconditionView {
                id: id@,
                status: PreconditionStatus::Passed,
                explanation: explanation@,
            }),
    {
        PreconditionEvaluation {
            id: String::from_str(id),
            status: PreconditionStatus::Passed,
            explanation: String::from_str(explanation),
        }
    }

    /// Records a failed precondition and its exclusion reason.
    pub fn failed(id: &str, explanation: &str) -> (r: Self)
        ensures
            r@ == (PreconditionView {
                id: id@,
                status: PreconditionStatus::Failed,
                explanation: explanation@,
            }),
    {
        PreconditionEvaluation {
            id: String::from_str(id),
            status: PreconditionStatus::Failed,
            explanation: String::from_str(explanation),
        }
    }

    /// Returns whether the precondition passed.
    pub fn is_passed(&self) -> (r: bool)
        ensures
            r == (self.status == PreconditionStatus::Passed),
    {
        match self.status {
            PreconditionStatus::Passed => true,
            PreconditionStatus::Failed => false,
        }
    }
}

/// Digests that bind one side of a certified transformation.
#[derive(Debug, PartialEq, Eq)]
pub struct CertifiedHistory {
    /// Digest over ordered source identities, positions, and exact source bytes.
    pub history_digest: Sha256Digest,
    /// Semantic digest of the compiled effective contract.
    pub content_digest: Sha256Digest,
    /// Integrity digest of the compiled contract including provenance.
    pub artifact_digest: Sha256Digest,
}

pub struct HistoryDigestsView {
    pub history_digest: Seq<char>,
    pub content_digest: Seq<char>,
    pub artifact_digest: Seq<char>,
}

impl View for CertifiedHistory {
    type V = HistoryDigestsView;

    open spec fn view(&self) -> HistoryDigestsView {
        HistoryDigestsView {
            history_digest: self.history_digest@,
            content_digest: self.content_digest@,
            artifact_digest: self.artifact_digest@,
        }
    }
}

impl Clone for CertifiedHistory {
    fn clone(&self) -> (r: Self)
        ensures
            r == *self,
    {
        CertifiedHistory {
            history_digest: self.history_digest.clone(),
            content_digest: self.content_digest.clone(),
            artifact_digest: self.artifact_digest.clone(),
        }
    }
}

/// Closed result set for an equivalence proof.
#[derive(Clone, Copy, Debug, PartialEq, Eq, Structural)]
pub enum EquivalenceProofResult {
    /// Both histories compiled successfully and their semantic digests matched.
    Equivalent,
}

/// Evidence that two different histories compile to one effective contract.
#[derive(Debug, PartialEq, Eq)]
pub struct EquivalenceProof {
    /// Versioned proof procedure.
    pub method: String,
    /// Result recorded only after executing the proof procedure.
    pub result: EquivalenceProofResult,
}

pub struct ProofView {
    pub method: Seq<char>,
    pub result: EquivalenceProofResult,
}

impl View for EquivalenceProof {
    type V = ProofView;

    open spec fn view(&self) -> ProofView {
        ProofView { method: self.method@, result: self.result }
    }
}

impl Clone for EquivalenceProof {
    fn clone(&self) -> (r: Self)
        ensures
            r == *self,
    {
        EquivalenceProof { method: self.method.clone(), result: self.result }
    }
}

// ---------------------------------------------------------------------------
// Canonical JSON
// ---------------------------------------------------------------------------

pub open spec fn operator_json(o: OperatorView) -> Seq<char> {
    "{\"id\":"@ + json_str(o.id) + ",\"version\":"@ + json_str(o.version) + "}"@
}

pub open spec fn status_name(s: PreconditionStatus) -> Seq<char> {
    match s {
        PreconditionStatus::Passed => "passed"@,
        PreconditionStatus::Failed => "failed"@,
    }
}

pub open spec fn precondition_json(p: PreconditionView) -> Seq<char> {
    "{\"id\":"@ + json_str(p.id) + ",\"status\":"@ + json_str(status_name(p.status))
        + ",\"explanation\":"@ + json_str(p.explanation) + "}"@
}

pub open spec fn preconditions_json(s: Seq<PreconditionView>) -> Seq<char> {
    seq!['['] + json_join(s.map_values(|p: PreconditionView| precondition_json(p))) + seq![']']
}

pub open spec fn history_json(h: HistoryDigestsView) -> Seq<char> {
    "{\"historyDigest\":"@ + json_str(h.history_digest) + ",\"contentDigest\":"@ + json_str(
        h.content_digest,
    ) + ",\"artifactDigest\":"@ + json_str(h.artifact_digest) + "}"@
}

pub open spec fn proof_json(p: ProofView) -> Seq<char> {
    "{\"method\":"@ + json_str(p.method) + ",\"result\":"@ + json_str("equivalent"@) + "}"@
}

/// The content of a certificate.
pub struct CertificateView {
    pub schema_version: Seq<char>,
    pub producer: ProducerView,
    pub created_at: Option<Seq<char>>,
    pub operator: OperatorView,
    pub preconditions: Seq<PreconditionView>,
    pub before: HistoryDigestsView,
    pub after: HistoryDigestsView,
    pub proof: ProofView,
    pub certificate_digest: Seq<char>,
}

/// The certificate's fields, in order, without the closing brace and without its own digest.
pub open spec fn certificate_fields_json(c: CertificateView) -> Seq<char> {
    "{\"schemaVersion\":"@ + json_str(c.schema_version) + ",\"producer\":"@ + producer_json(
        c.producer,
    ) + created_at_json(c.created_at) + ",\"operator\":"@ + operator_json(c.operator)
        + ",\"preconditions\":"@ + preconditions_json(c.preconditions) + ",\"before\":"@
        + history_json(c.before) + ",\"after\":"@ + history_json(c.after) + ",\"proof\":"@
        + proof_json(c.proof)
}

/// The evidence the certificate digest covers: every field but the digest itself.
pub open spec fn certificate_payload_json(c: CertificateView) -> Seq<char> {
    certificate_fields_json(c) + "}"@
}

/// The digest of a certificate's evidence.
pub open spec fn certificate_digest_of(c: CertificateView) -> Seq<char> {
    digest_of(encode_utf8(certificate_payload_json(c)))
}

/// The complete persisted certificate; its digest is written as `contentDigest`.
pub open spec fn certificate_json(c: CertificateView) -> Seq<char> {
    certificate_fields_json(c) + ",\"contentDigest\":"@ + json_str(c.certificate_digest) + "}"@
}

fn write_operator(out: &mut String, o: &VariantOperatorIdentity)
    ensures
        final(out)@ == old(out)@ + operator_json(o@),
{
    out.append("{\"id\":");
    write_str(out, o.id.as_str());
    out.append(",\"version\":");
    write_str(out, o.version.as_str());
    out.append("}");
}

fn status_text(s: PreconditionStatus) -> (r: &'static str)
    ensures
        r@ == status_name(s),
{
    match s {
        PreconditionStatus::Passed => "passed",
        PreconditionStatus::Failed => "failed",
    }
}

fn write_precondition(out: &mut String, p: &PreconditionEvaluation)
    ensures
        final(out)@ == old(out)@ + precondition_json(p@),
{
    out.append("{\"id\":");
    write_str(out, p.id.as_str());
    out.append(",\"status\":");
    write_str(out, status_text(p.status));
    out.append(",\"explanation\":");
    write_str(out, p.explanation.as_str());
    out.append("}");
}

fn write_preconditions(out: &mut String, s: &Vec<PreconditionEvaluation>)
    ensures
        final(out)@ == old(out)@ + preconditions_json(evaluations_view(s@)),
{
    let ghost start = out@;
    let ghost items = evaluations_view(s@).map_values(|p: PreconditionView| precondition_json(p));
    proof {
        reveal_strlit("[");
        reveal_strlit("]");
        reveal_strlit(",");
    }
    out.append("[");
    let mut i: usize = 0;
    assert(json_join(items.take(0)) =~= Seq::<char>::empty());
    while i < s.len()
        invariant
            i <= s@.len(),
            items == evaluations_view(s@).map_values(|p: PreconditionView| precondition_json(p)),
            out@ == start + seq!['['] + json_join(items.take(i as int)),
            ","@ == seq![','],
        decreases s@.len() - i,
    {
        proof {
            lemma_join_push(items, i as int);
        }
        if i > 0 {
            out.append(",");
        }
        write_precondition(out, &s[i]);
        assert(out@ =~= start + seq!['['] + json_join(items.take(i + 1)));
        i = i + 1;
    }
    assert(items.take(s@.len() as int) =~= items);
    out.append("]");
    assert(out@ =~= start + preconditions_json(evaluations_view(s@)));
}

fn write_history(out: &mut String, h: &CertifiedHistory)
    ensures
        final(out)@ == old(out)@ + history_json(h@),
{
    out.append("{\"historyDigest\":");
    write_str(out, h.history_digest.as_str());
    out.append(",\"contentDigest\":");
    write_str(out, h.content_digest.as_str());
    out.append(",\"artifactDigest\":");
    write_str(out, h.artifact_digest.as_str());
    out.append("}");
}

fn write_proof(out: &mut String, p: &EquivalenceProof)
    ensures
        final(out)@ == old(out)@ + proof_json(p@),
{
    out.append("{\"method\":");
    write_str(out, p.method.as_str());
    out.append(",\"result\":");
    write_str(out, "equivalent");
    out.append("}");
}

// ---------------------------------------------------------------------------
// Validation rules
// ---------------------------------------------------------------------------

pub open spec fn plain_error(code: Seq<char>, message: Seq<char>) -> DiagnosticSpec {
    DiagnosticSpec { code, message, primary: None, related: Seq::empty() }
}

/// Schema, producer, operator and the presence of evidence.
pub open spec fn header_problems(c: CertificateView) -> Seq<DiagnosticSpec> {
    (if c.schema_version != EQUIVALENCE_CERTIFICATE_SCHEMA_VERSION@ {
        seq![
            plain_error(
                "XUNLIE-CERTIFICATE-SCHEMA"@,
                "unsupported certificate schema `"@ + c.schema_version + "`; expected `"@
                    + EQUIVALENCE_CERTIFICATE_SCHEMA_VERSION@ + "`"@,
            ),
        ]
    } else {
        Seq::empty()
    }) + (if is_blank(c.producer.name) || is_blank(c.producer.version) {
        seq![
            plain_error(
                "XUNLIE-CERTIFICATE-PRODUCER"@,
                "certificate producer name and version must not be empty"@,
            ),
        ]
    } else {
        Seq::empty()
    }) + (if is_blank(c.operator.id) || is_blank(c.operator.version) {
        seq![
            plain_error(
                "XUNLIE-CERTIFICATE-OPERATOR"@,
                "operator id and version must not be empty"@,
            ),
        ]
    } else {
        Seq::empty()
    }) + (if c.preconditions.len() == 0 {
        seq![
            plain_error(
                "XUNLIE-CERTIFICATE-NO-PRECONDITIONS"@,
                "a certificate must contain executable precondition evidence"@,
            ),
        ]
    } else {
        Seq::empty()
    })
}

/// The problems of evaluation `i`: a blank id, a blank explanation, an id
/// seen before, a failed status.
pub open spec fn precondition_problems_at(s: Seq<PreconditionView>, i: int) -> Seq<DiagnosticSpec> {
    let p = s[i];
    (if is_blank(p.id) {
        seq![plain_error("XUNLIE-CERTIFICATE-PRECONDITION-ID"@, "precondition id must not be empty"@)]
    } else {
        Seq::empty()
    }) + (if is_blank(p.explanation) {
        seq![
            plain_error(
                "XUNLIE-CERTIFICATE-PRECONDITION-EXPLANATION"@,
                "precondition `"@ + p.id + "` must include an explanation"@,
            ),
        ]
    } else {
        Seq::empty()
    }) + (if exists|j: int| 0 <= j < i && (#[trigger] s[j]).id == p.id {
        seq![
            plain_error(
                "XUNLIE-CERTIFICATE-DUPLICATE-PRECONDITION"@,
                "precondition `"@ + p.id + "` appears more than once"@,
            ),
        ]
    } else {
        Seq::empty()
    }) + (if p.status != PreconditionStatus::Passed {
        seq![
            plain_error(
                "XUNLIE-CERTIFICATE-FAILED-PRECONDITION"@,
                "precondition `"@ + p.id + "` failed and cannot appear in a certificate"@,
            ),
        ]
    } else {
        Seq::empty()
    })
}

pub open spec fn precondition_problems(s: Seq<PreconditionView>, n: int) -> Seq<DiagnosticSpec>
    decreases n,
{
    if n <= 0 {
        Seq::empty()
    } else {
        precondition_problems(s, n - 1) + precondition_problems_at(s, n - 1)
    }
}

/// The proof record, the equivalence of the two sides, and the change of
/// history and of provenance.
pub open spec fn side_problems(c: CertificateView) -> Seq<DiagnosticSpec> {
    (if c.proof.method != RECOMPILE_PROOF_METHOD@ || c.proof.result != EquivalenceProofResult::Equivalent {
        seq![
            plain_error(
                "XUNLIE-CERTIFICATE-PROOF"@,
                "proof must record `"@ + RECOMPILE_PROOF_METHOD@ + "` with an equivalent result"@,
            ),
        ]
    } else {
        Seq::empty()
    }) + (if c.before.content_digest != c.after.content_digest {
        seq![
            plain_error(
                "XUNLIE-CERTIFICATE-NOT-EQUIVALENT"@,
                "before content digest `"@ + c.before.content_digest + "` differs from after `"@
                    + c.after.content_digest + "`"@,
            ),
        ]
    } else {
        Seq::empty()
    }) + (if c.before.history_digest == c.after.history_digest {
        seq![
            plain_error(
                "XUNLIE-CERTIFICATE-UNCHANGED-HISTORY"@,
                "a variant must change the exact history representation"@,
            ),
        ]
    } else {
        Seq::empty()
    }) + (if c.before.artifact_digest == c.after.artifact_digest {
        seq![
            plain_error(
                "XUNLIE-CERTIFICATE-UNCHANGED-ARTIFACT"@,
                "a changed source history must change ContractIR provenance"@,
            ),
        ]
    } else {
        Seq::empty()
    })
}

/// A certificate digest that does not match its evidence.
pub open spec fn digest_problem(c: CertificateView) -> Seq<DiagnosticSpec> {
    let expected = certificate_digest_of(c);
    if c.certificate_digest != expected {
        seq![
            plain_error(
                "XUNLIE-CERTIFICATE-DIGEST-MISMATCH"@,
                "certificate digest is `"@ + c.certificate_digest
                    + "` but canonical evidence hashes to `"@ + expected + "`"@,
            ),
        ]
    } else {
        Seq::empty()
    }
}

/// The proof record, the equivalence of the two sides, the change of history
/// and of provenance, and the certificate digest.
pub open spec fn evidence_problems(c: CertificateView) -> Seq<DiagnosticSpec> {
    side_problems(c) + digest_problem(c)
}

/// Every problem of a certificate, in the order they are reported.
pub open spec fn certificate_problems(c: CertificateView) -> Seq<DiagnosticSpec> {
    header_problems(c) + precondition_problems(c.preconditions, c.preconditions.len() as int)
        + evidence_problems(c)
}

/// The certificate that `EquivalenceCertificate::new` assembles.
pub open spec fn new_certificate(
    producer: ProducerView,
    operator: OperatorView,
    preconditions: Seq<PreconditionView>,
    before: HistoryDigestsView,
    after: HistoryDigestsView,
) -> CertificateView {
    let unsigned = CertificateView {
        schema_version: EQUIVALENCE_CERTIFICATE_SCHEMA_VERSION@,
        producer,
        created_at: None,
        operator,
        preconditions,
        before,
        after,
        proof: ProofView { method: RECOMPILE_PROOF_METHOD@, result: EquivalenceProofResult::Equivalent },
        certificate_digest: Seq::empty(),
    };
    CertificateView { certificate_digest: certificate_digest_of(unsigned), ..unsigned }
}

// ---------------------------------------------------------------------------
// The certificate
// ---------------------------------------------------------------------------

/// Deterministic, self-validating certificate for one history variant.
#[derive(Debug, PartialEq, Eq)]
pub struct EquivalenceCertificate {
    schema_version: String,
    producer: Producer,
    created_at: Option<String>,
    operator: VariantOperatorIdentity,
    preconditions: Vec<PreconditionEvaluation>,
    before: CertifiedHistory,
    after: CertifiedHistory,
    proof: EquivalenceProof,
    certificate_digest: Sha256Digest,
}

impl View for EquivalenceCertificate {
    type V = CertificateView;

    closed spec fn view(&self) -> CertificateView {
        CertificateView {
            schema_version: self.schema_version@,
            producer: self.producer@,
            created_at: opt_view(self.created_at),
            operator: self.operator@,
            preconditions: evaluations_view(self.preconditions@),
            before: self.before@,
            after: self.after@,
            proof: self.proof@,
            certificate_digest: self.certificate_digest@,
        }
    }
}

fn clone_evaluations(v: &Vec<PreconditionEvaluation>) -> (r: Vec<PreconditionEvaluation>)
    ensures
        r@ == v@,
{
    let mut out: Vec<PreconditionEvaluation> = Vec::new();
    let mut i: usize = 0;
    while i < v.len()
        invariant
            i <= v@.len(),
            out@ == v@.take(i as int),
        decreases v@.len() - i,
    {
        out.push(v[i].clone());
        assert(v@.take(i + 1) =~= v@.take(i as int).push(v@[i as int]));
        i = i + 1;
    }
    assert(v@.take(v@.len() as int) =~= v@);
    out
}

impl Clone for EquivalenceCertificate {
    fn clone(&self) -> (r: Self)
        ensures
            r@ == self@,
    {
        EquivalenceCertificate {
            schema_version: self.schema_version.clone(),
            producer: self.producer.clone(),
            created_at: match &self.created_at {
                Some(t) => Some(t.clone()),
                None => None,
            },
            operator: self.operator.clone(),
            preconditions: clone_evaluations(&self.preconditions),
            before: self.before.clone(),
            after: self.after.clone(),
            proof: self.proof.clone(),
            certificate_digest: self.certificate_digest.clone(),
        }
    }
}

impl EquivalenceCertificate {
    fn write_fields(&self, out: &mut String)
        ensures
            final(out)@ == old(out)@ + certificate_fields_json(self@),
    {
        out.append("{\"schemaVersion\":");
        write_str(out, self.schema_version.as_str());
        out.append(",\"producer\":");
        write_producer(out, &self.producer);
        write_created_at(out, &self.created_at);
        out.append(",\"operator\":");
        write_operator(out, &self.operator);
        out.append(",\"preconditions\":");
        write_preconditions(out, &self.preconditions);
        out.append(",\"before\":");
        write_history(out, &self.before);
        out.append(",\"after\":");
        write_history(out, &self.after);
        out.append(",\"proof\":");
        write_proof(out, &self.proof);
    }

    /// The digest of this certificate's evidence, recomputed.
    fn evidence_digest(&self) -> (r: Sha256Digest)
        ensures
            r@ == certificate_digest_of(self@),
    {
        let mut out = String::new();
        self.write_fields(&mut out);
        out.append("}");
        digest_text(&out)
    }

    /// Returns compact deterministic JSON for persistence and golden vectors.
    pub fn canonical_json(&self) -> (r: String)
        ensures
            r@ == certificate_json(self@),
    {
        let mut out = String::new();
        self.write_fields(&mut out);
        out.append(",\"contentDigest\":");
        write_str(&mut out, self.certificate_digest.as_str());
        out.append("}");
        out
    }

    /// Reassembles a certificate from its persisted fields, without any check.
    pub fn from_parts(
        schema_version: String,
        producer: Producer,
        created_at: Option<String>,
        operator: VariantOperatorIdentity,
        preconditions: Vec<PreconditionEvaluation>,
        before: CertifiedHistory,
        after: CertifiedHistory,
        proof: EquivalenceProof,
        certificate_digest: Sha256Digest,
    ) -> (r: Self)
        ensures
            r@ == (CertificateView {
                schema_version: schema_version@,
                producer: producer@,
                created_at: opt_view(created_at),
                operator: operator@,
                preconditions: evaluations_view(preconditions@),
                before: before@,
                after: after@,
                proof: proof@,
                certificate_digest: certificate_digest@,
            }),
    {
        EquivalenceCertificate {
            schema_version,
            producer,
            created_at,
            operator,
            preconditions,
            before,
            after,
            proof,
            certificate_digest,
        }
    }

    /// Returns the operator that produced the variant.
    pub fn operator(&self) -> (r: &VariantOperatorIdentity)
        ensures
            r@ == self@.operator,
    {
        &self.operator
    }

    /// Returns all precondition evidence in evaluation order.
    pub fn preconditions(&self) -> (r: &Vec<PreconditionEvaluation>)
        ensures
            evaluations_view(r@) == self@.preconditions,
    {
        &self.preconditions
    }

    /// Returns the digests bound to the baseline history.
    pub fn before(&self) -> (r: &CertifiedHistory)
        ensures
            r@ == self@.before,
    {
        &self.before
    }

    /// Returns the digests bound to the transformed history.
    pub fn after(&self) -> (r: &CertifiedHistory)
        ensures
            r@ == self@.after,
    {
        &self.after
    }

    /// Returns the digest over all certificate fields except itself.
    pub fn certificate_digest(&self) -> (r: &Sha256Digest)
        ensures
            r@ == self@.certificate_digest,
    {
        &self.certificate_digest
    }

    /// Returns the proof procedure and result.
    pub fn equivalence_proof(&self) -> (r: &EquivalenceProof)
        ensures
            r@ == self@.proof,
    {
        &self.proof
    }

    /// Returns the schema identifier.
    pub fn schema_version(&self) -> (r: &str)
        ensures
            r@ == self@.schema_version,
    {
        self.schema_version.as_str()
    }

    /// Returns the producer identity.
    pub fn producer(&self) -> (r: &Producer)
        ensures
            r@ == self@.producer,
    {
        &self.producer
    }

    /// Returns the caller-supplied timestamp, if any.
    pub fn created_at(&self) -> (r: Option<&str>)
        ensures
            r matches Some(t) ==> self@.created_at == Some(t@),
            r is None ==> self@.created_at is None,
    {
        match &self.created_at {
            Some(t) => Some(t.as_str()),
            None => None,
        }
    }
}

impl EquivalenceCertificate {
    fn check_header(&self, ds: &mut Vec<Diagnostic>)
        requires
            old(ds)@.len() == 0,
        ensures
            diagnostics_are(final(ds)@, header_problems(self@)),
    {
        let ghost c = self@;
        let ghost e = Seq::<DiagnosticSpec>::empty();
        let schema_message = concat5(
            "unsupported certificate schema `",
            self.schema_version.as_str(),
            "`; expected `",
            EQUIVALENCE_CERTIFICATE_SCHEMA_VERSION,
            "`",
        );
        let wrong_schema = !(self.schema_version == String::from_str(
            EQUIVALENCE_CERTIFICATE_SCHEMA_VERSION,
        ));
        let ghost s0 = plain_error(
            "XUNLIE-CERTIFICATE-SCHEMA"@,
            "unsupported certificate schema `"@ + c.schema_version + "`; expected `"@
                + EQUIVALENCE_CERTIFICATE_SCHEMA_VERSION@ + "`"@,
        );
        assert(diagnostics_are(ds@, e));
        push_if(
            ds,
            wrong_schema,
            Diagnostic::error("XUNLIE-CERTIFICATE-SCHEMA", schema_message.as_str()),
            Ghost(e),
            Ghost(s0),
        );
        let ghost a1 = e + if wrong_schema {
            seq![s0]
        } else {
            Seq::<DiagnosticSpec>::empty()
        };
        let blank_producer = str_is_blank(self.producer.name.as_str()) || str_is_blank(
            self.producer.version.as_str(),
        );
        let ghost s1 = plain_error(
            "XUNLIE-CERTIFICATE-PRODUCER"@,
            "certificate producer name and version must not be empty"@,
        );
        push_if(
            ds,
            blank_producer,
            Diagnostic::error(
                "XUNLIE-CERTIFICATE-PRODUCER",
                "certificate producer name and version must not be empty",
            ),
            Ghost(a1),
            Ghost(s1),
        );
        let ghost a2 = a1 + if blank_producer {
            seq![s1]
        } else {
            Seq::<DiagnosticSpec>::empty()
        };
        let blank_operator = str_is_blank(self.operator.id.as_str()) || str_is_blank(
            self.operator.version.as_str(),
        );
        let ghost s2 = plain_error(
            "XUNLIE-CERTIFICATE-OPERATOR"@,
            "operator id and version must not be empty"@,
        );
        push_if(
            ds,
            blank_operator,
            Diagnostic::error(
                "XUNLIE-CERTIFICATE-OPERATOR",
                "operator id and version must not be empty",
            ),
            Ghost(a2),
            Ghost(s2),
        );
        let ghost a3 = a2 + if blank_operator {
            seq![s2]
        } else {
            Seq::<DiagnosticSpec>::empty()
        };
        let no_evidence = self.preconditions.len() == 0;
        let ghost s3 = plain_error(
            "XUNLIE-CERTIFICATE-NO-PRECONDITIONS"@,
            "a certificate must contain executable precondition evidence"@,
        );
        push_if(
            ds,
            no_evidence,
            Diagnostic::error(
                "XUNLIE-CERTIFICATE-NO-PRECONDITIONS",
                "a certificate must contain executable precondition evidence",
            ),
            Ghost(a3),
            Ghost(s3),
        );
        assert(a3 + (if no_evidence {
            seq![s3]
        } else {
            Seq::<DiagnosticSpec>::empty()
        }) =~= header_problems(c));
    }

    fn check_sides(&self, ds: &mut Vec<Diagnostic>, Ghost(base): Ghost<Seq<DiagnosticSpec>>)
        requires
            diagnostics_are(old(ds)@, base),
        ensures
            diagnostics_are(final(ds)@, base + side_problems(self@)),
    {
        let ghost c = self@;
        let bad_proof = !(self.proof.method == String::from_str(RECOMPILE_PROOF_METHOD)) || match self.proof.result {
            EquivalenceProofResult::Equivalent => false,
        };
        let ghost s0 = plain_error(
            "XUNLIE-CERTIFICATE-PROOF"@,
            "proof must record `"@ + RECOMPILE_PROOF_METHOD@ + "` with an equivalent result"@,
        );
        let proof_message = concat3(
            "proof must record `",
            RECOMPILE_PROOF_METHOD,
            "` with an equivalent result",
        );
        push_if(
            ds,
            bad_proof,
            Diagnostic::error("XUNLIE-CERTIFICATE-PROOF", proof_message.as_str()),
            Ghost(base),
            Ghost(s0),
        );
        let ghost a1 = base + if bad_proof {
            seq![s0]
        } else {
            Seq::<DiagnosticSpec>::empty()
        };
        let differs = !self.before.content_digest.same_as(&self.after.content_digest);
        let ghost s1 = plain_error(
            "XUNLIE-CERTIFICATE-NOT-EQUIVALENT"@,
            "before content digest `"@ + c.before.content_digest + "` differs from after `"@
                + c.after.content_digest + "`"@,
        );
        let differs_message = concat5(
            "before content digest `",
            self.before.content_digest.as_str(),
            "` differs from after `",
            self.after.content_digest.as_str(),
            "`",
        );
        push_if(
            ds,
            differs,
            Diagnostic::error("XUNLIE-CERTIFICATE-NOT-EQUIVALENT", differs_message.as_str()),
            Ghost(a1),
            Ghost(s1),
        );
        let ghost a2 = a1 + if differs {
            seq![s1]
        } else {
            Seq::<DiagnosticSpec>::empty()
        };
        let same_history = self.before.history_digest.same_as(&self.after.history_digest);
        let ghost s2 = plain_error(
            "XUNLIE-CERTIFICATE-UNCHANGED-HISTORY"@,
            "a variant must change the exact history representation"@,
        );
        push_if(
            ds,
            same_history,
            Diagnostic::error(
                "XUNLIE-CERTIFICATE-UNCHANGED-HISTORY",
                "a variant must change the exact history representation",
            ),
            Ghost(a2),
            Ghost(s2),
        );
        let ghost a3 = a2 + if same_history {
            seq![s2]
        } else {
            Seq::<DiagnosticSpec>::empty()
        };
        let same_artifact = self.before.artifact_digest.same_as(&self.after.artifact_digest);
        let ghost s3 = plain_error(
            "XUNLIE-CERTIFICATE-UNCHANGED-ARTIFACT"@,
            "a changed source history must change ContractIR provenance"@,
        );
        push_if(
            ds,
            same_artifact,
            Diagnostic::error(
                "XUNLIE-CERTIFICATE-UNCHANGED-ARTIFACT",
                "a changed source history must change ContractIR provenance",
            ),
            Ghost(a3),
            Ghost(s3),
        );
        let ghost a4 = a3 + if same_artifact {
            seq![s3]
        } else {
            Seq::<DiagnosticSpec>::empty()
        };
        assert(a4 =~= base + side_problems(c));
    }

    fn check_digest(&self, ds: &mut Vec<Diagnostic>, Ghost(base): Ghost<Seq<DiagnosticSpec>>)
        requires
            diagnostics_are(old(ds)@, base),
        ensures
            diagnostics_are(final(ds)@, base + digest_problem(self@)),
    {
        let ghost c = self@;
        let expected = self.evidence_digest();
        let mismatch = !self.certificate_digest.same_as(&expected);
        let ghost s4 = plain_error(
            "XUNLIE-CERTIFICATE-DIGEST-MISMATCH"@,
            "certificate digest is `"@ + c.certificate_digest
                + "` but canonical evidence hashes to `"@ + expected@ + "`"@,
        );
        let mismatch_message = concat5(
            "certificate digest is `",
            self.certificate_digest.as_str(),
            "` but canonical evidence hashes to `",
            expected.as_str(),
            "`",
        );
        push_if(
            ds,
            mismatch,
            Diagnostic::error("XUNLIE-CERTIFICATE-DIGEST-MISMATCH", mismatch_message.as_str()),
            Ghost(base),
            Ghost(s4),
        );
        assert(base + (if mismatch {
            seq![s4]
        } else {
            Seq::<DiagnosticSpec>::empty()
        }) =~= base + digest_problem(c));
    }

    fn check_evidence(&self, ds: &mut Vec<Diagnostic>, Ghost(base): Ghost<Seq<DiagnosticSpec>>)
        requires
            diagnostics_are(old(ds)@, base),
        ensures
            diagnostics_are(final(ds)@, base + evidence_problems(self@)),
    {
        self.check_sides(ds, Ghost(base));
        self.check_digest(ds, Ghost(base + side_problems(self@)));
        assert(base + side_problems(self@) + digest_problem(self@) =~= base + evidence_problems(self@));
    }

    /// Validates the schema, proof evidence, equivalence, and certificate digest.
    pub fn validate(&self) -> (r: Result<(), Vec<Diagnostic>>)
        ensures
            r is Ok <==> certificate_problems(self@).len() == 0,
            r matches Err(ds) ==> diagnostics_are(ds@, certificate_problems(self@)),
    {
        let ghost c = self@;
        let mut ds: Vec<Diagnostic> = Vec::new();
        self.check_header(&mut ds);
        check_preconditions(&self.preconditions, &mut ds, Ghost(header_problems(c)));
        let ghost acc = header_problems(c) + precondition_problems(
            c.preconditions,
            c.preconditions.len() as int,
        );
        self.check_evidence(&mut ds, Ghost(acc));
        assert(acc + evidence_problems(c) =~= certificate_problems(c));
        if ds.len() == 0 {
            Ok(())
        } else {
            Err(ds)
        }
    }

    /// Creates a certificate after all preconditions and equivalence checks ran.
    pub fn new(
        producer: Producer,
        operator: VariantOperatorIdentity,
        preconditions: Vec<PreconditionEvaluation>,
        before: CertifiedHistory,
        after: CertifiedHistory,
    ) -> (r: Result<Self, Vec<Diagnostic>>)
        ensures
            ({
                let c = new_certificate(
                    producer@,
                    operator@,
                    evaluations_view(preconditions@),
                    before@,
                    after@,
                );
                &&& r is Ok <==> certificate_problems(c).len() == 0
                &&& r matches Ok(cert) ==> cert@ == c
                &&& r matches Err(ds) ==> diagnostics_are(ds@, certificate_problems(c))
            }),
    {
        let unsigned = EquivalenceCertificate {
            schema_version: String::from_str(EQUIVALENCE_CERTIFICATE_SCHEMA_VERSION),
            producer,
            created_at: None,
            operator,
            preconditions,
            before,
            after,
            proof: EquivalenceProof {
                method: String::from_str(RECOMPILE_PROOF_METHOD),
                result: EquivalenceProofResult::Equivalent,
            },
            certificate_digest: Sha256Digest::of_bytes(&[]),
        };
        let digest = unsigned.evidence_digest();
        proof {
            assert(certificate_payload_json(unsigned@) == certificate_payload_json(
                CertificateView { certificate_digest: Seq::empty(), ..unsigned@ },
            ));
        }
        let certificate = EquivalenceCertificate { certificate_digest: digest, ..unsigned };
        assert(certificate@ == new_certificate(
            certificate@.producer,
            certificate@.operator,
            certificate@.preconditions,
            certificate@.before,
            certificate@.after,
        ));
        match certificate.validate() {
            Ok(()) => Ok(certificate),
            Err(ds) => Err(ds),
        }
    }
}

fn check_preconditions(
    s: &Vec<PreconditionEvaluation>,
    ds: &mut Vec<Diagnostic>,
    Ghost(base): Ghost<Seq<DiagnosticSpec>>,
)
    requires
        diagnostics_are(old(ds)@, base),
    ensures
        diagnostics_are(
            final(ds)@,
            base + precondition_problems(evaluations_view(s@), s@.len() as int),
        ),
{
    let ghost v = evaluations_view(s@);
    let mut i: usize = 0;
    assert(base + precondition_problems(v, 0) =~= base);
    while i < s.len()
        invariant
            i <= s@.len(),
            v == evaluations_view(s@),
            diagnostics_are(ds@, base + precondition_problems(v, i as int)),
        decreases s@.len() - i,
    {
        let ghost pre = base + precondition_problems(v, i as int);
        let ghost p = v[i as int];
        let e = &s[i];
        assert(p == e@);
        let blank_id = str_is_blank(e.id.as_str());
        let ghost s0 = plain_error(
            "XUNLIE-CERTIFICATE-PRECONDITION-ID"@,
            "precondition id must not be empty"@,
        );
        push_if(
            ds,
            blank_id,
            Diagnostic::error(
                "XUNLIE-CERTIFICATE-PRECONDITION-ID",
                "precondition id must not be empty",
            ),
            Ghost(pre),
            Ghost(s0),
        );
        let ghost a1 = pre + if blank_id {
            seq![s0]
        } else {
            Seq::<DiagnosticSpec>::empty()
        };
        let blank_explanation = str_is_blank(e.explanation.as_str());
        let ghost s1 = plain_error(
            "XUNLIE-CERTIFICATE-PRECONDITION-EXPLANATION"@,
            "precondition `"@ + p.id + "` must include an explanation"@,
        );
        let m1 = concat3("precondition `", e.id.as_str(), "` must include an explanation");
        push_if(
            ds,
            blank_explanation,
            Diagnostic::error("XUNLIE-CERTIFICATE-PRECONDITION-EXPLANATION", m1.as_str()),
            Ghost(a1),
            Ghost(s1),
        );
        let ghost a2 = a1 + if blank_explanation {
            seq![s1]
        } else {
            Seq::<DiagnosticSpec>::empty()
        };
        let mut seen = false;
        let mut j: usize = 0;
        while j < i
            invariant
                j <= i < s@.len(),
                v == evaluations_view(s@),
                seen == exists|k: int| 0 <= k < j && (#[trigger] v[k]).id == v[i as int].id,
            decreases i - j,
        {
            assert(v[j as int] == s@[j as int]@ && v[i as int] == s@[i as int]@);
            if s[j].id == s[i].id {
                seen = true;
            }
            j = j + 1;
        }
        let ghost s2 = plain_error(
            "XUNLIE-CERTIFICATE-DUPLICATE-PRECONDITION"@,
            "precondition `"@ + p.id + "` appears more than once"@,
        );
        let m2 = concat3("precondition `", e.id.as_str(), "` appears more than once");
        push_if(
            ds,
            seen,
            Diagnostic::error("XUNLIE-CERTIFICATE-DUPLICATE-PRECONDITION", m2.as_str()),
            Ghost(a2),
            Ghost(s2),
        );
        let ghost a3 = a2 + if seen {
            seq![s2]
        } else {
            Seq::<DiagnosticSpec>::empty()
        };
        let failed = !e.is_passed();
        let ghost s3 = plain_error(
            "XUNLIE-CERTIFICATE-FAILED-PRECONDITION"@,
            "precondition `"@ + p.id + "` failed and cannot appear in a certificate"@,
        );
        let m3 = concat3(
            "precondition `",
            e.id.as_str(),
            "` failed and cannot appear in a certificate",
        );
        push_if(
            ds,
            failed,
            Diagnostic::error("XUNLIE-CERTIFICATE-FAILED-PRECONDITION", m3.as_str()),
            Ghost(a3),
            Ghost(s3),
        );
        assert(a3 + (if failed {
            seq![s3]
        } else {
            Seq::<DiagnosticSpec>::empty()
        }) =~= pre + precondition_problems_at(v, i as int));
        assert(base + precondition_problems(v, i + 1) =~= pre + precondition_problems_at(
            v,
            i as int,
        ));
        i = i + 1;
    }
}

fn same_evaluations(a: &Vec<PreconditionEvaluation>, b: &Vec<PreconditionEvaluation>) -> (r: bool)
    ensures
        r == (evaluations_view(a@) == evaluations_view(b@)),
{
    if a.len() != b.len() {
        assert(evaluations_view(a@).len() != evaluations_view(b@).len());
        return false;
    }
    let mut i: usize = 0;
    while i < a.len()
        invariant
            i <= a@.len(),
            a@.len() == b@.len(),
            forall|j: int| 0 <= j < i ==> #[trigger] evaluations_view(a@)[j] == evaluations_view(
                b@,
            )[j],
        decreases a@.len() - i,
    {
        if !(a[i].id == b[i].id && a[i].status == b[i].status && a[i].explanation
            == b[i].explanation) {
            assert(evaluations_view(a@)[i as int] != evaluations_view(b@)[i as int]);
            return false;
        }
        assert(evaluations_view(a@)[i as int] == evaluations_view(b@)[i as int]);
        i = i + 1;
    }
    assert(evaluations_view(a@) =~= evaluations_view(b@));
    true
}

fn same_history(a: &CertifiedHistory, b: &CertifiedHistory) -> (r: bool)
    ensures
        r == (a@ == b@),
{
    a.history_digest.same_as(&b.history_digest) && a.content_digest.same_as(&b.content_digest)
        && a.artifact_digest.same_as(&b.artifact_digest)
}

impl EquivalenceCertificate {
    /// Whether two certificates have the same content.
    pub fn same_as(&self, other: &Self) -> (r: bool)
        ensures
            r == (self@ == other@),
    {
        let same_created = match (&self.created_at, &other.created_at) {
            (Some(a), Some(b)) => *a == *b,
            (None, None) => true,
            _ => false,
        };
        self.schema_version == other.schema_version && self.producer.name == other.producer.name
            && self.producer.version == other.producer.version && same_created
            && self.operator.same_as(&other.operator) && same_evaluations(
            &self.preconditions,
            &other.preconditions,
        ) && same_history(&self.before, &other.before) && same_history(&self.after, &other.after)
            && self.proof.method == other.proof.method && self.proof.result == other.proof.result
            && self.certificate_digest.same_as(&other.certificate_digest)
    }
}

} // verus!
