//! The canonical, versioned, self-validating contract artifact.
use vstd::prelude::*;
use vstd::string::StringSliceAdditionalSpecFns;
use vstd::utf8::encode_utf8;

use crate::canonical::{
    created_at_json, opt_view, policy_name, policy_text, producer_json, records_json,
    requirement_map_json, write_created_at, write_producer, write_records, write_requirement_map,
};
use crate::diagnostic::{diagnostics_are, push_diagnostic, Diagnostic, DiagnosticSpec};
use crate::digest::{digest_of, Sha256Digest};
use crate::ir::{
    record_location, records_view, requirement_problem, ContractMetadata, Producer, ProducerView,
    RecordView, RequirementMap, RequirementView, SourceRecord,
};
use crate::json::{json_str, write_str};
use crate::resolution::ResolutionPolicy;
use crate::text::{concat3, concat5, decimal, decimal_string, is_blank, seq_lt, str_is_blank, str_lt};

verus! {

/// Schema identifier for the first persisted contract representation.
pub const CONTRACT_SCHEMA_VERSION: &'static str = "xunlie.contract/v1";

/// The content of a contract artifact.
pub struct ContractView {
    pub schema_version: Seq<char>,
    pub producer: ProducerView,
    pub created_at: Option<Seq<char>>,
    pub content_digest: Seq<char>,
    pub artifact_digest: Seq<char>,
    pub sources: Seq<RecordView>,
    pub resolution_policy: ResolutionPolicy,
    pub requirements: Seq<(Seq<char>, RequirementView)>,
}

/// The semantic payload: schema, policy and requirements. Its digest is the content digest.
pub open spec fn semantic_json(p: ResolutionPolicy, m: Seq<(Seq<char>, RequirementView)>) -> Seq<char> {
    "{\"schemaVersion\":"@ + json_str(CONTRACT_SCHEMA_VERSION@) + ",\"resolutionPolicy\":"@
        + json_str(policy_name(p)) + ",\"requirements\":"@ + requirement_map_json(m) + "}"@
}

pub open spec fn semantic_digest(p: ResolutionPolicy, m: Seq<(Seq<char>, RequirementView)>) -> Seq<char> {
    digest_of(encode_utf8(semantic_json(p, m)))
}

/// The whole artifact except its artifact digest. Its digest is the artifact digest.
pub open spec fn artifact_json(
    schema: Seq<char>,
    producer: ProducerView,
    created_at: Option<Seq<char>>,
    content: Seq<char>,
    sources: Seq<RecordView>,
    p: ResolutionPolicy,
    m: Seq<(Seq<char>, RequirementView)>,
) -> Seq<char> {
    "{\"schemaVersion\":"@ + json_str(schema) + ",\"producer\":"@ + producer_json(producer)
        + created_at_json(created_at) + ",\"contentDigest\":"@ + json_str(content)
        + ",\"sources\":"@ + records_json(sources) + ",\"resolutionPolicy\":"@ + json_str(
        policy_name(p),
    ) + ",\"requirements\":"@ + requirement_map_json(m) + "}"@
}

pub open spec fn artifact_digest_of(
    schema: Seq<char>,
    producer: ProducerView,
    created_at: Option<Seq<char>>,
    content: Seq<char>,
    sources: Seq<RecordView>,
    p: ResolutionPolicy,
    m: Seq<(Seq<char>, RequirementView)>,
) -> Seq<char> {
    digest_of(encode_utf8(artifact_json(schema, producer, created_at, content, sources, p, m)))
}

/// The complete persisted artifact.
pub open spec fn contract_json(c: ContractView) -> Seq<char> {
    "{\"schemaVersion\":"@ + json_str(c.schema_version) + ",\"producer\":"@ + producer_json(
        c.producer,
    ) + created_at_json(c.created_at) + ",\"contentDigest\":"@ + json_str(c.content_digest)
        + ",\"artifactDigest\":"@ + json_str(c.artifact_digest) + ",\"sources\":"@ + records_json(
        c.sources,
    ) + ",\"resolutionPolicy\":"@ + json_str(policy_name(c.resolution_policy))
        + ",\"requirements\":"@ + requirement_map_json(c.requirements) + "}"@
}

// ---------------------------------------------------------------------------
// Validation rules
// ---------------------------------------------------------------------------

pub open spec fn plain(code: Seq<char>, message: Seq<char>) -> DiagnosticSpec {
    DiagnosticSpec { code, message, primary: None, related: Seq::empty() }
}

pub open spec fn schema_problems(c: ContractView) -> Seq<DiagnosticSpec> {
    if c.schema_version != CONTRACT_SCHEMA_VERSION@ {
        seq![
            plain(
                "XUNLIE-CONTRACT-SCHEMA"@,
                "unsupported ContractIR schema `"@ + c.schema_version + "`; expected `"@
                    + CONTRACT_SCHEMA_VERSION@ + "`"@,
            ),
        ]
    } else {
        Seq::empty()
    }
}

pub open spec fn producer_problems(c: ContractView) -> Seq<DiagnosticSpec> {
    if is_blank(c.producer.name) || is_blank(c.producer.version) {
        seq![plain("XUNLIE-CONTRACT-PRODUCER"@, "producer name and version must not be empty"@)]
    } else {
        Seq::empty()
    }
}

pub open spec fn empty_sources_problems(c: ContractView) -> Seq<DiagnosticSpec> {
    if c.sources.len() == 0 {
        seq![
            plain(
                "XUNLIE-CONTRACT-NO-SOURCES"@,
                "ContractIR must retain at least one source record"@,
            ),
        ]
    } else {
        Seq::empty()
    }
}

/// The problems that source `i` raises: an identity or a position seen before.
pub open spec fn source_problems_at(s: Seq<RecordView>, i: int) -> Seq<DiagnosticSpec> {
    (if exists|j: int| 0 <= j < i && (#[trigger] s[j]).identity == s[i].identity {
        seq![
            DiagnosticSpec {
                code: "XUNLIE-SOURCE-DUPLICATE-IDENTITY"@,
                message: "source identity `"@ + s[i].identity + "` appears more than once"@,
                primary: Some(record_location(s[i], 0)),
                related: Seq::empty(),
            },
        ]
    } else {
        Seq::empty()
    }) + (if exists|j: int| 0 <= j < i && (#[trigger] s[j]).position == s[i].position {
        seq![
            DiagnosticSpec {
                code: "XUNLIE-SOURCE-DUPLICATE-POSITION"@,
                message: "source position "@ + decimal(s[i].position as nat)
                    + " appears more than once"@,
                primary: Some(record_location(s[i], 0)),
                related: Seq::empty(),
            },
        ]
    } else {
        Seq::empty()
    })
}

pub open spec fn source_problems(s: Seq<RecordView>, n: int) -> Seq<DiagnosticSpec>
    decreases n,
{
    if n <= 0 {
        Seq::empty()
    } else {
        source_problems(s, n - 1) + source_problems_at(s, n - 1)
    }
}

/// The canonical source order: by position, then by identity.
pub open spec fn record_lt(a: RecordView, b: RecordView) -> bool {
    a.position < b.position || (a.position == b.position && seq_lt(a.identity, b.identity))
}

pub open spec fn order_problems(s: Seq<RecordView>) -> Seq<DiagnosticSpec> {
    if exists|i: int| 0 <= i < s.len() - 1 && record_lt(s[i + 1], #[trigger] s[i]) {
        seq![
            plain(
                "XUNLIE-SOURCE-NONCANONICAL-ORDER"@,
                "sources must be ordered by position and then identity"@,
            ),
        ]
    } else {
        Seq::empty()
    }
}

/// The problems of requirement entry `i`: a key that differs from the
/// embedded id, then the requirement's own problem.
pub open spec fn requirement_problems_at(m: Seq<(Seq<char>, RequirementView)>, i: int) -> Seq<
    DiagnosticSpec,
> {
    (if m[i].0 != m[i].1.id {
        seq![
            plain(
                "XUNLIE-CONTRACT-KEY-MISMATCH"@,
                "requirement map key `"@ + m[i].0 + "` does not match embedded id `"@ + m[i].1.id
                    + "`"@,
            ),
        ]
    } else {
        Seq::empty()
    }) + match requirement_problem(m[i].1) {
        Some(p) => seq![plain(p.0, p.1)],
        None => Seq::empty(),
    }
}

pub open spec fn requirement_problems(m: Seq<(Seq<char>, RequirementView)>, n: int) -> Seq<
    DiagnosticSpec,
>
    decreases n,
{
    if n <= 0 {
        Seq::empty()
    } else {
        requirement_problems(m, n - 1) + requirement_problems_at(m, n - 1)
    }
}

pub open spec fn digest_problems(c: ContractView) -> Seq<DiagnosticSpec> {
    let expected_content = semantic_digest(c.resolution_policy, c.requirements);
    let expected_artifact = artifact_digest_of(
        c.schema_version,
        c.producer,
        c.created_at,
        c.content_digest,
        c.sources,
        c.resolution_policy,
        c.requirements,
    );
    (if c.content_digest != expected_content {
        seq![
            plain(
                "XUNLIE-CONTRACT-DIGEST-MISMATCH"@,
                "content digest is `"@ + c.content_digest + "` but canonical content hashes to `"@
                    + expected_content + "`"@,
            ),
        ]
    } else {
        Seq::empty()
    }) + (if c.artifact_digest != expected_artifact {
        seq![
            plain(
                "XUNLIE-CONTRACT-ARTIFACT-DIGEST-MISMATCH"@,
                "artifact digest is `"@ + c.artifact_digest
                    + "` but canonical artifact hashes to `"@ + expected_artifact + "`"@,
            ),
        ]
    } else {
        Seq::empty()
    })
}

/// Every problem of a contract artifact, in the order they are reported.
pub open spec fn contract_problems(c: ContractView) -> Seq<DiagnosticSpec> {
    schema_problems(c) + producer_problems(c) + empty_sources_problems(c) + source_problems(
        c.sources,
        c.sources.len() as int,
    ) + order_problems(c.sources) + requirement_problems(
        c.requirements,
        c.requirements.len() as int,
    ) + digest_problems(c)
}

// ---------------------------------------------------------------------------
// Source ordering
// ---------------------------------------------------------------------------

/// Inserts a record after every record that does not follow it (a stable insertion).
pub open spec fn insert_record(t: Seq<RecordView>, x: RecordView) -> Seq<RecordView>
    decreases t.len(),
{
    if t.len() == 0 {
        seq![x]
    } else if record_lt(x, t.last()) {
        insert_record(t.drop_last(), x).push(t.last())
    } else {
        t.push(x)
    }
}

/// The records stably sorted by position, then identity.
pub open spec fn sort_records(s: Seq<RecordView>) -> Seq<RecordView>
    decreases s.len(),
{
    if s.len() == 0 {
        Seq::empty()
    } else {
        insert_record(sort_records(s.drop_last()), s.last())
    }
}

fn record_less(a: &SourceRecord, b: &SourceRecord) -> (r: bool)
    ensures
        r == record_lt(a@, b@),
{
    a.position < b.position || (a.position == b.position && str_lt(
        a.identity.as_str(),
        b.identity.as_str(),
    ))
}

fn insert_record_exec(t: &mut Vec<SourceRecord>, x: SourceRecord)
    ensures
        records_view(final(t)@) == insert_record(records_view(old(t)@), x@),
    decreases old(t)@.len(),
{
    let ghost before = t@;
    if t.len() == 0 {
        t.push(x);
        assert(records_view(t@) =~= seq![x@]);
        return;
    }
    if record_less(&x, &t[t.len() - 1]) {
        let last = t.pop().unwrap();
        assert(t@ == before.drop_last());
        assert(records_view(t@) =~= records_view(before).drop_last());
        let ghost mid = t@;
        insert_record_exec(t, x);
        let ghost inner = t@;
        t.push(last);
        assert(records_view(t@) =~= records_view(inner).push(last@));
    } else {
        t.push(x);
        assert(records_view(t@) =~= records_view(before).push(x@));
    }
}

/// Sorts records by position, then identity, keeping the order of equal keys.
pub fn sort_source_records(s: Vec<SourceRecord>) -> (r: Vec<SourceRecord>)
    ensures
        records_view(r@) == sort_records(records_view(s@)),
{
    let mut input = s;
    let ghost original = records_view(input@);
    let mut out: Vec<SourceRecord> = Vec::new();
    let mut i: usize = 0;
    assert(original.skip(0) =~= original);
    assert(original.len() == input.len());
    assert(records_view(out@) =~= sort_records(original.take(0)));
    while input.len() > 0
        invariant
            input@.len() + i == original.len(),
            original.len() <= usize::MAX,
            records_view(input@) == original.skip(i as int),
            records_view(out@) == sort_records(original.take(i as int)),
        decreases input@.len(),
    {
        let ghost pre = input@;
        let x = input.remove(0);
        assert(x@ == records_view(pre)[0]);
        assert(x@ == original[i as int]);
        insert_record_exec(&mut out, x);
        assert(original.take(i + 1).drop_last() =~= original.take(i as int));
        assert(input@ =~= pre.skip(1));
        assert(records_view(input@) =~= records_view(pre).skip(1));
        assert(records_view(input@) =~= original.skip(i + 1));
        i = i + 1;
    }
    assert(original.take(original.len() as int) =~= original);
    out
}

// ---------------------------------------------------------------------------
// The artifact
// ---------------------------------------------------------------------------

/// The artifact that `ContractIr::new` assembles: sources in canonical order,
/// the content digest of the semantic payload and the artifact digest of the rest.
pub open spec fn new_contract(
    producer: ProducerView,
    created_at: Option<Seq<char>>,
    sources: Seq<RecordView>,
    resolution_policy: ResolutionPolicy,
    requirements: Seq<(Seq<char>, RequirementView)>,
) -> ContractView {
    let content = semantic_digest(resolution_policy, requirements);
    let sorted = sort_records(sources);
    ContractView {
        schema_version: CONTRACT_SCHEMA_VERSION@,
        producer,
        created_at,
        content_digest: content,
        artifact_digest: artifact_digest_of(
            CONTRACT_SCHEMA_VERSION@,
            producer,
            created_at,
            content,
            sorted,
            resolution_policy,
            requirements,
        ),
        sources: sorted,
        resolution_policy,
        requirements,
    }
}

/// Canonical, versioned representation of the effective contract.
#[derive(Debug, PartialEq, Eq)]
pub struct ContractIr {
    schema_version: String,
    producer: Producer,
    created_at: Option<String>,
    content_digest: Sha256Digest,
    artifact_digest: Sha256Digest,
    sources: Vec<SourceRecord>,
    resolution_policy: ResolutionPolicy,
    requirements: RequirementMap,
}

impl View for ContractIr {
    type V = ContractView;

    closed spec fn view(&self) -> ContractView {
        ContractView {
            schema_version: self.schema_version@,
            producer: self.producer@,
            created_at: opt_view(self.created_at),
            content_digest: self.content_digest@,
            artifact_digest: self.artifact_digest@,
            sources: records_view(self.sources@),
            resolution_policy: self.resolution_policy,
            requirements: self.requirements@,
        }
    }
}

/// Hashes the UTF-8 bytes of a text.
pub fn digest_text(s: &String) -> (r: Sha256Digest)
    ensures
        r@ == digest_of(encode_utf8(s@)),
{
    Sha256Digest::of_bytes(s.as_str().as_bytes())
}

/// The semantic payload of a contract.
pub fn semantic_text(p: ResolutionPolicy, m: &RequirementMap) -> (r: String)
    ensures
        r@ == semantic_json(p, m@),
{
    let mut out = String::new();
    out.append("{\"schemaVersion\":");
    write_str(&mut out, CONTRACT_SCHEMA_VERSION);
    out.append(",\"resolutionPolicy\":");
    write_str(&mut out, policy_text(p));
    out.append(",\"requirements\":");
    write_requirement_map(&mut out, m);
    out.append("}");
    out
}

/// The artifact payload of a contract (everything but the artifact digest).
pub fn artifact_text(
    schema: &str,
    producer: &Producer,
    created_at: &Option<String>,
    content: &Sha256Digest,
    sources: &Vec<SourceRecord>,
    p: ResolutionPolicy,
    m: &RequirementMap,
) -> (r: String)
    ensures
        r@ == artifact_json(
            schema@,
            producer@,
            opt_view(*created_at),
            content@,
            records_view(sources@),
            p,
            m@,
        ),
{
    let mut out = String::new();
    out.append("{\"schemaVersion\":");
    write_str(&mut out, schema);
    out.append(",\"producer\":");
    write_producer(&mut out, producer);
    write_created_at(&mut out, created_at);
    out.append(",\"contentDigest\":");
    write_str(&mut out, content.as_str());
    out.append(",\"sources\":");
    write_records(&mut out, sources);
    out.append(",\"resolutionPolicy\":");
    write_str(&mut out, policy_text(p));
    out.append(",\"requirements\":");
    write_requirement_map(&mut out, m);
    out.append("}");
    out
}

fn clone_created_at(c: &Option<String>) -> (r: Option<String>)
    ensures
        r == *c,
{
    match c {
        Some(t) => Some(t.clone()),
        None => None,
    }
}

impl ContractIr {
    /// Creates a validated IR and derives its digests from its content.
    ///
    /// Sources are put in canonical order (position, then identity); the
    /// content digest covers schema, policy and requirements; the artifact
    /// digest covers everything else too.
    pub fn new(
        metadata: ContractMetadata,
        sources: Vec<SourceRecord>,
        resolution_policy: ResolutionPolicy,
        requirements: RequirementMap,
    ) -> (r: Result<Self, Vec<Diagnostic>>)
        ensures
            ({
                let c = new_contract(
                    metadata.producer@,
                    opt_view(metadata.created_at),
                    records_view(sources@),
                    resolution_policy,
                    requirements@,
                );
                &&& r is Ok <==> contract_problems(c).len() == 0
                &&& r matches Ok(ir) ==> ir@ == c
                &&& r matches Err(ds) ==> diagnostics_are(ds@, contract_problems(c))
            }),
    {
        let sources = sort_source_records(sources);
        let content_digest = digest_text(&semantic_text(resolution_policy, &requirements));
        let schema_version = String::from_str(CONTRACT_SCHEMA_VERSION);
        let artifact_digest = digest_text(
            &artifact_text(
                CONTRACT_SCHEMA_VERSION,
                &metadata.producer,
                &metadata.created_at,
                &content_digest,
                &sources,
                resolution_policy,
                &requirements,
            ),
        );
        let contract = ContractIr {
            schema_version,
            producer: metadata.producer,
            created_at: metadata.created_at,
            content_digest,
            artifact_digest,
            sources,
            resolution_policy,
            requirements,
        };
        match contract.validate() {
            Ok(()) => Ok(contract),
            Err(ds) => Err(ds),
        }
    }

    /// Reassembles an artifact from its persisted fields, without any check.
    pub fn from_parts(
        schema_version: String,
        producer: Producer,
        created_at: Option<String>,
        content_digest: Sha256Digest,
        artifact_digest: Sha256Digest,
        sources: Vec<SourceRecord>,
        resolution_policy: ResolutionPolicy,
        requirements: RequirementMap,
    ) -> (r: Self)
        ensures
            r@ == (ContractView {
                schema_version: schema_version@,
                producer: producer@,
                created_at: opt_view(created_at),
                content_digest: content_digest@,
                artifact_digest: artifact_digest@,
                sources: records_view(sources@),
                resolution_policy,
                requirements: requirements@,
            }),
    {
        ContractIr {
            schema_version,
            producer,
            created_at,
            content_digest,
            artifact_digest,
            sources,
            resolution_policy,
            requirements,
        }
    }

    /// Validates schema identity, provenance, requirements, and both digests.
    pub fn validate(&self) -> (r: Result<(), Vec<Diagnostic>>)
        ensures
            r is Ok <==> contract_problems(self@).len() == 0,
            r matches Err(ds) ==> diagnostics_are(ds@, contract_problems(self@)),
    {
        let ghost c = self@;
        let mut ds: Vec<Diagnostic> = Vec::new();
        self.check_header(&mut ds);
        let ghost acc = schema_problems(c) + producer_problems(c) + empty_sources_problems(c);
        check_duplicate_sources(&self.sources, &mut ds, Ghost(acc));
        let ghost acc = acc + source_problems(c.sources, c.sources.len() as int);
        check_source_order(&self.sources, &mut ds, Ghost(acc));
        let ghost acc = acc + order_problems(c.sources);
        check_requirements(&self.requirements, &mut ds, Ghost(acc));
        let ghost acc = acc + requirement_problems(c.requirements, c.requirements.len() as int);
        self.check_digests(&mut ds, Ghost(acc));
        assert(acc + digest_problems(c) =~= contract_problems(c));
        if ds.len() == 0 {
            Ok(())
        } else {
            Err(ds)
        }
    }

    fn check_header(&self, ds: &mut Vec<Diagnostic>)
        requires
            old(ds)@.len() == 0,
        ensures
            diagnostics_are(
                final(ds)@,
                schema_problems(self@) + producer_problems(self@) + empty_sources_problems(self@),
            ),
    {
        let ghost c = self@;
        let ghost mut acc: Seq<DiagnosticSpec> = Seq::empty();
        if !(self.schema_version == String::from_str(CONTRACT_SCHEMA_VERSION)) {
            let message = concat5(
                "unsupported ContractIR schema `",
                self.schema_version.as_str(),
                "`; expected `",
                CONTRACT_SCHEMA_VERSION,
                "`",
            );
            push_diagnostic(
                ds,
                Diagnostic::error("XUNLIE-CONTRACT-SCHEMA", message.as_str()),
                Ghost(acc),
                Ghost(schema_problems(c)[0]),
            );
        }
        proof {
            acc = acc + schema_problems(c);
        }
        assert(diagnostics_are(ds@, acc));
        if str_is_blank(self.producer.name.as_str()) || str_is_blank(self.producer.version.as_str()) {
            push_diagnostic(
                ds,
                Diagnostic::error(
                    "XUNLIE-CONTRACT-PRODUCER",
                    "producer name and version must not be empty",
                ),
                Ghost(acc),
                Ghost(producer_problems(c)[0]),
            );
        }
        proof {
            acc = acc + producer_problems(c);
        }
        assert(diagnostics_are(ds@, acc));
        if self.sources.len() == 0 {
            push_diagnostic(
                ds,
                Diagnostic::error(
                    "XUNLIE-CONTRACT-NO-SOURCES",
                    "ContractIR must retain at least one source record",
                ),
                Ghost(acc),
                Ghost(empty_sources_problems(c)[0]),
            );
        }
        assert(diagnostics_are(ds@, acc + empty_sources_problems(c)));
    }

    fn check_digests(&self, ds: &mut Vec<Diagnostic>, Ghost(acc): Ghost<Seq<DiagnosticSpec>>)
        requires
            diagnostics_are(old(ds)@, acc),
        ensures
            diagnostics_are(final(ds)@, acc + digest_problems(self@)),
    {
        let ghost c = self@;
        let expected_content = digest_text(&semantic_text(self.resolution_policy, &self.requirements));
        let ghost dp = digest_problems(c);
        let ghost first_part = if c.content_digest != expected_content@ {
            seq![dp[0]]
        } else {
            Seq::<DiagnosticSpec>::empty()
        };
        if !self.content_digest.same_as(&expected_content) {
            let message = concat5(
                "content digest is `",
                self.content_digest.as_str(),
                "` but canonical content hashes to `",
                expected_content.as_str(),
                "`",
            );
            push_diagnostic(
                ds,
                Diagnostic::error("XUNLIE-CONTRACT-DIGEST-MISMATCH", message.as_str()),
                Ghost(acc),
                Ghost(dp[0]),
            );
            assert(acc.push(dp[0]) =~= acc + first_part);
        } else {
            assert(acc =~= acc + first_part);
        }
        let expected_artifact = digest_text(
            &artifact_text(
                self.schema_version.as_str(),
                &self.producer,
                &self.created_at,
                &self.content_digest,
                &self.sources,
                self.resolution_policy,
                &self.requirements,
            ),
        );
        if !self.artifact_digest.same_as(&expected_artifact) {
            let message = concat5(
                "artifact digest is `",
                self.artifact_digest.as_str(),
                "` but canonical artifact hashes to `",
                expected_artifact.as_str(),
                "`",
            );
            push_diagnostic(
                ds,
                Diagnostic::error("XUNLIE-CONTRACT-ARTIFACT-DIGEST-MISMATCH", message.as_str()),
                Ghost(acc + first_part),
                Ghost(dp.last()),
            );
            assert((acc + first_part).push(dp.last()) =~= acc + dp);
        } else {
            assert(acc + first_part =~= acc + dp);
        }
    }

    /// Returns compact canonical JSON for the complete persisted artifact.
    pub fn canonical_json(&self) -> (r: String)
        ensures
            r@ == contract_json(self@),
    {
        let mut out = String::new();
        out.append("{\"schemaVersion\":");
        write_str(&mut out, self.schema_version.as_str());
        out.append(",\"producer\":");
        write_producer(&mut out, &self.producer);
        write_created_at(&mut out, &self.created_at);
        out.append(",\"contentDigest\":");
        write_str(&mut out, self.content_digest.as_str());
        out.append(",\"artifactDigest\":");
        write_str(&mut out, self.artifact_digest.as_str());
        out.append(",\"sources\":");
        write_records(&mut out, &self.sources);
        out.append(",\"resolutionPolicy\":");
        write_str(&mut out, policy_text(self.resolution_policy));
        out.append(",\"requirements\":");
        write_requirement_map(&mut out, &self.requirements);
        out.append("}");
        out
    }

    /// Returns compact canonical JSON of the semantic payload used for hashing.
    pub fn semantic_canonical_json(&self) -> (r: String)
        ensures
            r@ == semantic_json(self@.resolution_policy, self@.requirements),
    {
        semantic_text(self.resolution_policy, &self.requirements)
    }

    /// Returns the canonical semantic content digest.
    pub fn content_digest(&self) -> (r: &Sha256Digest)
        ensures
            r@ == self@.content_digest,
    {
        &self.content_digest
    }

    /// Returns the digest over the full artifact except this digest field itself.
    pub fn artifact_digest(&self) -> (r: &Sha256Digest)
        ensures
            r@ == self@.artifact_digest,
    {
        &self.artifact_digest
    }

    /// Returns the effective requirements in stable identifier order.
    pub fn requirements(&self) -> (r: &RequirementMap)
        ensures
            r@ == self@.requirements,
    {
        &self.requirements
    }

    /// Returns provenance records in explicit source order.
    pub fn sources(&self) -> (r: &Vec<SourceRecord>)
        ensures
            records_view(r@) == self@.sources,
    {
        &self.sources
    }

    /// Returns the policy under which history was resolved.
    pub fn resolution_policy(&self) -> (r: ResolutionPolicy)
        ensures
            r == self@.resolution_policy,
    {
        self.resolution_policy
    }

    /// Returns the schema identifier.
    pub fn schema_version(&self) -> (r: &str)
        ensures
            r@ == self@.schema_version,
    {
        self.schema_version.as_str()
    }

    /// Returns the producer identity.
    pub fn producer(&self) -> (r: &Producer)
        ensures
            r@ == self@.producer,
    {
        &self.producer
    }

    /// Returns the caller-supplied timestamp, if any.
    pub fn created_at(&self) -> (r: Option<&str>)
        ensures
            r matches Some(t) ==> self@.created_at == Some(t@),
            r is None ==> self@.created_at is None,
    {
        match &self.created_at {
            Some(t) => Some(t.as_str()),
            None => None,
        }
    }
}

fn check_duplicate_sources(
    sources: &Vec<SourceRecord>,
    ds: &mut Vec<Diagnostic>,
    Ghost(base): Ghost<Seq<DiagnosticSpec>>,
)
    requires
        diagnostics_are(old(ds)@, base),
    ensures
        diagnostics_are(
            final(ds)@,
            base + source_problems(records_view(sources@), sources@.len() as int),
        ),
{
    let ghost s = records_view(sources@);
    let mut i: usize = 0;
    assert(base + source_problems(s, 0) =~= base);
    while i < sources.len()
        invariant
            i <= s.len(),
            s == records_view(sources@),
            diagnostics_are(ds@, base + source_problems(s, i as int)),
        decreases s.len() - i,
    {
        let ghost pre = base + source_problems(s, i as int);
        let mut seen_identity = false;
        let mut seen_position = false;
        let mut j: usize = 0;
        while j < i
            invariant
                j <= i < s.len(),
                s == records_view(sources@),
                seen_identity == exists|k: int|
                    0 <= k < j && (#[trigger] s[k]).identity == s[i as int].identity,
                seen_position == exists|k: int|
                    0 <= k < j && (#[trigger] s[k]).position == s[i as int].position,
            decreases i - j,
        {
            assert(s[j as int] == sources@[j as int]@ && s[i as int] == sources@[i as int]@);
            if sources[j].identity.same_as(&sources[i].identity) {
                seen_identity = true;
            }
            if sources[j].position == sources[i].position {
                seen_position = true;
            }
            j = j + 1;
        }
        let ghost first_part = if seen_identity {
            seq![source_problems_at(s, i as int)[0]]
        } else {
            Seq::<DiagnosticSpec>::empty()
        };
        if seen_identity {
            let message = concat3(
                "source identity `",
                sources[i].identity.as_str(),
                "` appears more than once",
            );
            let d = Diagnostic::error("XUNLIE-SOURCE-DUPLICATE-IDENTITY", message.as_str()).with_primary(
                sources[i].location(0),
            );
            push_diagnostic(ds, d, Ghost(pre), Ghost(source_problems_at(s, i as int)[0]));
            assert(pre.push(source_problems_at(s, i as int)[0]) =~= pre + first_part);
        } else {
            assert(pre =~= pre + first_part);
        }
        if seen_position {
            let text = decimal_string(sources[i].position);
            let message = concat3("source position ", text.as_str(), " appears more than once");
            let d = Diagnostic::error("XUNLIE-SOURCE-DUPLICATE-POSITION", message.as_str()).with_primary(
                sources[i].location(0),
            );
            let ghost last = source_problems_at(s, i as int).last();
            push_diagnostic(ds, d, Ghost(pre + first_part), Ghost(last));
            assert((pre + first_part).push(last) =~= pre + source_problems_at(s, i as int));
        } else {
            assert(pre + first_part =~= pre + source_problems_at(s, i as int));
        }
        assert(base + source_problems(s, i + 1) =~= pre + source_problems_at(s, i as int));
        i = i + 1;
    }
}

fn check_source_order(
    sources: &Vec<SourceRecord>,
    ds: &mut Vec<Diagnostic>,
    Ghost(base): Ghost<Seq<DiagnosticSpec>>,
)
    requires
        diagnostics_are(old(ds)@, base),
    ensures
        diagnostics_are(final(ds)@, base + order_problems(records_view(sources@))),
{
    let ghost s = records_view(sources@);
    let n = sources.len();
    let mut unordered = false;
    if n > 1 {
        let mut k: usize = 0;
        while k < n - 1
            invariant
                n == s.len(),
                n > 1,
                s == records_view(sources@),
                k <= n - 1,
                unordered == exists|m: int| 0 <= m < k && record_lt(s[m + 1], #[trigger] s[m]),
            decreases n - 1 - k,
        {
            assert(s[k as int] == sources@[k as int]@ && s[k + 1] == sources@[k + 1]@);
            if record_less(&sources[k + 1], &sources[k]) {
                unordered = true;
            }
            k = k + 1;
        }
    }
    if unordered {
        push_diagnostic(
            ds,
            Diagnostic::error(
                "XUNLIE-SOURCE-NONCANONICAL-ORDER",
                "sources must be ordered by position and then identity",
            ),
            Ghost(base),
            Ghost(order_problems(s)[0]),
        );
    } else {
        assert(base + order_problems(s) =~= base);
    }
}

fn check_requirements(
    requirements: &RequirementMap,
    ds: &mut Vec<Diagnostic>,
    Ghost(base): Ghost<Seq<DiagnosticSpec>>,
)
    requires
        diagnostics_are(old(ds)@, base),
    ensures
        diagnostics_are(
            final(ds)@,
            base + requirement_problems(requirements@, requirements@.len() as int),
        ),
{
    let entries = requirements.entries();
    let ghost m = requirements@;
    let mut i: usize = 0;
    assert(base + requirement_problems(m, 0) =~= base);
    while i < entries.len()
        invariant
            i <= entries@.len(),
            entries@.map_values(|e: (crate::ir::RequirementId, crate::ir::Requirement)| (e.0@, e.1@)) == m,
            diagnostics_are(ds@, base + requirement_problems(m, i as int)),
        decreases entries@.len() - i,
    {
        let ghost pre = base + requirement_problems(m, i as int);
        assert(m[i as int] == (entries@[i as int].0@, entries@[i as int].1@));
        let ghost first_part = if m[i as int].0 != m[i as int].1.id {
            seq![requirement_problems_at(m, i as int)[0]]
        } else {
            Seq::<DiagnosticSpec>::empty()
        };
        if !entries[i].0.same_as(entries[i].1.id()) {
            let message = concat5(
                "requirement map key `",
                entries[i].0.as_str(),
                "` does not match embedded id `",
                entries[i].1.id().as_str(),
                "`",
            );
            let d = Diagnostic::error("XUNLIE-CONTRACT-KEY-MISMATCH", message.as_str());
            push_diagnostic(ds, d, Ghost(pre), Ghost(requirement_problems_at(m, i as int)[0]));
            assert(pre.push(requirement_problems_at(m, i as int)[0]) =~= pre + first_part);
        } else {
            assert(pre =~= pre + first_part);
        }
        match entries[i].1.validate() {
            Err(d) => {
                let ghost last = requirement_problems_at(m, i as int).last();
                push_diagnostic(ds, *d, Ghost(pre + first_part), Ghost(last));
                assert((pre + first_part).push(last) =~= pre + requirement_problems_at(m, i as int));
            },
            Ok(()) => {
                assert(pre + first_part =~= pre + requirement_problems_at(m, i as int));
            },
        }
        assert(base + requirement_problems(m, i + 1) =~= pre + requirement_problems_at(m, i as int));
        i = i + 1;
    }
}

} // verus!
