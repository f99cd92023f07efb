//! What a valid contract is, stated directly rather than as an empty list of
//! problems.
use vstd::prelude::*;

use crate::contract::{
    artifact_digest_of, contract_problems, digest_problems, empty_sources_problems,
    order_problems, producer_problems, record_lt, requirement_problems,
    requirement_problems_at, schema_problems, semantic_digest, source_problems,
    source_problems_at, ContractView, CONTRACT_SCHEMA_VERSION,
};
use crate::certificate::{
    certificate_digest_of, certificate_problems, digest_problem, header_problems,
    precondition_problems, precondition_problems_at, side_problems, CertificateView,
    EquivalenceProofResult, PreconditionStatus, PreconditionView,
    EQUIVALENCE_CERTIFICATE_SCHEMA_VERSION, RECOMPILE_PROOF_METHOD,
};
use crate::ir::{requirement_problem, RecordView, RequirementView};
use crate::text::is_blank;

verus! {

/// No two of the first `n` sources share an identity or a position.
pub open spec fn sources_distinct(s: Seq<RecordView>, n: int) -> bool {
    forall|i: int, j: int|
        0 <= i < j < n ==> (#[trigger] s[i]).identity != (#[trigger] s[j]).identity && s[i].position
            != s[j].position
}

/// Every one of the first `n` entries is keyed by its own id and is a valid requirement.
pub open spec fn requirements_valid(m: Seq<(Seq<char>, RequirementView)>, n: int) -> bool {
    forall|i: int|
        0 <= i < n ==> (#[trigger] m[i]).0 == m[i].1.id && requirement_problem(m[i].1) is None
}

/// A well-formed contract: the supported schema, a named producer, at least
/// one source, no source identity or position twice, sources in canonical
/// order, every requirement valid and keyed by its id, and both digests those
/// of its content.
pub open spec fn well_formed_contract(c: ContractView) -> bool {
    &&& c.schema_version == CONTRACT_SCHEMA_VERSION@
    &&& !is_blank(c.producer.name) && !is_blank(c.producer.version)
    &&& c.sources.len() > 0
    &&& sources_distinct(c.sources, c.sources.len() as int)
    &&& forall|i: int|
        0 <= i < c.sources.len() - 1 ==> !record_lt(c.sources[i + 1], #[trigger] c.sources[i])
    &&& requirements_valid(c.requirements, c.requirements.len() as int)
    &&& c.content_digest == semantic_digest(c.resolution_policy, c.requirements)
    &&& c.artifact_digest == artifact_digest_of(
        c.schema_version,
        c.producer,
        c.created_at,
        c.content_digest,
        c.sources,
        c.resolution_policy,
        c.requirements,
    )
}

proof fn lemma_source_problems(s: Seq<RecordView>, n: int)
    requires
        0 <= n <= s.len(),
    ensures
        source_problems(s, n).len() == 0 <==> sources_distinct(s, n),
    decreases n,
{
    if n > 0 {
        lemma_source_problems(s, n - 1);
        let at = source_problems_at(s, n - 1);
        if sources_distinct(s, n) {
            assert(!exists|j: int| 0 <= j < n - 1 && (#[trigger] s[j]).identity == s[n - 1].identity);
            assert(!exists|j: int| 0 <= j < n - 1 && (#[trigger] s[j]).position == s[n - 1].position);
            assert(at.len() == 0);
            assert(sources_distinct(s, n - 1));
        }
        if source_problems(s, n).len() == 0 {
            assert(source_problems(s, n - 1).len() == 0);
            assert(at.len() == 0);
            assert forall|i: int, j: int| 0 <= i < j < n implies (#[trigger] s[i]).identity != (
            #[trigger] s[j]).identity && s[i].position != s[j].position by {
                if j == n - 1 {
                    if s[i].identity == s[j].identity {
                        assert(exists|k: int| 0 <= k < n - 1 && (#[trigger] s[k]).identity
                            == s[n - 1].identity);
                    }
                    if s[i].position == s[j].position {
                        assert(exists|k: int| 0 <= k < n - 1 && (#[trigger] s[k]).position
                            == s[n - 1].position);
                    }
                }
            }
        }
    }
}

proof fn lemma_requirement_problems(m: Seq<(Seq<char>, RequirementView)>, n: int)
    requires
        0 <= n <= m.len(),
    ensures
        requirement_problems(m, n).len() == 0 <==> requirements_valid(m, n),
    decreases n,
{
    if n > 0 {
        lemma_requirement_problems(m, n - 1);
        let at = requirement_problems_at(m, n - 1);
        assert(at.len() == 0 <==> (m[n - 1].0 == m[n - 1].1.id && requirement_problem(m[n - 1].1) is None));
        if requirement_problems(m, n).len() == 0 {
            assert(requirement_problems(m, n - 1).len() == 0);
        }
    }
}

/// A contract validates exactly when it is well formed.
pub proof fn law_contract_validity(c: ContractView)
    ensures
        contract_problems(c).len() == 0 <==> well_formed_contract(c),
{
    lemma_source_problems(c.sources, c.sources.len() as int);
    lemma_requirement_problems(c.requirements, c.requirements.len() as int);
    let s = c.sources;
    let d = digest_problems(c);
    assert(order_problems(s).len() == 0 <==> forall|i: int|
        0 <= i < s.len() - 1 ==> !record_lt(s[i + 1], #[trigger] s[i]));
    assert(d.len() == 0 <==> (c.content_digest == semantic_digest(c.resolution_policy, c.requirements)
        && c.artifact_digest == artifact_digest_of(
        c.schema_version,
        c.producer,
        c.created_at,
        c.content_digest,
        c.sources,
        c.resolution_policy,
        c.requirements,
    )));
    assert(contract_problems(c).len() == schema_problems(c).len() + producer_problems(c).len()
        + empty_sources_problems(c).len() + source_problems(s, s.len() as int).len()
        + order_problems(s).len() + requirement_problems(c.requirements, c.requirements.len() as int).len()
        + d.len());
}

/// Positions strictly increase along sources that are distinct and in canonical order.
proof fn lemma_positions_increase(s: Seq<RecordView>, i: int, j: int)
    requires
        sources_distinct(s, s.len() as int),
        forall|k: int| 0 <= k < s.len() - 1 ==> !record_lt(s[k + 1], #[trigger] s[k]),
        0 <= i < j < s.len(),
    ensures
        s[i].position < s[j].position,
    decreases j - i,
{
    assert(!record_lt(s[j], s[j - 1]));
    assert(s[j - 1].position != s[j].position);
    if i < j - 1 {
        lemma_positions_increase(s, i, j - 1);
    }
}

/// The sources of a valid contract are not empty, have distinct identities,
/// and are strictly ordered by position.
pub proof fn law_valid_contract_sources(c: ContractView)
    requires
        contract_problems(c).len() == 0,
    ensures
        c.sources.len() > 0,
        forall|i: int, j: int|
            0 <= i < j < c.sources.len() ==> (#[trigger] c.sources[i]).position < (
            #[trigger] c.sources[j]).position && c.sources[i].identity != c.sources[j].identity,
{
    law_contract_validity(c);
    assert forall|i: int, j: int| 0 <= i < j < c.sources.len() implies (
    #[trigger] c.sources[i]).position < (#[trigger] c.sources[j]).position
        && c.sources[i].identity != c.sources[j].identity by {
        lemma_positions_increase(c.sources, i, j);
    }
}

/// Each of the first `n` evaluations has an id and an explanation, passed,
/// and no id occurs twice.
pub open spec fn preconditions_valid(s: Seq<PreconditionView>, n: int) -> bool {
    &&& forall|i: int|
        0 <= i < n ==> !is_blank((#[trigger] s[i]).id) && !is_blank(s[i].explanation) && s[i].status
            == PreconditionStatus::Passed
    &&& forall|i: int, j: int| 0 <= i < j < n ==> (#[trigger] s[i]).id != (#[trigger] s[j]).id
}

/// A well-formed certificate: the supported schema, a named producer and
/// operator, at least one precondition and all of them valid, a recompilation
/// proof of equivalence, equal content on both sides with changed history and
/// provenance, and the digest of its own evidence.
pub open spec fn well_formed_certificate(c: CertificateView) -> bool {
    &&& c.schema_version == EQUIVALENCE_CERTIFICATE_SCHEMA_VERSION@
    &&& !is_blank(c.producer.name) && !is_blank(c.producer.version)
    &&& !is_blank(c.operator.id) && !is_blank(c.operator.version)
    &&& c.preconditions.len() > 0
    &&& preconditions_valid(c.preconditions, c.preconditions.len() as int)
    &&& c.proof.method == RECOMPILE_PROOF_METHOD@
    &&& c.proof.result == EquivalenceProofResult::Equivalent
    &&& c.before.content_digest == c.after.content_digest
    &&& c.before.history_digest != c.after.history_digest
    &&& c.before.artifact_digest != c.after.artifact_digest
    &&& c.certificate_digest == certificate_digest_of(c)
}

proof fn lemma_precondition_problems(s: Seq<PreconditionView>, n: int)
    requires
        0 <= n <= s.len(),
    ensures
        precondition_problems(s, n).len() == 0 <==> preconditions_valid(s, n),
    decreases n,
{
    if n > 0 {
        lemma_precondition_problems(s, n - 1);
        let at = precondition_problems_at(s, n - 1);
        if preconditions_valid(s, n) {
            assert(!is_blank(s[n - 1].id));
            assert(!exists|j: int| 0 <= j < n - 1 && (#[trigger] s[j]).id == s[n - 1].id);
            assert(at.len() == 0);
            assert(preconditions_valid(s, n - 1));
        }
        if precondition_problems(s, n).len() == 0 {
            assert(precondition_problems(s, n - 1).len() == 0);
            assert(at.len() == 0);
            assert forall|i: int, j: int| 0 <= i < j < n implies (#[trigger] s[i]).id != (
            #[trigger] s[j]).id by {
                if j == n - 1 && s[i].id == s[j].id {
                    assert(exists|k: int| 0 <= k < n - 1 && (#[trigger] s[k]).id == s[n - 1].id);
                }
            }
        }
    }
}

/// A certificate validates exactly when it is well formed.
pub proof fn law_certificate_validity(c: CertificateView)
    ensures
        certificate_problems(c).len() == 0 <==> well_formed_certificate(c),
{
    lemma_precondition_problems(c.preconditions, c.preconditions.len() as int);
    assert(certificate_problems(c).len() == header_problems(c).len() + precondition_problems(
        c.preconditions,
        c.preconditions.len() as int,
    ).len() + side_problems(c).len() + digest_problem(c).len());
}

} // verus!
