//! Generation and verification with operators given as values: what a
//! generation with a built-in operator struct is, that a deterministic
//! operator generates one outcome, and when verification with it succeeds.
use vstd::prelude::*;

use crate::certificate::{
    certificate_problems, evaluations_view, PreconditionEvaluation, PreconditionStatus,
    PreconditionView, VariantOperatorIdentity, OperatorView,
};
use crate::cli::builtin_generation;
use crate::engine::{docs_view, sort_docs, DocView, SourceDocument};
use crate::laws::{law_certified_variants_are_equivalent, law_generated_variants_replay, lemma_builtin_ids_found};
use crate::operators::{
    builtin_evaluations, builtin_identity, builtin_operator_for, builtin_transform,
    BuiltinOperator, JsonNormalizationOperator, ReverseIndependentAddsOperator, VariantOperator,
};
use crate::validity::law_certificate_validity;
use crate::variant::{
    answered, any_failed, compile_default, generated_by, lemma_excluded_ignores_transform,
    spec_check_variant, spec_generate, spec_verify, transformed_view, ErrorSpec, GenerationView,
    VariantView, JSON_NORMALIZATION_OPERATOR_ID, REVERSE_INDEPENDENT_ADDS_OPERATOR_ID,
};

verus! {

/// Generation with an operator whose every possible answer on the baseline
/// in canonical order is known is the generation that those answers give.
pub proof fn lemma_generation_by_answers<O: VariantOperator>(
    operator: &O,
    docs: Seq<DocView>,
    g: Result<GenerationView, ErrorSpec>,
    identity: OperatorView,
    evaluations: Seq<PreconditionView>,
    transformed: Result<Seq<DocView>, Seq<char>>,
)
    requires
        generated_by(operator, docs, g),
        forall|i: VariantOperatorIdentity|
            #[trigger] call_ensures(O::identity, (operator,), i) ==> i@ == identity,
        forall|s: &[SourceDocument], e: Vec<PreconditionEvaluation>|
            docs_view(s@) == sort_docs(docs) && #[trigger] call_ensures(O::evaluate, (operator, s), e)
                ==> evaluations_view(e@) == evaluations,
        forall|s: &[SourceDocument], t: Result<Vec<SourceDocument>, String>|
            docs_view(s@) == sort_docs(docs) && #[trigger] call_ensures(O::transform, (operator, s), t)
                ==> transformed_view(t) == transformed,
    ensures
        g == spec_generate(docs, identity, evaluations, transformed),
{
    match compile_default(sort_docs(docs)) {
        Err(ds) => {},
        Ok(baseline) => {
            let (i0, e0, t0) = choose|
                i0: OperatorView,
                e0: Seq<PreconditionView>,
                t0: Result<Seq<DocView>, Seq<char>>,
            | answered(operator, docs, i0, e0, t0) && g == spec_generate(docs, i0, e0, t0);
            let (s, i, e, t) = choose|
                s: &[SourceDocument],
                i: VariantOperatorIdentity,
                e: Vec<PreconditionEvaluation>,
                t: Result<Vec<SourceDocument>, String>,
            |
                {
                    &&& docs_view(s@) == sort_docs(docs)
                    &&& call_ensures(O::identity, (operator,), i) && i@ == i0
                    &&& call_ensures(O::evaluate, (operator, s), e) && evaluations_view(e@) == e0
                    &&& !any_failed(e0) ==> call_ensures(O::transform, (operator, s), t)
                        && transformed_view(t) == t0
                };
            assert(i0 == identity);
            assert(e0 == evaluations);
            if any_failed(e0) {
                lemma_excluded_ignores_transform(
                    sort_docs(docs),
                    baseline,
                    identity,
                    evaluations,
                    t0,
                    transformed,
                );
            } else {
                assert(t0 == transformed);
            }
        },
    }
}

/// Generation with the JSON-normalization operator struct is the built-in
/// normalization generation, the one `generate_builtin_variant` gives for its id.
pub proof fn lemma_normalization_generation(docs: Seq<DocView>, g: Result<GenerationView, ErrorSpec>)
    requires
        generated_by(&JsonNormalizationOperator, docs, g),
    ensures
        ({
            let op = BuiltinOperator::JsonNormalization(JsonNormalizationOperator);
            &&& g == spec_generate(
                docs,
                builtin_identity(op),
                builtin_evaluations(op, sort_docs(docs)),
                builtin_transform(op, sort_docs(docs)),
            )
            &&& g == builtin_generation(docs, JSON_NORMALIZATION_OPERATOR_ID@)
        }),
{
    let op = BuiltinOperator::JsonNormalization(JsonNormalizationOperator);
    let sorted = sort_docs(docs);
    assert forall|s: &[SourceDocument], t: Result<Vec<SourceDocument>, String>|
        docs_view(s@) == sorted && #[trigger] call_ensures(
            JsonNormalizationOperator::transform,
            (&JsonNormalizationOperator, s),
            t,
        ) implies transformed_view(t) == builtin_transform(op, sorted) by {
        assert(docs_view(s@).len() == s@.len());
    }
    lemma_generation_by_answers(
        &JsonNormalizationOperator,
        docs,
        g,
        builtin_identity(op),
        builtin_evaluations(op, sorted),
        builtin_transform(op, sorted),
    );
    lemma_builtin_ids_found(op);
}

/// Generation with the independent-adds reversal struct is the built-in
/// reversal generation, the one `generate_builtin_variant` gives for its id.
pub proof fn lemma_reversal_generation(docs: Seq<DocView>, g: Result<GenerationView, ErrorSpec>)
    requires
        generated_by(&ReverseIndependentAddsOperator, docs, g),
    ensures
        ({
            let op = BuiltinOperator::ReverseIndependentAdds(ReverseIndependentAddsOperator);
            &&& g == spec_generate(
                docs,
                builtin_identity(op),
                builtin_evaluations(op, sort_docs(docs)),
                builtin_transform(op, sort_docs(docs)),
            )
            &&& g == builtin_generation(docs, REVERSE_INDEPENDENT_ADDS_OPERATOR_ID@)
        }),
{
    let op = BuiltinOperator::ReverseIndependentAdds(ReverseIndependentAddsOperator);
    let sorted = sort_docs(docs);
    lemma_generation_by_answers(
        &ReverseIndependentAddsOperator,
        docs,
        g,
        builtin_identity(op),
        builtin_evaluations(op, sorted),
        builtin_transform(op, sorted),
    );
    lemma_builtin_ids_found(op);
}

/// A variant generated with a built-in operator struct verifies against the
/// baseline it was generated from with the built-in operator its certificate
/// names, as `verify_certified_variant` does.
pub proof fn law_struct_variants_replay(docs: Seq<DocView>, op: BuiltinOperator, g: Result<GenerationView, ErrorSpec>)
    requires
        match op {
            BuiltinOperator::JsonNormalization(o) => generated_by(&o, docs, g),
            BuiltinOperator::ReverseIndependentAdds(o) => generated_by(&o, docs, g),
        },
    ensures
        g matches Ok(GenerationView::Certified(v)) ==> {
            &&& builtin_operator_for(v.certificate.operator.id) == Some(op)
            &&& spec_verify(v, builtin_identity(op), g) is Ok
        },
{
    match op {
        BuiltinOperator::JsonNormalization(o) => {
            assert(o == JsonNormalizationOperator);
            lemma_normalization_generation(docs, g);
        },
        BuiltinOperator::ReverseIndependentAdds(o) => {
            assert(o == ReverseIndependentAddsOperator);
            lemma_reversal_generation(docs, g);
        },
    }
    law_generated_variants_replay(docs, op);
}

/// An operator whose answers depend only on the documents it is shown: the
/// same identity every time, and the same evaluations and transformation for
/// documents with the same content.
pub open spec fn deterministic<O: VariantOperator>(operator: &O) -> bool {
    &&& forall|i: VariantOperatorIdentity, j: VariantOperatorIdentity|
        #![trigger call_ensures(O::identity, (operator,), i), call_ensures(O::identity, (operator,), j)]
        call_ensures(O::identity, (operator,), i) && call_ensures(O::identity, (operator,), j) ==> i@
            == j@
    &&& forall|
        s1: &[SourceDocument],
        s2: &[SourceDocument],
        e1: Vec<PreconditionEvaluation>,
        e2: Vec<PreconditionEvaluation>,
    |
        #![trigger call_ensures(O::evaluate, (operator, s1), e1), call_ensures(O::evaluate, (operator, s2), e2)]
        docs_view(s1@) == docs_view(s2@) && call_ensures(O::evaluate, (operator, s1), e1)
            && call_ensures(O::evaluate, (operator, s2), e2) ==> evaluations_view(e1@)
            == evaluations_view(e2@)
    &&& forall|
        s1: &[SourceDocument],
        s2: &[SourceDocument],
        t1: Result<Vec<SourceDocument>, String>,
        t2: Result<Vec<SourceDocument>, String>,
    |
        #![trigger call_ensures(O::transform, (operator, s1), t1), call_ensures(O::transform, (operator, s2), t2)]
        docs_view(s1@) == docs_view(s2@) && call_ensures(O::transform, (operator, s1), t1)
            && call_ensures(O::transform, (operator, s2), t2) ==> transformed_view(t1)
            == transformed_view(t2)
}

/// A deterministic operator generates one outcome from a baseline: any two
/// generations with it agree.
pub proof fn law_deterministic_generation<O: VariantOperator>(
    operator: &O,
    docs: Seq<DocView>,
    g1: Result<GenerationView, ErrorSpec>,
    g2: Result<GenerationView, ErrorSpec>,
)
    requires
        deterministic(operator),
        generated_by(operator, docs, g1),
        generated_by(operator, docs, g2),
    ensures
        g1 == g2,
{
    match compile_default(sort_docs(docs)) {
        Err(ds) => {},
        Ok(baseline) => {
            let (i0, e0, t0) = choose|
                i0: OperatorView,
                e0: Seq<PreconditionView>,
                t0: Result<Seq<DocView>, Seq<char>>,
            | answered(operator, docs, i0, e0, t0) && g1 == spec_generate(docs, i0, e0, t0);
            let (s, i, e, t) = choose|
                s: &[SourceDocument],
                i: VariantOperatorIdentity,
                e: Vec<PreconditionEvaluation>,
                t: Result<Vec<SourceDocument>, String>,
            |
                {
                    &&& docs_view(s@) == sort_docs(docs)
                    &&& call_ensures(O::identity, (operator,), i) && i@ == i0
                    &&& call_ensures(O::evaluate, (operator, s), e) && evaluations_view(e@) == e0
                    &&& !any_failed(e0) ==> call_ensures(O::transform, (operator, s), t)
                        && transformed_view(t) == t0
                };
            assert forall|i2: VariantOperatorIdentity|
                #[trigger] call_ensures(O::identity, (operator,), i2) implies i2@ == i0 by {}
            assert forall|s2: &[SourceDocument], e2: Vec<PreconditionEvaluation>|
                docs_view(s2@) == sort_docs(docs) && #[trigger] call_ensures(
                    O::evaluate,
                    (operator, s2),
                    e2,
                ) implies evaluations_view(e2@) == e0 by {}
            if any_failed(e0) {
                let (j0, f0, u0) = choose|
                    j0: OperatorView,
                    f0: Seq<PreconditionView>,
                    u0: Result<Seq<DocView>, Seq<char>>,
                | answered(operator, docs, j0, f0, u0) && g2 == spec_generate(docs, j0, f0, u0);
                let (s2, i2, e2, t2) = choose|
                    s2: &[SourceDocument],
                    i2: VariantOperatorIdentity,
                    e2: Vec<PreconditionEvaluation>,
                    t2: Result<Vec<SourceDocument>, String>,
                |
                    {
                        &&& docs_view(s2@) == sort_docs(docs)
                        &&& call_ensures(O::identity, (operator,), i2) && i2@ == j0
                        &&& call_ensures(O::evaluate, (operator, s2), e2) && evaluations_view(e2@)
                            == f0
                        &&& !any_failed(f0) ==> call_ensures(O::transform, (operator, s2), t2)
                            && transformed_view(t2) == u0
                    };
                assert(j0 == i0 && f0 == e0);
                lemma_excluded_ignores_transform(sort_docs(docs), baseline, i0, e0, t0, u0);
            } else {
                assert forall|s2: &[SourceDocument], t2: Result<Vec<SourceDocument>, String>|
                    docs_view(s2@) == sort_docs(docs) && #[trigger] call_ensures(
                        O::transform,
                        (operator, s2),
                        t2,
                    ) implies transformed_view(t2) == t0 by {}
                lemma_generation_by_answers(operator, docs, g2, i0, e0, t0);
            }
        },
    }
}

/// Verification with a deterministic operator succeeds exactly when the
/// artifact passes its own checks, names the operator's identity, and a
/// generation with the operator from the baseline reproduces it. `i` and `g`
/// are the identity and replay that the verifier obtained (as its contract
/// states them); `j` and `h` are those of any other call and generation.
pub proof fn law_verification_with_deterministic_operator<O: VariantOperator>(
    operator: &O,
    docs: Seq<DocView>,
    artifact: VariantView,
    i: VariantOperatorIdentity,
    g: Result<GenerationView, ErrorSpec>,
    j: VariantOperatorIdentity,
    h: Result<GenerationView, ErrorSpec>,
)
    requires
        deterministic(operator),
        call_ensures(O::identity, (operator,), i),
        artifact.certificate.operator == i@ ==> generated_by(operator, docs, g),
        call_ensures(O::identity, (operator,), j),
        generated_by(operator, docs, h),
    ensures
        spec_verify(artifact, i@, g) is Ok <==> {
            &&& spec_check_variant(artifact) is Ok
            &&& artifact.certificate.operator == j@
            &&& h == Ok::<GenerationView, ErrorSpec>(GenerationView::Certified(artifact))
        },
{
    assert(i@ == j@);
    if artifact.certificate.operator == i@ {
        law_deterministic_generation(operator, docs, g, h);
    }
    lemma_verify_succeeds(artifact, i@, g);
}

/// When verification against a given identity and replay succeeds.
proof fn lemma_verify_succeeds(
    artifact: VariantView,
    identity: OperatorView,
    g: Result<GenerationView, ErrorSpec>,
)
    ensures
        spec_verify(artifact, identity, g) is Ok <==> {
            &&& spec_check_variant(artifact) is Ok
            &&& artifact.certificate.operator == identity
            &&& g == Ok::<GenerationView, ErrorSpec>(GenerationView::Certified(artifact))
        },
{
}

/// A certified variant names the operator's identity and changes the
/// baseline's history in canonical order.
proof fn lemma_certified_names_and_changes(
    docs: Seq<DocView>,
    identity: OperatorView,
    evaluations: Seq<PreconditionView>,
    transformed: Result<Seq<DocView>, Seq<char>>,
)
    ensures
        spec_generate(docs, identity, evaluations, transformed) matches Ok(
            GenerationView::Certified(v),
        ) ==> v.certificate.operator == identity && v.sources != sort_docs(docs),
{
    if let Ok(baseline) = compile_default(sort_docs(docs)) {
        assert(spec_generate(docs, identity, evaluations, transformed) == crate::variant::spec_certify(
            sort_docs(docs),
            baseline,
            identity,
            evaluations,
            transformed,
        ));
    }
}

/// What holds of a variant certified for given operator answers.
pub open spec fn certified_for(docs: Seq<DocView>, identity: OperatorView, v: VariantView) -> bool {
    &&& certificate_problems(v.certificate).len() == 0
    &&& v.certificate.operator == identity
    &&& forall|k: int|
        0 <= k < v.certificate.preconditions.len() ==> (
        #[trigger] v.certificate.preconditions[k]).status == PreconditionStatus::Passed
    &&& v.sources != sort_docs(docs)
    &&& spec_check_variant(v) is Ok
    &&& compile_default(sort_docs(docs)) matches Ok(b) && b.content_digest
        == v.certificate.before.content_digest
    &&& compile_default(v.sources) matches Ok(c) && c.content_digest
        == v.certificate.after.content_digest
    &&& v.certificate.before.content_digest == v.certificate.after.content_digest
}

proof fn lemma_certified_for(
    docs: Seq<DocView>,
    identity: OperatorView,
    evaluations: Seq<PreconditionView>,
    transformed: Result<Seq<DocView>, Seq<char>>,
)
    ensures
        spec_generate(docs, identity, evaluations, transformed) matches Ok(
            GenerationView::Certified(v),
        ) ==> certified_for(docs, identity, v),
{
    if let Ok(GenerationView::Certified(v)) = spec_generate(docs, identity, evaluations, transformed) {
        law_certified_variants_are_equivalent(docs, identity, evaluations, transformed);
        law_certificate_validity(v.certificate);
        lemma_certified_names_and_changes(docs, identity, evaluations, transformed);
    }
}

/// Whatever an operator returned, a variant certified with it: carries a
/// valid certificate naming the operator's identity, all of whose
/// preconditions passed; its history differs from the baseline in canonical
/// order; the baseline and the variant's history both compile, to the
/// certified content digest; and the variant passes its own checks.
#[verifier::rlimit(50)]
pub proof fn law_operator_variants_are_equivalent<O: VariantOperator>(
    operator: &O,
    docs: Seq<DocView>,
    g: Result<GenerationView, ErrorSpec>,
)
    requires
        generated_by(operator, docs, g),
    ensures
        g matches Ok(GenerationView::Certified(v)) ==> exists|i: VariantOperatorIdentity|
            #[trigger] call_ensures(O::identity, (operator,), i) && certified_for(docs, i@, v),
{
    if let Ok(GenerationView::Certified(v)) = g {
        if compile_default(sort_docs(docs)) is Ok {
            let (i0, e0, t0) = choose|
                i0: OperatorView,
                e0: Seq<PreconditionView>,
                t0: Result<Seq<DocView>, Seq<char>>,
            | answered(operator, docs, i0, e0, t0) && g == spec_generate(docs, i0, e0, t0);
            let (s, i, e, t) = choose|
                s: &[SourceDocument],
                i: VariantOperatorIdentity,
                e: Vec<PreconditionEvaluation>,
                t: Result<Vec<SourceDocument>, String>,
            |
                {
                    &&& docs_view(s@) == sort_docs(docs)
                    &&& call_ensures(O::identity, (operator,), i) && i@ == i0
                    &&& call_ensures(O::evaluate, (operator, s), e) && evaluations_view(e@) == e0
                    &&& !any_failed(e0) ==> call_ensures(O::transform, (operator, s), t)
                        && transformed_view(t) == t0
                };
            lemma_certified_for(docs, i0, e0, t0);
            assert(call_ensures(O::identity, (operator,), i) && certified_for(docs, i@, v));
        }
    }
}

} // verus!
