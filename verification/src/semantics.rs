//! What the operations mean, stated over their inputs and results: the order
//! in which a history is applied, how requirement kinds and priorities are
//! read, what JSON normalization does to every document, and when adds are
//! independent enough to reverse.
use vstd::prelude::*;

use crate::canonical::{kind_name, priority_name};
use crate::certificate::PreconditionStatus;
use crate::decode::{
    decode_kind, decode_priority, decode_requirement, kind_from_name, member, priority_from_name,
};
use crate::engine::{sort_docs, DocView};
use crate::ir::{RequirementKind, RequirementPriority, RequirementView};
use crate::json::{json_compact, json_parse, JsonValue};
use crate::operators::{
    builtin_evaluations, builtin_identity, builtin_transform, first_envelope, normalize_docs,
    reverse_evaluations, BuiltinOperator, ReverseIndependentAddsOperator,
};
use crate::ordering::{apply_events, lemma_resolution_applies_sorted, sort_events};
use crate::resolution::{fold_events, precedence_order, EventView, OperationView};
use crate::variant::{any_failed, compile_default, spec_certify, spec_generate, GenerationView};

verus! {

// ---------------------------------------------------------------------------
// The order of application
// ---------------------------------------------------------------------------

/// Resolution applies a history's events one by one in lexicographic
/// (source position, operation position) order: the applied sequence holds
/// exactly the history's events, and every event of a source with a smaller
/// position comes before any event of a source with a larger one, the events
/// of one source in operation order.
pub proof fn law_events_apply_in_source_then_operation_order(evs: Seq<EventView>)
    requires
        evs.len() <= usize::MAX,
    ensures
        fold_events(evs, precedence_order(evs, evs.len())) == apply_events(sort_events(evs)),
        sort_events(evs).to_multiset() == evs.to_multiset(),
        forall|i: int, j: int|
            0 <= i < j < sort_events(evs).len() ==> {
                let p = (#[trigger] sort_events(evs)[i]).precedence;
                let q = (#[trigger] sort_events(evs)[j]).precedence;
                p.source_position < q.source_position || (p.source_position == q.source_position
                    && p.operation_position <= q.operation_position)
            },
{
    lemma_resolution_applies_sorted(evs);
    crate::ordering::lemma_sort_events_multiset(evs);
    crate::ordering::lemma_sort_events_sorted(evs);
}

// ---------------------------------------------------------------------------
// Requirement kinds and priorities
// ---------------------------------------------------------------------------

/// A priority is read from exactly its own lowercase name.
pub proof fn law_priority_names(s: Seq<char>)
    ensures
        priority_from_name(s) == Some(RequirementPriority::Must) <==> s == "must"@,
        priority_from_name(s) == Some(RequirementPriority::Should) <==> s == "should"@,
        priority_from_name(s) == Some(RequirementPriority::May) <==> s == "may"@,
        forall|p: RequirementPriority| priority_from_name(s) == Some(p) <==> s == #[trigger] priority_name(p),
{
    reveal_strlit("must");
    reveal_strlit("should");
    reveal_strlit("may");
    assert("must"@ != "should"@) by {
        assert("must"@.len() != "should"@.len());
    }
    assert("must"@ != "may"@) by {
        assert("must"@.len() != "may"@.len());
    }
    assert("should"@ != "may"@) by {
        assert("should"@.len() != "may"@.len());
    }
}

/// A kind is read from exactly its own lowercase name.
pub proof fn law_kind_names(s: Seq<char>)
    ensures
        kind_from_name(s) == Some(RequirementKind::Functional) <==> s == "functional"@,
        kind_from_name(s) == Some(RequirementKind::Quality) <==> s == "quality"@,
        kind_from_name(s) == Some(RequirementKind::Constraint) <==> s == "constraint"@,
        kind_from_name(s) == Some(RequirementKind::Acceptance) <==> s == "acceptance"@,
        kind_from_name(s) == Some(RequirementKind::Invariant) <==> s == "invariant"@,
        forall|k: RequirementKind| kind_from_name(s) == Some(k) <==> s == #[trigger] kind_name(k),
{
    reveal_strlit("functional");
    reveal_strlit("quality");
    reveal_strlit("constraint");
    reveal_strlit("acceptance");
    reveal_strlit("invariant");
    let f = "functional"@;
    let q = "quality"@;
    let c = "constraint"@;
    let a = "acceptance"@;
    let v = "invariant"@;
    assert(f != q) by {
        assert(f.len() != q.len());
    }
    assert(f != c) by {
        assert(f[0] != c[0]);
    }
    assert(f != a) by {
        assert(f[0] != a[0]);
    }
    assert(f != v) by {
        assert(f.len() != v.len());
    }
    assert(q != c) by {
        assert(q.len() != c.len());
    }
    assert(q != a) by {
        assert(q.len() != a.len());
    }
    assert(q != v) by {
        assert(q.len() != v.len());
    }
    assert(c != a) by {
        assert(c[0] != a[0]);
    }
    assert(c != v) by {
        assert(c.len() != v.len());
    }
    assert(a != v) by {
        assert(a.len() != v.len());
    }
}

/// A decoded requirement has the kind and the priority whose names the
/// source wrote: writing them back gives the source's own text.
pub proof fn law_decoded_requirement_keeps_kind_and_priority(v: JsonValue)
    ensures
        decode_requirement(v) matches Ok(r) ==> v matches JsonValue::Object(ms) && {
            &&& member(ms@, "kind"@) matches Some(JsonValue::Str(k)) && k@ == kind_name(r.kind)
            &&& member(ms@, "priority"@) matches Some(JsonValue::Str(p)) && p@ == priority_name(
                r.priority,
            )
        },
{
    if let Ok(r) = decode_requirement(v) {
        if let JsonValue::Object(ms) = v {
            let kv = member(ms@, "kind"@)->Some_0;
            let pv = member(ms@, "priority"@)->Some_0;
            assert(decode_kind(kv) == Ok::<RequirementKind, Seq<char>>(r.kind));
            assert(decode_priority(pv) == Ok::<RequirementPriority, Seq<char>>(r.priority));
            if let JsonValue::Str(k) = kv {
                law_kind_names(k@);
            }
            if let JsonValue::Str(p) = pv {
                law_priority_names(p@);
            }
        }
    }
}

// ---------------------------------------------------------------------------
// JSON normalization
// ---------------------------------------------------------------------------

/// JSON normalization rewrites every document, none skipped: when it
/// succeeds on the first `n` documents, the i-th output keeps the identity and
/// position of the i-th input and holds exactly `serde_json`'s compact form
/// of its text; and it succeeds whenever every one of them parses and has a
/// compact form.
pub proof fn law_normalization_rewrites_every_document(docs: Seq<DocView>, n: int)
    requires
        0 <= n <= docs.len(),
    ensures
        normalize_docs(docs, n) matches Ok(out) ==> {
            &&& out.len() == n
            &&& forall|i: int|
                0 <= i < n ==> {
                    &&& (#[trigger] out[i]).identity == docs[i].identity
                    &&& out[i].position == docs[i].position
                    &&& json_compact(docs[i].source) == Some(out[i].source)
                }
        },
        (forall|i: int|
            0 <= i < n ==> json_parse(#[trigger] docs[i].source) is Ok && json_compact(
                docs[i].source,
            ) is Some) ==> normalize_docs(docs, n) is Ok,
    decreases n,
{
    if n > 0 {
        law_normalization_rewrites_every_document(docs, n - 1);
        if let Ok(out) = normalize_docs(docs, n) {
            let acc = normalize_docs(docs, n - 1)->Ok_0;
            assert(out == acc.push(out.last()));
            assert forall|i: int| 0 <= i < n implies {
                &&& (#[trigger] out[i]).identity == docs[i].identity
                &&& out[i].position == docs[i].position
                &&& json_compact(docs[i].source) == Some(out[i].source)
            } by {
                if i < n - 1 {
                    assert(out[i] == acc[i]);
                }
            }
        }
        if forall|i: int|
            0 <= i < n ==> json_parse(#[trigger] docs[i].source) is Ok && json_compact(
                docs[i].source,
            ) is Some {
            assert(json_parse(docs[n - 1].source) is Ok);
            assert(json_compact(docs[n - 1].source) is Some);
        }
    }
}

// ---------------------------------------------------------------------------
// Independent adds
// ---------------------------------------------------------------------------

/// Every operation adds, and no two operations add the same requirement id.
pub open spec fn pairwise_distinct_adds(ops: Seq<OperationView>) -> bool {
    &&& forall|i: int| 0 <= i < ops.len() ==> (#[trigger] ops[i]) is Add
    &&& forall|i: int, j: int|
        0 <= i < j < ops.len() ==> match ((#[trigger] ops[i]), (#[trigger] ops[j])) {
            (OperationView::Add(a), OperationView::Add(b)) => a.id != b.id,
            _ => false,
        }
}

/// The distinct-targets precondition of the reversal passes exactly when the
/// single envelope's operations are all adds of pairwise different ids.
pub proof fn law_distinct_targets_precondition(docs: Seq<DocView>)
    ensures
        reverse_evaluations(docs)[4].status == PreconditionStatus::Passed <==> (first_envelope(docs) matches Some(env)
            && pairwise_distinct_adds(env.operations)),
{
    if let Some(env) = first_envelope(docs) {
        let ops = env.operations;
        if reverse_evaluations(docs)[4].status == PreconditionStatus::Passed {
            assert forall|i: int, j: int| 0 <= i < j < ops.len() implies match (
                (#[trigger] ops[i]),
                (#[trigger] ops[j]),
            ) {
                (OperationView::Add(a), OperationView::Add(b)) => a.id != b.id,
                _ => false,
            } by {
                assert(ops[i] is Add && ops[j] is Add);
            }
        }
        if pairwise_distinct_adds(ops) {
            assert forall|i: int, j: int| 0 <= i < j < ops.len() implies (#[trigger] ops[i])->Add_0.id
                != (#[trigger] ops[j])->Add_0.id by {
                assert(ops[i] is Add && ops[j] is Add);
            }
        }
    }
}

/// A certified outcome follows evaluations none of which failed.
proof fn lemma_certified_evaluations_passed(
    sources: Seq<DocView>,
    baseline: crate::contract::ContractView,
    identity: crate::certificate::OperatorView,
    evaluations: Seq<crate::certificate::PreconditionView>,
    transformed: Result<Seq<DocView>, Seq<char>>,
    k: int,
)
    requires
        0 <= k < evaluations.len(),
        spec_certify(sources, baseline, identity, evaluations, transformed) matches Ok(
            GenerationView::Certified(_),
        ),
    ensures
        evaluations[k].status != PreconditionStatus::Failed,
{
    let pre0 = seq![
        crate::variant::passed_view(
            "xunlie.variant.baseline-compiles"@,
            "baseline compiled to content digest "@ + baseline.content_digest,
        ),
    ] + evaluations;
    assert(!any_failed(pre0));
    assert(pre0[k + 1] == evaluations[k]);
}

/// The reversal never certifies a history that adds one requirement id twice:
/// whatever identity and transformation accompany its evaluations, a
/// certified outcome comes from a single envelope (the baseline in canonical
/// order) whose operations are all adds of pairwise different ids.
#[verifier::rlimit(50)]
pub proof fn law_reversal_certifies_only_distinct_adds(
    docs: Seq<DocView>,
    identity: crate::certificate::OperatorView,
    transformed: Result<Seq<DocView>, Seq<char>>,
)
    ensures
        spec_generate(docs, identity, reverse_evaluations(sort_docs(docs)), transformed) matches Ok(
            GenerationView::Certified(_),
        ) ==> (first_envelope(sort_docs(docs)) matches Some(env) && pairwise_distinct_adds(
            env.operations,
        )),
{
    let sorted = sort_docs(docs);
    let evaluations = reverse_evaluations(sorted);
    if let Ok(baseline) = compile_default(sorted) {
        if spec_certify(sorted, baseline, identity, evaluations, transformed) matches Ok(
            GenerationView::Certified(_),
        ) {
            lemma_certified_evaluations_passed(sorted, baseline, identity, evaluations, transformed, 4);
            law_distinct_targets_precondition(sorted);
        }
    }
}

/// The built-in reversal, in particular, never certifies a history that adds
/// one requirement id twice.
pub proof fn law_builtin_reversal_certifies_only_distinct_adds(docs: Seq<DocView>)
    ensures
        ({
            let op = BuiltinOperator::ReverseIndependentAdds(ReverseIndependentAddsOperator);
            spec_generate(
                docs,
                builtin_identity(op),
                builtin_evaluations(op, sort_docs(docs)),
                builtin_transform(op, sort_docs(docs)),
            ) matches Ok(GenerationView::Certified(_)) ==> (first_envelope(sort_docs(docs)) matches Some(
                env,
            ) && pairwise_distinct_adds(env.operations))
        }),
{
    let op = BuiltinOperator::ReverseIndependentAdds(ReverseIndependentAddsOperator);
    law_reversal_certifies_only_distinct_adds(
        docs,
        builtin_identity(op),
        builtin_transform(op, sort_docs(docs)),
    );
}

} // verus!
