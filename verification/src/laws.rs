//! Properties of the library as a whole, each stated over the specifications
//! that the functions' own contracts use, and proved.
use vstd::prelude::*;

use crate::certificate::{certificate_problems, side_problems};
use crate::contract::{
    contract_problems, digest_problems, insert_record, new_contract, order_problems, record_lt,
    schema_problems, sort_records, ContractView,
};
use crate::diagnostic::DiagnosticSpec;
use crate::engine::{doc_record, ingest, ingest_step, sort_docs, spec_compile, DocView};
use crate::ordering::lemma_sort_docs_sorted;
use crate::ir::{ProducerView, RecordView, RequirementView};
use crate::operators::{
    builtin_evaluations, builtin_identity, builtin_operator_for, builtin_transform,
    BuiltinOperator, JsonNormalizationOperator, ReverseIndependentAddsOperator,
};
use crate::certificate::{OperatorView, PreconditionView};
use crate::diagnostic::LocationView;
use crate::ir::{keys_ascending, requirement_problem};
use crate::resolution::{
    entries_of, find_active, fold_events, insert_by_precedence, insert_position,
    lemma_fold_ascending, precedence_order, resolve_step, spec_resolve, EventView, OperationView,
    ResolutionPolicy, ResolveState,
};
use crate::text::seq_lt;
use crate::text::{lemma_seq_lt_asymmetric, lemma_seq_lt_irreflexive};
use crate::variant::{
    compile_default, spec_certify, spec_check_variant, spec_generate, spec_verify, ErrorSpec,
    GenerationView, VariantView,
    JSON_NORMALIZATION_OPERATOR_ID, REVERSE_INDEPENDENT_ADDS_OPERATOR_ID,
};

verus! {

/// A successfully compiled contract validates: compilation never hands out
/// an artifact with a problem.
pub proof fn law_compiled_contracts_validate(
    docs: Seq<DocView>,
    policy: ResolutionPolicy,
    producer: ProducerView,
    created_at: Option<Seq<char>>,
)
    ensures
        spec_compile(docs, policy, producer, created_at) matches Ok(c) ==> contract_problems(c).len()
            == 0,
{
}

/// The content digest covers semantic content only: contracts assembled from
/// the same policy and requirements have the same content digest, whatever
/// their producer, timestamp and sources.
pub proof fn law_content_digest_ignores_provenance(
    producer_a: ProducerView,
    created_a: Option<Seq<char>>,
    sources_a: Seq<RecordView>,
    producer_b: ProducerView,
    created_b: Option<Seq<char>>,
    sources_b: Seq<RecordView>,
    policy: ResolutionPolicy,
    requirements: Seq<(Seq<char>, RequirementView)>,
)
    ensures
        new_contract(producer_a, created_a, sources_a, policy, requirements).content_digest
            == new_contract(producer_b, created_b, sources_b, policy, requirements).content_digest,
{
}

/// No record of a sorted list precedes the one before it.
pub open spec fn records_in_order(s: Seq<RecordView>) -> bool {
    forall|i: int| 0 <= i < s.len() - 1 ==> !record_lt(#[trigger] s[i + 1], s[i])
}

/// The last record of an insertion is the inserted record or the former last one.
proof fn lemma_insert_record_last(t: Seq<RecordView>, x: RecordView)
    ensures
        insert_record(t, x).len() == t.len() + 1,
        insert_record(t, x).last() == x || (t.len() > 0 && insert_record(t, x).last() == t.last()),
    decreases t.len(),
{
    if t.len() > 0 && record_lt(x, t.last()) {
        lemma_insert_record_last(t.drop_last(), x);
    }
}

proof fn lemma_insert_record_in_order(t: Seq<RecordView>, x: RecordView)
    requires
        records_in_order(t),
    ensures
        records_in_order(insert_record(t, x)),
    decreases t.len(),
{
    if t.len() > 0 {
        let r = insert_record(t, x);
        if record_lt(x, t.last()) {
            let u = t.drop_last();
            assert(records_in_order(u)) by {
                assert forall|i: int| 0 <= i < u.len() - 1 implies !record_lt(
                    #[trigger] u[i + 1],
                    u[i],
                ) by {
                    assert(u[i + 1] == t[i + 1] && u[i] == t[i]);
                }
            }
            lemma_insert_record_in_order(u, x);
            lemma_insert_record_last(u, x);
            let inner = insert_record(u, x);
            assert(r == inner.push(t.last()));
            // the new last record does not precede the former last of the insertion
            if inner.last() == x {
                if record_lt(t.last(), x) {
                    lemma_record_lt_asymmetric(x, t.last());
                }
            } else {
                assert(u.len() > 0 && inner.last() == u.last());
                assert(u.last() == t[t.len() - 2]);
                let k = t.len() - 2;
                assert(!record_lt(t[k + 1], t[k]));
                assert(t[k + 1] == t.last());
            }
            assert forall|i: int| 0 <= i < r.len() - 1 implies !record_lt(#[trigger] r[i + 1], r[i]) by {
                if i < r.len() - 2 {
                    assert(r[i + 1] == inner[i + 1] && r[i] == inner[i]);
                } else {
                    assert(r[i + 1] == t.last() && r[i] == inner.last());
                }
            }
        } else {
            assert forall|i: int| 0 <= i < r.len() - 1 implies !record_lt(#[trigger] r[i + 1], r[i]) by {
                if i < t.len() - 1 {
                    assert(r[i + 1] == t[i + 1] && r[i] == t[i]);
                } else {
                    assert(r[i + 1] == x && r[i] == t.last());
                }
            }
        }
    }
}

proof fn lemma_record_lt_asymmetric(a: RecordView, b: RecordView)
    requires
        record_lt(a, b),
    ensures
        !record_lt(b, a),
{
    if a.position == b.position {
        lemma_seq_lt_asymmetric(a.identity, b.identity);
    }
}

/// Sorting yields records in canonical order.
pub proof fn lemma_sort_records_in_order(s: Seq<RecordView>)
    ensures
        records_in_order(sort_records(s)),
    decreases s.len(),
{
    if s.len() > 0 {
        lemma_sort_records_in_order(s.drop_last());
        lemma_insert_record_in_order(sort_records(s.drop_last()), s.last());
    }
}

/// A contract assembled by `ContractIr::new` is internally consistent: it has
/// the supported schema, its sources are in canonical order, and both of its
/// digests match its content.
pub proof fn law_new_contract_is_consistent(
    producer: ProducerView,
    created_at: Option<Seq<char>>,
    sources: Seq<RecordView>,
    policy: ResolutionPolicy,
    requirements: Seq<(Seq<char>, RequirementView)>,
)
    ensures
        schema_problems(new_contract(producer, created_at, sources, policy, requirements)).len() == 0,
        order_problems(new_contract(producer, created_at, sources, policy, requirements).sources).len()
            == 0,
        digest_problems(new_contract(producer, created_at, sources, policy, requirements)).len() == 0,
{
    let c = new_contract(producer, created_at, sources, policy, requirements);
    lemma_sort_records_in_order(sources);
    let s = c.sources;
    assert(!(exists|i: int| 0 <= i < s.len() - 1 && record_lt(s[i + 1], #[trigger] s[i])));
}

/// What a certification that succeeded guarantees, whatever the operator returned.
proof fn lemma_certified_outcome(
    sources: Seq<DocView>,
    baseline: ContractView,
    identity: OperatorView,
    evaluations: Seq<PreconditionView>,
    transformed: Result<Seq<DocView>, Seq<char>>,
)
    ensures
        spec_certify(sources, baseline, identity, evaluations, transformed) matches Ok(
            GenerationView::Certified(v),
        ) ==> {
            &&& spec_check_variant(v) is Ok
            &&& v.certificate.before.content_digest == baseline.content_digest
            &&& v.certificate.operator == identity
        },
{
}

/// A variant that passes its own checks carries a valid certificate, whose
/// two sides have the same content digest, and its history recompiles to the
/// certified after-state.
proof fn lemma_checked_variant(v: VariantView)
    ensures
        spec_check_variant(v) is Ok ==> {
            &&& certificate_problems(v.certificate).len() == 0
            &&& v.certificate.before.content_digest == v.certificate.after.content_digest
            &&& compile_default(v.sources) matches Ok(c) && c.content_digest
                == v.certificate.after.content_digest
        },
{
    if spec_check_variant(v) is Ok {
        let c = v.certificate;
        assert(certificate_problems(c).len() == 0);
        assert(side_problems(c).len() == 0);
    }
}

/// An operator cannot certify a change of meaning: whatever it reports and
/// returns, a certified variant carries a valid certificate whose two sides
/// have the same content digest, which is that of the compiled baseline and
/// that of the variant's own recompiled history, and the variant passes its
/// own checks.
pub proof fn law_certified_variants_are_equivalent(
    docs: Seq<DocView>,
    identity: OperatorView,
    evaluations: Seq<PreconditionView>,
    transformed: Result<Seq<DocView>, Seq<char>>,
)
    ensures
        spec_generate(docs, identity, evaluations, transformed) matches Ok(
            GenerationView::Certified(v),
        ) ==> {
            &&& certificate_problems(v.certificate).len() == 0
            &&& v.certificate.before.content_digest == v.certificate.after.content_digest
            &&& spec_check_variant(v) is Ok
            &&& compile_default(sort_docs(docs)) matches Ok(b) && b.content_digest
                == v.certificate.before.content_digest
            &&& compile_default(v.sources) matches Ok(c) && c.content_digest
                == v.certificate.after.content_digest
            &&& v.certificate.operator == identity
        },
{
    let g = spec_generate(docs, identity, evaluations, transformed);
    if let Ok(GenerationView::Certified(v)) = g {
        if let Ok(b) = compile_default(sort_docs(docs)) {
            assert(g == spec_certify(sort_docs(docs), b, identity, evaluations, transformed));
            lemma_certified_outcome(sort_docs(docs), b, identity, evaluations, transformed);
            lemma_checked_variant(v);
        }
    }
}

/// A variant generated with a built-in operator verifies against the baseline
/// it was generated from: the operator it names is found again, and the
/// deterministic replay reproduces it.
pub proof fn law_generated_variants_replay(docs: Seq<DocView>, op: BuiltinOperator)
    ensures
        ({
            let generated = spec_generate(
                docs,
                builtin_identity(op),
                builtin_evaluations(op, sort_docs(docs)),
                builtin_transform(op, sort_docs(docs)),
            );
            generated matches Ok(GenerationView::Certified(v)) ==> {
                &&& builtin_operator_for(v.certificate.operator.id) == Some(op)
                &&& spec_verify(v, builtin_identity(op), generated) is Ok
            }
        }),
{
    let generated = spec_generate(
        docs,
        builtin_identity(op),
        builtin_evaluations(op, sort_docs(docs)),
        builtin_transform(op, sort_docs(docs)),
    );
    if let Ok(GenerationView::Certified(v)) = generated {
        law_certified_variants_are_equivalent(
            docs,
            builtin_identity(op),
            builtin_evaluations(op, sort_docs(docs)),
            builtin_transform(op, sort_docs(docs)),
        );
        lemma_builtin_ids_found(op);
        lemma_verify_own(v, builtin_identity(op), generated);
    }
}

/// A variant that passes its checks, names the verifying operator and is what
/// the replay produced, verifies.
proof fn lemma_verify_own(
    v: VariantView,
    identity: OperatorView,
    generated: Result<GenerationView, ErrorSpec>,
)
    requires
        spec_check_variant(v) is Ok,
        v.certificate.operator == identity,
        generated == Ok::<GenerationView, ErrorSpec>(GenerationView::Certified(v)),
    ensures
        spec_verify(v, identity, generated) is Ok,
{
}

/// Each built-in operator is found again under its own id.
pub proof fn lemma_builtin_ids_found(op: BuiltinOperator)
    ensures
        builtin_operator_for(builtin_identity(op).id) == Some(op),
{
    reveal_strlit("json.presentation.normalize");
    reveal_strlit("history.independent-adds.reverse");
    assert(JSON_NORMALIZATION_OPERATOR_ID@ != REVERSE_INDEPENDENT_ADDS_OPERATOR_ID@) by {
        assert(JSON_NORMALIZATION_OPERATOR_ID@.len() != REVERSE_INDEPENDENT_ADDS_OPERATOR_ID@.len());
    }
    match op {
        BuiltinOperator::JsonNormalization(o) => {
            assert(o == JsonNormalizationOperator);
        },
        BuiltinOperator::ReverseIndependentAdds(o) => {
            assert(o == ReverseIndependentAddsOperator);
        },
    }
}

// ---------------------------------------------------------------------------
// Resolution
// ---------------------------------------------------------------------------

/// Every step of resolution records exactly one decision or exactly one conflict.
proof fn lemma_step_accounts(st: ResolveState, e: EventView)
    ensures
        resolve_step(st, e).decisions.len() + resolve_step(st, e).conflicts.len() == st.decisions.len()
            + st.conflicts.len() + 1,
{
}

/// Every applied event is accounted for: resolution records exactly one
/// decision or one conflict per event.
pub proof fn law_every_event_is_accounted_for(evs: Seq<EventView>, ord: Seq<usize>)
    ensures
        fold_events(evs, ord).decisions.len() + fold_events(evs, ord).conflicts.len() == ord.len(),
    decreases ord.len(),
{
    if ord.len() > 0 {
        law_every_event_is_accounted_for(evs, ord.drop_last());
        lemma_step_accounts(fold_events(evs, ord.drop_last()), evs[ord.last() as int]);
    }
}

proof fn lemma_precedence_order_len(evs: Seq<EventView>, n: nat)
    ensures
        precedence_order(evs, n).len() == n,
    decreases n,
{
    if n > 0 {
        lemma_precedence_order_len(evs, (n - 1) as nat);
        lemma_insert_by_precedence_len(evs, precedence_order(evs, (n - 1) as nat), (n - 1) as usize);
    }
}

proof fn lemma_insert_by_precedence_len(evs: Seq<EventView>, t: Seq<usize>, k: usize)
    ensures
        insert_by_precedence(evs, t, k).len() == t.len() + 1,
    decreases t.len(),
{
    if t.len() > 0 {
        lemma_insert_by_precedence_len(evs, t.drop_last(), k);
    }
}

/// Active requirements are valid.
pub open spec fn active_valid(a: Seq<(RequirementView, LocationView)>) -> bool {
    forall|i: int| 0 <= i < a.len() ==> requirement_problem(#[trigger] a[i].0) is None
}

proof fn lemma_step_keeps_valid(st: ResolveState, e: EventView)
    requires
        active_valid(st.active),
    ensures
        active_valid(resolve_step(st, e).active),
{
    let a = st.active;
    let r = resolve_step(st, e).active;
    match e.operation {
        OperationView::Add(rv) => {
            if requirement_problem(rv) is None && find_active(a, rv.id, 0) is None {
                let p = insert_position(a, rv.id, 0);
                lemma_insert_position_bounds(a, rv.id, 0);
                assert forall|i: int| 0 <= i < r.len() implies requirement_problem(#[trigger] r[i].0) is None by {
                    if i < p {
                        assert(r[i] == a[i]);
                    } else if i > p {
                        assert(r[i] == a[i - 1]);
                    }
                }
            }
        },
        OperationView::Replace(target, rv) => {
            if rv.id == target && requirement_problem(rv) is None {
                if let Some(k) = find_active(a, target, 0) {
                    lemma_find_active_bounds(a, target, 0);
                    assert forall|i: int| 0 <= i < r.len() implies requirement_problem(#[trigger] r[i].0) is None by {
                        if i != k {
                            assert(r[i] == a[i]);
                        }
                    }
                }
            }
        },
        OperationView::Revoke(target) => {
            if let Some(k) = find_active(a, target, 0) {
                lemma_find_active_bounds(a, target, 0);
                assert forall|i: int| 0 <= i < r.len() implies requirement_problem(#[trigger] r[i].0) is None by {
                    if i < k {
                        assert(r[i] == a[i]);
                    } else {
                        assert(r[i] == a[i + 1]);
                    }
                }
            }
        },
    }
}

proof fn lemma_insert_position_bounds(a: Seq<(RequirementView, LocationView)>, id: Seq<char>, k: int)
    requires
        0 <= k <= a.len(),
    ensures
        k <= insert_position(a, id, k) <= a.len(),
    decreases a.len() - k,
{
    if k < a.len() && seq_lt(a[k].0.id, id) {
        lemma_insert_position_bounds(a, id, k + 1);
    }
}

proof fn lemma_find_active_bounds(a: Seq<(RequirementView, LocationView)>, id: Seq<char>, k: int)
    requires
        0 <= k,
    ensures
        find_active(a, id, k) matches Some(i) ==> k <= i < a.len(),
    decreases a.len() - k,
{
    if k < a.len() && a[k].0.id != id {
        lemma_find_active_bounds(a, id, k + 1);
    }
}

proof fn lemma_fold_valid(evs: Seq<EventView>, ord: Seq<usize>)
    ensures
        active_valid(fold_events(evs, ord).active),
    decreases ord.len(),
{
    if ord.len() > 0 {
        lemma_fold_valid(evs, ord.drop_last());
        lemma_step_keeps_valid(fold_events(evs, ord.drop_last()), evs[ord.last() as int]);
    }
}

/// A successful resolution accounts for every event with a decision, and
/// yields valid requirements, each keyed by its own id in strictly ascending
/// order.
pub proof fn law_resolved_requirements_are_valid(sources: Seq<RecordView>, evs: Seq<EventView>)
    ensures
        spec_resolve(sources, evs) matches Ok(r) ==> {
            &&& r.1.len() == evs.len()
            &&& keys_ascending(r.0)
            &&& forall|i: int|
                0 <= i < r.0.len() ==> (#[trigger] r.0[i]).0 == r.0[i].1.id && requirement_problem(
                    r.0[i].1,
                ) is None
        },
{
    let ord = precedence_order(evs, evs.len());
    lemma_precedence_order_len(evs, evs.len());
    law_every_event_is_accounted_for(evs, ord);
    lemma_fold_valid(evs, ord);
    lemma_fold_ascending(evs, ord);
    let a = fold_events(evs, ord).active;
    let entries = entries_of(a);
    assert forall|i: int, j: int| 0 <= i < j < entries.len() implies seq_lt(
        #[trigger] entries[i].0,
        #[trigger] entries[j].0,
    ) by {
        assert(entries[i].0 == a[i].0.id && entries[j].0 == a[j].0.id);
    }
    assert forall|i: int| 0 <= i < entries.len() implies (#[trigger] entries[i]).0 == entries[i].1.id
        && requirement_problem(entries[i].1) is None by {
        assert(entries[i] == (a[i].0.id, a[i].0));
    }
}

/// Ingestion that reports nothing keeps one record per document, in order.
proof fn lemma_clean_ingest(docs: Seq<DocView>)
    ensures
        ingest(docs).diagnostics.len() == 0 ==> ingest(docs).records == docs.map_values(
            |d: DocView| doc_record(d),
        ),
    decreases docs.len(),
{
    if docs.len() > 0 {
        lemma_clean_ingest(docs.drop_last());
        let prev = ingest(docs.drop_last());
        let next = ingest_step(prev, docs.last());
        assert(next.diagnostics.len() == 0 ==> prev.diagnostics.len() == 0);
        if next.diagnostics.len() == 0 {
            assert(next.records == prev.records.push(doc_record(docs.last())));
            assert(docs.map_values(|d: DocView| doc_record(d)) =~= docs.drop_last().map_values(
                |d: DocView| doc_record(d),
            ).push(doc_record(docs.last())));
        }
    }
}

/// Sorting records already in canonical order leaves them as they are.
proof fn lemma_sort_records_sorted(s: Seq<RecordView>)
    requires
        records_in_order(s),
    ensures
        sort_records(s) == s,
    decreases s.len(),
{
    if s.len() > 0 {
        let t = s.drop_last();
        assert(records_in_order(t)) by {
            assert forall|i: int| 0 <= i < t.len() - 1 implies !record_lt(#[trigger] t[i + 1], t[i]) by {
                assert(t[i + 1] == s[i + 1] && t[i] == s[i]);
            }
        }
        lemma_sort_records_sorted(t);
        if t.len() > 0 {
            assert(!record_lt(s[s.len() - 1], s[s.len() - 2]));
        }
        assert(t.push(s.last()) =~= s);
    }
}

/// What compilation returns: a valid contract under the given policy,
/// producer and timestamp, whose sources are one record per document in
/// canonical (position, identity) order.
pub proof fn law_compiled_contract_shape(
    docs: Seq<DocView>,
    policy: ResolutionPolicy,
    producer: ProducerView,
    created_at: Option<Seq<char>>,
)
    ensures
        spec_compile(docs, policy, producer, created_at) matches Ok(c) ==> {
            &&& contract_problems(c).len() == 0
            &&& c.resolution_policy == policy
            &&& c.producer == producer
            &&& c.created_at == created_at
            &&& c.sources == sort_docs(docs).map_values(|d: DocView| doc_record(d))
        },
{
    if spec_compile(docs, policy, producer, created_at) is Ok {
        let sorted = sort_docs(docs);
        lemma_clean_ingest(sorted);
        lemma_sort_docs_sorted(docs);
        let recs = sorted.map_values(|d: DocView| doc_record(d));
        assert(records_in_order(recs)) by {
            assert forall|i: int| 0 <= i < recs.len() - 1 implies !record_lt(
                #[trigger] recs[i + 1],
                recs[i],
            ) by {
                assert(!crate::engine::doc_lt(sorted[i + 1], sorted[i]));
            }
        }
        lemma_sort_records_sorted(recs);
    }
}

} // verus!
