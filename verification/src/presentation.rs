//! The meaning of a source is its parsed JSON document: the exact text only
//! reaches the contract through provenance digests.
use vstd::prelude::*;

use crate::contract::{
    contract_problems, digest_problems, empty_sources_problems, new_contract, order_problems,
    producer_problems, requirement_problems, schema_problems, source_problems,
};
use crate::decode::decode_envelope;
use crate::diagnostic::LocationView;
use crate::engine::{doc_record, ingest, ingest_step, operation_events, sort_docs, spec_compile, DocView};
use crate::ir::{ProducerView, RecordView, RequirementView};
use crate::json::json_parse;
use crate::laws::law_new_contract_is_consistent;
use crate::resolution::{
    entries_of, event_conflicts, event_conflicts_at, event_matches_source, find_active,
    fold_events, insert_by_precedence, insert_position, precedence_order, prev_precedence,
    resolve_step, source_conflicts, spec_resolve, structure_conflicts, EventView, OperationView,
    ResolutionPolicy, ResolveState,
};
use crate::text::seq_lt;

verus! {

/// The requirements of active entries, without the locations that introduced them.
pub open spec fn actives(a: Seq<(RequirementView, LocationView)>) -> Seq<RequirementView> {
    a.map_values(|e: (RequirementView, LocationView)| e.0)
}

/// Two resolution states that agree on everything but locations.
pub open spec fn similar(s1: ResolveState, s2: ResolveState) -> bool {
    &&& actives(s1.active) == actives(s2.active)
    &&& s1.conflicts.len() == s2.conflicts.len()
    &&& s1.decisions.len() == s2.decisions.len()
}

/// Two events that agree on everything but their locations.
pub open spec fn same_but_location(a: EventView, b: EventView) -> bool {
    a.precedence == b.precedence && a.operation == b.operation
}

proof fn lemma_find_active_similar(
    a1: Seq<(RequirementView, LocationView)>,
    a2: Seq<(RequirementView, LocationView)>,
    id: Seq<char>,
    k: int,
)
    requires
        actives(a1) == actives(a2),
    ensures
        find_active(a1, id, k) == find_active(a2, id, k),
    decreases a1.len() - k,
{
    assert(a1.len() == actives(a1).len() && a2.len() == actives(a2).len());
    if 0 <= k < a1.len() {
        assert(a1[k].0 == actives(a1)[k] && a2[k].0 == actives(a2)[k]);
        lemma_find_active_similar(a1, a2, id, k + 1);
    }
}

proof fn lemma_insert_position_similar(
    a1: Seq<(RequirementView, LocationView)>,
    a2: Seq<(RequirementView, LocationView)>,
    id: Seq<char>,
    k: int,
)
    requires
        actives(a1) == actives(a2),
    ensures
        insert_position(a1, id, k) == insert_position(a2, id, k),
    decreases a1.len() - k,
{
    assert(a1.len() == actives(a1).len() && a2.len() == actives(a2).len());
    if 0 <= k < a1.len() {
        assert(a1[k].0 == actives(a1)[k] && a2[k].0 == actives(a2)[k]);
        lemma_insert_position_similar(a1, a2, id, k + 1);
    }
}

proof fn lemma_find_active_in_range(a: Seq<(RequirementView, LocationView)>, id: Seq<char>, k: int)
    requires
        0 <= k,
    ensures
        find_active(a, id, k) matches Some(i) ==> k <= i < a.len(),
    decreases a.len() - k,
{
    if k < a.len() && a[k].0.id != id {
        lemma_find_active_in_range(a, id, k + 1);
    }
}

proof fn lemma_insert_position_in_range(a: Seq<(RequirementView, LocationView)>, id: Seq<char>, k: int)
    requires
        0 <= k <= a.len(),
    ensures
        k <= insert_position(a, id, k) <= a.len(),
    decreases a.len() - k,
{
    if k < a.len() && seq_lt(a[k].0.id, id) {
        lemma_insert_position_in_range(a, id, k + 1);
    }
}

/// One step keeps two similar states similar when the events differ only in location.
proof fn lemma_step_similar(s1: ResolveState, s2: ResolveState, e1: EventView, e2: EventView)
    requires
        similar(s1, s2),
        same_but_location(e1, e2),
    ensures
        similar(resolve_step(s1, e1), resolve_step(s2, e2)),
{
    let a1 = s1.active;
    let a2 = s2.active;
    assert(a1.len() == actives(a1).len() && a2.len() == actives(a2).len());
    let r1 = resolve_step(s1, e1).active;
    let r2 = resolve_step(s2, e2).active;
    match e1.operation {
        OperationView::Add(rv) => {
            lemma_find_active_similar(a1, a2, rv.id, 0);
            lemma_find_active_in_range(a1, rv.id, 0);
            lemma_insert_position_similar(a1, a2, rv.id, 0);
            lemma_insert_position_in_range(a1, rv.id, 0);
            if let Some(i) = find_active(a1, rv.id, 0) {
                assert(a1[i].0 == actives(a1)[i] && a2[i].0 == actives(a2)[i]);
            }
            assert(actives(r1) =~= actives(r2)) by {
                assert forall|j: int| 0 <= j < actives(r1).len() implies actives(r1)[j] == actives(
                    r2,
                )[j] by {
                    assert(actives(r1)[j] == r1[j].0 && actives(r2)[j] == r2[j].0);
                    let p = crate::resolution::insert_position(a1, rv.id, 0);
                    if j < p {
                        assert(a1[j].0 == actives(a1)[j] && a2[j].0 == actives(a2)[j]);
                    } else if j > p && j < r1.len() && r1.len() == a1.len() + 1 {
                        assert(a1[j - 1].0 == actives(a1)[j - 1] && a2[j - 1].0 == actives(a2)[j - 1]);
                    }
                }
            }
        },
        OperationView::Replace(target, rv) => {
            lemma_find_active_similar(a1, a2, target, 0);
            lemma_find_active_in_range(a1, target, 0);
            if let Some(i) = find_active(a1, target, 0) {
                assert(a1[i].0 == actives(a1)[i] && a2[i].0 == actives(a2)[i]);
            }
            assert(actives(r1) =~= actives(r2)) by {
                assert forall|j: int| 0 <= j < actives(r1).len() implies actives(r1)[j] == actives(
                    r2,
                )[j] by {
                    assert(actives(r1)[j] == r1[j].0 && actives(r2)[j] == r2[j].0);
                    assert(a1[j].0 == actives(a1)[j] && a2[j].0 == actives(a2)[j]);
                }
            }
        },
        OperationView::Revoke(target) => {
            lemma_find_active_similar(a1, a2, target, 0);
            lemma_find_active_in_range(a1, target, 0);
            assert(actives(r1) =~= actives(r2)) by {
                assert forall|j: int| 0 <= j < actives(r1).len() implies actives(r1)[j] == actives(
                    r2,
                )[j] by {
                    assert(actives(r1)[j] == r1[j].0 && actives(r2)[j] == r2[j].0);
                    assert(a1[j].0 == actives(a1)[j] && a2[j].0 == actives(a2)[j]);
                    if j + 1 < a1.len() {
                        assert(a1[j + 1].0 == actives(a1)[j + 1] && a2[j + 1].0 == actives(a2)[j + 1]);
                    }
                }
            }
        },
    }
}

proof fn lemma_fold_similar(evs1: Seq<EventView>, evs2: Seq<EventView>, ord: Seq<usize>)
    requires
        evs1.len() == evs2.len(),
        forall|k: int| 0 <= k < evs1.len() ==> same_but_location(#[trigger] evs1[k], evs2[k]),
        forall|j: int| 0 <= j < ord.len() ==> (#[trigger] ord[j]) < evs1.len(),
    ensures
        similar(fold_events(evs1, ord), fold_events(evs2, ord)),
    decreases ord.len(),
{
    if ord.len() > 0 {
        lemma_fold_similar(evs1, evs2, ord.drop_last());
        let k = ord.last() as int;
        assert(same_but_location(evs1[k], evs2[k]));
        lemma_step_similar(
            fold_events(evs1, ord.drop_last()),
            fold_events(evs2, ord.drop_last()),
            evs1[k],
            evs2[k],
        );
    } else {
        assert(actives(fold_events(evs1, ord).active) =~= actives(fold_events(evs2, ord).active));
    }
}

proof fn lemma_insert_by_precedence_same(
    evs1: Seq<EventView>,
    evs2: Seq<EventView>,
    t: Seq<usize>,
    k: usize,
)
    requires
        evs1.len() == evs2.len(),
        forall|i: int| 0 <= i < evs1.len() ==> same_but_location(#[trigger] evs1[i], evs2[i]),
        forall|j: int| 0 <= j < t.len() ==> (#[trigger] t[j]) < evs1.len(),
        k < evs1.len(),
    ensures
        insert_by_precedence(evs1, t, k) == insert_by_precedence(evs2, t, k),
        forall|j: int|
            0 <= j < insert_by_precedence(evs1, t, k).len() ==> (#[trigger] insert_by_precedence(
                evs1,
                t,
                k,
            )[j]) < evs1.len(),
    decreases t.len(),
{
    if t.len() > 0 {
        assert(same_but_location(evs1[k as int], evs2[k as int]));
        assert(same_but_location(evs1[t.last() as int], evs2[t.last() as int]));
        lemma_insert_by_precedence_same(evs1, evs2, t.drop_last(), k);
        let inner = insert_by_precedence(evs1, t.drop_last(), k);
        let r = insert_by_precedence(evs1, t, k);
        assert forall|j: int| 0 <= j < r.len() implies (#[trigger] r[j]) < evs1.len() by {
            if crate::resolution::precedence_lt(
                evs1[k as int].precedence,
                evs1[t.last() as int].precedence,
            ) {
                if j < inner.len() {
                    assert(r[j] == inner[j]);
                }
            } else {
                if j < t.len() {
                    assert(r[j] == t[j]);
                }
            }
        }
    }
}

proof fn lemma_precedence_order_same(evs1: Seq<EventView>, evs2: Seq<EventView>, n: nat)
    requires
        evs1.len() == evs2.len(),
        n <= evs1.len() <= usize::MAX,
        forall|i: int| 0 <= i < evs1.len() ==> same_but_location(#[trigger] evs1[i], evs2[i]),
    ensures
        precedence_order(evs1, n) == precedence_order(evs2, n),
        forall|j: int|
            0 <= j < precedence_order(evs1, n).len() ==> (#[trigger] precedence_order(evs1, n)[j])
                < evs1.len(),
    decreases n,
{
    if n > 0 {
        lemma_precedence_order_same(evs1, evs2, (n - 1) as nat);
        lemma_insert_by_precedence_same(
            evs1,
            evs2,
            precedence_order(evs1, (n - 1) as nat),
            (n - 1) as usize,
        );
    }
}

/// The events of one source's operations name that source and have distinct precedences.
proof fn lemma_single_source_structure(rec: RecordView, ops: Seq<OperationView>)
    requires
        ops.len() <= usize::MAX,
    ensures
        structure_conflicts(seq![rec], operation_events(rec, ops)).len() == 0,
{
    let s = seq![rec];
    let evs = operation_events(rec, ops);
    assert(source_conflicts(s, 1) =~= source_conflicts(s, 0) + crate::resolution::source_conflicts_at(s, 0));
    assert(crate::resolution::source_conflicts_at(s, 0).len() == 0);
    assert forall|n: int| 0 <= n <= evs.len() implies #[trigger] event_conflicts(s, evs, n).len() == 0 by {
        lemma_event_conflicts_prefix(rec, ops, n);
    }
}

proof fn lemma_event_conflicts_prefix(rec: RecordView, ops: Seq<OperationView>, n: int)
    requires
        0 <= n <= ops.len(),
        ops.len() <= usize::MAX,
    ensures
        event_conflicts(seq![rec], operation_events(rec, ops), n).len() == 0,
    decreases n,
{
    let s = seq![rec];
    let evs = operation_events(rec, ops);
    if n > 0 {
        lemma_event_conflicts_prefix(rec, ops, n - 1);
        let i = n - 1;
        assert(evs[i].location.operation_position == Some(i as usize));
        assert(s[0].position == evs[i].location.source_position);
        assert(event_matches_source(s, evs[i]));
        lemma_no_prev_precedence(rec, ops, i, i);
        assert(event_conflicts_at(s, evs, i).len() == 0);
    }
}

proof fn lemma_no_prev_precedence(rec: RecordView, ops: Seq<OperationView>, i: int, j: int)
    requires
        0 <= j <= i < ops.len(),
        ops.len() <= usize::MAX,
    ensures
        prev_precedence(operation_events(rec, ops), i, j) is None,
    decreases j,
{
    if j > 0 {
        let evs = operation_events(rec, ops);
        assert(evs[j - 1].precedence.operation_position == (j - 1) as usize);
        assert(evs[i].precedence.operation_position == i as usize);
        lemma_no_prev_precedence(rec, ops, i, j - 1);
    }
}

/// Resolution of one source's operations does not depend on the source's
/// identity or digest: only on its position and the operations.
proof fn lemma_resolve_single_source(rec1: RecordView, rec2: RecordView, ops: Seq<OperationView>)
    requires
        rec1.position == rec2.position,
        ops.len() <= usize::MAX,
    ensures
        spec_resolve(seq![rec1], operation_events(rec1, ops)) matches Ok(r1) ==> spec_resolve(
            seq![rec2],
            operation_events(rec2, ops),
        ) matches Ok(r2) && r1.0 == r2.0,
{
    let evs1 = operation_events(rec1, ops);
    let evs2 = operation_events(rec2, ops);
    lemma_single_source_structure(rec1, ops);
    lemma_single_source_structure(rec2, ops);
    assert forall|k: int| 0 <= k < evs1.len() implies same_but_location(#[trigger] evs1[k], evs2[k]) by {}
    lemma_precedence_order_same(evs1, evs2, evs1.len());
    let ord = precedence_order(evs1, evs1.len());
    lemma_fold_similar(evs1, evs2, ord);
    let st1 = fold_events(evs1, ord);
    let st2 = fold_events(evs2, ord);
    assert(entries_of(st1.active) =~= entries_of(st2.active)) by {
        assert(st1.active.len() == actives(st1.active).len());
        assert(st2.active.len() == actives(st2.active).len());
        assert forall|j: int| 0 <= j < st1.active.len() implies entries_of(st1.active)[j]
            == entries_of(st2.active)[j] by {
            assert(st1.active[j].0 == actives(st1.active)[j]);
            assert(st2.active[j].0 == actives(st2.active)[j]);
        }
    }
}

proof fn lemma_sort_single_record(r: RecordView)
    ensures
        crate::contract::sort_records(seq![r]) == seq![r],
{
    assert(seq![r].drop_last() =~= Seq::<RecordView>::empty());
    assert(crate::contract::sort_records(Seq::<RecordView>::empty()) == Seq::<RecordView>::empty());
    assert(crate::contract::insert_record(Seq::<RecordView>::empty(), r) == seq![r]);
}

/// Ingesting one document is one ingestion step from the empty state.
proof fn lemma_ingest_single(d: DocView)
    ensures
        sort_docs(seq![d]) == seq![d],
        ingest(seq![d]) == ingest_step(ingest(Seq::empty()), d),
{
    assert(seq![d].drop_last() =~= Seq::<DocView>::empty());
    assert(sort_docs(Seq::<DocView>::empty()) == Seq::<DocView>::empty());
    assert(crate::engine::insert_doc(Seq::<DocView>::empty(), d) == seq![d]);
}

/// A contract over one source is consistent, or not, whatever that source's digest.
proof fn lemma_single_source_contract(
    rec1: RecordView,
    rec2: RecordView,
    policy: ResolutionPolicy,
    producer: ProducerView,
    created_at: Option<Seq<char>>,
    reqs: Seq<(Seq<char>, RequirementView)>,
)
    requires
        contract_problems(new_contract(producer, created_at, seq![rec1], policy, reqs)).len() == 0,
    ensures
        contract_problems(new_contract(producer, created_at, seq![rec2], policy, reqs)).len() == 0,
        new_contract(producer, created_at, seq![rec2], policy, reqs).content_digest
            == new_contract(producer, created_at, seq![rec1], policy, reqs).content_digest,
{
    let k1 = new_contract(producer, created_at, seq![rec1], policy, reqs);
    let k2 = new_contract(producer, created_at, seq![rec2], policy, reqs);
    law_new_contract_is_consistent(producer, created_at, seq![rec2], policy, reqs);
    lemma_sort_single_record(rec1);
    lemma_sort_single_record(rec2);
    assert(source_problems(k2.sources, 1) =~= source_problems(k2.sources, 0)
        + crate::contract::source_problems_at(k2.sources, 0));
    assert(requirement_problems(reqs, reqs.len() as int).len() == 0) by {
        assert(contract_problems(k1).len() >= requirement_problems(reqs, reqs.len() as int).len());
    }
    assert(producer_problems(k1) == producer_problems(k2));
    assert(empty_sources_problems(k1) == empty_sources_problems(k2));
}

/// The meaning of a source is its parsed JSON document. Two texts that parse
/// to the same document, under one identity and position, compile alike:
/// when one compiles, so does the other, to the same requirements and the
/// same content digest (only provenance, and so the artifact digest, differs).
pub proof fn law_contract_depends_on_parsed_document(
    identity: Seq<char>,
    position: usize,
    text: Seq<char>,
    other: Seq<char>,
    policy: ResolutionPolicy,
    producer: ProducerView,
    created_at: Option<Seq<char>>,
)
    requires
        json_parse(text) == json_parse(other),
        json_parse(text) matches Ok(tree) && decode_envelope(tree) matches Ok(env)
            ==> env.operations.len() <= usize::MAX,
    ensures
        spec_compile(seq![DocView { identity, position, source: text }], policy, producer, created_at)
            matches Ok(c) ==> spec_compile(
            seq![DocView { identity, position, source: other }],
            policy,
            producer,
            created_at,
        ) matches Ok(d) && d.requirements == c.requirements && d.content_digest == c.content_digest,
{
    let d1 = DocView { identity, position, source: text };
    let d2 = DocView { identity, position, source: other };
    lemma_ingest_single(d1);
    lemma_ingest_single(d2);
    let i1 = ingest(seq![d1]);
    let i2 = ingest(seq![d2]);
    let c1 = spec_compile(seq![d1], policy, producer, created_at);
    if c1 is Ok {
        let rec1 = doc_record(d1);
        let rec2 = doc_record(d2);
        let tree = json_parse(text)->Ok_0;
        let env = decode_envelope(tree)->Ok_0;
        let evs1 = operation_events(rec1, env.operations);
        let evs2 = operation_events(rec2, env.operations);
        assert(i1.records == seq![rec1] && i1.events == evs1) by {
            assert(Seq::<EventView>::empty() + evs1 =~= evs1);
            assert(Seq::<RecordView>::empty().push(rec1) =~= seq![rec1]);
        }
        assert(i2.records == seq![rec2] && i2.events == evs2 && i2.diagnostics.len() == 0) by {
            assert(Seq::<EventView>::empty() + evs2 =~= evs2);
            assert(Seq::<RecordView>::empty().push(rec2) =~= seq![rec2]);
        }
        lemma_resolve_single_source(rec1, rec2, env.operations);
        let reqs = spec_resolve(seq![rec1], evs1)->Ok_0.0;
        lemma_single_source_contract(rec1, rec2, policy, producer, created_at, reqs);
    }
}

} // verus!
