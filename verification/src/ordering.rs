//! Resolution depends on the events of a history, not on the order in which
//! they are stored: precedence alone orders them.
use vstd::prelude::*;
use vstd::seq_lib::group_to_multiset_ensures;

use crate::certificate::{OperatorView, PreconditionView};
use crate::engine::{doc_lt, insert_doc, sort_docs, spec_compile, DocView};
use crate::ir::{ProducerView, RecordView};
use crate::text::{
    lemma_seq_lt_asymmetric, lemma_seq_lt_irreflexive, lemma_seq_lt_total, lemma_seq_lt_transitive,
};
use crate::variant::spec_generate;
use crate::resolution::{
    event_conflicts, event_conflicts_at, event_matches_source, fold_events, initial_state,
    insert_by_precedence, precedence_lt, precedence_order, prev_precedence, resolve_step,
    source_conflicts, spec_resolve, structure_conflicts, EventView, ResolutionPolicy, ResolveState,
};

verus! {

/// Inserts an event after every event whose precedence does not exceed its own.
pub open spec fn insert_event(t: Seq<EventView>, e: EventView) -> Seq<EventView>
    decreases t.len(),
{
    if t.len() == 0 {
        seq![e]
    } else if precedence_lt(e.precedence, t.last().precedence) {
        insert_event(t.drop_last(), e).push(t.last())
    } else {
        t.push(e)
    }
}

/// The events stably sorted by precedence.
pub open spec fn sort_events(s: Seq<EventView>) -> Seq<EventView>
    decreases s.len(),
{
    if s.len() == 0 {
        Seq::empty()
    } else {
        insert_event(sort_events(s.drop_last()), s.last())
    }
}

/// The resolution state after applying events in the given order.
pub open spec fn apply_events(l: Seq<EventView>) -> ResolveState
    decreases l.len(),
{
    if l.len() == 0 {
        initial_state()
    } else {
        resolve_step(apply_events(l.drop_last()), l.last())
    }
}

/// No event precedes an earlier one.
pub open spec fn events_sorted(s: Seq<EventView>) -> bool {
    forall|i: int, j: int|
        0 <= i < j < s.len() ==> !precedence_lt(#[trigger] s[j].precedence, #[trigger] s[i].precedence)
}

/// No two events share a precedence.
pub open spec fn distinct_precedences(s: Seq<EventView>) -> bool {
    forall|i: int, j: int|
        0 <= i < s.len() && 0 <= j < s.len() && i != j ==> #[trigger] s[i].precedence
            != #[trigger] s[j].precedence
}

spec fn pick(evs: Seq<EventView>, ord: Seq<usize>) -> Seq<EventView> {
    ord.map_values(|k: usize| evs[k as int])
}

proof fn lemma_fold_pick(evs: Seq<EventView>, ord: Seq<usize>)
    ensures
        fold_events(evs, ord) == apply_events(pick(evs, ord)),
    decreases ord.len(),
{
    if ord.len() > 0 {
        lemma_fold_pick(evs, ord.drop_last());
        assert(pick(evs, ord).drop_last() =~= pick(evs, ord.drop_last()));
    } else {
        assert(pick(evs, ord) =~= Seq::<EventView>::empty());
    }
}

proof fn lemma_pick_insert(evs: Seq<EventView>, t: Seq<usize>, k: usize)
    ensures
        pick(evs, insert_by_precedence(evs, t, k)) == insert_event(pick(evs, t), evs[k as int]),
    decreases t.len(),
{
    if t.len() > 0 {
        assert(pick(evs, t).last() == evs[t.last() as int]);
        assert(pick(evs, t).drop_last() =~= pick(evs, t.drop_last()));
        if precedence_lt(evs[k as int].precedence, evs[t.last() as int].precedence) {
            lemma_pick_insert(evs, t.drop_last(), k);
            let inner = insert_by_precedence(evs, t.drop_last(), k);
            assert(pick(evs, inner.push(t.last())) =~= pick(evs, inner).push(evs[t.last() as int]));
        } else {
            assert(pick(evs, t.push(k)) =~= pick(evs, t).push(evs[k as int]));
        }
    } else {
        assert(pick(evs, seq![k]) =~= seq![evs[k as int]]);
    }
}

proof fn lemma_pick_order(evs: Seq<EventView>, n: nat)
    requires
        n <= evs.len(),
        evs.len() <= usize::MAX,
    ensures
        pick(evs, precedence_order(evs, n)) == sort_events(evs.take(n as int)),
    decreases n,
{
    if n > 0 {
        lemma_pick_order(evs, (n - 1) as nat);
        lemma_pick_insert(evs, precedence_order(evs, (n - 1) as nat), (n - 1) as usize);
        assert(evs.take(n as int).drop_last() =~= evs.take(n - 1));
        assert(evs.take(n as int).last() == evs[n - 1]);
    } else {
        assert(pick(evs, Seq::<usize>::empty()) =~= Seq::<EventView>::empty());
        assert(evs.take(0) =~= Seq::<EventView>::empty());
    }
}

/// Resolution applies the events sorted by precedence.
pub proof fn lemma_resolution_applies_sorted(evs: Seq<EventView>)
    requires
        evs.len() <= usize::MAX,
    ensures
        fold_events(evs, precedence_order(evs, evs.len())) == apply_events(sort_events(evs)),
{
    lemma_fold_pick(evs, precedence_order(evs, evs.len()));
    lemma_pick_order(evs, evs.len());
    assert(evs.take(evs.len() as int) =~= evs);
}

proof fn lemma_insert_event_multiset(t: Seq<EventView>, e: EventView)
    ensures
        insert_event(t, e).to_multiset() == t.to_multiset().insert(e),
    decreases t.len(),
{
    broadcast use group_to_multiset_ensures;
    broadcast use vstd::multiset::group_multiset_axioms;

    if t.len() == 0 {
        assert(seq![e] =~= Seq::<EventView>::empty().push(e));
    } else if precedence_lt(e.precedence, t.last().precedence) {
        lemma_insert_event_multiset(t.drop_last(), e);
        assert(t.drop_last().push(t.last()) =~= t);
        assert(t.to_multiset() == t.drop_last().to_multiset().insert(t.last()));
        assert(t.drop_last().to_multiset().insert(e).insert(t.last()) =~= t.drop_last().to_multiset().insert(
            t.last(),
        ).insert(e));
    }
}

pub proof fn lemma_sort_events_multiset(s: Seq<EventView>)
    ensures
        sort_events(s).to_multiset() == s.to_multiset(),
    decreases s.len(),
{
    broadcast use group_to_multiset_ensures;

    if s.len() == 0 {
        assert(sort_events(s) =~= s);
    } else {
        lemma_sort_events_multiset(s.drop_last());
        lemma_insert_event_multiset(sort_events(s.drop_last()), s.last());
        assert(s.drop_last().push(s.last()) =~= s);
    }
}

proof fn lemma_insert_event_sorted(t: Seq<EventView>, e: EventView)
    requires
        events_sorted(t),
    ensures
        events_sorted(insert_event(t, e)),
    decreases t.len(),
{
    broadcast use group_to_multiset_ensures;
    broadcast use vstd::multiset::group_multiset_axioms;

    if t.len() > 0 {
        let r = insert_event(t, e);
        let last = t.last();
        if precedence_lt(e.precedence, last.precedence) {
            let u = t.drop_last();
            assert(events_sorted(u)) by {
                assert forall|i: int, j: int| 0 <= i < j < u.len() implies !precedence_lt(
                    #[trigger] u[j].precedence,
                    #[trigger] u[i].precedence,
                ) by {
                    assert(u[i] == t[i] && u[j] == t[j]);
                }
            }
            lemma_insert_event_sorted(u, e);
            lemma_insert_event_multiset(u, e);
            let inner = insert_event(u, e);
            assert forall|i: int, j: int| 0 <= i < j < r.len() implies !precedence_lt(
                #[trigger] r[j].precedence,
                #[trigger] r[i].precedence,
            ) by {
                if j < r.len() - 1 {
                    assert(r[i] == inner[i] && r[j] == inner[j]);
                } else {
                    assert(r[j] == last && r[i] == inner[i]);
                    let x = inner[i];
                    assert(inner.to_multiset().count(x) > 0) by {
                        assert(inner.contains(x));
                    }
                    if x != e {
                        assert(u.to_multiset().count(x) > 0);
                        assert(u.contains(x));
                        let k = choose|k: int| 0 <= k < u.len() && u[k] == x;
                        assert(t[k] == x);
                        assert(!precedence_lt(t[t.len() - 1].precedence, t[k].precedence));
                    }
                }
            }
        } else {
            assert forall|i: int, j: int| 0 <= i < j < r.len() implies !precedence_lt(
                #[trigger] r[j].precedence,
                #[trigger] r[i].precedence,
            ) by {
                if j < t.len() {
                    assert(r[i] == t[i] && r[j] == t[j]);
                } else {
                    assert(r[j] == e && r[i] == t[i]);
                    if i < t.len() - 1 {
                        assert(!precedence_lt(t[t.len() - 1].precedence, t[i].precedence));
                    }
                }
            }
        }
    }
}

pub proof fn lemma_sort_events_sorted(s: Seq<EventView>)
    ensures
        events_sorted(sort_events(s)),
    decreases s.len(),
{
    if s.len() > 0 {
        lemma_sort_events_sorted(s.drop_last());
        lemma_insert_event_sorted(sort_events(s.drop_last()), s.last());
    }
}

/// Distinct precedences carry over to any rearrangement of the same events.
proof fn lemma_distinct_transfer(a: Seq<EventView>, b: Seq<EventView>)
    requires
        a.to_multiset() == b.to_multiset(),
        distinct_precedences(a),
    ensures
        distinct_precedences(b),
{
    broadcast use group_to_multiset_ensures;

    assert(a.no_duplicates()) by {
        assert forall|i: int, j: int| 0 <= i < a.len() && 0 <= j < a.len() && i != j implies a[i]
            != a[j] by {
            assert(a[i].precedence != a[j].precedence);
        }
    }
    a.lemma_multiset_has_no_duplicates();
    b.lemma_multiset_has_no_duplicates_conv();
    assert forall|i: int, j: int|
        0 <= i < b.len() && 0 <= j < b.len() && i != j implies #[trigger] b[i].precedence
        != #[trigger] b[j].precedence by {
        assert(b[i] != b[j]);
        assert(b.contains(b[i]) && b.contains(b[j]));
        assert(a.to_multiset().count(b[i]) > 0 && a.to_multiset().count(b[j]) > 0);
        assert(a.contains(b[i]) && a.contains(b[j]));
        let p = choose|p: int| 0 <= p < a.len() && a[p] == b[i];
        let q = choose|q: int| 0 <= q < a.len() && a[q] == b[j];
        assert(p != q);
    }
}

/// Two sorted arrangements of the same events with distinct precedences are equal.
proof fn lemma_sorted_unique(a: Seq<EventView>, b: Seq<EventView>)
    requires
        a.to_multiset() == b.to_multiset(),
        events_sorted(a),
        events_sorted(b),
        distinct_precedences(a),
    ensures
        a == b,
    decreases a.len(),
{
    broadcast use group_to_multiset_ensures;

    assert(a.to_multiset().len() == a.len() && b.to_multiset().len() == b.len());
    assert(a.len() == b.len());
    if a.len() == 0 {
        assert(a =~= b);
    } else {
        let n = a.len() - 1;
        let x = a[n];
        let y = b[n];
        assert(b.contains(y));
        assert(a.to_multiset().count(y) > 0);
        assert(a.contains(y));
        let j = choose|j: int| 0 <= j < a.len() && a[j] == y;
        assert(a.contains(x));
        assert(b.to_multiset().count(x) > 0);
        assert(b.contains(x));
        let k = choose|k: int| 0 <= k < b.len() && b[k] == x;
        if j != n {
            assert(!precedence_lt(a[n].precedence, a[j].precedence));
            if k != n {
                assert(!precedence_lt(b[n].precedence, b[k].precedence));
            }
            assert(a[j].precedence == a[n].precedence);
            assert(false);
        }
        assert(x == y);
        assert(a.remove(n) =~= a.drop_last());
        assert(b.remove(n) =~= b.drop_last());
        assert(a.drop_last().to_multiset() == a.to_multiset().remove(x));
        assert(b.drop_last().to_multiset() == b.to_multiset().remove(y));
        let a0 = a.drop_last();
        let b0 = b.drop_last();
        assert(events_sorted(a0)) by {
            assert forall|i: int, j: int| 0 <= i < j < a0.len() implies !precedence_lt(
                #[trigger] a0[j].precedence,
                #[trigger] a0[i].precedence,
            ) by {
                assert(a0[i] == a[i] && a0[j] == a[j]);
            }
        }
        assert(events_sorted(b0)) by {
            assert forall|i: int, j: int| 0 <= i < j < b0.len() implies !precedence_lt(
                #[trigger] b0[j].precedence,
                #[trigger] b0[i].precedence,
            ) by {
                assert(b0[i] == b[i] && b0[j] == b[j]);
            }
        }
        assert(distinct_precedences(a0)) by {
            assert forall|i: int, j: int|
                0 <= i < a0.len() && 0 <= j < a0.len() && i != j implies #[trigger] a0[i].precedence
                != #[trigger] a0[j].precedence by {
                assert(a0[i] == a[i] && a0[j] == a[j]);
            }
        }
        lemma_sorted_unique(a0, b0);
        assert(a =~= b) by {
            assert forall|i: int| 0 <= i < a.len() implies a[i] == b[i] by {
                if i < n {
                    assert(a0[i] == a[i] && b0[i] == b[i]);
                }
            }
        }
    }
}

proof fn lemma_prev_precedence_none(evs: Seq<EventView>, i: int, j: int)
    requires
        0 <= j,
    ensures
        prev_precedence(evs, i, j) is None <==> forall|k: int|
            0 <= k < j ==> (#[trigger] evs[k]).precedence != evs[i].precedence,
    decreases j,
{
    if j > 0 {
        lemma_prev_precedence_none(evs, i, j - 1);
    }
}

proof fn lemma_event_conflicts_empty(s: Seq<RecordView>, evs: Seq<EventView>, n: int)
    requires
        0 <= n,
    ensures
        event_conflicts(s, evs, n).len() == 0 <==> forall|i: int|
            0 <= i < n ==> (#[trigger] event_conflicts_at(s, evs, i)).len() == 0,
    decreases n,
{
    if n > 0 {
        lemma_event_conflicts_empty(s, evs, n - 1);
    }
}

/// A history's events raise no structural conflict exactly when each names a
/// declared source and no two share a precedence.
proof fn lemma_events_well_formed(s: Seq<RecordView>, evs: Seq<EventView>)
    ensures
        event_conflicts(s, evs, evs.len() as int).len() == 0 <==> {
            &&& forall|i: int| 0 <= i < evs.len() ==> event_matches_source(s, #[trigger] evs[i])
            &&& distinct_precedences(evs)
        },
{
    lemma_event_conflicts_empty(s, evs, evs.len() as int);
    if event_conflicts(s, evs, evs.len() as int).len() == 0 {
        assert forall|i: int| 0 <= i < evs.len() implies event_matches_source(s, #[trigger] evs[i]) by {
            assert(event_conflicts_at(s, evs, i).len() == 0);
        }
        assert forall|i: int, j: int|
            0 <= i < evs.len() && 0 <= j < evs.len() && i != j implies #[trigger] evs[i].precedence
            != #[trigger] evs[j].precedence by {
            let (lo, hi) = if i < j {
                (i, j)
            } else {
                (j, i)
            };
            assert(event_conflicts_at(s, evs, hi).len() == 0);
            lemma_prev_precedence_none(evs, hi, hi);
            assert(evs[lo].precedence != evs[hi].precedence);
        }
    } else {
        let i = choose|i: int| 0 <= i < evs.len() && (#[trigger] event_conflicts_at(s, evs, i)).len() != 0;
        if event_matches_source(s, evs[i]) {
            lemma_prev_precedence_none(evs, i, i);
            let k = choose|k: int| 0 <= k < i && (#[trigger] evs[k]).precedence == evs[i].precedence;
            assert(evs[k].precedence == evs[i].precedence && k != i);
        }
    }
}

/// Resolution does not depend on the order in which a history stores its
/// events: for two histories with the same sources whose events are the same
/// up to rearrangement, when one has no structural conflict neither has the
/// other, and both resolve to the same effective requirements and decisions,
/// or fail with the same conflicts.
pub proof fn law_resolution_ignores_storage_order(
    sources: Seq<RecordView>,
    events: Seq<EventView>,
    rearranged: Seq<EventView>,
)
    requires
        events.to_multiset() == rearranged.to_multiset(),
        events.len() <= usize::MAX,
        structure_conflicts(sources, events).len() == 0,
    ensures
        structure_conflicts(sources, rearranged).len() == 0,
        spec_resolve(sources, rearranged) == spec_resolve(sources, events),
{
    broadcast use group_to_multiset_ensures;

    assert(events.to_multiset().len() == events.len());
    assert(rearranged.to_multiset().len() == rearranged.len());
    assert(events.len() == rearranged.len());
    lemma_events_well_formed(sources, events);
    lemma_events_well_formed(sources, rearranged);
    lemma_distinct_transfer(events, rearranged);
    assert forall|i: int| 0 <= i < rearranged.len() implies event_matches_source(
        sources,
        #[trigger] rearranged[i],
    ) by {
        assert(rearranged.contains(rearranged[i]));
        assert(events.to_multiset().count(rearranged[i]) > 0);
        assert(events.contains(rearranged[i]));
        let j = choose|j: int| 0 <= j < events.len() && events[j] == rearranged[i];
        assert(event_matches_source(sources, events[j]));
    }
    assert(structure_conflicts(sources, rearranged).len() == 0);
    lemma_resolution_applies_sorted(events);
    lemma_resolution_applies_sorted(rearranged);
    lemma_sort_events_multiset(events);
    lemma_sort_events_multiset(rearranged);
    lemma_sort_events_sorted(events);
    lemma_sort_events_sorted(rearranged);
    lemma_distinct_transfer(events, sort_events(events));
    lemma_sorted_unique(sort_events(events), sort_events(rearranged));
}

// ---------------------------------------------------------------------------
// Documents
// ---------------------------------------------------------------------------

/// No document follows a later one in canonical order.
pub open spec fn docs_sorted(s: Seq<DocView>) -> bool {
    forall|i: int, j: int| 0 <= i < j < s.len() ==> !doc_lt(#[trigger] s[j], #[trigger] s[i])
}

/// No two documents share a position and an identity.
pub open spec fn distinct_doc_keys(s: Seq<DocView>) -> bool {
    forall|i: int, j: int|
        0 <= i < s.len() && 0 <= j < s.len() && i != j ==> !((#[trigger] s[i]).position
            == (#[trigger] s[j]).position && s[i].identity == s[j].identity)
}

proof fn lemma_doc_order_total(a: DocView, b: DocView)
    requires
        !doc_lt(a, b),
        !doc_lt(b, a),
    ensures
        a.position == b.position && a.identity == b.identity,
{
    lemma_seq_lt_total(a.identity, b.identity);
}

proof fn lemma_doc_le_transitive(a: DocView, b: DocView, c: DocView)
    requires
        !doc_lt(b, a),
        !doc_lt(c, b),
    ensures
        !doc_lt(c, a),
{
    if doc_lt(c, a) {
        lemma_seq_lt_total(a.identity, b.identity);
        lemma_seq_lt_total(b.identity, c.identity);
        if a.identity == b.identity {
            if b.identity == c.identity {
                lemma_seq_lt_irreflexive(c.identity);
            } else {
                lemma_seq_lt_asymmetric(b.identity, c.identity);
            }
        } else {
            if b.identity == c.identity {
                lemma_seq_lt_asymmetric(a.identity, b.identity);
            } else {
                lemma_seq_lt_transitive(a.identity, b.identity, c.identity);
                lemma_seq_lt_asymmetric(a.identity, c.identity);
            }
        }
    }
}

proof fn lemma_doc_lt_asymmetric(a: DocView, b: DocView)
    requires
        doc_lt(a, b),
    ensures
        !doc_lt(b, a),
{
    if a.position == b.position {
        lemma_seq_lt_asymmetric(a.identity, b.identity);
    }
}

proof fn lemma_insert_doc_multiset(t: Seq<DocView>, e: DocView)
    ensures
        insert_doc(t, e).to_multiset() == t.to_multiset().insert(e),
    decreases t.len(),
{
    broadcast use group_to_multiset_ensures;
    broadcast use vstd::multiset::group_multiset_axioms;

    if t.len() == 0 {
        assert(seq![e] =~= Seq::<DocView>::empty().push(e));
    } else if doc_lt(e, t.last()) {
        lemma_insert_doc_multiset(t.drop_last(), e);
        assert(t.drop_last().push(t.last()) =~= t);
        assert(t.to_multiset() == t.drop_last().to_multiset().insert(t.last()));
        assert(t.drop_last().to_multiset().insert(e).insert(t.last()) =~= t.drop_last().to_multiset().insert(
            t.last(),
        ).insert(e));
    }
}

proof fn lemma_sort_docs_multiset(s: Seq<DocView>)
    ensures
        sort_docs(s).to_multiset() == s.to_multiset(),
    decreases s.len(),
{
    broadcast use group_to_multiset_ensures;

    if s.len() == 0 {
        assert(sort_docs(s) =~= s);
    } else {
        lemma_sort_docs_multiset(s.drop_last());
        lemma_insert_doc_multiset(sort_docs(s.drop_last()), s.last());
        assert(s.drop_last().push(s.last()) =~= s);
    }
}

proof fn lemma_insert_doc_sorted(t: Seq<DocView>, e: DocView)
    requires
        docs_sorted(t),
    ensures
        docs_sorted(insert_doc(t, e)),
    decreases t.len(),
{
    broadcast use group_to_multiset_ensures;
    broadcast use vstd::multiset::group_multiset_axioms;

    if t.len() > 0 {
        let r = insert_doc(t, e);
        let last = t.last();
        if doc_lt(e, last) {
            let u = t.drop_last();
            assert(docs_sorted(u)) by {
                assert forall|i: int, j: int| 0 <= i < j < u.len() implies !doc_lt(
                    #[trigger] u[j],
                    #[trigger] u[i],
                ) by {
                    assert(u[i] == t[i] && u[j] == t[j]);
                }
            }
            lemma_insert_doc_sorted(u, e);
            lemma_insert_doc_multiset(u, e);
            lemma_doc_lt_asymmetric(e, last);
            let inner = insert_doc(u, e);
            assert forall|i: int, j: int| 0 <= i < j < r.len() implies !doc_lt(
                #[trigger] r[j],
                #[trigger] r[i],
            ) by {
                if j < r.len() - 1 {
                    assert(r[i] == inner[i] && r[j] == inner[j]);
                } else {
                    assert(r[j] == last && r[i] == inner[i]);
                    let x = inner[i];
                    assert(inner.to_multiset().count(x) > 0) by {
                        assert(inner.contains(x));
                    }
                    if x != e {
                        assert(u.to_multiset().count(x) > 0);
                        assert(u.contains(x));
                        let k = choose|k: int| 0 <= k < u.len() && u[k] == x;
                        assert(t[k] == x);
                        assert(!doc_lt(t[t.len() - 1], t[k]));
                    }
                }
            }
        } else {
            assert forall|i: int, j: int| 0 <= i < j < r.len() implies !doc_lt(
                #[trigger] r[j],
                #[trigger] r[i],
            ) by {
                if j < t.len() {
                    assert(r[i] == t[i] && r[j] == t[j]);
                } else {
                    assert(r[j] == e && r[i] == t[i]);
                    if i < t.len() - 1 {
                        assert(!doc_lt(t[t.len() - 1], t[i]));
                        lemma_doc_le_transitive(t[i], last, e);
                    }
                }
            }
        }
    }
}

pub proof fn lemma_sort_docs_sorted(s: Seq<DocView>)
    ensures
        docs_sorted(sort_docs(s)),
    decreases s.len(),
{
    if s.len() > 0 {
        lemma_sort_docs_sorted(s.drop_last());
        lemma_insert_doc_sorted(sort_docs(s.drop_last()), s.last());
    }
}

proof fn lemma_distinct_doc_keys_transfer(a: Seq<DocView>, b: Seq<DocView>)
    requires
        a.to_multiset() == b.to_multiset(),
        distinct_doc_keys(a),
    ensures
        distinct_doc_keys(b),
{
    broadcast use group_to_multiset_ensures;

    assert(a.no_duplicates()) by {
        assert forall|i: int, j: int| 0 <= i < a.len() && 0 <= j < a.len() && i != j implies a[i]
            != a[j] by {
            assert(!(a[i].position == a[j].position && a[i].identity == a[j].identity));
        }
    }
    a.lemma_multiset_has_no_duplicates();
    b.lemma_multiset_has_no_duplicates_conv();
    assert forall|i: int, j: int|
        0 <= i < b.len() && 0 <= j < b.len() && i != j implies !((#[trigger] b[i]).position
        == (#[trigger] b[j]).position && b[i].identity == b[j].identity) by {
        assert(b[i] != b[j]);
        assert(b.contains(b[i]) && b.contains(b[j]));
        assert(a.to_multiset().count(b[i]) > 0 && a.to_multiset().count(b[j]) > 0);
        assert(a.contains(b[i]) && a.contains(b[j]));
        let p = choose|p: int| 0 <= p < a.len() && a[p] == b[i];
        let q = choose|q: int| 0 <= q < a.len() && a[q] == b[j];
        assert(p != q);
    }
}

proof fn lemma_sorted_docs_unique(a: Seq<DocView>, b: Seq<DocView>)
    requires
        a.to_multiset() == b.to_multiset(),
        docs_sorted(a),
        docs_sorted(b),
        distinct_doc_keys(a),
    ensures
        a == b,
    decreases a.len(),
{
    broadcast use group_to_multiset_ensures;

    assert(a.to_multiset().len() == a.len() && b.to_multiset().len() == b.len());
    if a.len() == 0 {
        assert(a =~= b);
    } else {
        let n = a.len() - 1;
        let x = a[n];
        let y = b[n];
        assert(b.contains(y));
        assert(a.to_multiset().count(y) > 0);
        assert(a.contains(y));
        let j = choose|j: int| 0 <= j < a.len() && a[j] == y;
        assert(a.contains(x));
        assert(b.to_multiset().count(x) > 0);
        assert(b.contains(x));
        let k = choose|k: int| 0 <= k < b.len() && b[k] == x;
        if j != n {
            assert(!doc_lt(a[n], a[j]));
            if k != n {
                assert(!doc_lt(b[n], b[k]));
            }
            lemma_doc_order_total(a[j], a[n]);
            assert(false);
        }
        assert(x == y);
        assert(a.remove(n) =~= a.drop_last());
        assert(b.remove(n) =~= b.drop_last());
        assert(a.drop_last().to_multiset() == a.to_multiset().remove(x));
        assert(b.drop_last().to_multiset() == b.to_multiset().remove(y));
        let a0 = a.drop_last();
        let b0 = b.drop_last();
        assert(docs_sorted(a0)) by {
            assert forall|i: int, j: int| 0 <= i < j < a0.len() implies !doc_lt(
                #[trigger] a0[j],
                #[trigger] a0[i],
            ) by {
                assert(a0[i] == a[i] && a0[j] == a[j]);
            }
        }
        assert(docs_sorted(b0)) by {
            assert forall|i: int, j: int| 0 <= i < j < b0.len() implies !doc_lt(
                #[trigger] b0[j],
                #[trigger] b0[i],
            ) by {
                assert(b0[i] == b[i] && b0[j] == b[j]);
            }
        }
        assert(distinct_doc_keys(a0)) by {
            assert forall|i: int, j: int|
                0 <= i < a0.len() && 0 <= j < a0.len() && i != j implies !((#[trigger] a0[i]).position
                == (#[trigger] a0[j]).position && a0[i].identity == a0[j].identity) by {
                assert(a0[i] == a[i] && a0[j] == a[j]);
            }
        }
        lemma_sorted_docs_unique(a0, b0);
        assert(a =~= b) by {
            assert forall|i: int| 0 <= i < a.len() implies a[i] == b[i] by {
                if i < n {
                    assert(a0[i] == a[i] && b0[i] == b[i]);
                }
            }
        }
    }
}

/// Rearranging documents whose (position, identity) keys are distinct does
/// not change their canonical order.
pub proof fn lemma_sort_docs_ignores_storage_order(docs: Seq<DocView>, rearranged: Seq<DocView>)
    requires
        docs.to_multiset() == rearranged.to_multiset(),
        distinct_doc_keys(docs),
    ensures
        sort_docs(rearranged) == sort_docs(docs),
        rearranged.len() == docs.len(),
{
    broadcast use group_to_multiset_ensures;

    assert(docs.to_multiset().len() == docs.len());
    assert(rearranged.to_multiset().len() == rearranged.len());
    lemma_sort_docs_multiset(docs);
    lemma_sort_docs_multiset(rearranged);
    lemma_sort_docs_sorted(docs);
    lemma_sort_docs_sorted(rearranged);
    lemma_distinct_doc_keys_transfer(docs, sort_docs(docs));
    lemma_sorted_docs_unique(sort_docs(docs), sort_docs(rearranged));
}

/// Compilation does not depend on the order in which documents are passed:
/// rearranging documents that have distinct (position, identity) keys gives
/// the same contract, or the same diagnostics.
pub proof fn law_compilation_ignores_storage_order(
    docs: Seq<DocView>,
    rearranged: Seq<DocView>,
    policy: ResolutionPolicy,
    producer: ProducerView,
    created_at: Option<Seq<char>>,
)
    requires
        docs.to_multiset() == rearranged.to_multiset(),
        distinct_doc_keys(docs),
    ensures
        spec_compile(rearranged, policy, producer, created_at) == spec_compile(
            docs,
            policy,
            producer,
            created_at,
        ),
{
    lemma_sort_docs_ignores_storage_order(docs, rearranged);
}

/// Variant generation does not depend on the order in which the baseline's
/// documents are passed: rearranging documents that have distinct (position,
/// identity) keys gives the same outcome for the same operator behaviour.
pub proof fn law_generation_ignores_storage_order(
    docs: Seq<DocView>,
    rearranged: Seq<DocView>,
    identity: OperatorView,
    evaluations: Seq<PreconditionView>,
    transformed: Result<Seq<DocView>, Seq<char>>,
)
    requires
        docs.to_multiset() == rearranged.to_multiset(),
        distinct_doc_keys(docs),
    ensures
        spec_generate(rearranged, identity, evaluations, transformed) == spec_generate(
            docs,
            identity,
            evaluations,
            transformed,
        ),
{
    lemma_sort_docs_ignores_storage_order(docs, rearranged);
}

} // verus!
