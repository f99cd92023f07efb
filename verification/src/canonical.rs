//! Canonical JSON of the contract vocabulary: compact, fields in declaration
//! order, maps in ascending key order, empty attribute maps and absent
//! timestamps omitted.
use vstd::prelude::*;

use crate::ir::{
    records_view, Attribute, Producer, ProducerView, RecordView, Requirement, RequirementKind,
    RequirementMap, RequirementPriority, RequirementView, SourceRecord,
};
use crate::json::{json_str, write_str};
use crate::resolution::ResolutionPolicy;
use crate::text::{decimal, decimal_string};

verus! {

/// Items separated by commas.
pub open spec fn json_join(items: Seq<Seq<char>>) -> Seq<char>
    decreases items.len(),
{
    if items.len() == 0 {
        Seq::empty()
    } else if items.len() == 1 {
        items[0]
    } else {
        json_join(items.drop_last()) + seq![','] + items.last()
    }
}

/// Extending a list by one item extends its joined text by a separator and the item.
pub proof fn lemma_join_push(items: Seq<Seq<char>>, i: int)
    requires
        0 <= i < items.len(),
    ensures
        json_join(items.take(i + 1)) == json_join(items.take(i)) + (if i > 0 {
            seq![',']
        } else {
            Seq::<char>::empty()
        }) + items[i],
{
    assert(items.take(i + 1).drop_last() =~= items.take(i));
    if i == 0 {
        assert(json_join(items.take(0)) =~= Seq::<char>::empty());
        assert(Seq::<char>::empty() + Seq::<char>::empty() + items[0] =~= items[0]);
    }
}

pub open spec fn kind_name(k: RequirementKind) -> Seq<char> {
    match k {
        RequirementKind::Functional => "functional"@,
        RequirementKind::Quality => "quality"@,
        RequirementKind::Constraint => "constraint"@,
        RequirementKind::Acceptance => "acceptance"@,
        RequirementKind::Invariant => "invariant"@,
    }
}

pub fn kind_text(k: RequirementKind) -> (r: &'static str)
    ensures
        r@ == kind_name(k),
{
    match k {
        RequirementKind::Functional => "functional",
        RequirementKind::Quality => "quality",
        RequirementKind::Constraint => "constraint",
        RequirementKind::Acceptance => "acceptance",
        RequirementKind::Invariant => "invariant",
    }
}

pub open spec fn priority_name(p: RequirementPriority) -> Seq<char> {
    match p {
        RequirementPriority::Must => "must"@,
        RequirementPriority::Should => "should"@,
        RequirementPriority::May => "may"@,
    }
}

pub fn priority_text(p: RequirementPriority) -> (r: &'static str)
    ensures
        r@ == priority_name(p),
{
    match p {
        RequirementPriority::Must => "must",
        RequirementPriority::Should => "should",
        RequirementPriority::May => "may",
    }
}

pub open spec fn policy_name(p: ResolutionPolicy) -> Seq<char> {
    match p {
        ResolutionPolicy::Strict => "strict"@,
    }
}

pub fn policy_text(p: ResolutionPolicy) -> (r: &'static str)
    ensures
        r@ == policy_name(p),
{
    match p {
        ResolutionPolicy::Strict => "strict",
    }
}

pub open spec fn attribute_json(a: (Seq<char>, Seq<char>)) -> Seq<char> {
    json_str(a.0) + seq![':'] + json_str(a.1)
}

/// A requirement: `id`, `kind`, `priority`, `statement`, and `attributes` when there are any.
pub open spec fn requirement_json(r: RequirementView) -> Seq<char> {
    "{\"id\":"@ + json_str(r.id) + ",\"kind\":"@ + json_str(kind_name(r.kind))
        + ",\"priority\":"@ + json_str(priority_name(r.priority)) + ",\"statement\":"@
        + json_str(r.statement) + (if r.attributes.len() == 0 {
        Seq::empty()
    } else {
        ",\"attributes\":{"@ + json_join(r.attributes.map_values(|a: (Seq<char>, Seq<char>)| attribute_json(a)))
            + "}"@
    }) + "}"@
}

pub open spec fn map_entry_json(e: (Seq<char>, RequirementView)) -> Seq<char> {
    json_str(e.0) + seq![':'] + requirement_json(e.1)
}

/// A requirement map: an object keyed by requirement id.
pub open spec fn requirement_map_json(m: Seq<(Seq<char>, RequirementView)>) -> Seq<char> {
    seq!['{'] + json_join(m.map_values(|e: (Seq<char>, RequirementView)| map_entry_json(e))) + seq![
        '}',
    ]
}

pub open spec fn producer_json(p: ProducerView) -> Seq<char> {
    "{\"name\":"@ + json_str(p.name) + ",\"version\":"@ + json_str(p.version) + "}"@
}

pub open spec fn record_json(r: RecordView) -> Seq<char> {
    "{\"identity\":"@ + json_str(r.identity) + ",\"digest\":"@ + json_str(r.digest)
        + ",\"position\":"@ + decimal(r.position as nat) + "}"@
}

pub open spec fn records_json(s: Seq<RecordView>) -> Seq<char> {
    seq!['['] + json_join(s.map_values(|r: RecordView| record_json(r))) + seq![']']
}

pub open spec fn created_at_json(c: Option<Seq<char>>) -> Seq<char> {
    match c {
        Some(t) => ",\"createdAt\":"@ + json_str(t),
        None => Seq::empty(),
    }
}

pub open spec fn opt_view(c: Option<String>) -> Option<Seq<char>> {
    match c {
        Some(t) => Some(t@),
        None => None,
    }
}

fn write_attribute(out: &mut String, a: &Attribute)
    ensures
        final(out)@ == old(out)@ + attribute_json((a.key@, a.value@)),
{
    write_str(out, a.key.as_str());
    out.append(":");
    proof {
        reveal_strlit(":");
    }
    write_str(out, a.value.as_str());
    assert(final(out)@ =~= old(out)@ + attribute_json((a.key@, a.value@))) by {
        assert(":"@ =~= seq![':']);
    }
}

/// Appends the canonical JSON of a requirement.
pub fn write_requirement(out: &mut String, r: &Requirement)
    ensures
        final(out)@ == old(out)@ + requirement_json(r@),
{
    let ghost start = out@;
    out.append("{\"id\":");
    write_str(out, r.id().as_str());
    out.append(",\"kind\":");
    write_str(out, kind_text(r.kind()));
    out.append(",\"priority\":");
    write_str(out, priority_text(r.priority()));
    out.append(",\"statement\":");
    write_str(out, r.statement());
    let ghost head = out@;
    let attributes = r.attributes();
    let ghost items = r@.attributes.map_values(|a: (Seq<char>, Seq<char>)| attribute_json(a));
    if attributes.len() > 0 {
        out.append(",\"attributes\":{");
        let ghost open = out@;
        let mut i: usize = 0;
        assert(json_join(items.take(0)) =~= Seq::<char>::empty());
        while i < attributes.len()
            invariant
                i <= attributes@.len(),
                attributes@.map_values(|a: Attribute| (a.key@, a.value@)) == r@.attributes,
                items == r@.attributes.map_values(|a: (Seq<char>, Seq<char>)| attribute_json(a)),
                out@ == open + json_join(items.take(i as int)),
            decreases attributes@.len() - i,
        {
            proof {
                lemma_join_push(items, i as int);
                reveal_strlit(",");
            }
            if i > 0 {
                out.append(",");
                assert(","@ =~= seq![',']);
            }
            assert(items[i as int] == attribute_json((attributes@[i as int].key@, attributes@[i as int].value@)));
            write_attribute(out, &attributes[i]);
            i = i + 1;
        }
        assert(items.take(attributes@.len() as int) =~= items);
        out.append("}");
    }
    out.append("}");
    assert(out@ =~= start + requirement_json(r@));
}

/// Appends the canonical JSON of a requirement map.
pub fn write_requirement_map(out: &mut String, m: &RequirementMap)
    ensures
        final(out)@ == old(out)@ + requirement_map_json(m@),
{
    let ghost start = out@;
    let entries = m.entries();
    let ghost items = m@.map_values(|e: (Seq<char>, RequirementView)| map_entry_json(e));
    proof {
        reveal_strlit("{");
        reveal_strlit("}");
        reveal_strlit(",");
        reveal_strlit(":");
    }
    out.append("{");
    let mut i: usize = 0;
    assert(json_join(items.take(0)) =~= Seq::<char>::empty());
    while i < entries.len()
        invariant
            i <= entries@.len(),
            entries@.map_values(|e: (crate::ir::RequirementId, Requirement)| (e.0@, e.1@)) == m@,
            items == m@.map_values(|e: (Seq<char>, RequirementView)| map_entry_json(e)),
            out@ == start + seq!['{'] + json_join(items.take(i as int)),
            ","@ == seq![','],
            ":"@ == seq![':'],
        decreases entries@.len() - i,
    {
        proof {
            lemma_join_push(items, i as int);
        }
        let ghost before = out@;
        if i > 0 {
            out.append(",");
        }
        assert(m@[i as int] == (entries@[i as int].0@, entries@[i as int].1@));
        write_str(out, entries[i].0.as_str());
        out.append(":");
        write_requirement(out, &entries[i].1);
        assert(out@ =~= start + seq!['{'] + json_join(items.take(i + 1)));
        i = i + 1;
    }
    assert(items.take(entries@.len() as int) =~= items);
    out.append("}");
    assert(out@ =~= start + requirement_map_json(m@));
}

/// Appends the canonical JSON of a producer.
pub fn write_producer(out: &mut String, p: &Producer)
    ensures
        final(out)@ == old(out)@ + producer_json(p@),
{
    out.append("{\"name\":");
    write_str(out, p.name.as_str());
    out.append(",\"version\":");
    write_str(out, p.version.as_str());
    out.append("}");
}

/// Appends the canonical JSON of a list of source records.
pub fn write_records(out: &mut String, s: &Vec<SourceRecord>)
    ensures
        final(out)@ == old(out)@ + records_json(records_view(s@)),
{
    let ghost start = out@;
    let ghost items = records_view(s@).map_values(|r: RecordView| record_json(r));
    proof {
        reveal_strlit("[");
        reveal_strlit("]");
        reveal_strlit(",");
    }
    out.append("[");
    let mut i: usize = 0;
    assert(json_join(items.take(0)) =~= Seq::<char>::empty());
    while i < s.len()
        invariant
            i <= s@.len(),
            items == records_view(s@).map_values(|r: RecordView| record_json(r)),
            out@ == start + seq!['['] + json_join(items.take(i as int)),
            ","@ == seq![','],
        decreases s@.len() - i,
    {
        proof {
            lemma_join_push(items, i as int);
        }
        if i > 0 {
            out.append(",");
        }
        let r = &s[i];
        out.append("{\"identity\":");
        write_str(out, r.identity.as_str());
        out.append(",\"digest\":");
        write_str(out, r.digest.as_str());
        out.append(",\"position\":");
        out.append(decimal_string(r.position).as_str());
        out.append("}");
        assert(out@ =~= start + seq!['['] + json_join(items.take(i + 1)));
        i = i + 1;
    }
    assert(items.take(s@.len() as int) =~= items);
    out.append("]");
    assert(out@ =~= start + records_json(records_view(s@)));
}

/// Appends `,"createdAt":…` when there is a timestamp.
pub fn write_created_at(out: &mut String, c: &Option<String>)
    ensures
        final(out)@ == old(out)@ + created_at_json(opt_view(*c)),
{
    match c {
        Some(t) => {
            out.append(",\"createdAt\":");
            write_str(out, t.as_str());
        },
        None => {
            assert(out@ =~= out@ + Seq::<char>::empty());
        },
    }
}

} // verus!
