//! Reading a parsed `xunlie.source/v1` document: the envelope, its operations
//! and their requirements. Objects admit only their declared fields; the first
//! problem found is reported.
use vstd::prelude::*;

use crate::canonical::{kind_name, priority_name};
use crate::ir::{
    spec_requirement_id, Attribute, Requirement, RequirementId, RequirementIdError,
    RequirementKind, RequirementPriority, RequirementView,
};
use crate::json::JsonValue;
use crate::resolution::{Operation, OperationView};
use crate::text::{concat3, decimal, decimal_string, seq_lt, str_lt};

verus! {

// ---------------------------------------------------------------------------
// Object members
// ---------------------------------------------------------------------------

/// The index of the first member, from `k` on, with the given key.
pub open spec fn member_index(ms: Seq<(String, JsonValue)>, key: Seq<char>, k: int) -> Option<int>
    decreases ms.len() - k,
{
    if k < 0 || k >= ms.len() {
        None
    } else if ms[k].0@ == key {
        Some(k)
    } else {
        member_index(ms, key, k + 1)
    }
}

/// The value of the member with the given key.
pub open spec fn member(ms: Seq<(String, JsonValue)>, key: Seq<char>) -> Option<JsonValue> {
    match member_index(ms, key, 0) {
        Some(i) => Some(ms[i].1),
        None => None,
    }
}

/// The index of the first member, from `k` on, whose key is not a declared field.
pub open spec fn unknown_index(ms: Seq<(String, JsonValue)>, known: Seq<Seq<char>>, k: int) -> Option<
    int,
>
    decreases ms.len() - k,
{
    if k < 0 || k >= ms.len() {
        None
    } else if !known.contains(ms[k].0@) {
        Some(k)
    } else {
        unknown_index(ms, known, k + 1)
    }
}

pub open spec fn names(known: Seq<&str>) -> Seq<Seq<char>> {
    known.map_values(|s: &str| s@)
}

pub open spec fn unknown_field(key: Seq<char>) -> Seq<char> {
    "unknown field `"@ + key + "`"@
}

pub open spec fn missing_field(key: Seq<char>) -> Seq<char> {
    "missing field `"@ + key + "`"@
}

pub open spec fn unknown_variant(name: Seq<char>) -> Seq<char> {
    "unknown variant `"@ + name + "`"@
}

pub open spec fn invalid_type(expected: Seq<char>) -> Seq<char> {
    "invalid type: expected "@ + expected
}

/// The value of a field that must be present.
pub open spec fn required(ms: Seq<(String, JsonValue)>, key: Seq<char>) -> Result<JsonValue, Seq<char>> {
    match member(ms, key) {
        Some(v) => Ok(v),
        None => Err(missing_field(key)),
    }
}

/// Whether a text equals a literal.
fn text_is(s: &String, lit: &str) -> (r: bool)
    ensures
        r == (s@ == lit@),
{
    *s == String::from_str(lit)
}

fn find_member(ms: &Vec<(String, JsonValue)>, key: &str) -> (r: Option<usize>)
    ensures
        r matches Some(i) ==> member_index(ms@, key@, 0) == Some(i as int) && i < ms@.len(),
        r is None ==> member_index(ms@, key@, 0) is None,
{
    let mut k: usize = 0;
    while k < ms.len()
        invariant
            k <= ms@.len(),
            member_index(ms@, key@, 0) == member_index(ms@, key@, k as int),
        decreases ms@.len() - k,
    {
        if text_is(&ms[k].0, key) {
            return Some(k);
        }
        k = k + 1;
    }
    None
}

fn is_known(key: &String, known: &Vec<&str>) -> (r: bool)
    ensures
        r == names(known@).contains(key@),
{
    let mut j: usize = 0;
    while j < known.len()
        invariant
            j <= known@.len(),
            forall|i: int| 0 <= i < j ==> (#[trigger] names(known@)[i]) != key@,
        decreases known@.len() - j,
    {
        if text_is(key, known[j]) {
            assert(names(known@)[j as int] == key@);
            return true;
        }
        j = j + 1;
    }
    false
}

fn first_unknown(ms: &Vec<(String, JsonValue)>, known: &Vec<&str>) -> (r: Option<usize>)
    ensures
        r matches Some(i) ==> unknown_index(ms@, names(known@), 0) == Some(i as int) && i
            < ms@.len(),
        r is None ==> unknown_index(ms@, names(known@), 0) is None,
{
    let mut k: usize = 0;
    while k < ms.len()
        invariant
            k <= ms@.len(),
            unknown_index(ms@, names(known@), 0) == unknown_index(ms@, names(known@), k as int),
        decreases ms@.len() - k,
    {
        if !is_known(&ms[k].0, known) {
            return Some(k);
        }
        k = k + 1;
    }
    None
}

fn unknown_field_text(key: &String) -> (r: String)
    ensures
        r@ == unknown_field(key@),
{
    concat3("unknown field `", key.as_str(), "`")
}

fn missing_field_text(key: &str) -> (r: String)
    ensures
        r@ == missing_field(key@),
{
    concat3("missing field `", key, "`")
}

fn invalid_type_text(expected: &str) -> (r: String)
    ensures
        r@ == invalid_type(expected@),
{
    let mut out = String::from_str("invalid type: expected ");
    out.append(expected);
    out
}

// ---------------------------------------------------------------------------
// Scalars
// ---------------------------------------------------------------------------

/// How a rejected requirement id is explained.
pub open spec fn id_error_text(e: RequirementIdError) -> Seq<char> {
    match e {
        RequirementIdError::Empty => "requirement id must not be empty"@,
        RequirementIdError::TooLong(n) => "requirement id contains "@ + decimal(n as nat)
            + " bytes; maximum is 128"@,
        RequirementIdError::InvalidCharacter => "requirement id contains an invalid character"@,
    }
}

/// Explains why a requirement id was rejected.
pub fn id_error_message(e: RequirementIdError) -> (r: String)
    ensures
        r@ == id_error_text(e),
{
    match e {
        RequirementIdError::Empty => String::from_str("requirement id must not be empty"),
        RequirementIdError::TooLong(n) => {
            let digits = decimal_string(n);
            concat3("requirement id contains ", digits.as_str(), " bytes; maximum is 128")
        },
        RequirementIdError::InvalidCharacter => String::from_str(
            "requirement id contains an invalid character",
        ),
    }
}

pub open spec fn decode_id(v: JsonValue) -> Result<Seq<char>, Seq<char>> {
    match v {
        JsonValue::Str(s) => match spec_requirement_id(s@) {
            Ok(id) => Ok(id),
            Err(e) => Err(id_error_text(e)),
        },
        _ => Err(invalid_type("a requirement id string"@)),
    }
}

pub open spec fn kind_from_name(s: Seq<char>) -> Option<RequirementKind> {
    if s == kind_name(RequirementKind::Functional) {
        Some(RequirementKind::Functional)
    } else if s == kind_name(RequirementKind::Quality) {
        Some(RequirementKind::Quality)
    } else if s == kind_name(RequirementKind::Constraint) {
        Some(RequirementKind::Constraint)
    } else if s == kind_name(RequirementKind::Acceptance) {
        Some(RequirementKind::Acceptance)
    } else if s == kind_name(RequirementKind::Invariant) {
        Some(RequirementKind::Invariant)
    } else {
        None
    }
}

pub open spec fn decode_kind(v: JsonValue) -> Result<RequirementKind, Seq<char>> {
    match v {
        JsonValue::Str(s) => match kind_from_name(s@) {
            Some(k) => Ok(k),
            None => Err(unknown_variant(s@)),
        },
        _ => Err(invalid_type("a requirement kind string"@)),
    }
}

pub open spec fn priority_from_name(s: Seq<char>) -> Option<RequirementPriority> {
    if s == priority_name(RequirementPriority::Must) {
        Some(RequirementPriority::Must)
    } else if s == priority_name(RequirementPriority::Should) {
        Some(RequirementPriority::Should)
    } else if s == priority_name(RequirementPriority::May) {
        Some(RequirementPriority::May)
    } else {
        None
    }
}

pub open spec fn decode_priority(v: JsonValue) -> Result<RequirementPriority, Seq<char>> {
    match v {
        JsonValue::Str(s) => match priority_from_name(s@) {
            Some(p) => Ok(p),
            None => Err(unknown_variant(s@)),
        },
        _ => Err(invalid_type("a requirement priority string"@)),
    }
}

pub open spec fn decode_text(v: JsonValue, expected: Seq<char>) -> Result<Seq<char>, Seq<char>> {
    match v {
        JsonValue::Str(s) => Ok(s@),
        _ => Err(invalid_type(expected)),
    }
}

fn read_id(v: &JsonValue) -> (r: Result<RequirementId, String>)
    ensures
        r matches Ok(id) ==> decode_id(*v) == Ok::<Seq<char>, Seq<char>>(id@),
        r matches Err(m) ==> decode_id(*v) == Err::<Seq<char>, Seq<char>>(m@),
{
    match v {
        JsonValue::Str(s) => match RequirementId::new(s.as_str()) {
            Ok(id) => Ok(id),
            Err(e) => Err(id_error_message(e)),
        },
        _ => Err(invalid_type_text("a requirement id string")),
    }
}

fn read_kind(v: &JsonValue) -> (r: Result<RequirementKind, String>)
    ensures
        r matches Ok(k) ==> decode_kind(*v) == Ok::<RequirementKind, Seq<char>>(k),
        r matches Err(m) ==> decode_kind(*v) == Err::<RequirementKind, Seq<char>>(m@),
{
    match v {
        JsonValue::Str(s) => {
            if text_is(s, "functional") {
                Ok(RequirementKind::Functional)
            } else if text_is(s, "quality") {
                Ok(RequirementKind::Quality)
            } else if text_is(s, "constraint") {
                Ok(RequirementKind::Constraint)
            } else if text_is(s, "acceptance") {
                Ok(RequirementKind::Acceptance)
            } else if text_is(s, "invariant") {
                Ok(RequirementKind::Invariant)
            } else {
                Err(concat3("unknown variant `", s.as_str(), "`"))
            }
        },
        _ => Err(invalid_type_text("a requirement kind string")),
    }
}

fn read_priority(v: &JsonValue) -> (r: Result<RequirementPriority, String>)
    ensures
        r matches Ok(p) ==> decode_priority(*v) == Ok::<RequirementPriority, Seq<char>>(p),
        r matches Err(m) ==> decode_priority(*v) == Err::<RequirementPriority, Seq<char>>(m@),
{
    match v {
        JsonValue::Str(s) => {
            if text_is(s, "must") {
                Ok(RequirementPriority::Must)
            } else if text_is(s, "should") {
                Ok(RequirementPriority::Should)
            } else if text_is(s, "may") {
                Ok(RequirementPriority::May)
            } else {
                Err(concat3("unknown variant `", s.as_str(), "`"))
            }
        },
        _ => Err(invalid_type_text("a requirement priority string")),
    }
}

fn read_text(v: &JsonValue, expected: &str) -> (r: Result<String, String>)
    ensures
        r matches Ok(s) ==> decode_text(*v, expected@) == Ok::<Seq<char>, Seq<char>>(s@),
        r matches Err(m) ==> decode_text(*v, expected@) == Err::<Seq<char>, Seq<char>>(m@),
{
    match v {
        JsonValue::Str(s) => Ok(s.clone()),
        _ => Err(invalid_type_text(expected)),
    }
}

// ---------------------------------------------------------------------------
// Attributes
// ---------------------------------------------------------------------------

/// The index of the first attribute, from `k` on, whose key does not precede `key`.
pub open spec fn attr_position(s: Seq<(Seq<char>, Seq<char>)>, key: Seq<char>, k: int) -> int
    decreases s.len() - k,
{
    if k < 0 || k >= s.len() {
        s.len() as int
    } else if !seq_lt(s[k].0, key) {
        k
    } else {
        attr_position(s, key, k + 1)
    }
}

/// Adds an attribute to a key-ordered list, replacing one with the same key.
pub open spec fn attr_insert(s: Seq<(Seq<char>, Seq<char>)>, a: (Seq<char>, Seq<char>)) -> Seq<
    (Seq<char>, Seq<char>),
> {
    let p = attr_position(s, a.0, 0);
    if p < s.len() && s[p].0 == a.0 {
        s.update(p, a)
    } else {
        s.insert(p, a)
    }
}

/// Attribute keys in strictly ascending order, hence each key at most once.
pub open spec fn attrs_ascending(s: Seq<(Seq<char>, Seq<char>)>) -> bool {
    forall|i: int, j: int| 0 <= i < j < s.len() ==> seq_lt(#[trigger] s[i].0, #[trigger] s[j].0)
}

/// Attributes collected as a map, in the given order: each inserted in key
/// order, a later value replacing an earlier one with the same key.
pub open spec fn attrs_collect(s: Seq<(Seq<char>, Seq<char>)>) -> Seq<(Seq<char>, Seq<char>)>
    decreases s.len(),
{
    if s.len() == 0 {
        Seq::empty()
    } else {
        attr_insert(attrs_collect(s.drop_last()), s.last())
    }
}

proof fn lemma_attr_position(s: Seq<(Seq<char>, Seq<char>)>, key: Seq<char>, k: int)
    requires
        0 <= k <= s.len(),
    ensures
        k <= attr_position(s, key, k) <= s.len(),
        forall|j: int| k <= j < attr_position(s, key, k) ==> seq_lt(#[trigger] s[j].0, key),
        attr_position(s, key, k) < s.len() ==> !seq_lt(s[attr_position(s, key, k)].0, key),
    decreases s.len() - k,
{
    if k < s.len() && seq_lt(s[k].0, key) {
        lemma_attr_position(s, key, k + 1);
    }
}

/// Inserting an attribute keeps the keys in ascending order.
pub proof fn lemma_attr_insert_ascending(s: Seq<(Seq<char>, Seq<char>)>, a: (Seq<char>, Seq<char>))
    requires
        attrs_ascending(s),
    ensures
        attrs_ascending(attr_insert(s, a)),
{
    lemma_attr_position(s, a.0, 0);
    let p = attr_position(s, a.0, 0);
    let r = attr_insert(s, a);
    if p < s.len() && s[p].0 == a.0 {
        assert forall|i: int, j: int| 0 <= i < j < r.len() implies seq_lt(
            #[trigger] r[i].0,
            #[trigger] r[j].0,
        ) by {
            assert(r[i].0 == s[i].0);
            assert(r[j].0 == s[j].0);
        }
    } else {
        if p < s.len() {
            crate::text::lemma_seq_lt_total(s[p].0, a.0);
        }
        assert forall|i: int, j: int| 0 <= i < j < r.len() implies seq_lt(
            #[trigger] r[i].0,
            #[trigger] r[j].0,
        ) by {
            if j < p {
                assert(r[i] == s[i] && r[j] == s[j]);
            } else if j == p {
                assert(r[i] == s[i]);
            } else if i == p {
                assert(r[j] == s[j - 1]);
                if j - 1 > p {
                    crate::text::lemma_seq_lt_transitive(a.0, s[p].0, s[j - 1].0);
                }
            } else if i < p {
                assert(r[i] == s[i] && r[j] == s[j - 1]);
            } else {
                assert(r[i] == s[i - 1] && r[j] == s[j - 1]);
            }
        }
    }
}

/// Attributes collected as a map have ascending keys.
pub proof fn lemma_attrs_collect_ascending(s: Seq<(Seq<char>, Seq<char>)>)
    ensures
        attrs_ascending(attrs_collect(s)),
    decreases s.len(),
{
    if s.len() > 0 {
        lemma_attrs_collect_ascending(s.drop_last());
        lemma_attr_insert_ascending(attrs_collect(s.drop_last()), s.last());
    }
}

/// Decoded attributes have ascending keys.
proof fn lemma_attribute_values_ascending(ms: Seq<(String, JsonValue)>, n: int)
    ensures
        attribute_values(ms, n) matches Ok(a) ==> attrs_ascending(a),
    decreases n,
{
    if n > 0 {
        lemma_attribute_values_ascending(ms, n - 1);
        if let Ok(acc) = attribute_values(ms, n - 1) {
            if let JsonValue::Str(v) = ms[n - 1].1 {
                lemma_attr_insert_ascending(acc, (ms[n - 1].0@, v@));
            }
        }
    }
}

/// The attributes of the first `n` members, each value a string, in key order.
pub open spec fn attribute_values(ms: Seq<(String, JsonValue)>, n: int) -> Result<
    Seq<(Seq<char>, Seq<char>)>,
    Seq<char>,
>
    decreases n,
{
    if n <= 0 {
        Ok(Seq::empty())
    } else {
        match attribute_values(ms, n - 1) {
            Err(e) => Err(e),
            Ok(acc) => match ms[n - 1].1 {
                JsonValue::Str(v) => Ok(attr_insert(acc, (ms[n - 1].0@, v@))),
                _ => Err(invalid_type("a string attribute value"@)),
            },
        }
    }
}

/// Once a member is rejected, longer prefixes are rejected with the same message.
proof fn lemma_attribute_values_err(ms: Seq<(String, JsonValue)>, n: int, m: int)
    requires
        0 <= n <= m,
        attribute_values(ms, n) is Err,
    ensures
        attribute_values(ms, m) == attribute_values(ms, n),
    decreases m - n,
{
    if m > n {
        lemma_attribute_values_err(ms, n, m - 1);
    }
}

pub open spec fn decode_attributes(v: Option<JsonValue>) -> Result<
    Seq<(Seq<char>, Seq<char>)>,
    Seq<char>,
> {
    match v {
        None => Ok(Seq::empty()),
        Some(JsonValue::Object(ms)) => attribute_values(ms@, ms@.len() as int),
        Some(_) => Err(invalid_type("a map of attribute strings"@)),
    }
}

pub open spec fn attrs_view(v: Seq<Attribute>) -> Seq<(Seq<char>, Seq<char>)> {
    v.map_values(|a: Attribute| (a.key@, a.value@))
}

pub(crate) fn insert_attribute(attrs: &mut Vec<Attribute>, a: Attribute)
    ensures
        attrs_view(final(attrs)@) == attr_insert(attrs_view(old(attrs)@), (a.key@, a.value@)),
{
    let ghost v = attrs_view(attrs@);
    let ghost entry = (a.key@, a.value@);
    let mut k: usize = 0;
    while k < attrs.len()
        invariant
            k <= attrs@.len(),
            v == attrs_view(attrs@),
            attr_position(v, entry.0, 0) == attr_position(v, entry.0, k as int),
            entry == (a.key@, a.value@),
        ensures
            k <= attrs@.len(),
            attr_position(v, entry.0, 0) == attr_position(v, entry.0, k as int),
            k == attrs@.len() || !seq_lt(v[k as int].0, entry.0),
        decreases attrs@.len() - k,
    {
        assert(v[k as int] == (attrs@[k as int].key@, attrs@[k as int].value@));
        if !str_lt(attrs[k].key.as_str(), a.key.as_str()) {
            break;
        }
        k = k + 1;
    }
    if k < attrs.len() && attrs[k].key == a.key {
        assert(v[k as int].0 == entry.0);
        attrs.set(k, a);
        assert(attrs_view(attrs@) =~= v.update(k as int, entry));
    } else {
        proof {
            if k < attrs@.len() {
                assert(v[k as int].0 != entry.0);
            }
        }
        attrs.insert(k, a);
        assert(attrs_view(attrs@) =~= v.insert(k as int, entry));
    }
}

fn read_attributes(v: &JsonValue) -> (r: Result<Vec<Attribute>, String>)
    ensures
        r matches Ok(a) ==> decode_attributes(Some(*v)) == Ok::<
            Seq<(Seq<char>, Seq<char>)>,
            Seq<char>,
        >(attrs_view(a@)),
        r matches Err(m) ==> decode_attributes(Some(*v)) == Err::<
            Seq<(Seq<char>, Seq<char>)>,
            Seq<char>,
        >(m@),
{
    match v {
        JsonValue::Object(ms) => {
            let mut out: Vec<Attribute> = Vec::new();
            assert(attrs_view(out@) =~= Seq::<(Seq<char>, Seq<char>)>::empty());
            let mut i: usize = 0;
            while i < ms.len()
                invariant
                    i <= ms@.len(),
                    *v == JsonValue::Object(*ms),
                    attribute_values(ms@, i as int) == Ok::<
                        Seq<(Seq<char>, Seq<char>)>,
                        Seq<char>,
                    >(attrs_view(out@)),
                decreases ms@.len() - i,
            {
                match &ms[i].1 {
                    JsonValue::Str(value) => {
                        insert_attribute(
                            &mut out,
                            Attribute { key: ms[i].0.clone(), value: value.clone() },
                        );
                    },
                    _ => {
                        proof {
                            lemma_attribute_values_err(ms@, i + 1, ms@.len() as int);
                        }
                        return Err(invalid_type_text("a string attribute value"));
                    },
                }
                i = i + 1;
            }
            Ok(out)
        },
        _ => Err(invalid_type_text("a map of attribute strings")),
    }
}

// ---------------------------------------------------------------------------
// Requirements and operations
// ---------------------------------------------------------------------------

pub open spec fn requirement_fields() -> Seq<Seq<char>> {
    seq!["id"@, "kind"@, "priority"@, "statement"@, "attributes"@]
}

/// A requirement object: `id`, `kind`, `priority`, `statement` and optional `attributes`.
pub open spec fn decode_requirement(v: JsonValue) -> Result<RequirementView, Seq<char>> {
    match v {
        JsonValue::Object(ms) => {
            let m = ms@;
            match unknown_index(m, requirement_fields(), 0) {
                Some(i) => Err(unknown_field(m[i].0@)),
                None => match required(m, "id"@) {
                    Err(e) => Err(e),
                    Ok(x) => match decode_id(x) {
                        Err(e) => Err(e),
                        Ok(id) => match required(m, "kind"@) {
                            Err(e) => Err(e),
                            Ok(x) => match decode_kind(x) {
                                Err(e) => Err(e),
                                Ok(kind) => match required(m, "priority"@) {
                                    Err(e) => Err(e),
                                    Ok(x) => match decode_priority(x) {
                                        Err(e) => Err(e),
                                        Ok(priority) => match required(m, "statement"@) {
                                            Err(e) => Err(e),
                                            Ok(x) => match decode_text(x, "a statement string"@) {
                                                Err(e) => Err(e),
                                                Ok(statement) => match decode_attributes(
                                                    member(m, "attributes"@),
                                                ) {
                                                    Err(e) => Err(e),
                                                    Ok(attributes) => Ok(
                                                        RequirementView {
                                                            id,
                                                            kind,
                                                            priority,
                                                            statement,
                                                            attributes,
                                                        },
                                                    ),
                                                },
                                            },
                                        },
                                    },
                                },
                            },
                        },
                    },
                },
            }
        },
        _ => Err(invalid_type("a requirement object"@)),
    }
}

/// The value of a field that must be present, or the error that says it is missing.
fn read_required<'a>(ms: &'a Vec<(String, JsonValue)>, key: &str) -> (r: Result<&'a JsonValue, String>)
    ensures
        r matches Ok(x) ==> required(ms@, key@) == Ok::<JsonValue, Seq<char>>(*x),
        r matches Err(e) ==> required(ms@, key@) == Err::<JsonValue, Seq<char>>(e@),
{
    match find_member(ms, key) {
        Some(i) => Ok(&ms[i].1),
        None => Err(missing_field_text(key)),
    }
}

fn read_requirement(v: &JsonValue) -> (r: Result<Requirement, String>)
    ensures
        r matches Ok(q) ==> decode_requirement(*v) == Ok::<RequirementView, Seq<char>>(q@),
        r matches Err(e) ==> decode_requirement(*v) == Err::<RequirementView, Seq<char>>(e@),
{
    match v {
        JsonValue::Object(ms) => {
            let known = vec!["id", "kind", "priority", "statement", "attributes"];
            assert(names(known@) =~= requirement_fields());
            match first_unknown(ms, &known) {
                Some(i) => {
                    return Err(unknown_field_text(&ms[i].0));
                },
                None => {},
            }
            let id = match read_required(ms, "id") {
                Err(e) => return Err(e),
                Ok(x) => match read_id(x) {
                    Err(e) => return Err(e),
                    Ok(id) => id,
                },
            };
            let kind = match read_required(ms, "kind") {
                Err(e) => return Err(e),
                Ok(x) => match read_kind(x) {
                    Err(e) => return Err(e),
                    Ok(k) => k,
                },
            };
            let priority = match read_required(ms, "priority") {
                Err(e) => return Err(e),
                Ok(x) => match read_priority(x) {
                    Err(e) => return Err(e),
                    Ok(p) => p,
                },
            };
            let statement = match read_required(ms, "statement") {
                Err(e) => return Err(e),
                Ok(x) => match read_text(x, "a statement string") {
                    Err(e) => return Err(e),
                    Ok(s) => s,
                },
            };
            let attributes = match find_member(ms, "attributes") {
                None => {
                    let out: Vec<Attribute> = Vec::new();
                    assert(attrs_view(out@) =~= Seq::<(Seq<char>, Seq<char>)>::empty());
                    out
                },
                Some(i) => match read_attributes(&ms[i].1) {
                    Err(e) => return Err(e),
                    Ok(a) => {
                        proof {
                            if let JsonValue::Object(am) = ms@[i as int].1 {
                                lemma_attribute_values_ascending(am@, am@.len() as int);
                            }
                        }
                        a
                    },
                },
            };
            let q = Requirement::from_sorted_parts(id, kind, priority, statement, attributes);
            Ok(q)
        },
        _ => Err(invalid_type_text("a requirement object")),
    }
}

/// An operation object, tagged by `op`: `add` with a `requirement`, `replace`
/// with a `target` and a `requirement`, `revoke` with a `target`.
pub open spec fn decode_operation(v: JsonValue) -> Result<OperationView, Seq<char>> {
    match v {
        JsonValue::Object(ms) => {
            let m = ms@;
            match member(m, "op"@) {
                None => Err(missing_field("op"@)),
                Some(JsonValue::Str(tag)) => if tag@ == "add"@ {
                    match unknown_index(m, seq!["op"@, "requirement"@], 0) {
                        Some(i) => Err(unknown_field(m[i].0@)),
                        None => match required(m, "requirement"@) {
                            Err(e) => Err(e),
                            Ok(x) => match decode_requirement(x) {
                                Err(e) => Err(e),
                                Ok(q) => Ok(OperationView::Add(q)),
                            },
                        },
                    }
                } else if tag@ == "replace"@ {
                    match unknown_index(m, seq!["op"@, "target"@, "requirement"@], 0) {
                        Some(i) => Err(unknown_field(m[i].0@)),
                        None => match required(m, "target"@) {
                            Err(e) => Err(e),
                            Ok(x) => match decode_id(x) {
                                Err(e) => Err(e),
                                Ok(target) => match required(m, "requirement"@) {
                                    Err(e) => Err(e),
                                    Ok(x) => match decode_requirement(x) {
                                        Err(e) => Err(e),
                                        Ok(q) => Ok(OperationView::Replace(target, q)),
                                    },
                                },
                            },
                        },
                    }
                } else if tag@ == "revoke"@ {
                    match unknown_index(m, seq!["op"@, "target"@], 0) {
                        Some(i) => Err(unknown_field(m[i].0@)),
                        None => match required(m, "target"@) {
                            Err(e) => Err(e),
                            Ok(x) => match decode_id(x) {
                                Err(e) => Err(e),
                                Ok(target) => Ok(OperationView::Revoke(target)),
                            },
                        },
                    }
                } else {
                    Err(unknown_variant(tag@))
                },
                Some(_) => Err(invalid_type("an operation tag string"@)),
            }
        },
        _ => Err(invalid_type("an operation object"@)),
    }
}

fn read_add(ms: &Vec<(String, JsonValue)>) -> (r: Result<Operation, String>)
    ensures
        ({
            let m = ms@;
            let spec = match unknown_index(m, seq!["op"@, "requirement"@], 0) {
                Some(i) => Err(unknown_field(m[i].0@)),
                None => match required(m, "requirement"@) {
                    Err(e) => Err(e),
                    Ok(x) => match decode_requirement(x) {
                        Err(e) => Err(e),
                        Ok(q) => Ok(OperationView::Add(q)),
                    },
                },
            };
            &&& r matches Ok(op) ==> spec == Ok::<OperationView, Seq<char>>(op@)
            &&& r matches Err(e) ==> spec == Err::<OperationView, Seq<char>>(e@)
        }),
{
    let known = vec!["op", "requirement"];
    assert(names(known@) =~= seq!["op"@, "requirement"@]);
    match first_unknown(ms, &known) {
        Some(i) => {
            return Err(unknown_field_text(&ms[i].0));
        },
        None => {},
    }
    match read_required(ms, "requirement") {
        Err(e) => Err(e),
        Ok(x) => match read_requirement(x) {
            Err(e) => Err(e),
            Ok(q) => Ok(Operation::Add { requirement: q }),
        },
    }
}

fn read_replace(ms: &Vec<(String, JsonValue)>) -> (r: Result<Operation, String>)
    ensures
        ({
            let m = ms@;
            let spec = match unknown_index(m, seq!["op"@, "target"@, "requirement"@], 0) {
                Some(i) => Err(unknown_field(m[i].0@)),
                None => match required(m, "target"@) {
                    Err(e) => Err(e),
                    Ok(x) => match decode_id(x) {
                        Err(e) => Err(e),
                        Ok(target) => match required(m, "requirement"@) {
                            Err(e) => Err(e),
                            Ok(x) => match decode_requirement(x) {
                                Err(e) => Err(e),
                                Ok(q) => Ok(OperationView::Replace(target, q)),
                            },
                        },
                    },
                },
            };
            &&& r matches Ok(op) ==> spec == Ok::<OperationView, Seq<char>>(op@)
            &&& r matches Err(e) ==> spec == Err::<OperationView, Seq<char>>(e@)
        }),
{
    let known = vec!["op", "target", "requirement"];
    assert(names(known@) =~= seq!["op"@, "target"@, "requirement"@]);
    match first_unknown(ms, &known) {
        Some(i) => {
            return Err(unknown_field_text(&ms[i].0));
        },
        None => {},
    }
    let target = match read_required(ms, "target") {
        Err(e) => return Err(e),
        Ok(x) => match read_id(x) {
            Err(e) => return Err(e),
            Ok(t) => t,
        },
    };
    match read_required(ms, "requirement") {
        Err(e) => Err(e),
        Ok(x) => match read_requirement(x) {
            Err(e) => Err(e),
            Ok(q) => Ok(Operation::Replace { target, requirement: q }),
        },
    }
}

fn read_revoke(ms: &Vec<(String, JsonValue)>) -> (r: Result<Operation, String>)
    ensures
        ({
            let m = ms@;
            let spec = match unknown_index(m, seq!["op"@, "target"@], 0) {
                Some(i) => Err(unknown_field(m[i].0@)),
                None => match required(m, "target"@) {
                    Err(e) => Err(e),
                    Ok(x) => match decode_id(x) {
                        Err(e) => Err(e),
                        Ok(target) => Ok(OperationView::Revoke(target)),
                    },
                },
            };
            &&& r matches Ok(op) ==> spec == Ok::<OperationView, Seq<char>>(op@)
            &&& r matches Err(e) ==> spec == Err::<OperationView, Seq<char>>(e@)
        }),
{
    let known = vec!["op", "target"];
    assert(names(known@) =~= seq!["op"@, "target"@]);
    match first_unknown(ms, &known) {
        Some(i) => {
            return Err(unknown_field_text(&ms[i].0));
        },
        None => {},
    }
    match read_required(ms, "target") {
        Err(e) => Err(e),
        Ok(x) => match read_id(x) {
            Err(e) => Err(e),
            Ok(target) => Ok(Operation::Revoke { target }),
        },
    }
}

fn read_operation(v: &JsonValue) -> (r: Result<Operation, String>)
    ensures
        r matches Ok(op) ==> decode_operation(*v) == Ok::<OperationView, Seq<char>>(op@),
        r matches Err(e) ==> decode_operation(*v) == Err::<OperationView, Seq<char>>(e@),
{
    match v {
        JsonValue::Object(ms) => match find_member(ms, "op") {
            None => Err(missing_field_text("op")),
            Some(i) => match &ms[i].1 {
                JsonValue::Str(tag) => {
                    if text_is(tag, "add") {
                        read_add(ms)
                    } else if text_is(tag, "replace") {
                        read_replace(ms)
                    } else if text_is(tag, "revoke") {
                        read_revoke(ms)
                    } else {
                        Err(concat3("unknown variant `", tag.as_str(), "`"))
                    }
                },
                _ => Err(invalid_type_text("an operation tag string")),
            },
        },
        _ => Err(invalid_type_text("an operation object")),
    }
}

/// The operations of a list, in order, or the first problem found.
pub open spec fn decode_operations(items: Seq<JsonValue>, n: int) -> Result<Seq<OperationView>, Seq<char>>
    decreases n,
{
    if n <= 0 {
        Ok(Seq::empty())
    } else {
        match decode_operations(items, n - 1) {
            Err(e) => Err(e),
            Ok(acc) => match decode_operation(items[n - 1]) {
                Err(e) => Err(e),
                Ok(op) => Ok(acc.push(op)),
            },
        }
    }
}

proof fn lemma_decode_operations_err(items: Seq<JsonValue>, n: int, m: int)
    requires
        0 <= n <= m,
        decode_operations(items, n) is Err,
    ensures
        decode_operations(items, m) == decode_operations(items, n),
    decreases m - n,
{
    if m > n {
        lemma_decode_operations_err(items, n, m - 1);
    }
}

/// The content of a decoded source document.
pub struct EnvelopeView {
    pub schema_version: Seq<char>,
    pub operations: Seq<OperationView>,
}

/// A source document: `schemaVersion` and, optionally, `operations`.
pub open spec fn decode_envelope(v: JsonValue) -> Result<EnvelopeView, Seq<char>> {
    match v {
        JsonValue::Object(ms) => {
            let m = ms@;
            match unknown_index(m, seq!["schemaVersion"@, "operations"@], 0) {
                Some(i) => Err(unknown_field(m[i].0@)),
                None => match required(m, "schemaVersion"@) {
                    Err(e) => Err(e),
                    Ok(x) => match decode_text(x, "a schema version string"@) {
                        Err(e) => Err(e),
                        Ok(schema_version) => match member(m, "operations"@) {
                            None => Ok(EnvelopeView { schema_version, operations: Seq::empty() }),
                            Some(JsonValue::Array(items)) => match decode_operations(
                                items@,
                                items@.len() as int,
                            ) {
                                Err(e) => Err(e),
                                Ok(operations) => Ok(EnvelopeView { schema_version, operations }),
                            },
                            Some(_) => Err(invalid_type("a list of operations"@)),
                        },
                    },
                },
            }
        },
        _ => Err(invalid_type("a source envelope object"@)),
    }
}

/// A decoded source document.
pub struct SourceEnvelope {
    pub schema_version: String,
    pub operations: Vec<Operation>,
}

pub open spec fn ops_view(ops: Seq<Operation>) -> Seq<OperationView> {
    ops.map_values(|o: Operation| o@)
}

impl View for SourceEnvelope {
    type V = EnvelopeView;

    open spec fn view(&self) -> EnvelopeView {
        EnvelopeView { schema_version: self.schema_version@, operations: ops_view(self.operations@) }
    }
}

fn read_operations(items: &Vec<JsonValue>) -> (r: Result<Vec<Operation>, String>)
    ensures
        r matches Ok(ops) ==> decode_operations(items@, items@.len() as int) == Ok::<
            Seq<OperationView>,
            Seq<char>,
        >(ops_view(ops@)),
        r matches Err(e) ==> decode_operations(items@, items@.len() as int) == Err::<
            Seq<OperationView>,
            Seq<char>,
        >(e@),
{
    let mut out: Vec<Operation> = Vec::new();
    assert(ops_view(out@) =~= Seq::<OperationView>::empty());
    let mut i: usize = 0;
    while i < items.len()
        invariant
            i <= items@.len(),
            decode_operations(items@, i as int) == Ok::<Seq<OperationView>, Seq<char>>(
                ops_view(out@),
            ),
        decreases items@.len() - i,
    {
        match read_operation(&items[i]) {
            Ok(op) => {
                let ghost before = out@;
                out.push(op);
                assert(ops_view(out@) =~= ops_view(before).push(op@));
            },
            Err(e) => {
                proof {
                    lemma_decode_operations_err(items@, i + 1, items@.len() as int);
                }
                return Err(e);
            },
        }
        i = i + 1;
    }
    Ok(out)
}

/// Reads a parsed document as a `xunlie.source/v1` envelope.
pub fn read_envelope(v: &JsonValue) -> (r: Result<SourceEnvelope, String>)
    ensures
        r matches Ok(env) ==> decode_envelope(*v) == Ok::<EnvelopeView, Seq<char>>(env@),
        r matches Err(e) ==> decode_envelope(*v) == Err::<EnvelopeView, Seq<char>>(e@),
{
    match v {
        JsonValue::Object(ms) => {
            let known = vec!["schemaVersion", "operations"];
            assert(names(known@) =~= seq!["schemaVersion"@, "operations"@]);
            match first_unknown(ms, &known) {
                Some(i) => {
                    return Err(unknown_field_text(&ms[i].0));
                },
                None => {},
            }
            let schema_version = match read_required(ms, "schemaVersion") {
                Err(e) => return Err(e),
                Ok(x) => match read_text(x, "a schema version string") {
                    Err(e) => return Err(e),
                    Ok(s) => s,
                },
            };
            match find_member(ms, "operations") {
                None => {
                    let operations: Vec<Operation> = Vec::new();
                    assert(ops_view(operations@) =~= Seq::<OperationView>::empty());
                    Ok(SourceEnvelope { schema_version, operations })
                },
                Some(i) => match &ms[i].1 {
                    JsonValue::Array(items) => match read_operations(items) {
                        Err(e) => Err(e),
                        Ok(operations) => Ok(SourceEnvelope { schema_version, operations }),
                    },
                    _ => Err(invalid_type_text("a list of operations")),
                },
            }
        },
        _ => Err(invalid_type_text("a source envelope object")),
    }
}

} // verus!
