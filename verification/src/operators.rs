//! History transformations with explicit, executable preconditions, and the
//! two built-in ones.
use vstd::prelude::*;

use crate::canonical::{json_join, lemma_join_push, requirement_json, write_requirement};
use crate::certificate::{
    evaluations_view, PreconditionEvaluation, PreconditionStatus, PreconditionView,
    VariantOperatorIdentity, OperatorView,
};
use crate::decode::{decode_envelope, ops_view, read_envelope, EnvelopeView, SourceEnvelope};
use crate::engine::{docs_view, DocView, SourceDocument};
use crate::json::{compact_json, json_compact, json_parse, json_str, parse_json, write_str};
use crate::resolution::{Operation, OperationView};
use crate::text::{concat3, decimal, decimal_string};

verus! {

/// A pure history transformation with explicit, executable preconditions.
///
/// Implementations may propose a transformation, but cannot certify
/// themselves: generation recompiles both sides and fails closed when their
/// semantic contract digests differ.
pub trait VariantOperator {
    /// Returns the stable operator id and implementation version.
    fn identity(&self) -> VariantOperatorIdentity;

    /// Evaluates the operator's complete safe-domain preconditions.
    fn evaluate(&self, sources: &[SourceDocument]) -> Vec<PreconditionEvaluation>;

    /// Applies the transformation after every precondition passed.
    fn transform(&self, sources: &[SourceDocument]) -> Result<Vec<SourceDocument>, String>;
}

pub open spec fn evaluation_view(
    id: Seq<char>,
    passed: bool,
    success: Seq<char>,
    failure: Seq<char>,
) -> PreconditionView {
    if passed {
        PreconditionView { id, status: PreconditionStatus::Passed, explanation: success }
    } else {
        PreconditionView { id, status: PreconditionStatus::Failed, explanation: failure }
    }
}

fn evaluation(id: &str, passed: bool, success: &str, failure: &str) -> (r: PreconditionEvaluation)
    ensures
        r@ == evaluation_view(id@, passed, success@, failure@),
{
    if passed {
        PreconditionEvaluation::passed(id, success)
    } else {
        PreconditionEvaluation::failed(id, failure)
    }
}

// ---------------------------------------------------------------------------
// JSON presentation normalization
// ---------------------------------------------------------------------------

/// Canonicalizes the JSON presentation of every source without changing its data model.
#[derive(Clone, Copy, Debug, Default)]
pub struct JsonNormalizationOperator;

/// Whether every document parses as JSON.
pub open spec fn all_parse(docs: Seq<DocView>) -> bool {
    forall|i: int| 0 <= i < docs.len() ==> json_parse(#[trigger] docs[i].source) is Ok
}

pub open spec fn normalize_evaluations(docs: Seq<DocView>) -> Seq<PreconditionView> {
    seq![
        evaluation_view(
            "json.normalize.all-sources-valid-json"@,
            all_parse(docs),
            "all "@ + decimal(docs.len()) + " source document(s) parsed as JSON"@,
            "at least one source document is not valid JSON"@,
        ),
    ]
}

/// Every document of the first `n` rewritten in `serde_json`'s compact form,
/// or the first one that could not be.
pub open spec fn normalize_docs(docs: Seq<DocView>, n: int) -> Result<Seq<DocView>, Seq<char>>
    decreases n,
{
    if n <= 0 {
        Ok(Seq::empty())
    } else {
        match normalize_docs(docs, n - 1) {
            Err(e) => Err(e),
            Ok(acc) => {
                let d = docs[n - 1];
                match json_parse(d.source) {
                    Err(syntax) => Err("could not parse "@ + d.identity + ": "@ + syntax.message@),
                    Ok(_) => match json_compact(d.source) {
                        None => Err(
                            "could not normalize "@ + d.identity
                                + ": the document could not be written back"@,
                        ),
                        Some(text) => Ok(
                            acc.push(
                                DocView { identity: d.identity, position: d.position, source: text },
                            ),
                        ),
                    },
                }
            },
        }
    }
}

proof fn lemma_normalize_err(docs: Seq<DocView>, n: int, m: int)
    requires
        0 <= n <= m,
        normalize_docs(docs, n) is Err,
    ensures
        normalize_docs(docs, m) == normalize_docs(docs, n),
    decreases m - n,
{
    if m > n {
        lemma_normalize_err(docs, n, m - 1);
    }
}

impl VariantOperator for JsonNormalizationOperator {
    fn identity(&self) -> (r: VariantOperatorIdentity)
        ensures
            r@ == (OperatorView {
                id: crate::variant::JSON_NORMALIZATION_OPERATOR_ID@,
                version: crate::variant::BUILTIN_OPERATOR_VERSION@,
            }),
    {
        VariantOperatorIdentity::new(
            crate::variant::JSON_NORMALIZATION_OPERATOR_ID,
            crate::variant::BUILTIN_OPERATOR_VERSION,
        )
    }

    fn evaluate(&self, sources: &[SourceDocument]) -> (r: Vec<PreconditionEvaluation>)
        ensures
            evaluations_view(r@) == normalize_evaluations(docs_view(sources@)),
    {
        let ghost docs = docs_view(sources@);
        let mut all_valid = true;
        let mut i: usize = 0;
        while i < sources.len()
            invariant
                i <= sources@.len(),
                docs == docs_view(sources@),
                all_valid == forall|j: int| 0 <= j < i ==> json_parse(#[trigger] docs[j].source) is Ok,
            decreases sources@.len() - i,
        {
            assert(docs[i as int] == sources@[i as int]@);
            match parse_json(sources[i].source()) {
                Ok(_) => {},
                Err(_) => {
                    all_valid = false;
                },
            }
            i = i + 1;
        }
        let count = decimal_string(sources.len());
        let success = concat3("all ", count.as_str(), " source document(s) parsed as JSON");
        let e = evaluation(
            "json.normalize.all-sources-valid-json",
            all_valid,
            success.as_str(),
            "at least one source document is not valid JSON",
        );
        let mut out: Vec<PreconditionEvaluation> = Vec::new();
        out.push(e);
        assert(evaluations_view(out@) =~= normalize_evaluations(docs));
        out
    }

    fn transform(&self, sources: &[SourceDocument]) -> (r: Result<Vec<SourceDocument>, String>)
        ensures
            r matches Ok(out) ==> normalize_docs(docs_view(sources@), sources@.len() as int)
                == Ok::<Seq<DocView>, Seq<char>>(docs_view(out@)),
            r matches Err(m) ==> normalize_docs(docs_view(sources@), sources@.len() as int)
                == Err::<Seq<DocView>, Seq<char>>(m@),
    {
        let ghost docs = docs_view(sources@);
        let mut out: Vec<SourceDocument> = Vec::new();
        assert(docs_view(out@) =~= Seq::<DocView>::empty());
        let mut i: usize = 0;
        while i < sources.len()
            invariant
                i <= sources@.len(),
                docs == docs_view(sources@),
                normalize_docs(docs, i as int) == Ok::<Seq<DocView>, Seq<char>>(docs_view(out@)),
            decreases sources@.len() - i,
        {
            let d = &sources[i];
            assert(docs[i as int] == d@);
            match parse_json(d.source()) {
                Err(syntax) => {
                    let mut message = concat3("could not parse ", d.identity(), ": ");
                    message.append(syntax.message.as_str());
                    proof {
                        lemma_normalize_err(docs, i + 1, docs.len() as int);
                    }
                    return Err(message);
                },
                Ok(_) => {},
            }
            match compact_json(d.source()) {
                None => {
                    let message = concat3(
                        "could not normalize ",
                        d.identity(),
                        ": the document could not be written back",
                    );
                    proof {
                        lemma_normalize_err(docs, i + 1, docs.len() as int);
                    }
                    return Err(message);
                },
                Some(text) => {
                    let ghost before = out@;
                    let n = SourceDocument::new(d.identity(), d.position(), text.as_str());
                    out.push(n);
                    assert(docs_view(out@) =~= docs_view(before).push(n@));
                },
            }
            i = i + 1;
        }
        Ok(out)
    }
}

// ---------------------------------------------------------------------------
// Reversal of independent additions
// ---------------------------------------------------------------------------

/// Reverses a history made exclusively of independent additions.
///
/// Distinct requirement ids make the operations commutative under strict
/// resolution. Replacements and revocations are deliberately excluded.
#[derive(Clone, Copy, Debug, Default)]
pub struct ReverseIndependentAddsOperator;

/// An operation as written back: the `op` tag first, then its fields.
pub open spec fn operation_json(op: OperationView) -> Seq<char> {
    match op {
        OperationView::Add(r) => "{\"op\":\"add\",\"requirement\":"@ + requirement_json(r) + "}"@,
        OperationView::Replace(t, r) => "{\"op\":\"replace\",\"target\":"@ + json_str(t)
            + ",\"requirement\":"@ + requirement_json(r) + "}"@,
        OperationView::Revoke(t) => "{\"op\":\"revoke\",\"target\":"@ + json_str(t) + "}"@,
    }
}

/// A source envelope as written back by the reversal.
pub open spec fn envelope_json(schema_version: Seq<char>, ops: Seq<OperationView>) -> Seq<char> {
    "{\"schemaVersion\":"@ + json_str(schema_version) + ",\"operations\":"@ + seq!['['] + json_join(
        ops.map_values(|o: OperationView| operation_json(o)),
    ) + seq![']'] + "}"@
}

/// The envelope of the first document, when there is one and it decodes.
pub open spec fn first_envelope(docs: Seq<DocView>) -> Option<EnvelopeView> {
    if docs.len() == 0 {
        None
    } else {
        match json_parse(docs[0].source) {
            Ok(tree) => match decode_envelope(tree) {
                Ok(env) => Some(env),
                Err(_) => None,
            },
            Err(_) => None,
        }
    }
}

pub open spec fn all_adds(ops: Seq<OperationView>) -> bool {
    forall|i: int| 0 <= i < ops.len() ==> (#[trigger] ops[i]) is Add
}

/// Every operation adds, and no two add the same id.
pub open spec fn distinct_adds(ops: Seq<OperationView>) -> bool {
    &&& all_adds(ops)
    &&& forall|i: int, j: int|
        0 <= i < j < ops.len() ==> (#[trigger] ops[i])->Add_0.id != (#[trigger] ops[j])->Add_0.id
}

pub open spec fn reverse_evaluations(docs: Seq<DocView>) -> Seq<PreconditionView> {
    let env = first_envelope(docs);
    seq![
        evaluation_view(
            "independent-adds.single-source"@,
            docs.len() == 1,
            "history contains exactly one source document"@,
            "operator requires exactly one source document; found "@ + decimal(docs.len()),
        ),
        evaluation_view(
            "independent-adds.supported-envelope"@,
            env is Some,
            "source uses the supported xunlie.source/v1 envelope"@,
            "source is not a supported xunlie.source/v1 envelope"@,
        ),
        evaluation_view(
            "independent-adds.minimum-cardinality"@,
            env is Some && env->0.operations.len() >= 2,
            "history contains at least two operations"@,
            "at least two operations are required to reverse a history"@,
        ),
        evaluation_view(
            "independent-adds.add-only"@,
            env is Some && all_adds(env->0.operations),
            "every operation is an addition"@,
            "replacement and revocation operations are order-dependent and excluded"@,
        ),
        evaluation_view(
            "independent-adds.distinct-targets"@,
            env is Some && distinct_adds(env->0.operations),
            "every addition targets a distinct requirement id"@,
            "duplicate requirement ids are not independent and are excluded"@,
        ),
    ]
}

/// The single document with its operations in reverse order, or why it could not be read.
pub open spec fn reverse_transform(docs: Seq<DocView>) -> Result<Seq<DocView>, Seq<char>> {
    if docs.len() != 1 {
        Err("reverse-independent-adds requires exactly one source"@)
    } else {
        let d = docs[0];
        match json_parse(d.source) {
            Err(syntax) => Err("could not parse "@ + d.identity + ": "@ + syntax.message@),
            Ok(tree) => match decode_envelope(tree) {
                Err(message) => Err("could not parse "@ + d.identity + ": "@ + message),
                Ok(env) => Ok(
                    seq![
                        DocView {
                            identity: d.identity,
                            position: d.position,
                            source: envelope_json(env.schema_version, env.operations.reverse()),
                        },
                    ],
                ),
            },
        }
    }
}

fn write_operation(out: &mut String, op: &Operation)
    ensures
        final(out)@ == old(out)@ + operation_json(op@),
{
    match op {
        Operation::Add { requirement } => {
            out.append("{\"op\":\"add\",\"requirement\":");
            write_requirement(out, requirement);
            out.append("}");
        },
        Operation::Replace { target, requirement } => {
            out.append("{\"op\":\"replace\",\"target\":");
            write_str(out, target.as_str());
            out.append(",\"requirement\":");
            write_requirement(out, requirement);
            out.append("}");
        },
        Operation::Revoke { target } => {
            out.append("{\"op\":\"revoke\",\"target\":");
            write_str(out, target.as_str());
            out.append("}");
        },
    }
}

/// Writes an envelope with its operations in reverse order.
fn reversed_envelope_text(env: &SourceEnvelope) -> (r: String)
    ensures
        r@ == envelope_json(env@.schema_version, env@.operations.reverse()),
{
    let ghost ops = env@.operations.reverse();
    let ghost items = ops.map_values(|o: OperationView| operation_json(o));
    let mut out = String::new();
    out.append("{\"schemaVersion\":");
    write_str(&mut out, env.schema_version.as_str());
    out.append(",\"operations\":");
    proof {
        reveal_strlit("[");
        reveal_strlit("]");
        reveal_strlit(",");
    }
    let ghost head = out@;
    out.append("[");
    assert(json_join(items.take(0)) =~= Seq::<char>::empty());
    let n = env.operations.len();
    let mut i: usize = 0;
    while i < n
        invariant
            i <= n,
            n == env.operations@.len(),
            ops == env@.operations.reverse(),
            ops.len() == n,
            items == ops.map_values(|o: OperationView| operation_json(o)),
            out@ == head + seq!['['] + json_join(items.take(i as int)),
            ","@ == seq![','],
        decreases n - i,
    {
        proof {
            lemma_join_push(items, i as int);
        }
        if i > 0 {
            out.append(",");
        }
        let k = n - 1 - i;
        assert(ops[i as int] == env.operations@[k as int]@);
        write_operation(&mut out, &env.operations[k]);
        assert(out@ =~= head + seq!['['] + json_join(items.take(i + 1)));
        i = i + 1;
    }
    assert(items.take(n as int) =~= items);
    out.append("]");
    out.append("}");
    assert(out@ =~= envelope_json(env@.schema_version, ops));
    out
}

/// Reads the first document's envelope, if it has one.
fn read_first_envelope(sources: &[SourceDocument]) -> (r: Option<SourceEnvelope>)
    ensures
        r matches Some(env) ==> first_envelope(docs_view(sources@)) == Some(env@),
        r is None ==> first_envelope(docs_view(sources@)) is None,
{
    if sources.len() == 0 {
        return None;
    }
    assert(docs_view(sources@)[0] == sources@[0]@);
    match parse_json(sources[0].source()) {
        Err(_) => None,
        Ok(tree) => match read_envelope(&tree) {
            Err(_) => None,
            Ok(env) => Some(env),
        },
    }
}

fn only_adds(ops: &Vec<Operation>) -> (r: bool)
    ensures
        r == all_adds(ops_view(ops@)),
{
    let mut i: usize = 0;
    while i < ops.len()
        invariant
            i <= ops@.len(),
            forall|j: int| 0 <= j < i ==> (#[trigger] ops_view(ops@)[j]) is Add,
        decreases ops@.len() - i,
    {
        match &ops[i] {
            Operation::Add { .. } => {},
            _ => {
                assert(!(ops_view(ops@)[i as int] is Add));
                return false;
            },
        }
        i = i + 1;
    }
    true
}

fn distinct_add_ids(ops: &Vec<Operation>) -> (r: bool)
    ensures
        r == distinct_adds(ops_view(ops@)),
{
    let ghost v = ops_view(ops@);
    if !only_adds(ops) {
        return false;
    }
    let mut i: usize = 0;
    while i < ops.len()
        invariant
            i <= ops@.len(),
            v == ops_view(ops@),
            all_adds(v),
            forall|a: int, b: int| 0 <= a < b < v.len() && a < i ==> (#[trigger] v[a])->Add_0.id != (#[trigger] v[b])->Add_0.id,
        decreases ops@.len() - i,
    {
        let mut j: usize = i + 1;
        while j < ops.len()
            invariant
                i < j <= ops@.len(),
                v == ops_view(ops@),
                all_adds(v),
                forall|a: int, b: int| 0 <= a < b < v.len() && a < i ==> (#[trigger] v[a])->Add_0.id != (#[trigger] v[b])->Add_0.id,
                forall|b: int| i < b < j ==> v[i as int]->Add_0.id != (#[trigger] v[b])->Add_0.id,
            decreases ops@.len() - j,
        {
            assert(v[i as int] is Add && v[j as int] is Add);
            match (&ops[i], &ops[j]) {
                (Operation::Add { requirement: x }, Operation::Add { requirement: y }) => {
                    if x.id().same_as(y.id()) {
                        assert(v[i as int]->Add_0.id == v[j as int]->Add_0.id);
                        return false;
                    }
                },
                _ => {},
            }
            j = j + 1;
        }
        i = i + 1;
    }
    true
}

impl VariantOperator for ReverseIndependentAddsOperator {
    fn identity(&self) -> (r: VariantOperatorIdentity)
        ensures
            r@ == (OperatorView {
                id: crate::variant::REVERSE_INDEPENDENT_ADDS_OPERATOR_ID@,
                version: crate::variant::BUILTIN_OPERATOR_VERSION@,
            }),
    {
        VariantOperatorIdentity::new(
            crate::variant::REVERSE_INDEPENDENT_ADDS_OPERATOR_ID,
            crate::variant::BUILTIN_OPERATOR_VERSION,
        )
    }

    fn evaluate(&self, sources: &[SourceDocument]) -> (r: Vec<PreconditionEvaluation>)
        ensures
            evaluations_view(r@) == reverse_evaluations(docs_view(sources@)),
    {
        let ghost docs = docs_view(sources@);
        let exactly_one = sources.len() == 1;
        let parsed = read_first_envelope(sources);
        let (supported, at_least_two, adds, distinct) = match &parsed {
            Some(env) => (true, env.operations.len() >= 2, only_adds(&env.operations), distinct_add_ids(&env.operations)),
            None => (false, false, false, false),
        };
        let count = decimal_string(sources.len());
        let found = concat3("operator requires exactly one source document; found ", count.as_str(), "");
        proof {
            reveal_strlit("");
        }
        let mut out: Vec<PreconditionEvaluation> = Vec::new();
        out.push(
            evaluation(
                "independent-adds.single-source",
                exactly_one,
                "history contains exactly one source document",
                found.as_str(),
            ),
        );
        out.push(
            evaluation(
                "independent-adds.supported-envelope",
                supported,
                "source uses the supported xunlie.source/v1 envelope",
                "source is not a supported xunlie.source/v1 envelope",
            ),
        );
        out.push(
            evaluation(
                "independent-adds.minimum-cardinality",
                at_least_two,
                "history contains at least two operations",
                "at least two operations are required to reverse a history",
            ),
        );
        out.push(
            evaluation(
                "independent-adds.add-only",
                adds,
                "every operation is an addition",
                "replacement and revocation operations are order-dependent and excluded",
            ),
        );
        out.push(
            evaluation(
                "independent-adds.distinct-targets",
                distinct,
                "every addition targets a distinct requirement id",
                "duplicate requirement ids are not independent and are excluded",
            ),
        );
        assert(evaluations_view(out@) =~= reverse_evaluations(docs));
        out
    }

    fn transform(&self, sources: &[SourceDocument]) -> (r: Result<Vec<SourceDocument>, String>)
        ensures
            r matches Ok(out) ==> reverse_transform(docs_view(sources@)) == Ok::<
                Seq<DocView>,
                Seq<char>,
            >(docs_view(out@)),
            r matches Err(m) ==> reverse_transform(docs_view(sources@)) == Err::<
                Seq<DocView>,
                Seq<char>,
            >(m@),
    {
        if sources.len() != 1 {
            return Err(String::from_str("reverse-independent-adds requires exactly one source"));
        }
        let d = &sources[0];
        assert(docs_view(sources@)[0] == d@);
        match parse_json(d.source()) {
            Err(syntax) => {
                let mut message = concat3("could not parse ", d.identity(), ": ");
                message.append(syntax.message.as_str());
                Err(message)
            },
            Ok(tree) => match read_envelope(&tree) {
                Err(reason) => {
                    let mut message = concat3("could not parse ", d.identity(), ": ");
                    message.append(reason.as_str());
                    Err(message)
                },
                Ok(env) => {
                    let text = reversed_envelope_text(&env);
                    let mut out: Vec<SourceDocument> = Vec::new();
                    let n = SourceDocument::new(d.identity(), d.position(), text.as_str());
                    out.push(n);
                    assert(docs_view(out@) =~= seq![n@]);
                    Ok(out)
                },
            },
        }
    }
}

// ---------------------------------------------------------------------------
// The registry of built-in operators
// ---------------------------------------------------------------------------

/// One of the built-in operators.
#[derive(Clone, Copy, Debug)]
pub enum BuiltinOperator {
    JsonNormalization(JsonNormalizationOperator),
    ReverseIndependentAdds(ReverseIndependentAddsOperator),
}

/// The built-in operator registered under an id.
pub open spec fn builtin_operator_for(id: Seq<char>) -> Option<BuiltinOperator> {
    if id == crate::variant::JSON_NORMALIZATION_OPERATOR_ID@ {
        Some(BuiltinOperator::JsonNormalization(JsonNormalizationOperator))
    } else if id == crate::variant::REVERSE_INDEPENDENT_ADDS_OPERATOR_ID@ {
        Some(BuiltinOperator::ReverseIndependentAdds(ReverseIndependentAddsOperator))
    } else {
        None
    }
}

pub open spec fn builtin_identity(op: BuiltinOperator) -> OperatorView {
    match op {
        BuiltinOperator::JsonNormalization(_) => OperatorView {
            id: crate::variant::JSON_NORMALIZATION_OPERATOR_ID@,
            version: crate::variant::BUILTIN_OPERATOR_VERSION@,
        },
        BuiltinOperator::ReverseIndependentAdds(_) => OperatorView {
            id: crate::variant::REVERSE_INDEPENDENT_ADDS_OPERATOR_ID@,
            version: crate::variant::BUILTIN_OPERATOR_VERSION@,
        },
    }
}

pub open spec fn builtin_evaluations(op: BuiltinOperator, docs: Seq<DocView>) -> Seq<PreconditionView> {
    match op {
        BuiltinOperator::JsonNormalization(_) => normalize_evaluations(docs),
        BuiltinOperator::ReverseIndependentAdds(_) => reverse_evaluations(docs),
    }
}

pub open spec fn builtin_transform(op: BuiltinOperator, docs: Seq<DocView>) -> Result<
    Seq<DocView>,
    Seq<char>,
> {
    match op {
        BuiltinOperator::JsonNormalization(_) => normalize_docs(docs, docs.len() as int),
        BuiltinOperator::ReverseIndependentAdds(_) => reverse_transform(docs),
    }
}

impl VariantOperator for BuiltinOperator {
    fn identity(&self) -> (r: VariantOperatorIdentity)
        ensures
            r@ == builtin_identity(*self),
    {
        match self {
            BuiltinOperator::JsonNormalization(o) => o.identity(),
            BuiltinOperator::ReverseIndependentAdds(o) => o.identity(),
        }
    }

    fn evaluate(&self, sources: &[SourceDocument]) -> (r: Vec<PreconditionEvaluation>)
        ensures
            evaluations_view(r@) == builtin_evaluations(*self, docs_view(sources@)),
    {
        match self {
            BuiltinOperator::JsonNormalization(o) => o.evaluate(sources),
            BuiltinOperator::ReverseIndependentAdds(o) => o.evaluate(sources),
        }
    }

    fn transform(&self, sources: &[SourceDocument]) -> (r: Result<Vec<SourceDocument>, String>)
        ensures
            r matches Ok(out) ==> builtin_transform(*self, docs_view(sources@)) == Ok::<
                Seq<DocView>,
                Seq<char>,
            >(docs_view(out@)),
            r matches Err(m) ==> builtin_transform(*self, docs_view(sources@)) == Err::<
                Seq<DocView>,
                Seq<char>,
            >(m@),
    {
        match self {
            BuiltinOperator::JsonNormalization(o) => o.transform(sources),
            BuiltinOperator::ReverseIndependentAdds(o) => o.transform(sources),
        }
    }
}

fn text_is(s: &str, lit: &str) -> (r: bool)
    ensures
        r == (s@ == lit@),
{
    String::from_str(s) == String::from_str(lit)
}

/// Looks up a built-in operator by its id.
pub fn builtin_operator(id: &str) -> (r: Option<BuiltinOperator>)
    ensures
        r == builtin_operator_for(id@),
{
    if text_is(id, crate::variant::JSON_NORMALIZATION_OPERATOR_ID) {
        Some(BuiltinOperator::JsonNormalization(JsonNormalizationOperator))
    } else if text_is(id, crate::variant::REVERSE_INDEPENDENT_ADDS_OPERATOR_ID) {
        Some(BuiltinOperator::ReverseIndependentAdds(ReverseIndependentAddsOperator))
    } else {
        None
    }
}

} // verus!
