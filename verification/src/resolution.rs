//! Deterministic resolution of a requirement history into an effective contract.
use vstd::prelude::*;

use crate::diagnostic::{is_plain_error, loc_view, Diagnostic, LocationView, Severity, SourceLocation};
use crate::ir::{
    keys_ascending, record_location, records_view, requirement_problem, RecordView, Requirement, RequirementId,
    RequirementMap, RequirementView, SourceRecord,
};
use crate::text::{concat3, concat5, decimal, decimal_string, seq_lt, str_lt};

verus! {

/// Versioned policy controlling how ambiguous histories are handled.
///
/// Only strict rejection is supported: contradictory adds and invalid targets
/// make compilation fail closed.
#[derive(Clone, Copy, Debug, PartialEq, Eq, Structural)]
pub enum ResolutionPolicy {
    /// Contradictory adds and invalid targets make compilation fail closed.
    Strict,
}

impl Default for ResolutionPolicy {
    fn default() -> (r: Self)
        ensures
            r == ResolutionPolicy::Strict,
    {
        ResolutionPolicy::Strict
    }
}

/// Total, explicit ordering key for a history operation.
#[derive(Clone, Copy, Debug, PartialEq, Eq, Structural, PartialOrd, Ord, Hash)]
pub struct Precedence {
    /// Position of the owning source.
    pub source_position: usize,
    /// Position of the operation inside that source.
    pub operation_position: usize,
}

/// The order of precedences: by source position, then by operation position.
pub open spec fn precedence_lt(a: Precedence, b: Precedence) -> bool {
    a.source_position < b.source_position || (a.source_position == b.source_position
        && a.operation_position < b.operation_position)
}

fn precedence_less(a: Precedence, b: Precedence) -> (r: bool)
    ensures
        r == precedence_lt(a, b),
{
    a.source_position < b.source_position || (a.source_position == b.source_position
        && a.operation_position < b.operation_position)
}

/// A history mutation before resolution.
#[derive(Debug, PartialEq, Eq)]
pub enum Operation {
    /// Introduces a requirement that does not contradict an active definition.
    Add {
        /// Requirement to introduce.
        requirement: Requirement,
    },
    /// Supersedes the active definition of the target.
    Replace {
        /// Existing requirement identifier.
        target: RequirementId,
        /// New definition; its embedded ID must equal `target`.
        requirement: Requirement,
    },
    /// Removes the active definition of the target.
    Revoke {
        /// Existing requirement identifier.
        target: RequirementId,
    },
}

/// The content of an operation.
pub enum OperationView {
    Add(RequirementView),
    Replace(Seq<char>, RequirementView),
    Revoke(Seq<char>),
}

impl View for Operation {
    type V = OperationView;

    open spec fn view(&self) -> OperationView {
        match self {
            Operation::Add { requirement } => OperationView::Add(requirement@),
            Operation::Replace { target, requirement } => OperationView::Replace(
                target@,
                requirement@,
            ),
            Operation::Revoke { target } => OperationView::Revoke(target@),
        }
    }
}

impl Clone for Operation {
    fn clone(&self) -> (r: Self)
        ensures
            r@ == self@,
    {
        match self {
            Operation::Add { requirement } => Operation::Add { requirement: requirement.clone() },
            Operation::Replace { target, requirement } => Operation::Replace {
                target: target.clone(),
                requirement: requirement.clone(),
            },
            Operation::Revoke { target } => Operation::Revoke { target: target.clone() },
        }
    }
}

/// The requirement an operation is about: the added requirement's id, or the declared target.
pub open spec fn op_target(op: OperationView) -> Seq<char> {
    match op {
        OperationView::Add(r) => r.id,
        OperationView::Replace(t, _) => t,
        OperationView::Revoke(t) => t,
    }
}

impl Operation {
    /// The requirement an operation is about.
    pub fn target(&self) -> (r: &RequirementId)
        ensures
            r@ == op_target(self@),
    {
        match self {
            Operation::Add { requirement } => requirement.id(),
            Operation::Replace { target, .. } => target,
            Operation::Revoke { target } => target,
        }
    }
}

/// One located operation in a history.
#[derive(Debug, PartialEq, Eq)]
pub struct HistoryEvent {
    /// Ordering key, independent from vector/storage order.
    pub precedence: Precedence,
    /// Source location used in conflict diagnostics.
    pub location: SourceLocation,
    /// Mutation to apply.
    pub operation: Operation,
}

/// The content of a history event.
pub struct EventView {
    pub precedence: Precedence,
    pub location: LocationView,
    pub operation: OperationView,
}

impl View for HistoryEvent {
    type V = EventView;

    open spec fn view(&self) -> EventView {
        EventView {
            precedence: self.precedence,
            location: self.location@,
            operation: self.operation@,
        }
    }
}

/// The content of every event of a list.
pub open spec fn events_view(evs: Seq<HistoryEvent>) -> Seq<EventView> {
    evs.map_values(|e: HistoryEvent| e@)
}

impl Clone for HistoryEvent {
    fn clone(&self) -> (r: Self)
        ensures
            r@ == self@,
    {
        HistoryEvent {
            precedence: self.precedence,
            location: self.location.clone(),
            operation: self.operation.clone(),
        }
    }
}

/// A complete history submitted to the pure resolver.
#[derive(Debug, PartialEq, Eq)]
pub struct History {
    /// Explicit conflict policy.
    pub policy: ResolutionPolicy,
    /// Source provenance referenced by every event.
    pub sources: Vec<SourceRecord>,
    /// Events; vector order is irrelevant because precedence is explicit.
    pub events: Vec<HistoryEvent>,
}

/// Mutation actually applied by the resolver.
#[derive(Clone, Copy, Debug, PartialEq, Eq, Structural)]
pub enum ResolutionAction {
    /// A requirement became active.
    Added,
    /// An active requirement was superseded.
    Replaced,
    /// An active requirement was revoked.
    Revoked,
    /// An identical add or replacement did not change semantic content.
    NoChange,
}

/// Auditable result for one successful event.
#[derive(Debug, PartialEq, Eq)]
pub struct ResolutionDecision {
    /// Ordering key of the applied event.
    pub precedence: Precedence,
    /// Requirement affected by the event.
    pub target: RequirementId,
    /// State transition performed.
    pub action: ResolutionAction,
    /// Source that authorized the transition.
    pub location: SourceLocation,
}

/// The content of a decision.
pub struct DecisionView {
    pub precedence: Precedence,
    pub target: Seq<char>,
    pub action: ResolutionAction,
    pub location: LocationView,
}

impl View for ResolutionDecision {
    type V = DecisionView;

    open spec fn view(&self) -> DecisionView {
        DecisionView {
            precedence: self.precedence,
            target: self.target@,
            action: self.action,
            location: self.location@,
        }
    }
}

impl Clone for ResolutionDecision {
    fn clone(&self) -> (r: Self)
        ensures
            r == *self,
    {
        ResolutionDecision {
            precedence: self.precedence,
            target: self.target.clone(),
            action: self.action,
            location: self.location.clone(),
        }
    }
}

/// Stable classification of an unresolved contradiction.
#[derive(Clone, Copy, Debug, PartialEq, Eq, Structural)]
pub enum ConflictKind {
    /// Two sources claim the same identity or source position.
    DuplicateSource,
    /// Two events claim the same total ordering key.
    DuplicatePrecedence,
    /// An event's location does not match its declared source.
    UnknownSource,
    /// A second add differs from the active definition.
    ContradictoryAdd,
    /// A replacement names a target that is not active.
    MissingReplacementTarget,
    /// A replacement attempts an implicit rename.
    ReplacementIdMismatch,
    /// A revocation names a target that is not active.
    MissingRevocationTarget,
    /// A deserialized requirement violates a semantic invariant.
    InvalidRequirement,
}

/// One conflict plus its structured diagnostic.
#[derive(Debug, PartialEq, Eq)]
pub struct Conflict {
    /// Machine-actionable kind.
    pub kind: ConflictKind,
    /// Requirement affected, if applicable.
    pub target: Option<RequirementId>,
    /// Full source-aware explanation.
    pub diagnostic: Diagnostic,
}

impl Clone for Conflict {
    fn clone(&self) -> (r: Self)
        ensures
            r.kind == self.kind,
            r.target == self.target,
            r.diagnostic.code == self.diagnostic.code,
            r.diagnostic.severity == self.diagnostic.severity,
            r.diagnostic.message == self.diagnostic.message,
            r.diagnostic.primary == self.diagnostic.primary,
            r.diagnostic.related@ == self.diagnostic.related@,
    {
        Conflict {
            kind: self.kind,
            target: match &self.target {
                Some(t) => Some(t.clone()),
                None => None,
            },
            diagnostic: self.diagnostic.clone(),
        }
    }
}

/// What a conflict reports: its kind, target, and the code, message and
/// locations of its error diagnostic.
pub struct ConflictSpec {
    pub kind: ConflictKind,
    pub target: Option<Seq<char>>,
    pub code: Seq<char>,
    pub message: Seq<char>,
    pub primary: Option<LocationView>,
    pub related: Seq<(Seq<char>, LocationView)>,
}

/// A conflict value reports exactly what the specification says.
pub open spec fn conflict_is(c: Conflict, s: ConflictSpec) -> bool {
    &&& c.kind == s.kind
    &&& match c.target {
        Some(t) => s.target == Some(t@),
        None => s.target is None,
    }
    &&& c.diagnostic.code@ == s.code
    &&& c.diagnostic.severity == Severity::Error
    &&& c.diagnostic.message@ == s.message
    &&& loc_view(c.diagnostic.primary) == s.primary
    &&& c.diagnostic.related@.len() == s.related.len()
    &&& forall|i: int|
        0 <= i < s.related.len() ==> (#[trigger] c.diagnostic.related@[i]).message@
            == s.related[i].0 && c.diagnostic.related@[i].location@ == s.related[i].1
}

pub open spec fn conflicts_are(cs: Seq<Conflict>, ss: Seq<ConflictSpec>) -> bool {
    &&& cs.len() == ss.len()
    &&& forall|i: int| 0 <= i < cs.len() ==> conflict_is(#[trigger] cs[i], ss[i])
}

proof fn lemma_conflicts_push(cs: Seq<Conflict>, ss: Seq<ConflictSpec>, c: Conflict, s: ConflictSpec)
    requires
        conflicts_are(cs, ss),
        conflict_is(c, s),
    ensures
        conflicts_are(cs.push(c), ss.push(s)),
{
    assert forall|i: int| 0 <= i < cs.push(c).len() implies conflict_is(
        #[trigger] cs.push(c)[i],
        ss.push(s)[i],
    ) by {
        if i < cs.len() {
            assert(cs.push(c)[i] == cs[i]);
            assert(ss.push(s)[i] == ss[i]);
        }
    }
}

// ---------------------------------------------------------------------------
// Structural validation
// ---------------------------------------------------------------------------

/// The latest source before `j` that shares the identity of source `i`.
pub open spec fn prev_identity(s: Seq<RecordView>, i: int, j: int) -> Option<int>
    decreases j,
{
    if j <= 0 {
        None
    } else if s[j - 1].identity == s[i].identity {
        Some(j - 1)
    } else {
        prev_identity(s, i, j - 1)
    }
}

/// The latest source before `j` that shares the position of source `i`.
pub open spec fn prev_position(s: Seq<RecordView>, i: int, j: int) -> Option<int>
    decreases j,
{
    if j <= 0 {
        None
    } else if s[j - 1].position == s[i].position {
        Some(j - 1)
    } else {
        prev_position(s, i, j - 1)
    }
}

pub open spec fn duplicate_identity_conflict(rec: RecordView, prev: RecordView) -> ConflictSpec {
    ConflictSpec {
        kind: ConflictKind::DuplicateSource,
        target: None,
        code: "XUNLIE-RESOLVE-DUPLICATE-SOURCE-IDENTITY"@,
        message: "source identity `"@ + rec.identity + "` appears more than once"@,
        primary: Some(record_location(rec, 0)),
        related: seq![("first declaration was here"@, record_location(prev, 0))],
    }
}

pub open spec fn duplicate_position_conflict(rec: RecordView, prev: RecordView) -> ConflictSpec {
    ConflictSpec {
        kind: ConflictKind::DuplicateSource,
        target: None,
        code: "XUNLIE-RESOLVE-DUPLICATE-SOURCE-POSITION"@,
        message: "source position "@ + decimal(rec.position as nat) + " appears more than once"@,
        primary: Some(record_location(rec, 0)),
        related: seq![("first declaration was here"@, record_location(prev, 0))],
    }
}

/// The conflicts that source `i` raises: a repeated identity, then a repeated position.
pub open spec fn source_conflicts_at(s: Seq<RecordView>, i: int) -> Seq<ConflictSpec> {
    (match prev_identity(s, i, i) {
        Some(j) => seq![duplicate_identity_conflict(s[i], s[j])],
        None => Seq::empty(),
    }) + (match prev_position(s, i, i) {
        Some(j) => seq![duplicate_position_conflict(s[i], s[j])],
        None => Seq::empty(),
    })
}

/// The conflicts raised by the first `n` sources, in source order.
pub open spec fn source_conflicts(s: Seq<RecordView>, n: int) -> Seq<ConflictSpec>
    decreases n,
{
    if n <= 0 {
        Seq::empty()
    } else {
        source_conflicts(s, n - 1) + source_conflicts_at(s, n - 1)
    }
}

/// Whether an event's location and precedence name one of the declared sources.
pub open spec fn event_matches_source(s: Seq<RecordView>, e: EventView) -> bool {
    &&& exists|k: int|
        0 <= k < s.len() && (#[trigger] s[k]).position == e.location.source_position
            && s[k].identity == e.location.identity && s[k].digest == e.location.digest
    &&& e.precedence.source_position == e.location.source_position
    &&& e.precedence.operation_position == match e.location.operation_position {
        Some(p) => p,
        None => usize::MAX,
    }
}

/// The latest event before `j` that claims the precedence of event `i`.
pub open spec fn prev_precedence(evs: Seq<EventView>, i: int, j: int) -> Option<int>
    decreases j,
{
    if j <= 0 {
        None
    } else if evs[j - 1].precedence == evs[i].precedence {
        Some(j - 1)
    } else {
        prev_precedence(evs, i, j - 1)
    }
}

pub open spec fn unknown_source_conflict(e: EventView) -> ConflictSpec {
    ConflictSpec {
        kind: ConflictKind::UnknownSource,
        target: Some(op_target(e.operation)),
        code: "XUNLIE-RESOLVE-UNKNOWN-SOURCE"@,
        message: "event location or precedence does not match a declared source"@,
        primary: Some(e.location),
        related: Seq::empty(),
    }
}

pub open spec fn duplicate_precedence_conflict(e: EventView, prev: EventView) -> ConflictSpec {
    ConflictSpec {
        kind: ConflictKind::DuplicatePrecedence,
        target: Some(op_target(e.operation)),
        code: "XUNLIE-RESOLVE-DUPLICATE-PRECEDENCE"@,
        message: "more than one event claims precedence ("@ + decimal(
            e.precedence.source_position as nat,
        ) + ", "@ + decimal(e.precedence.operation_position as nat) + ")"@,
        primary: Some(e.location),
        related: seq![("other event is here"@, prev.location)],
    }
}

/// The conflicts that event `i` raises: an unknown source, then a repeated precedence.
pub open spec fn event_conflicts_at(
    s: Seq<RecordView>,
    evs: Seq<EventView>,
    i: int,
) -> Seq<ConflictSpec> {
    (if !event_matches_source(s, evs[i]) {
        seq![unknown_source_conflict(evs[i])]
    } else {
        Seq::empty()
    }) + (match prev_precedence(evs, i, i) {
        Some(j) => seq![duplicate_precedence_conflict(evs[i], evs[j])],
        None => Seq::empty(),
    })
}

/// The conflicts raised by the first `n` events, in storage order.
pub open spec fn event_conflicts(s: Seq<RecordView>, evs: Seq<EventView>, n: int) -> Seq<
    ConflictSpec,
>
    decreases n,
{
    if n <= 0 {
        Seq::empty()
    } else {
        event_conflicts(s, evs, n - 1) + event_conflicts_at(s, evs, n - 1)
    }
}

/// Every structural conflict of a history: sources first, then events.
pub open spec fn structure_conflicts(s: Seq<RecordView>, evs: Seq<EventView>) -> Seq<
    ConflictSpec,
> {
    source_conflicts(s, s.len() as int) + event_conflicts(s, evs, evs.len() as int)
}

/// A conflict with a primary location and one related location.
fn conflict_with_related(
    kind: ConflictKind,
    target: Option<RequirementId>,
    code: &str,
    message: &str,
    primary: SourceLocation,
    related_message: &str,
    related: SourceLocation,
) -> (c: Conflict)
    ensures
        conflict_is(
            c,
            ConflictSpec {
                kind,
                target: match target {
                    Some(t) => Some(t@),
                    None => None,
                },
                code: code@,
                message: message@,
                primary: Some(primary@),
                related: seq![(related_message@, related@)],
            },
        ),
{
    let d = Diagnostic::error(code, message).with_primary(primary).with_related(
        related_message,
        related,
    );
    Conflict { kind, target, diagnostic: d }
}

/// A conflict with a primary location only.
fn conflict_at(
    kind: ConflictKind,
    target: Option<RequirementId>,
    code: &str,
    message: &str,
    primary: SourceLocation,
) -> (c: Conflict)
    ensures
        conflict_is(
            c,
            ConflictSpec {
                kind,
                target: match target {
                    Some(t) => Some(t@),
                    None => None,
                },
                code: code@,
                message: message@,
                primary: Some(primary@),
                related: Seq::empty(),
            },
        ),
{
    let d = Diagnostic::error(code, message).with_primary(primary);
    Conflict { kind, target, diagnostic: d }
}

fn find_prev_identity(s: &Vec<SourceRecord>, i: usize) -> (r: Option<usize>)
    requires
        i < s@.len(),
    ensures
        r matches Some(j) ==> prev_identity(records_view(s@), i as int, i as int) == Some(j as int) && j < i,
        r is None ==> prev_identity(records_view(s@), i as int, i as int) is None,
{
    let mut j: usize = i;
    while j > 0
        invariant
            j <= i < s@.len(),
            prev_identity(records_view(s@), i as int, i as int) == prev_identity(records_view(s@), i as int, j as int),
        decreases j,
    {
        if s[j - 1].identity.same_as(&s[i].identity) {
            return Some(j - 1);
        }
        j = j - 1;
    }
    None
}

fn find_prev_position(s: &Vec<SourceRecord>, i: usize) -> (r: Option<usize>)
    requires
        i < s@.len(),
    ensures
        r matches Some(j) ==> prev_position(records_view(s@), i as int, i as int) == Some(j as int) && j < i,
        r is None ==> prev_position(records_view(s@), i as int, i as int) is None,
{
    let mut j: usize = i;
    while j > 0
        invariant
            j <= i < s@.len(),
            prev_position(records_view(s@), i as int, i as int) == prev_position(records_view(s@), i as int, j as int),
        decreases j,
    {
        if s[j - 1].position == s[i].position {
            return Some(j - 1);
        }
        j = j - 1;
    }
    None
}

fn find_prev_precedence(evs: &Vec<HistoryEvent>, i: usize) -> (r: Option<usize>)
    requires
        i < evs@.len(),
    ensures
        r matches Some(j) ==> prev_precedence(events_view(evs@), i as int, i as int) == Some(j as int) && j < i,
        r is None ==> prev_precedence(events_view(evs@), i as int, i as int) is None,
{
    let mut j: usize = i;
    while j > 0
        invariant
            j <= i < evs@.len(),
            prev_precedence(events_view(evs@), i as int, i as int) == prev_precedence(events_view(evs@), i as int, j as int),
        decreases j,
    {
        if evs[j - 1].precedence == evs[i].precedence {
            return Some(j - 1);
        }
        j = j - 1;
    }
    None
}

fn matches_declared_source(s: &Vec<SourceRecord>, e: &HistoryEvent) -> (r: bool)
    ensures
        r == event_matches_source(records_view(s@), e@),
{
    let mut found = false;
    let mut k: usize = 0;
    while k < s.len()
        invariant
            k <= s@.len(),
            found == exists|m: int|
                0 <= m < k && (#[trigger] records_view(s@)[m]).position == e.location.source_position
                    && records_view(s@)[m].identity == e.location.identity@ && records_view(s@)[m].digest
                    == e.location.digest@,
        decreases s@.len() - k,
    {
        assert(records_view(s@)[k as int] == s@[k as int]@);
        if s[k].position == e.location.source_position && s[k].identity.same_as(
            &e.location.identity,
        ) && s[k].digest.same_as(&e.location.digest) {
            found = true;
        }
        k = k + 1;
    }
    let op = match e.location.operation_position {
        Some(p) => p,
        None => usize::MAX,
    };
    found && e.precedence.source_position == e.location.source_position
        && e.precedence.operation_position == op
}

/// Collects every structural conflict of a history.
fn validate_history_structure(history: &History) -> (r: Vec<Conflict>)
    ensures
        conflicts_are(r@, structure_conflicts(records_view(history.sources@), events_view(history.events@))),
{
    let mut conflicts: Vec<Conflict> = Vec::new();
    let mut i: usize = 0;
    while i < history.sources.len()
        invariant
            i <= history.sources@.len(),
            conflicts_are(conflicts@, source_conflicts(records_view(history.sources@), i as int)),
        decreases history.sources@.len() - i,
    {
        let source = &history.sources[i];
        let ghost before = conflicts@;
        let ghost s = records_view(history.sources@);
        match find_prev_identity(&history.sources, i) {
            Some(j) => {
                let message = concat3(
                    "source identity `",
                    source.identity.as_str(),
                    "` appears more than once",
                );
                let c = conflict_with_related(
                    ConflictKind::DuplicateSource,
                    None,
                    "XUNLIE-RESOLVE-DUPLICATE-SOURCE-IDENTITY",
                    message.as_str(),
                    source.location(0),
                    "first declaration was here",
                    history.sources[j].location(0),
                );
                proof {
                    lemma_conflicts_push(
                        conflicts@,
                        source_conflicts(s, i as int),
                        c,
                        duplicate_identity_conflict(s[i as int], s[j as int]),
                    );
                }
                conflicts.push(c);
            },
            None => {},
        }
        let ghost middle = conflicts@;
        let ghost mid_spec = source_conflicts(s, i as int) + match prev_identity(
            s,
            i as int,
            i as int,
        ) {
            Some(j) => seq![duplicate_identity_conflict(s[i as int], s[j])],
            None => Seq::<ConflictSpec>::empty(),
        };
        assert(conflicts_are(conflicts@, mid_spec)) by {
            if prev_identity(s, i as int, i as int) is None {
                assert(mid_spec =~= source_conflicts(s, i as int));
            } else {
                assert(mid_spec =~= source_conflicts(s, i as int).push(
                    duplicate_identity_conflict(s[i as int], s[prev_identity(s, i as int, i as int)->0]),
                ));
            }
        }
        match find_prev_position(&history.sources, i) {
            Some(j) => {
                let position_text = decimal_string(source.position);
                let message = concat3(
                    "source position ",
                    position_text.as_str(),
                    " appears more than once",
                );
                let c = conflict_with_related(
                    ConflictKind::DuplicateSource,
                    None,
                    "XUNLIE-RESOLVE-DUPLICATE-SOURCE-POSITION",
                    message.as_str(),
                    source.location(0),
                    "first declaration was here",
                    history.sources[j].location(0),
                );
                proof {
                    lemma_conflicts_push(
                        conflicts@,
                        mid_spec,
                        c,
                        duplicate_position_conflict(s[i as int], s[j as int]),
                    );
                }
                conflicts.push(c);
            },
            None => {},
        }
        assert(conflicts_are(conflicts@, source_conflicts(s, i + 1))) by {
            assert(source_conflicts(s, i + 1) == source_conflicts(s, i as int) + source_conflicts_at(
                s,
                i as int,
            ));
            if prev_position(s, i as int, i as int) is None {
                assert(source_conflicts(s, i + 1) =~= mid_spec);
            } else {
                assert(source_conflicts(s, i + 1) =~= mid_spec.push(
                    duplicate_position_conflict(s[i as int], s[prev_position(s, i as int, i as int)->0]),
                ));
            }
        }
        i = i + 1;
    }
    let ghost src_spec = source_conflicts(records_view(history.sources@), history.sources@.len() as int);
    assert(event_conflicts(records_view(history.sources@), events_view(history.events@), 0) =~= Seq::<ConflictSpec>::empty());
    assert(src_spec + event_conflicts(records_view(history.sources@), events_view(history.events@), 0) =~= src_spec);
    let mut i: usize = 0;
    while i < history.events.len()
        invariant
            i <= history.events@.len(),
            src_spec == source_conflicts(records_view(history.sources@), history.sources@.len() as int),
            conflicts_are(
                conflicts@,
                src_spec + event_conflicts(records_view(history.sources@), events_view(history.events@), i as int),
            ),
        decreases history.events@.len() - i,
    {
        let event = &history.events[i];
        let ghost s = records_view(history.sources@);
        let ghost evs = events_view(history.events@);
        let ghost base = src_spec + event_conflicts(s, evs, i as int);
        if !matches_declared_source(&history.sources, event) {
            let c = conflict_at(
                ConflictKind::UnknownSource,
                Some(event.operation.target().clone()),
                "XUNLIE-RESOLVE-UNKNOWN-SOURCE",
                "event location or precedence does not match a declared source",
                event.location.clone(),
            );
            proof {
                lemma_conflicts_push(conflicts@, base, c, unknown_source_conflict(evs[i as int]));
            }
            conflicts.push(c);
        }
        let ghost mid_spec = base + (if !event_matches_source(s, evs[i as int]) {
            seq![unknown_source_conflict(evs[i as int])]
        } else {
            Seq::<ConflictSpec>::empty()
        });
        assert(conflicts_are(conflicts@, mid_spec)) by {
            if event_matches_source(s, evs[i as int]) {
                assert(mid_spec =~= base);
            } else {
                assert(mid_spec =~= base.push(unknown_source_conflict(evs[i as int])));
            }
        }
        match find_prev_precedence(&history.events, i) {
            Some(j) => {
                let sp = decimal_string(event.precedence.source_position);
                let op = decimal_string(event.precedence.operation_position);
                let message = concat5(
                    "more than one event claims precedence (",
                    sp.as_str(),
                    ", ",
                    op.as_str(),
                    ")",
                );
                let c = conflict_with_related(
                    ConflictKind::DuplicatePrecedence,
                    Some(event.operation.target().clone()),
                    "XUNLIE-RESOLVE-DUPLICATE-PRECEDENCE",
                    message.as_str(),
                    event.location.clone(),
                    "other event is here",
                    history.events[j].location.clone(),
                );
                proof {
                    lemma_conflicts_push(
                        conflicts@,
                        mid_spec,
                        c,
                        duplicate_precedence_conflict(evs[i as int], evs[j as int]),
                    );
                }
                conflicts.push(c);
            },
            None => {},
        }
        assert(conflicts_are(conflicts@, src_spec + event_conflicts(s, evs, i + 1))) by {
            assert(event_conflicts(s, evs, i + 1) == event_conflicts(s, evs, i as int)
                + event_conflicts_at(s, evs, i as int));
            if prev_precedence(evs, i as int, i as int) is None {
                assert(src_spec + event_conflicts(s, evs, i + 1) =~= mid_spec);
            } else {
                assert(src_spec + event_conflicts(s, evs, i + 1) =~= mid_spec.push(
                    duplicate_precedence_conflict(
                        evs[i as int],
                        evs[prev_precedence(evs, i as int, i as int)->0],
                    ),
                ));
            }
        }
        i = i + 1;
    }
    conflicts
}

// ---------------------------------------------------------------------------
// Semantic resolution
// ---------------------------------------------------------------------------

/// The state of resolution: active requirements in ascending id order, each
/// with the location that introduced its current definition; the decisions
/// taken; the conflicts found.
pub struct ResolveState {
    pub active: Seq<(RequirementView, LocationView)>,
    pub decisions: Seq<DecisionView>,
    pub conflicts: Seq<ConflictSpec>,
}

pub open spec fn initial_state() -> ResolveState {
    ResolveState { active: Seq::empty(), decisions: Seq::empty(), conflicts: Seq::empty() }
}

/// The index of the first active entry with the given id, searching from `k`.
pub open spec fn find_active(active: Seq<(RequirementView, LocationView)>, id: Seq<char>, k: int) -> Option<
    int,
>
    decreases active.len() - k,
{
    if k < 0 || k >= active.len() {
        None
    } else if active[k].0.id == id {
        Some(k)
    } else {
        find_active(active, id, k + 1)
    }
}

/// The index of the first active entry, from `k` on, whose id does not precede `id`.
pub open spec fn insert_position(
    active: Seq<(RequirementView, LocationView)>,
    id: Seq<char>,
    k: int,
) -> int
    decreases active.len() - k,
{
    if k < 0 || k >= active.len() {
        active.len() as int
    } else if !seq_lt(active[k].0.id, id) {
        k
    } else {
        insert_position(active, id, k + 1)
    }
}

/// Inserts an entry before the first entry whose id does not precede its own.
pub open spec fn insert_sorted(
    active: Seq<(RequirementView, LocationView)>,
    entry: (RequirementView, LocationView),
) -> Seq<(RequirementView, LocationView)> {
    active.insert(insert_position(active, entry.0.id, 0), entry)
}

pub open spec fn decision_for(e: EventView, target: Seq<char>, action: ResolutionAction) -> DecisionView {
    DecisionView { precedence: e.precedence, target, action, location: e.location }
}

pub open spec fn invalid_requirement_conflict(
    target: Seq<char>,
    problem: (Seq<char>, Seq<char>),
    location: LocationView,
) -> ConflictSpec {
    ConflictSpec {
        kind: ConflictKind::InvalidRequirement,
        target: Some(target),
        code: problem.0,
        message: problem.1,
        primary: Some(location),
        related: Seq::empty(),
    }
}

pub open spec fn contradictory_add_conflict(
    target: Seq<char>,
    location: LocationView,
    origin: LocationView,
) -> ConflictSpec {
    ConflictSpec {
        kind: ConflictKind::ContradictoryAdd,
        target: Some(target),
        code: "XUNLIE-RESOLVE-CONTRADICTORY-ADD"@,
        message: "add for `"@ + target
            + "` contradicts its active definition; use replace explicitly"@,
        primary: Some(location),
        related: seq![("active definition was introduced here"@, origin)],
    }
}

pub open spec fn replace_mismatch_conflict(
    target: Seq<char>,
    replacement_id: Seq<char>,
    location: LocationView,
) -> ConflictSpec {
    ConflictSpec {
        kind: ConflictKind::ReplacementIdMismatch,
        target: Some(target),
        code: "XUNLIE-RESOLVE-REPLACE-ID-MISMATCH"@,
        message: "replace target `"@ + target + "` does not match replacement id `"@
            + replacement_id + "`"@,
        primary: Some(location),
        related: Seq::empty(),
    }
}

pub open spec fn missing_replace_conflict(target: Seq<char>, location: LocationView) -> ConflictSpec {
    ConflictSpec {
        kind: ConflictKind::MissingReplacementTarget,
        target: Some(target),
        code: "XUNLIE-RESOLVE-MISSING-REPLACE-TARGET"@,
        message: "cannot replace `"@ + target + "` because it is not active"@,
        primary: Some(location),
        related: Seq::empty(),
    }
}

pub open spec fn missing_revoke_conflict(target: Seq<char>, location: LocationView) -> ConflictSpec {
    ConflictSpec {
        kind: ConflictKind::MissingRevocationTarget,
        target: Some(target),
        code: "XUNLIE-RESOLVE-MISSING-REVOKE-TARGET"@,
        message: "cannot revoke `"@ + target + "` because it is not active"@,
        primary: Some(location),
        related: Seq::empty(),
    }
}

pub open spec fn with_conflict(st: ResolveState, c: ConflictSpec) -> ResolveState {
    ResolveState { conflicts: st.conflicts.push(c), ..st }
}

pub open spec fn with_decision(st: ResolveState, d: DecisionView) -> ResolveState {
    ResolveState { decisions: st.decisions.push(d), ..st }
}

/// The effect of one event on the resolution state.
pub open spec fn resolve_step(st: ResolveState, e: EventView) -> ResolveState {
    let t = op_target(e.operation);
    match e.operation {
        OperationView::Add(rv) => {
            match requirement_problem(rv) {
                Some(p) => with_conflict(st, invalid_requirement_conflict(t, p, e.location)),
                None => match find_active(st.active, rv.id, 0) {
                    None => with_decision(
                        ResolveState {
                            active: insert_sorted(st.active, (rv, e.location)),
                            ..st
                        },
                        decision_for(e, t, ResolutionAction::Added),
                    ),
                    Some(i) => if st.active[i].0 == rv {
                        with_decision(st, decision_for(e, t, ResolutionAction::NoChange))
                    } else {
                        with_conflict(
                            st,
                            contradictory_add_conflict(t, e.location, st.active[i].1),
                        )
                    },
                },
            }
        },
        OperationView::Replace(target, rv) => {
            if rv.id != target {
                with_conflict(st, replace_mismatch_conflict(target, rv.id, e.location))
            } else {
                match requirement_problem(rv) {
                    Some(p) => with_conflict(
                        st,
                        invalid_requirement_conflict(target, p, e.location),
                    ),
                    None => match find_active(st.active, target, 0) {
                        None => with_conflict(st, missing_replace_conflict(target, e.location)),
                        Some(i) => if st.active[i].0 == rv {
                            with_decision(st, decision_for(e, target, ResolutionAction::NoChange))
                        } else {
                            with_decision(
                                ResolveState { active: st.active.update(i, (rv, e.location)), ..st },
                                decision_for(e, target, ResolutionAction::Replaced),
                            )
                        },
                    },
                }
            }
        },
        OperationView::Revoke(target) => match find_active(st.active, target, 0) {
            Some(i) => with_decision(
                ResolveState { active: st.active.remove(i), ..st },
                decision_for(e, target, ResolutionAction::Revoked),
            ),
            None => with_conflict(st, missing_revoke_conflict(target, e.location)),
        },
    }
}

/// Inserts index `k` into an order of event indices, after every event whose
/// precedence does not exceed that of event `k` (a stable insertion).
pub open spec fn insert_by_precedence(evs: Seq<EventView>, t: Seq<usize>, k: usize) -> Seq<usize>
    decreases t.len(),
{
    if t.len() == 0 {
        seq![k]
    } else if precedence_lt(evs[k as int].precedence, evs[t.last() as int].precedence) {
        insert_by_precedence(evs, t.drop_last(), k).push(t.last())
    } else {
        t.push(k)
    }
}

/// The indices of the first `n` events, stably sorted by precedence.
pub open spec fn precedence_order(evs: Seq<EventView>, n: nat) -> Seq<usize>
    decreases n,
{
    if n == 0 {
        Seq::empty()
    } else {
        insert_by_precedence(evs, precedence_order(evs, (n - 1) as nat), (n - 1) as usize)
    }
}

/// The state after applying the events named by `ord`, in that order.
pub open spec fn fold_events(evs: Seq<EventView>, ord: Seq<usize>) -> ResolveState
    decreases ord.len(),
{
    if ord.len() == 0 {
        initial_state()
    } else {
        resolve_step(fold_events(evs, ord.drop_last()), evs[ord.last() as int])
    }
}

/// The outcome of resolving a history: the effective requirements in ascending
/// id order and the decisions in precedence order, or every conflict.
pub open spec fn spec_resolve(sources: Seq<RecordView>, evs: Seq<EventView>) -> Result<
    (Seq<(Seq<char>, RequirementView)>, Seq<DecisionView>),
    Seq<ConflictSpec>,
> {
    let structural = structure_conflicts(sources, evs);
    if structural.len() > 0 {
        Err(structural)
    } else {
        let st = fold_events(evs, precedence_order(evs, evs.len()));
        if st.conflicts.len() > 0 {
            Err(st.conflicts)
        } else {
            Ok((entries_of(st.active), st.decisions))
        }
    }
}

/// The active requirements as map entries keyed by id.
pub open spec fn entries_of(a: Seq<(RequirementView, LocationView)>) -> Seq<(Seq<char>, RequirementView)> {
    a.map_values(|e: (RequirementView, LocationView)| (e.0.id, e.0))
}

/// Active requirements are kept in strictly ascending id order.
pub open spec fn active_ascending(a: Seq<(RequirementView, LocationView)>) -> bool {
    forall|i: int, j: int| 0 <= i < j < a.len() ==> seq_lt(#[trigger] a[i].0.id, #[trigger] a[j].0.id)
}

proof fn lemma_find_active(a: Seq<(RequirementView, LocationView)>, id: Seq<char>, k: int)
    requires
        0 <= k,
    ensures
        find_active(a, id, k) is None ==> forall|j: int| k <= j < a.len() ==> (#[trigger] a[j]).0.id != id,
        find_active(a, id, k) matches Some(i) ==> k <= i < a.len() && a[i].0.id == id,
    decreases a.len() - k,
{
    if k < a.len() && a[k].0.id != id {
        lemma_find_active(a, id, k + 1);
    }
}

proof fn lemma_insert_position(a: Seq<(RequirementView, LocationView)>, id: Seq<char>, k: int)
    requires
        0 <= k <= a.len(),
    ensures
        k <= insert_position(a, id, k) <= a.len(),
        forall|j: int| k <= j < insert_position(a, id, k) ==> seq_lt(#[trigger] a[j].0.id, id),
        insert_position(a, id, k) < a.len() ==> !seq_lt(a[insert_position(a, id, k)].0.id, id),
    decreases a.len() - k,
{
    if k < a.len() && seq_lt(a[k].0.id, id) {
        lemma_insert_position(a, id, k + 1);
    }
}

/// Every step of resolution keeps the active requirements in ascending id order.
pub proof fn lemma_step_keeps_order(st: ResolveState, e: EventView)
    requires
        active_ascending(st.active),
    ensures
        active_ascending(resolve_step(st, e).active),
{
    let a = st.active;
    let r = resolve_step(st, e).active;
    match e.operation {
        OperationView::Add(rv) => {
            if requirement_problem(rv) is None && find_active(a, rv.id, 0) is None {
                lemma_find_active(a, rv.id, 0);
                lemma_insert_position(a, rv.id, 0);
                let p = insert_position(a, rv.id, 0);
                if p < a.len() {
                    crate::text::lemma_seq_lt_total(a[p].0.id, rv.id);
                }
                assert forall|i: int, j: int| 0 <= i < j < r.len() implies seq_lt(
                    #[trigger] r[i].0.id,
                    #[trigger] r[j].0.id,
                ) by {
                    if j < p {
                        assert(r[i] == a[i] && r[j] == a[j]);
                    } else if j == p {
                        assert(r[i] == a[i]);
                    } else if i == p {
                        assert(r[j] == a[j - 1]);
                        if j - 1 > p {
                            crate::text::lemma_seq_lt_transitive(rv.id, a[p].0.id, a[j - 1].0.id);
                        }
                    } else if i < p {
                        assert(r[i] == a[i] && r[j] == a[j - 1]);
                    } else {
                        assert(r[i] == a[i - 1] && r[j] == a[j - 1]);
                    }
                }
            }
        },
        OperationView::Replace(target, rv) => {
            if rv.id == target && requirement_problem(rv) is None {
                lemma_find_active(a, target, 0);
                if let Some(i0) = find_active(a, target, 0) {
                    assert forall|i: int, j: int| 0 <= i < j < r.len() implies seq_lt(
                        #[trigger] r[i].0.id,
                        #[trigger] r[j].0.id,
                    ) by {
                        assert(r[i].0.id == a[i].0.id);
                        assert(r[j].0.id == a[j].0.id);
                    }
                }
            }
        },
        OperationView::Revoke(target) => {
            lemma_find_active(a, target, 0);
            if let Some(i0) = find_active(a, target, 0) {
                assert forall|i: int, j: int| 0 <= i < j < r.len() implies seq_lt(
                    #[trigger] r[i].0.id,
                    #[trigger] r[j].0.id,
                ) by {
                    if j < i0 {
                        assert(r[i] == a[i] && r[j] == a[j]);
                    } else if i < i0 {
                        assert(r[i] == a[i] && r[j] == a[j + 1]);
                    } else {
                        assert(r[i] == a[i + 1] && r[j] == a[j + 1]);
                    }
                }
            }
        },
    }
}

/// Whatever the events, resolution keeps its active requirements in strictly
/// ascending id order, so each id is active at most once.
pub proof fn lemma_fold_ascending(evs: Seq<EventView>, ord: Seq<usize>)
    ensures
        active_ascending(fold_events(evs, ord).active),
    decreases ord.len(),
{
    if ord.len() > 0 {
        lemma_fold_ascending(evs, ord.drop_last());
        lemma_step_keeps_order(fold_events(evs, ord.drop_last()), evs[ord.last() as int]);
    }
}

struct ActiveRequirement {
    requirement: Requirement,
    origin: SourceLocation,
}

spec fn active_view(v: Seq<ActiveRequirement>) -> Seq<(RequirementView, LocationView)> {
    v.map_values(|a: ActiveRequirement| (a.requirement@, a.origin@))
}

fn insert_by_prec(evs: &Vec<HistoryEvent>, t: &mut Vec<usize>, k: usize)
    requires
        k < evs@.len(),
        forall|j: int| 0 <= j < old(t)@.len() ==> old(t)@[j] < evs@.len(),
    ensures
        final(t)@ == insert_by_precedence(events_view(evs@), old(t)@, k),
        forall|j: int| 0 <= j < final(t)@.len() ==> final(t)@[j] < evs@.len(),
    decreases old(t)@.len(),
{
    if t.len() == 0 {
        t.push(k);
        return;
    }
    let last = t[t.len() - 1];
    if precedence_less(evs[k].precedence, evs[last].precedence) {
        let ghost before = t@;
        let l = t.pop().unwrap();
        assert(t@ == before.drop_last());
        insert_by_prec(evs, t, k);
        t.push(l);
    } else {
        t.push(k);
    }
}

fn order_by_precedence(evs: &Vec<HistoryEvent>) -> (r: Vec<usize>)
    ensures
        r@ == precedence_order(events_view(evs@), evs@.len()),
        forall|j: int| 0 <= j < r@.len() ==> r@[j] < evs@.len(),
{
    let mut t: Vec<usize> = Vec::new();
    let mut n: usize = 0;
    while n < evs.len()
        invariant
            n <= evs@.len(),
            t@ == precedence_order(events_view(evs@), n as nat),
            forall|j: int| 0 <= j < t@.len() ==> t@[j] < evs@.len(),
        decreases evs@.len() - n,
    {
        insert_by_prec(evs, &mut t, n);
        n = n + 1;
    }
    t
}

fn find_active_index(active: &Vec<ActiveRequirement>, id: &RequirementId) -> (r: Option<usize>)
    ensures
        r matches Some(i) ==> find_active(active_view(active@), id@, 0) == Some(i as int) && i
            < active@.len(),
        r is None ==> find_active(active_view(active@), id@, 0) is None,
{
    let ghost av = active_view(active@);
    let mut k: usize = 0;
    while k < active.len()
        invariant
            k <= active@.len(),
            av == active_view(active@),
            find_active(av, id@, 0) == find_active(av, id@, k as int),
        decreases active@.len() - k,
    {
        if active[k].requirement.id().same_as(id) {
            return Some(k);
        }
        k = k + 1;
    }
    None
}

fn insert_active(active: &mut Vec<ActiveRequirement>, entry: ActiveRequirement)
    ensures
        active_view(final(active)@) == insert_sorted(
            active_view(old(active)@),
            (entry.requirement@, entry.origin@),
        ),
{
    let ghost av = active_view(active@);
    let id = entry.requirement.id().as_str();
    let mut k: usize = 0;
    while k < active.len()
        invariant
            k <= active@.len(),
            av == active_view(active@),
            id@ == entry.requirement@.id,
            insert_position(av, id@, 0) == insert_position(av, id@, k as int),
        ensures
            k <= active@.len(),
            av == active_view(active@),
            insert_position(av, id@, 0) == insert_position(av, id@, k as int),
            k == active@.len() || !seq_lt(av[k as int].0.id, id@),
        decreases active@.len() - k,
    {
        if !str_lt(active[k].requirement.id().as_str(), id) {
            break;
        }
        k = k + 1;
    }
    assert(insert_position(av, id@, 0) == k as int);
    let ghost e = (entry.requirement@, entry.origin@);
    active.insert(k, entry);
    assert(active_view(active@) =~= av.insert(k as int, e));
}

fn push_decision(
    decisions: &mut Vec<ResolutionDecision>,
    d: ResolutionDecision,
    Ghost(ds): Ghost<Seq<DecisionView>>,
)
    requires
        old(decisions)@.map_values(|x: ResolutionDecision| x@) == ds,
    ensures
        final(decisions)@.map_values(|x: ResolutionDecision| x@) == ds.push(d@),
{
    let ghost dv = d@;
    decisions.push(d);
    assert(decisions@.map_values(|x: ResolutionDecision| x@) =~= ds.push(dv));
}

/// Applies one event to the executable resolution state.
fn apply_event(
    active: &mut Vec<ActiveRequirement>,
    decisions: &mut Vec<ResolutionDecision>,
    conflicts: &mut Vec<Conflict>,
    event: &HistoryEvent,
    Ghost(st): Ghost<ResolveState>,
)
    requires
        active_view(old(active)@) == st.active,
        old(decisions)@.map_values(|x: ResolutionDecision| x@) == st.decisions,
        conflicts_are(old(conflicts)@, st.conflicts),
    ensures
        active_view(final(active)@) == resolve_step(st, event@).active,
        final(decisions)@.map_values(|x: ResolutionDecision| x@) == resolve_step(st, event@).decisions,
        conflicts_are(final(conflicts)@, resolve_step(st, event@).conflicts),
{
    let ghost ev = event@;
    let ghost t = op_target(ev.operation);
    let target = event.operation.target().clone();
    match &event.operation {
        Operation::Add { requirement } => {
            match requirement.validate() {
                Err(d) => {
                    let d = *d;
                    let c = Conflict {
                        kind: ConflictKind::InvalidRequirement,
                        target: Some(target),
                        diagnostic: d.with_primary(event.location.clone()),
                    };
                    proof {
                        lemma_conflicts_push(
                            conflicts@,
                            st.conflicts,
                            c,
                            invalid_requirement_conflict(
                                t,
                                requirement_problem(requirement@).unwrap(),
                                ev.location,
                            ),
                        );
                    }
                    conflicts.push(c);
                    return;
                },
                Ok(()) => {},
            }
            match find_active_index(active, requirement.id()) {
                None => {
                    let entry = ActiveRequirement {
                        requirement: requirement.clone(),
                        origin: event.location.clone(),
                    };
                    insert_active(active, entry);
                    push_decision(
                        decisions,
                        ResolutionDecision {
                            precedence: event.precedence,
                            target,
                            action: ResolutionAction::Added,
                            location: event.location.clone(),
                        },
                        Ghost(st.decisions),
                    );
                },
                Some(i) => {
                    if active[i].requirement.same_as(requirement) {
                        push_decision(
                            decisions,
                            ResolutionDecision {
                                precedence: event.precedence,
                                target,
                                action: ResolutionAction::NoChange,
                                location: event.location.clone(),
                            },
                            Ghost(st.decisions),
                        );
                    } else {
                        let message = concat3(
                            "add for `",
                            target.as_str(),
                            "` contradicts its active definition; use replace explicitly",
                        );
                        let c = conflict_with_related(
                            ConflictKind::ContradictoryAdd,
                            Some(target.clone()),
                            "XUNLIE-RESOLVE-CONTRADICTORY-ADD",
                            message.as_str(),
                            event.location.clone(),
                            "active definition was introduced here",
                            active[i].origin.clone(),
                        );
                        proof {
                            lemma_conflicts_push(
                                conflicts@,
                                st.conflicts,
                                c,
                                contradictory_add_conflict(t, ev.location, st.active[i as int].1),
                            );
                        }
                        conflicts.push(c);
                    }
                },
            }
        },
        Operation::Replace { target: declared, requirement } => {
            if !requirement.id().same_as(declared) {
                let message = concat5(
                    "replace target `",
                    declared.as_str(),
                    "` does not match replacement id `",
                    requirement.id().as_str(),
                    "`",
                );
                let c = conflict_at(
                    ConflictKind::ReplacementIdMismatch,
                    Some(target),
                    "XUNLIE-RESOLVE-REPLACE-ID-MISMATCH",
                    message.as_str(),
                    event.location.clone(),
                );
                proof {
                    lemma_conflicts_push(
                        conflicts@,
                        st.conflicts,
                        c,
                        replace_mismatch_conflict(declared@, requirement@.id, ev.location),
                    );
                }
                conflicts.push(c);
                return;
            }
            match requirement.validate() {
                Err(d) => {
                    let d = *d;
                    let c = Conflict {
                        kind: ConflictKind::InvalidRequirement,
                        target: Some(target),
                        diagnostic: d.with_primary(event.location.clone()),
                    };
                    proof {
                        lemma_conflicts_push(
                            conflicts@,
                            st.conflicts,
                            c,
                            invalid_requirement_conflict(
                                declared@,
                                requirement_problem(requirement@).unwrap(),
                                ev.location,
                            ),
                        );
                    }
                    conflicts.push(c);
                    return;
                },
                Ok(()) => {},
            }
            match find_active_index(active, declared) {
                None => {
                    let message = concat3(
                        "cannot replace `",
                        declared.as_str(),
                        "` because it is not active",
                    );
                    let c = conflict_at(
                        ConflictKind::MissingReplacementTarget,
                        Some(target),
                        "XUNLIE-RESOLVE-MISSING-REPLACE-TARGET",
                        message.as_str(),
                        event.location.clone(),
                    );
                    proof {
                        lemma_conflicts_push(
                            conflicts@,
                            st.conflicts,
                            c,
                            missing_replace_conflict(declared@, ev.location),
                        );
                    }
                    conflicts.push(c);
                },
                Some(i) => {
                    if active[i].requirement.same_as(requirement) {
                        push_decision(
                            decisions,
                            ResolutionDecision {
                                precedence: event.precedence,
                                target,
                                action: ResolutionAction::NoChange,
                                location: event.location.clone(),
                            },
                            Ghost(st.decisions),
                        );
                    } else {
                        let ghost av = active_view(active@);
                        let entry = ActiveRequirement {
                            requirement: requirement.clone(),
                            origin: event.location.clone(),
                        };
                        let ghost e = (entry.requirement@, entry.origin@);
                        active.set(i, entry);
                        assert(active_view(active@) =~= av.update(i as int, e));
                        push_decision(
                            decisions,
                            ResolutionDecision {
                                precedence: event.precedence,
                                target,
                                action: ResolutionAction::Replaced,
                                location: event.location.clone(),
                            },
                            Ghost(st.decisions),
                        );
                    }
                },
            }
        },
        Operation::Revoke { target: declared } => {
            match find_active_index(active, declared) {
                Some(i) => {
                    let ghost av = active_view(active@);
                    active.remove(i);
                    assert(active_view(active@) =~= av.remove(i as int));
                    push_decision(
                        decisions,
                        ResolutionDecision {
                            precedence: event.precedence,
                            target,
                            action: ResolutionAction::Revoked,
                            location: event.location.clone(),
                        },
                        Ghost(st.decisions),
                    );
                },
                None => {
                    let message = concat3(
                        "cannot revoke `",
                        declared.as_str(),
                        "` because it is not active",
                    );
                    let c = conflict_at(
                        ConflictKind::MissingRevocationTarget,
                        Some(target),
                        "XUNLIE-RESOLVE-MISSING-REVOKE-TARGET",
                        message.as_str(),
                        event.location.clone(),
                    );
                    proof {
                        lemma_conflicts_push(
                            conflicts@,
                            st.conflicts,
                            c,
                            missing_revoke_conflict(declared@, ev.location),
                        );
                    }
                    conflicts.push(c);
                },
            }
        },
    }
}

/// Effective contract and its successful resolution trace.
#[derive(Debug, PartialEq, Eq)]
pub struct ResolvedContract {
    requirements: RequirementMap,
    decisions: Vec<ResolutionDecision>,
}

impl ResolvedContract {
    /// The effective requirements, keyed by id in ascending order.
    pub closed spec fn requirement_views(&self) -> Seq<(Seq<char>, RequirementView)> {
        self.requirements@
    }

    /// The decisions, in precedence order.
    pub closed spec fn decision_seq(&self) -> Seq<DecisionView> {
        self.decisions@.map_values(|d: ResolutionDecision| d@)
    }

    /// Returns effective requirements in stable identifier order.
    pub fn requirements(&self) -> (r: &RequirementMap)
        ensures
            r@ == self.requirement_views(),
    {
        &self.requirements
    }

    /// Consumes the result and returns its effective requirements.
    pub fn into_requirements(self) -> (r: RequirementMap)
        ensures
            r@ == self.requirement_views(),
    {
        self.requirements
    }

    /// Returns the ordered resolution trace.
    pub fn decisions(&self) -> (r: &Vec<ResolutionDecision>)
        ensures
            r@.map_values(|d: ResolutionDecision| d@) == self.decision_seq(),
    {
        &self.decisions
    }
}

/// Failure returned instead of a partially resolved contract.
#[derive(Debug)]
pub struct ResolutionFailure {
    conflicts: Vec<Conflict>,
}

impl ResolutionFailure {
    pub closed spec fn conflict_seq(&self) -> Seq<Conflict> {
        self.conflicts@
    }

    /// Returns all deterministic conflicts. No partial contract is retained.
    pub fn conflicts(&self) -> (r: &Vec<Conflict>)
        ensures
            r@ == self.conflict_seq(),
    {
        &self.conflicts
    }

    /// Returns cloned structured diagnostics for compiler aggregation.
    pub fn diagnostics(&self) -> (r: Vec<Diagnostic>)
        ensures
            r@.len() == self.conflict_seq().len(),
            forall|i: int|
                0 <= i < r@.len() ==> {
                    let d = #[trigger] r@[i];
                    let o = self.conflict_seq()[i].diagnostic;
                    &&& d.code == o.code
                    &&& d.severity == o.severity
                    &&& d.message == o.message
                    &&& d.primary == o.primary
                    &&& d.related@ == o.related@
                },
    {
        let mut out: Vec<Diagnostic> = Vec::new();
        let mut k: usize = 0;
        while k < self.conflicts.len()
            invariant
                k <= self.conflicts@.len(),
                out@.len() == k,
                forall|i: int|
                    0 <= i < k ==> {
                        let d = #[trigger] out@[i];
                        let o = self.conflicts@[i].diagnostic;
                        &&& d.code == o.code
                        &&& d.severity == o.severity
                        &&& d.message == o.message
                        &&& d.primary == o.primary
                        &&& d.related@ == o.related@
                    },
            decreases self.conflicts@.len() - k,
        {
            out.push(self.conflicts[k].diagnostic.clone());
            k = k + 1;
        }
        out
    }

    /// Human-readable summary.
    pub fn to_display_string(&self) -> (r: String)
        ensures
            r@ == "history resolution failed with "@ + decimal(self.conflict_seq().len()) + " conflict(s)"@,
    {
        let n = decimal_string(self.conflicts.len());
        concat3("history resolution failed with ", n.as_str(), " conflict(s)")
    }
}

/// Resolves a history deterministically, or returns conflicts without partial IR.
pub fn resolve_history(history: &History) -> (r: Result<ResolvedContract, ResolutionFailure>)
    ensures
        r is Ok <==> spec_resolve(records_view(history.sources@), events_view(history.events@)) is Ok,
        r matches Ok(c) ==> spec_resolve(records_view(history.sources@), events_view(history.events@)) == Ok::<
            (Seq<(Seq<char>, RequirementView)>, Seq<DecisionView>),
            Seq<ConflictSpec>,
        >((c.requirement_views(), c.decision_seq())),
        r matches Err(f) ==> conflicts_are(
            f.conflict_seq(),
            spec_resolve(records_view(history.sources@), events_view(history.events@))->Err_0,
        ),
{
    let conflicts = validate_history_structure(history);
    if conflicts.len() > 0 {
        return Err(ResolutionFailure { conflicts });
    }
    let order = order_by_precedence(&history.events);
    let mut active: Vec<ActiveRequirement> = Vec::new();
    let mut decisions: Vec<ResolutionDecision> = Vec::new();
    assert(decisions@.map_values(|x: ResolutionDecision| x@) =~= Seq::<DecisionView>::empty());
    assert(active_view(active@) =~= Seq::<(RequirementView, LocationView)>::empty());
    let mut conflicts: Vec<Conflict> = Vec::new();
    let mut i: usize = 0;
    assert(order@.take(0) =~= Seq::<usize>::empty());
    while i < order.len()
        invariant
            i <= order@.len(),
            order@ == precedence_order(events_view(history.events@), history.events@.len()),
            forall|j: int| 0 <= j < order@.len() ==> order@[j] < history.events@.len(),
            active_view(active@) == fold_events(events_view(history.events@), order@.take(i as int)).active,
            decisions@.map_values(|x: ResolutionDecision| x@) == fold_events(events_view(history.events@), order@.take(i as int)).decisions,
            conflicts_are(conflicts@, fold_events(events_view(history.events@), order@.take(i as int)).conflicts),
        decreases order@.len() - i,
    {
        let ghost st = fold_events(events_view(history.events@), order@.take(i as int));
        let k = order[i];
        assert(events_view(history.events@)[k as int] == history.events@[k as int]@);
        apply_event(&mut active, &mut decisions, &mut conflicts, &history.events[k], Ghost(st));
        assert(order@.take(i + 1).drop_last() =~= order@.take(i as int));
        i = i + 1;
    }
    assert(order@.take(order@.len() as int) =~= order@);
    if conflicts.len() > 0 {
        return Err(ResolutionFailure { conflicts });
    }
    let ghost st = fold_events(events_view(history.events@), order@);
    proof {
        lemma_fold_ascending(events_view(history.events@), order@);
    }
    let mut entries: Vec<(RequirementId, Requirement)> = Vec::new();
    let mut k: usize = 0;
    while k < active.len()
        invariant
            k <= active@.len(),
            active_view(active@) == st.active,
            entries@.len() == k,
            entries@.map_values(|e: (RequirementId, Requirement)| (e.0@, e.1@)) == entries_of(
                st.active.take(k as int),
            ),
        decreases active@.len() - k,
    {
        let ghost before = entries@;
        let requirement = active[k].requirement.clone();
        let id = requirement.id().clone();
        entries.push((id, requirement));
        assert(st.active[k as int].0 == active@[k as int].requirement@);
        assert forall|j: int| 0 <= j < k + 1 implies (#[trigger] entries@[j]).0@ == st.active.take(
            k + 1,
        )[j].0.id && entries@[j].1@ == st.active.take(k + 1)[j].0 by {
            if j < k {
                assert(entries@[j] == before[j]);
                assert(before.map_values(|e: (RequirementId, Requirement)| (e.0@, e.1@))[j] == (
                before[j].0@,
                before[j].1@,
                ));
            }
        }
        assert(entries@.map_values(|e: (RequirementId, Requirement)| (e.0@, e.1@)) =~= entries_of(
            st.active.take(k + 1),
        ));
        k = k + 1;
    }
    assert(st.active.take(active@.len() as int) =~= st.active);
    let requirements = RequirementMap::from_ascending(entries);
    Ok(ResolvedContract { requirements, decisions })
}

} // verus!
