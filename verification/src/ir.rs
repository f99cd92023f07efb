//! Contract vocabulary: identities, requirements, provenance and the contract artifact.
use vstd::prelude::*;
use vstd::string::StringSliceAdditionalSpecFns;

use crate::diagnostic::{is_plain_error, Diagnostic, LocationView, SourceLocation};
use crate::decode::{
    attrs_ascending, attrs_collect, attrs_view, insert_attribute, lemma_attrs_collect_ascending,
};
use crate::digest::Sha256Digest;
use crate::text::{
    chars_of, concat3, has_control, is_blank, is_control, lemma_seq_lt_asymmetric,
    lemma_seq_lt_irreflexive, lemma_seq_lt_total, lemma_seq_lt_transitive, seq_lt, str_is_blank,
    str_lt,
};

verus! {

/// A non-empty, stable identity for a source (for example a URI or repository path).
#[derive(Debug, PartialEq, Eq, Hash, PartialOrd, Ord)]
pub struct SourceIdentity {
    text: String,
}

impl View for SourceIdentity {
    type V = Seq<char>;

    closed spec fn view(&self) -> Seq<char> {
        self.text@
    }
}

impl Clone for SourceIdentity {
    fn clone(&self) -> (r: Self)
        ensures
            r == *self,
    {
        SourceIdentity { text: self.text.clone() }
    }
}

/// Why a source identity was rejected.
#[derive(Clone, Copy, Debug, PartialEq, Eq, Structural)]
pub enum SourceIdentityError {
    /// Empty identities cannot be audited.
    Empty,
    /// Control characters make logs and serialized records ambiguous.
    ControlCharacter,
}

/// The verdict on a candidate source identity.
pub open spec fn spec_source_identity(s: Seq<char>) -> Result<Seq<char>, SourceIdentityError> {
    if is_blank(s) {
        Err(SourceIdentityError::Empty)
    } else if exists|i: int| 0 <= i < s.len() && is_control(#[trigger] s[i]) {
        Err(SourceIdentityError::ControlCharacter)
    } else {
        Ok(s)
    }
}

impl SourceIdentityError {
    /// The human-readable explanation.
    pub fn to_display_string(&self) -> (r: String)
        ensures
            r@ == crate::engine::identity_error_text(*self),
    {
        String::from_str(crate::engine::identity_error_message(*self))
    }
}

impl SourceIdentity {
    /// Validates and creates a source identity.
    pub fn new(value: &str) -> (r: Result<Self, SourceIdentityError>)
        ensures
            r matches Ok(id) ==> spec_source_identity(value@) == Ok::<
                Seq<char>,
                SourceIdentityError,
            >(id@),
            r matches Err(e) ==> spec_source_identity(value@) == Err::<
                Seq<char>,
                SourceIdentityError,
            >(e),
    {
        if str_is_blank(value) {
            return Err(SourceIdentityError::Empty);
        }
        if has_control(value) {
            return Err(SourceIdentityError::ControlCharacter);
        }
        Ok(SourceIdentity { text: String::from_str(value) })
    }

    /// Returns the identity as supplied by the caller.
    pub fn as_str(&self) -> (r: &str)
        ensures
            r@ == self@,
    {
        self.text.as_str()
    }

    /// Whether two identities have the same text.
    pub fn same_as(&self, other: &Self) -> (r: bool)
        ensures
            r == (self@ == other@),
    {
        self.text == other.text
    }
}

/// An identifier for a requirement in the effective contract.
#[derive(Debug, PartialEq, Eq, Hash, PartialOrd, Ord)]
pub struct RequirementId {
    text: String,
}

impl View for RequirementId {
    type V = Seq<char>;

    closed spec fn view(&self) -> Seq<char> {
        self.text@
    }
}

impl Clone for RequirementId {
    fn clone(&self) -> (r: Self)
        ensures
            r == *self,
    {
        RequirementId { text: self.text.clone() }
    }
}

/// Why a requirement identifier was rejected.
#[derive(Clone, Copy, Debug, PartialEq, Eq, Structural)]
pub enum RequirementIdError {
    /// Empty identifiers are invalid.
    Empty,
    /// IDs are bounded to keep reports and indexes predictable; carries the byte length.
    TooLong(usize),
    /// The identifier used a non-portable character.
    InvalidCharacter,
}

/// ASCII letters, digits, `.`, `_`, `-`, `/` and `:`.
pub open spec fn is_id_char(c: char) -> bool {
    ||| ('a' <= c && c <= 'z')
    ||| ('A' <= c && c <= 'Z')
    ||| ('0' <= c && c <= '9')
    ||| c == '.'
    ||| c == '_'
    ||| c == '-'
    ||| c == '/'
    ||| c == ':'
}

/// The verdict on a candidate requirement identifier.
pub open spec fn spec_requirement_id(s: Seq<char>) -> Result<Seq<char>, RequirementIdError> {
    if s.len() == 0 {
        Err(RequirementIdError::Empty)
    } else if vstd::utf8::encode_utf8(s).len() as usize > 128 {
        Err(RequirementIdError::TooLong(vstd::utf8::encode_utf8(s).len() as usize))
    } else if !(forall|i: int| 0 <= i < s.len() ==> is_id_char(#[trigger] s[i])) {
        Err(RequirementIdError::InvalidCharacter)
    } else {
        Ok(s)
    }
}

fn id_char(c: char) -> (b: bool)
    ensures
        b == is_id_char(c),
{
    ('a' <= c && c <= 'z') || ('A' <= c && c <= 'Z') || ('0' <= c && c <= '9') || c == '.' || c
        == '_' || c == '-' || c == '/' || c == ':'
}

impl RequirementIdError {
    /// The human-readable explanation.
    pub fn to_display_string(&self) -> (r: String)
        ensures
            r@ == crate::decode::id_error_text(*self),
    {
        crate::decode::id_error_message(*self)
    }
}

impl RequirementId {
    /// Creates an identifier containing ASCII letters, digits, `.`, `_`, `-`, `/`, or `:`.
    pub fn new(value: &str) -> (r: Result<Self, RequirementIdError>)
        ensures
            r matches Ok(id) ==> spec_requirement_id(value@) == Ok::<
                Seq<char>,
                RequirementIdError,
            >(id@),
            r matches Err(e) ==> spec_requirement_id(value@) == Err::<
                Seq<char>,
                RequirementIdError,
            >(e),
    {
        let chars = chars_of(value);
        if chars.len() == 0 {
            return Err(RequirementIdError::Empty);
        }
        let byte_len = value.len();
        assert(value.spec_bytes() == vstd::utf8::encode_utf8(value@));
        if byte_len > 128 {
            return Err(RequirementIdError::TooLong(byte_len));
        }
        let mut i: usize = 0;
        while i < chars.len()
            invariant
                i <= chars@.len(),
                chars@ == value@,
                value@.len() > 0,
                !(vstd::utf8::encode_utf8(value@).len() as usize > 128),
                forall|j: int| 0 <= j < i ==> is_id_char(#[trigger] value@[j]),
            decreases chars@.len() - i,
        {
            if !id_char(chars[i]) {
                assert(!is_id_char(value@[i as int]));
                return Err(RequirementIdError::InvalidCharacter);
            }
            i = i + 1;
        }
        Ok(RequirementId { text: String::from_str(value) })
    }

    /// Returns the normalized identifier.
    pub fn as_str(&self) -> (r: &str)
        ensures
            r@ == self@,
    {
        self.text.as_str()
    }

    /// Whether two identifiers have the same text.
    pub fn same_as(&self, other: &Self) -> (r: bool)
        ensures
            r == (self@ == other@),
    {
        self.text == other.text
    }
}

/// Semantic category of a contract requirement.
#[derive(Clone, Copy, Debug, PartialEq, Eq, Structural, PartialOrd, Ord, Hash)]
pub enum RequirementKind {
    /// User-visible behavior.
    Functional,
    /// Quality or non-functional behavior.
    Quality,
    /// A hard restriction on possible implementations.
    Constraint,
    /// An acceptance oracle or expected observation.
    Acceptance,
    /// A condition that must remain true throughout a run.
    Invariant,
}

/// Contractual force of a requirement.
#[derive(Clone, Copy, Debug, PartialEq, Eq, Structural, PartialOrd, Ord, Hash)]
pub enum RequirementPriority {
    /// Required for the contract to pass.
    Must,
    /// Expected unless explicitly waived by later policy.
    Should,
    /// Optional behavior.
    May,
}

/// One extension attribute of a requirement.
#[derive(Debug, PartialEq, Eq)]
pub struct Attribute {
    /// Attribute name.
    pub key: String,
    /// Attribute value.
    pub value: String,
}

impl Clone for Attribute {
    fn clone(&self) -> (r: Self)
        ensures
            r == *self,
    {
        Attribute { key: self.key.clone(), value: self.value.clone() }
    }
}

/// The mathematical content of a requirement.
pub struct RequirementView {
    pub id: Seq<char>,
    pub kind: RequirementKind,
    pub priority: RequirementPriority,
    pub statement: Seq<char>,
    pub attributes: Seq<(Seq<char>, Seq<char>)>,
}

/// One normalized requirement in the effective contract.
#[derive(Debug, PartialEq, Eq)]
pub struct Requirement {
    id: RequirementId,
    kind: RequirementKind,
    priority: RequirementPriority,
    statement: String,
    attributes: Vec<Attribute>,
}

impl Requirement {
    /// The attributes form a map: keys strictly ascending, each at most once.
    #[verifier::type_invariant]
    closed spec fn attributes_are_a_map(self) -> bool {
        attrs_ascending(attrs_view(self.attributes@))
    }
}

impl View for Requirement {
    type V = RequirementView;

    closed spec fn view(&self) -> RequirementView {
        RequirementView {
            id: self.id@,
            kind: self.kind,
            priority: self.priority,
            statement: self.statement@,
            attributes: attrs_view(self.attributes@),
        }
    }
}

/// Copies a list of attributes.
fn clone_attributes(v: &Vec<Attribute>) -> (r: Vec<Attribute>)
    ensures
        r@ == v@,
{
    let mut out: Vec<Attribute> = Vec::new();
    let mut i: usize = 0;
    while i < v.len()
        invariant
            i <= v@.len(),
            out@ == v@.take(i as int),
        decreases v@.len() - i,
    {
        out.push(v[i].clone());
        assert(v@.take(i + 1) =~= v@.take(i as int).push(v@[i as int]));
        i = i + 1;
    }
    assert(v@.take(v@.len() as int) =~= v@);
    out
}

impl Clone for Requirement {
    fn clone(&self) -> (r: Self)
        ensures
            r@ == self@,
            r.identifier() == self.identifier(),
    {
        proof {
            use_type_invariant(self);
        }
        let attributes = clone_attributes(&self.attributes);
        Requirement {
            id: self.id.clone(),
            kind: self.kind,
            priority: self.priority,
            statement: self.statement.clone(),
            attributes,
        }
    }
}

/// The first problem found in a requirement: a blank statement, then a blank attribute name.
pub open spec fn requirement_problem(r: RequirementView) -> Option<(Seq<char>, Seq<char>)> {
    if is_blank(r.statement) {
        Some(
            (
                "XUNLIE-REQ-EMPTY-STATEMENT"@,
                "requirement `"@ + r.id + "` has an empty statement"@,
            ),
        )
    } else if exists|i: int| 0 <= i < r.attributes.len() && is_blank(#[trigger] r.attributes[i].0) {
        Some(
            (
                "XUNLIE-REQ-EMPTY-ATTRIBUTE"@,
                "requirement `"@ + r.id + "` has an empty attribute name"@,
            ),
        )
    } else {
        None
    }
}

impl Requirement {
    /// Creates a requirement and checks its local invariants.
    pub fn new(
        id: RequirementId,
        kind: RequirementKind,
        priority: RequirementPriority,
        statement: &str,
    ) -> (r: Result<Self, Box<Diagnostic>>)
        ensures
            r matches Ok(req) ==> req@ == (RequirementView {
                id: id@,
                kind,
                priority,
                statement: statement@,
                attributes: Seq::empty(),
            }),
            r is Ok <==> !is_blank(statement@),
            r matches Err(d) ==> is_plain_error(
                *d,
                "XUNLIE-REQ-EMPTY-STATEMENT"@,
                "requirement `"@ + id@ + "` has an empty statement"@,
            ),
    {
        let requirement = Requirement {
            id,
            kind,
            priority,
            statement: String::from_str(statement),
            attributes: Vec::new(),
        };
        assert(requirement@.attributes =~= Seq::<(Seq<char>, Seq<char>)>::empty());
        match requirement.validate() {
            Ok(()) => Ok(requirement),
            Err(d) => Err(d),
        }
    }

    /// Builds a requirement from decoded parts without validating it. The
    /// attributes are collected as a map: kept in key order, a later value
    /// replacing an earlier one with the same key.
    pub fn from_parts(
        id: RequirementId,
        kind: RequirementKind,
        priority: RequirementPriority,
        statement: String,
        attributes: Vec<Attribute>,
    ) -> (r: Self)
        ensures
            r@ == (RequirementView {
                id: id@,
                kind,
                priority,
                statement: statement@,
                attributes: attrs_collect(attrs_view(attributes@)),
            }),
            r.identifier() == id,
    {
        let mut collected: Vec<Attribute> = Vec::new();
        let mut i: usize = 0;
        while i < attributes.len()
            invariant
                i <= attributes@.len(),
                attrs_view(collected@) == attrs_collect(attrs_view(attributes@.take(i as int))),
            decreases attributes@.len() - i,
        {
            let ghost before = attrs_view(attributes@.take(i as int));
            assert(attrs_view(attributes@.take(i + 1)).drop_last() =~= before);
            insert_attribute(&mut collected, attributes[i].clone());
            i = i + 1;
        }
        assert(attributes@.take(attributes@.len() as int) =~= attributes@);
        proof {
            lemma_attrs_collect_ascending(attrs_view(attributes@));
        }
        Requirement { id, kind, priority, statement, attributes: collected }
    }

    /// Builds a requirement from parts whose attributes are already a map in key order.
    pub(crate) fn from_sorted_parts(
        id: RequirementId,
        kind: RequirementKind,
        priority: RequirementPriority,
        statement: String,
        attributes: Vec<Attribute>,
    ) -> (r: Self)
        requires
            attrs_ascending(attrs_view(attributes@)),
        ensures
            r@ == (RequirementView {
                id: id@,
                kind,
                priority,
                statement: statement@,
                attributes: attrs_view(attributes@),
            }),
            r.identifier() == id,
    {
        Requirement { id, kind, priority, statement, attributes }
    }

    pub closed spec fn identifier(&self) -> RequirementId {
        self.id
    }

    /// Returns the stable requirement identifier.
    pub fn id(&self) -> (r: &RequirementId)
        ensures
            *r == self.identifier(),
            r@ == self@.id,
    {
        &self.id
    }

    /// Returns the normalized statement.
    pub fn statement(&self) -> (r: &str)
        ensures
            r@ == self@.statement,
    {
        self.statement.as_str()
    }

    /// Returns the requirement kind.
    pub fn kind(&self) -> (r: RequirementKind)
        ensures
            r == self@.kind,
    {
        self.kind
    }

    /// Returns the requirement priority.
    pub fn priority(&self) -> (r: RequirementPriority)
        ensures
            r == self@.priority,
    {
        self.priority
    }

    /// Returns the extension attributes in ascending key order.
    pub fn attributes(&self) -> (r: &Vec<Attribute>)
        ensures
            attrs_view(r@) == self@.attributes,
            attrs_ascending(self@.attributes),
    {
        proof {
            use_type_invariant(self);
        }
        &self.attributes
    }

    /// Whether two requirements have the same content.
    pub fn same_as(&self, other: &Self) -> (r: bool)
        ensures
            r == (self@ == other@),
    {
        if !self.id.same_as(&other.id) || self.kind != other.kind || self.priority != other.priority
            || self.statement != other.statement {
            return false;
        }
        if self.attributes.len() != other.attributes.len() {
            assert(self@.attributes.len() != other@.attributes.len());
            return false;
        }
        let mut i: usize = 0;
        while i < self.attributes.len()
            invariant
                i <= self.attributes@.len(),
                self.attributes@.len() == other.attributes@.len(),
                forall|j: int|
                    0 <= j < i ==> #[trigger] self@.attributes[j] == other@.attributes[j],
            decreases self.attributes@.len() - i,
        {
            if self.attributes[i].key != other.attributes[i].key || self.attributes[i].value
                != other.attributes[i].value {
                assert(self@.attributes[i as int] != other@.attributes[i as int]);
                return false;
            }
            i = i + 1;
        }
        assert(self@.attributes =~= other@.attributes);
        true
    }

    /// Validates invariants not expressible through deserialization types.
    pub fn validate(&self) -> (r: Result<(), Box<Diagnostic>>)
        ensures
            r is Ok <==> requirement_problem(self@) is None,
            r matches Err(d) ==> is_plain_error(
                *d,
                requirement_problem(self@).unwrap().0,
                requirement_problem(self@).unwrap().1,
            ),
    {
        if str_is_blank(self.statement.as_str()) {
            let message = concat3("requirement `", self.id.as_str(), "` has an empty statement");
            return Err(Box::new(Diagnostic::error("XUNLIE-REQ-EMPTY-STATEMENT", message.as_str())));
        }
        let mut i: usize = 0;
        while i < self.attributes.len()
            invariant
                i <= self.attributes@.len(),
                !is_blank(self@.statement),
                forall|j: int| 0 <= j < i ==> !is_blank(#[trigger] self@.attributes[j].0),
            decreases self.attributes@.len() - i,
        {
            if str_is_blank(self.attributes[i].key.as_str()) {
                assert(is_blank(self@.attributes[i as int].0));
                let message = concat3(
                    "requirement `",
                    self.id.as_str(),
                    "` has an empty attribute name",
                );
                return Err(
                    Box::new(Diagnostic::error("XUNLIE-REQ-EMPTY-ATTRIBUTE", message.as_str())),
                );
            }
            i = i + 1;
        }
        Ok(())
    }
}

/// Identity and exact-byte digest of an ingested source.
#[derive(Debug, PartialEq, Eq)]
pub struct SourceRecord {
    /// Caller-supplied logical source identity.
    pub identity: SourceIdentity,
    /// SHA-256 over exact input bytes, before parsing.
    pub digest: Sha256Digest,
    /// Explicit zero-based source position.
    pub position: usize,
}

/// The content of a source record.
pub struct RecordView {
    pub identity: Seq<char>,
    pub digest: Seq<char>,
    pub position: usize,
}

impl View for SourceRecord {
    type V = RecordView;

    open spec fn view(&self) -> RecordView {
        RecordView { identity: self.identity@, digest: self.digest@, position: self.position }
    }
}

impl Clone for SourceRecord {
    fn clone(&self) -> (r: Self)
        ensures
            r == *self,
    {
        SourceRecord {
            identity: self.identity.clone(),
            digest: self.digest.clone(),
            position: self.position,
        }
    }
}

/// The content of every record of a list.
pub open spec fn records_view(s: Seq<SourceRecord>) -> Seq<RecordView> {
    s.map_values(|r: SourceRecord| r@)
}

/// The location of one operation of a source record.
pub open spec fn record_location(record: RecordView, operation_position: usize) -> LocationView {
    LocationView {
        identity: record.identity,
        digest: record.digest,
        source_position: record.position,
        operation_position: Some(operation_position),
        line: None,
        column: None,
    }
}

impl SourceRecord {
    /// Converts the source record to a location for a specific operation.
    pub fn location(&self, operation_position: usize) -> (r: SourceLocation)
        ensures
            r@ == record_location(self@, operation_position),
    {
        SourceLocation::source(self.identity.clone(), self.digest.clone(), self.position).at_operation(
            operation_position,
        )
    }
}

/// Producer identity recorded with a contract artifact.
#[derive(Debug, PartialEq, Eq)]
pub struct Producer {
    /// Producer implementation name.
    pub name: String,
    /// Producer SemVer or build identity.
    pub version: String,
}

/// The content of a producer identity.
pub struct ProducerView {
    pub name: Seq<char>,
    pub version: Seq<char>,
}

impl View for Producer {
    type V = ProducerView;

    open spec fn view(&self) -> ProducerView {
        ProducerView { name: self.name@, version: self.version@ }
    }
}

impl Clone for Producer {
    fn clone(&self) -> (r: Self)
        ensures
            r == *self,
    {
        Producer { name: self.name.clone(), version: self.version.clone() }
    }
}

/// The version this library reports as its producer version.
pub const PRODUCER_VERSION: &'static str = "0.1.0";

/// Non-semantic metadata of a contract artifact.
#[derive(Debug, PartialEq, Eq)]
pub struct ContractMetadata {
    /// Implementation that compiled the contract.
    pub producer: Producer,
    /// Optional caller-supplied RFC3339 timestamp. The deterministic core never reads a clock.
    pub created_at: Option<String>,
}

impl Clone for ContractMetadata {
    fn clone(&self) -> (r: Self)
        ensures
            r == *self,
    {
        ContractMetadata {
            producer: self.producer.clone(),
            created_at: match &self.created_at {
                Some(c) => Some(c.clone()),
                None => None,
            },
        }
    }
}

impl ContractMetadata {
    /// The metadata of an artifact produced by this library, without timestamp.
    pub fn default_metadata() -> (r: Self)
        ensures
            r.producer.name@ == "xunlie-engine"@,
            r.producer.version@ == PRODUCER_VERSION@,
            r.created_at is None,
    {
        ContractMetadata {
            producer: Producer {
                name: String::from_str("xunlie-engine"),
                version: String::from_str(PRODUCER_VERSION),
            },
            created_at: None,
        }
    }
}

impl Default for ContractMetadata {
    fn default() -> (r: Self)
        ensures
            r.producer.name@ == "xunlie-engine"@,
            r.producer.version@ == PRODUCER_VERSION@,
            r.created_at is None,
    {
        Self::default_metadata()
    }
}

/// Keys in strictly ascending order, hence each key at most once.
pub open spec fn keys_ascending(s: Seq<(Seq<char>, RequirementView)>) -> bool {
    forall|i: int, j: int| 0 <= i < j < s.len() ==> seq_lt(#[trigger] s[i].0, #[trigger] s[j].0)
}

/// The index of the first entry whose key does not precede `key`.
pub open spec fn key_position(s: Seq<(Seq<char>, RequirementView)>, key: Seq<char>, k: int) -> int
    decreases s.len() - k,
{
    if k < 0 || k >= s.len() {
        s.len() as int
    } else if !seq_lt(s[k].0, key) {
        k
    } else {
        key_position(s, key, k + 1)
    }
}

/// Inserting into an ordered map: replace the entry with the same key, or
/// insert a new entry in key order.
pub open spec fn map_insert(
    s: Seq<(Seq<char>, RequirementView)>,
    key: Seq<char>,
    value: RequirementView,
) -> Seq<(Seq<char>, RequirementView)> {
    let p = key_position(s, key, 0);
    if p < s.len() && s[p].0 == key {
        s.update(p, (key, value))
    } else {
        s.insert(p, (key, value))
    }
}

proof fn lemma_key_position(s: Seq<(Seq<char>, RequirementView)>, key: Seq<char>, k: int)
    requires
        0 <= k <= s.len(),
    ensures
        k <= key_position(s, key, k) <= s.len(),
        forall|j: int| k <= j < key_position(s, key, k) ==> seq_lt(#[trigger] s[j].0, key),
        key_position(s, key, k) < s.len() ==> !seq_lt(s[key_position(s, key, k)].0, key),
    decreases s.len() - k,
{
    if k < s.len() && seq_lt(s[k].0, key) {
        lemma_key_position(s, key, k + 1);
    }
}

/// Inserting into an ordered map keeps its keys in ascending order.
pub proof fn lemma_map_insert_ascending(
    s: Seq<(Seq<char>, RequirementView)>,
    key: Seq<char>,
    value: RequirementView,
)
    requires
        keys_ascending(s),
    ensures
        keys_ascending(map_insert(s, key, value)),
{
    lemma_key_position(s, key, 0);
    let p = key_position(s, key, 0);
    let r = map_insert(s, key, value);
    if p < s.len() && s[p].0 == key {
        assert forall|i: int, j: int| 0 <= i < j < r.len() implies seq_lt(
            #[trigger] r[i].0,
            #[trigger] r[j].0,
        ) by {
            assert(r[i].0 == s[i].0);
            assert(r[j].0 == s[j].0);
        }
    } else {
        if p < s.len() {
            lemma_seq_lt_total(s[p].0, key);
        }
        assert forall|i: int, j: int| 0 <= i < j < r.len() implies seq_lt(
            #[trigger] r[i].0,
            #[trigger] r[j].0,
        ) by {
            if j < p {
                assert(r[i] == s[i] && r[j] == s[j]);
            } else if j == p {
                assert(r[i] == s[i]);
            } else if i == p {
                assert(r[j] == s[j - 1]);
                if j - 1 > p {
                    lemma_seq_lt_transitive(key, s[p].0, s[j - 1].0);
                }
            } else if i < p {
                assert(r[i] == s[i] && r[j] == s[j - 1]);
            } else {
                assert(r[i] == s[i - 1] && r[j] == s[j - 1]);
            }
        }
    }
}

/// An ordered map from requirement ids to requirements.
#[derive(Debug, PartialEq, Eq)]
pub struct RequirementMap {
    entries: Vec<(RequirementId, Requirement)>,
}

impl View for RequirementMap {
    type V = Seq<(Seq<char>, RequirementView)>;

    closed spec fn view(&self) -> Seq<(Seq<char>, RequirementView)> {
        self.entries@.map_values(|e: (RequirementId, Requirement)| (e.0@, e.1@))
    }
}

impl Clone for RequirementMap {
    fn clone(&self) -> (r: Self)
        ensures
            r@ == self@,
    {
        proof {
            use_type_invariant(self);
        }
        let mut entries: Vec<(RequirementId, Requirement)> = Vec::new();
        let mut i: usize = 0;
        while i < self.entries.len()
            invariant
                i <= self.entries@.len(),
                entries@.map_values(|e: (RequirementId, Requirement)| (e.0@, e.1@)) == self@.take(
                    i as int,
                ),
            decreases self.entries@.len() - i,
        {
            let ghost before = entries@;
            let e = (self.entries[i].0.clone(), self.entries[i].1.clone());
            entries.push(e);
            assert(self@[i as int] == (self.entries@[i as int].0@, self.entries@[i as int].1@));
            assert(entries@.map_values(|e: (RequirementId, Requirement)| (e.0@, e.1@)) =~= before.map_values(
                |e: (RequirementId, Requirement)| (e.0@, e.1@),
            ).push((e.0@, e.1@)));
            assert(self@.take(i + 1) =~= self@.take(i as int).push(self@[i as int]));
            i = i + 1;
        }
        assert(self@.take(self@.len() as int) =~= self@);
        RequirementMap { entries }
    }
}

impl RequirementMap {
    #[verifier::type_invariant]
    closed spec fn wf(self) -> bool {
        keys_ascending(self@)
    }

    /// Creates an empty map.
    pub fn new() -> (r: Self)
        ensures
            r@ == Seq::<(Seq<char>, RequirementView)>::empty(),
    {
        let r = RequirementMap { entries: Vec::new() };
        assert(r@ =~= Seq::<(Seq<char>, RequirementView)>::empty());
        r
    }

    /// Builds a map from entries already in strictly ascending key order.
    pub(crate) fn from_ascending(entries: Vec<(RequirementId, Requirement)>) -> (r: Self)
        requires
            keys_ascending(entries@.map_values(|e: (RequirementId, Requirement)| (e.0@, e.1@))),
        ensures
            r@ == entries@.map_values(|e: (RequirementId, Requirement)| (e.0@, e.1@)),
    {
        RequirementMap { entries }
    }

    /// Number of entries.
    pub fn len(&self) -> (r: usize)
        ensures
            r == self@.len(),
    {
        self.entries.len()
    }

    /// Whether the map has no entry.
    pub fn is_empty(&self) -> (r: bool)
        ensures
            r == (self@.len() == 0),
    {
        self.entries.len() == 0
    }

    /// The entries in ascending key order.
    pub fn entries(&self) -> (r: &Vec<(RequirementId, Requirement)>)
        ensures
            r@.map_values(|e: (RequirementId, Requirement)| (e.0@, e.1@)) == self@,
            keys_ascending(self@),
    {
        proof {
            use_type_invariant(self);
        }
        &self.entries
    }

    /// Looks up the requirement stored under a key.
    pub fn get(&self, key: &RequirementId) -> (r: Option<&Requirement>)
        ensures
            r matches Some(q) ==> exists|i: int|
                0 <= i < self@.len() && (#[trigger] self@[i]).0 == key@ && self@[i].1 == q@,
            r is None ==> forall|i: int| 0 <= i < self@.len() ==> (#[trigger] self@[i]).0 != key@,
    {
        let mut k: usize = 0;
        while k < self.entries.len()
            invariant
                k <= self.entries@.len(),
                forall|i: int| 0 <= i < k ==> (#[trigger] self@[i]).0 != key@,
            decreases self.entries@.len() - k,
        {
            if self.entries[k].0.same_as(key) {
                assert(self@[k as int] == (self.entries@[k as int].0@, self.entries@[k as int].1@));
                return Some(&self.entries[k].1);
            }
            assert(self@[k as int] == (self.entries@[k as int].0@, self.entries@[k as int].1@));
            k = k + 1;
        }
        None
    }

    /// Inserts or replaces the requirement stored under a key.
    pub fn insert(&mut self, key: RequirementId, value: Requirement)
        ensures
            final(self)@ == map_insert(old(self)@, key@, value@),
    {
        proof {
            use_type_invariant(&*self);
            lemma_key_position(self@, key@, 0);
        }
        let ghost v = self@;
        let mut k: usize = 0;
        while k < self.entries.len()
            invariant
                k <= self.entries@.len(),
                v == self.entries@.map_values(|e: (RequirementId, Requirement)| (e.0@, e.1@)),
                key_position(v, key@, 0) == key_position(v, key@, k as int),
            ensures
                k <= self.entries@.len(),
                key_position(v, key@, 0) == key_position(v, key@, k as int),
                k == self.entries@.len() || !seq_lt(v[k as int].0, key@),
            decreases self.entries@.len() - k,
        {
            if !str_lt(self.entries[k].0.as_str(), key.as_str()) {
                break;
            }
            k = k + 1;
        }
        proof {
            lemma_map_insert_ascending(v, key@, value@);
        }
        let ghost entry = (key@, value@);
        if k < self.entries.len() && self.entries[k].0.same_as(&key) {
            let mut entries = Vec::new();
            std::mem::swap(&mut entries, &mut self.entries);
            entries.set(k, (key, value));
            assert(entries@.map_values(|e: (RequirementId, Requirement)| (e.0@, e.1@)) =~= v.update(
                k as int,
                entry,
            ));
            self.entries = entries;
        } else {
            let mut entries = Vec::new();
            std::mem::swap(&mut entries, &mut self.entries);
            entries.insert(k, (key, value));
            assert(entries@.map_values(|e: (RequirementId, Requirement)| (e.0@, e.1@)) =~= v.insert(
                k as int,
                entry,
            ));
            self.entries = entries;
        }
    }
}

} // verus!
