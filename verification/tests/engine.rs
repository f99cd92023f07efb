use xunlie::{
    compile, compile_sources, compile_sources_with_options, CompileOptions, ContractIr,
    ContractMetadata, Producer, RequirementId, ResolutionPolicy, Sha256Digest, SourceDocument,
    SourceIdentity, SourceRecord, ingest_parsed, JsonSyntaxError, JsonValue,
};

const ADD: &str = r#"{
        "schemaVersion": "xunlie.source/v1",
        "operations": [{
            "op": "add",
            "requirement": {
                "id": "REQ-F-001",
                "kind": "functional",
                "priority": "must",
                "statement": "The compiler preserves provenance."
            }
        }]
    }"#;

#[test]
fn compiles_a_valid_source_with_provenance() {
    let contract = compile(ADD).unwrap();
    assert_eq!(contract.schema_version(), "xunlie.contract/v1");
    assert_eq!(contract.sources().len(), 1);
    assert_eq!(contract.sources()[0].identity.as_str(), "memory://stdin");
    assert_eq!(contract.requirements().len(), 1);
    assert_eq!(
        contract
            .requirements()
            .get(&RequirementId::new("REQ-F-001").unwrap())
            .unwrap()
            .statement(),
        "The compiler preserves provenance."
    );
    contract.validate().unwrap();
}

#[test]
fn invalid_json_returns_location_and_no_contract() {
    let error = compile("{not json}").unwrap_err();
    assert_eq!(error.diagnostics().len(), 1);
    assert_eq!(error.diagnostics()[0].code, "XUNLIE-SOURCE-INVALID-JSON");
    let location = error.diagnostics()[0].primary.as_ref().unwrap();
    assert_eq!(location.source_position, 0);
    assert!(location.line.is_some());
    assert!(location.column.is_some());
}

#[test]
fn contradictory_adds_fail_with_both_source_locations() {
    let conflicting = ADD.replace(
        "The compiler preserves provenance.",
        "The compiler may discard provenance.",
    );
    let error = compile_sources(vec![
        SourceDocument::new("memory://first", 0, ADD),
        SourceDocument::new("memory://second", 1, &conflicting),
    ])
    .unwrap_err();

    assert_eq!(
        error.diagnostics()[0].code,
        "XUNLIE-RESOLVE-CONTRADICTORY-ADD"
    );
    assert_eq!(error.diagnostics()[0].related.len(), 1);
    assert_eq!(
        error.diagnostics()[0]
            .primary
            .as_ref()
            .unwrap()
            .identity
            .as_str(),
        "memory://second"
    );
}

#[test]
fn semantic_whitespace_does_not_change_contract_digest() {
    let compact = r#"{"schemaVersion":"xunlie.source/v1","operations":[{"op":"add","requirement":{"id":"REQ-F-001","kind":"functional","priority":"must","statement":"The compiler preserves provenance."}}]}"#;
    let pretty = compile(ADD).unwrap();
    let minified = compile(compact).unwrap();

    assert_ne!(pretty.sources()[0].digest, minified.sources()[0].digest);
    assert_eq!(pretty.content_digest(), minified.content_digest());
    assert_ne!(pretty.artifact_digest(), minified.artifact_digest());
    assert_eq!(
        pretty.semantic_canonical_json(),
        minified.semantic_canonical_json()
    );
}

fn rebuilt(original: &ContractIr, sources: Vec<SourceRecord>, artifact_digest: Sha256Digest) -> ContractIr {
    ContractIr::from_parts(
        original.schema_version().to_owned(),
        original.producer().clone(),
        original.created_at().map(|t| t.to_owned()),
        original.content_digest().clone(),
        artifact_digest,
        sources,
        original.resolution_policy(),
        original.requirements().clone(),
    )
}

#[test]
fn canonical_json_survives_typed_round_trip() {
    let compiled = compile(ADD).unwrap();
    let original = compiled.canonical_json();
    let decoded = rebuilt(
        &compiled,
        compiled.sources().clone(),
        compiled.artifact_digest().clone(),
    );

    decoded.validate().unwrap();
    assert_eq!(decoded.canonical_json(), original);
}

#[test]
fn tampered_provenance_invalidates_artifact_digest_only() {
    let original = compile(ADD).unwrap();
    let original_content_digest = original.content_digest().clone();
    let original_artifact_digest = original.artifact_digest().clone();
    let mut sources = original.sources().clone();
    sources[0].identity = SourceIdentity::new("memory://tampered").unwrap();

    let tampered = rebuilt(&original, sources, original.artifact_digest().clone());
    assert_eq!(tampered.content_digest(), &original_content_digest);
    assert_eq!(tampered.artifact_digest(), &original_artifact_digest);
    let diagnostics = tampered.validate().unwrap_err();
    assert_eq!(diagnostics.len(), 1);
    assert_eq!(
        diagnostics[0].code,
        "XUNLIE-CONTRACT-ARTIFACT-DIGEST-MISMATCH"
    );
}

#[test]
fn tampered_artifact_digest_is_rejected() {
    let original = compile(ADD).unwrap();
    let zero = Sha256Digest::parse(
        "sha256:0000000000000000000000000000000000000000000000000000000000000000",
    )
    .unwrap();

    let tampered = rebuilt(&original, original.sources().clone(), zero);
    let diagnostics = tampered.validate().unwrap_err();
    assert_eq!(diagnostics.len(), 1);
    assert_eq!(
        diagnostics[0].code,
        "XUNLIE-CONTRACT-ARTIFACT-DIGEST-MISMATCH"
    );
}

const GOLDEN_SOURCE: &str = r#"{"schemaVersion":"xunlie.source/v1","operations":[{"op":"add","requirement":{"id":"REQ-F-002","kind":"functional","priority":"must","statement":"Compile a canonical ContractIR."}}]}"#;

#[test]
fn contract_ir_v1_semantic_payload_matches_golden_vector() {
    let contract = compile(GOLDEN_SOURCE).expect("golden source must compile");
    let actual = contract.semantic_canonical_json();
    let expected = r#"{"schemaVersion":"xunlie.contract/v1","resolutionPolicy":"strict","requirements":{"REQ-F-002":{"id":"REQ-F-002","kind":"functional","priority":"must","statement":"Compile a canonical ContractIR."}}}"#;

    assert_eq!(actual, expected);
    assert_eq!(
        contract.content_digest().as_str(),
        "sha256:a874b1034165ad316d49d21d4992d8532777b3f8b243436ed8882351ae471386"
    );
}

#[test]
fn empty_source_set_is_rejected() {
    let error = compile_sources(Vec::new()).unwrap_err();
    assert_eq!(error.diagnostics().len(), 1);
    assert_eq!(error.diagnostics()[0].code, "XUNLIE-SOURCE-EMPTY-SET");
    assert_eq!(
        error.to_display_string(),
        "contract compilation failed with 1 diagnostic(s)"
    );
}

#[test]
fn invalid_identity_and_unsupported_schema_are_reported_in_order() {
    let error = compile_sources(vec![
        SourceDocument::new("memory://late", 3, r#"{"schemaVersion":"xunlie.source/v9"}"#),
        SourceDocument::new("   ", 1, ADD),
    ])
    .unwrap_err();
    let diagnostics = error.diagnostics();
    assert_eq!(diagnostics.len(), 2);
    assert_eq!(diagnostics[0].code, "XUNLIE-SOURCE-INVALID-IDENTITY");
    assert_eq!(
        diagnostics[0].message,
        "source at position 1: source identity must not be empty"
    );
    assert_eq!(diagnostics[1].code, "XUNLIE-SOURCE-UNSUPPORTED-SCHEMA");
    assert_eq!(
        diagnostics[1].message,
        "source schema `xunlie.source/v9` is unsupported; expected `xunlie.source/v1`"
    );
    assert_eq!(diagnostics[1].primary.as_ref().unwrap().source_position, 3);
}

#[test]
fn envelope_decoding_errors_are_reported_without_text_position() {
    let cases = [
        (r#"{"schemaVersion":"xunlie.source/v1","extra":1}"#, "unknown field `extra`"),
        (r#"{"operations":[]}"#, "missing field `schemaVersion`"),
        (
            r#"{"schemaVersion":"xunlie.source/v1","operations":[{"op":"rename"}]}"#,
            "unknown variant `rename`",
        ),
        (
            r#"{"schemaVersion":"xunlie.source/v1","operations":[{"op":"revoke","target":"BAD ID"}]}"#,
            "requirement id contains an invalid character",
        ),
        (
            r#"{"schemaVersion":"xunlie.source/v1","operations":[{"op":"add","requirement":{"id":"R","kind":"odd","priority":"must","statement":"s"}}]}"#,
            "unknown variant `odd`",
        ),
        ("[]", "invalid type: expected a source envelope object"),
    ];
    for (source, reason) in cases {
        let error = compile(source).unwrap_err();
        assert_eq!(error.diagnostics().len(), 1);
        assert_eq!(error.diagnostics()[0].code, "XUNLIE-SOURCE-INVALID-JSON");
        assert_eq!(
            error.diagnostics()[0].message,
            format!("source is not valid xunlie.source/v1 JSON: {reason}")
        );
        let location = error.diagnostics()[0].primary.as_ref().unwrap();
        assert!(location.line.is_none());
    }
}

#[test]
fn attributes_are_kept_in_key_order() {
    let source = r#"{"schemaVersion":"xunlie.source/v1","operations":[{"op":"add","requirement":{"id":"R","kind":"quality","priority":"may","statement":"s","attributes":{"zeta":"1","alpha":"2"}}}]}"#;
    let contract = compile(source).unwrap();
    assert_eq!(
        contract.semantic_canonical_json(),
        r#"{"schemaVersion":"xunlie.contract/v1","resolutionPolicy":"strict","requirements":{"R":{"id":"R","kind":"quality","priority":"may","statement":"s","attributes":{"alpha":"2","zeta":"1"}}}}"#
    );
}

#[test]
fn options_record_producer_and_timestamp() {
    let options = CompileOptions {
        resolution_policy: ResolutionPolicy::Strict,
        metadata: ContractMetadata {
            producer: Producer {
                name: "custom".to_owned(),
                version: "9.9.9".to_owned(),
            },
            created_at: Some("2026-01-01T00:00:00Z".to_owned()),
        },
    };
    let contract =
        compile_sources_with_options(vec![SourceDocument::new("memory://a", 0, ADD)], options)
            .unwrap();
    let json = contract.canonical_json();
    assert!(json.starts_with(
        r#"{"schemaVersion":"xunlie.contract/v1","producer":{"name":"custom","version":"9.9.9"},"createdAt":"2026-01-01T00:00:00Z","contentDigest":"sha256:"#
    ));
    contract.validate().unwrap();
}

#[test]
fn source_document_accessors_and_display() {
    let document = SourceDocument::new("memory://a", 7, "{}");
    assert_eq!(document.identity(), "memory://a");
    assert_eq!(document.position(), 7);
    assert_eq!(document.source(), "{}");
    assert_eq!(document.to_display_string(), "memory://a@7");
}

fn parsed_record() -> SourceRecord {
    SourceRecord {
        identity: SourceIdentity::new("memory://source").unwrap(),
        digest: Sha256Digest::of_bytes(b"{}"),
        position: 3,
    }
}

fn text(s: &str) -> JsonValue {
    JsonValue::Str(s.to_owned())
}

#[test]
fn ingest_parsed_locates_a_syntax_error_at_its_line_and_column() {
    let parsed = Err(JsonSyntaxError { message: "EOF while parsing".to_owned(), line: 4, column: 9 });
    let (diagnostic, events) = ingest_parsed(&parsed_record(), &parsed);
    let diagnostic = diagnostic.unwrap();
    assert!(events.is_empty());
    assert_eq!(diagnostic.code, "XUNLIE-SOURCE-INVALID-JSON");
    assert_eq!(diagnostic.message, "source is not valid xunlie.source/v1 JSON: EOF while parsing");
    let primary = diagnostic.primary.unwrap();
    assert_eq!(primary.source_position, 3);
    assert_eq!(primary.line, Some(4));
    assert_eq!(primary.column, Some(9));
}

#[test]
fn ingest_parsed_checks_the_schema_and_creates_events() {
    let requirement = JsonValue::Object(vec![
        ("id".to_owned(), text("REQ-1")),
        ("kind".to_owned(), text("functional")),
        ("priority".to_owned(), text("must")),
        ("statement".to_owned(), text("Keep it.")),
    ]);
    let operation = JsonValue::Object(vec![
        ("op".to_owned(), text("add")),
        ("requirement".to_owned(), requirement),
    ]);
    let envelope = |schema: &str, operation: JsonValue| {
        JsonValue::Object(vec![
            ("operations".to_owned(), JsonValue::Array(vec![operation])),
            ("schemaVersion".to_owned(), text(schema)),
        ])
    };

    let unsupported = Ok(envelope("xunlie.source/v2", JsonValue::Null));
    let (diagnostic, events) = ingest_parsed(&parsed_record(), &unsupported);
    assert!(events.is_empty());
    let diagnostic = diagnostic.unwrap();
    assert_eq!(diagnostic.code, "XUNLIE-SOURCE-INVALID-JSON");

    let wrong_schema = Ok(envelope("xunlie.source/v2", operation));
    let requirement = JsonValue::Object(vec![
        ("id".to_owned(), text("REQ-1")),
        ("kind".to_owned(), text("functional")),
        ("priority".to_owned(), text("must")),
        ("statement".to_owned(), text("Keep it.")),
    ]);
    let operation = JsonValue::Object(vec![
        ("op".to_owned(), text("add")),
        ("requirement".to_owned(), requirement),
    ]);
    let (diagnostic, events) = ingest_parsed(&parsed_record(), &wrong_schema);
    assert!(events.is_empty());
    assert_eq!(diagnostic.unwrap().code, "XUNLIE-SOURCE-UNSUPPORTED-SCHEMA");

    let valid = Ok(envelope("xunlie.source/v1", operation));
    let (diagnostic, events) = ingest_parsed(&parsed_record(), &valid);
    assert!(diagnostic.is_none());
    assert_eq!(events.len(), 1);
    assert_eq!(events[0].precedence.source_position, 3);
    assert_eq!(events[0].precedence.operation_position, 0);
}
