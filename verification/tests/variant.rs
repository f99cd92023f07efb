use xunlie::{
    certify_transformation, compile_sources, generate_builtin_variant, generate_certified_variant,
    verify_certified_variant, verify_certified_variant_with_operator, CertifiedVariant,
    EquivalenceCertificate, JsonNormalizationOperator, PreconditionEvaluation, PreconditionStatus,
    Producer, ReverseIndependentAddsOperator, Sha256Digest, SourceDocument, VariantGeneration,
    VariantOperator, VariantOperatorIdentity, CERTIFIED_VARIANT_SCHEMA_VERSION,
};

const PRETTY_SOURCE: &str = r#"{
        "schemaVersion": "xunlie.source/v1",
        "operations": [{
            "op": "add",
            "requirement": {
                "id": "REQ-1",
                "kind": "functional",
                "priority": "must",
                "statement": "Preserve provenance."
            }
        }]
    }"#;

fn source(text: &str) -> Vec<SourceDocument> {
    vec![SourceDocument::new("memory://source", 0, text)]
}

fn two_adds(first: &str, second: &str) -> String {
    format!(
        r#"{{"schemaVersion":"xunlie.source/v1","operations":[{{"op":"add","requirement":{{"id":"REQ-1","kind":"functional","priority":"must","statement":{first:?}}}}},{{"op":"add","requirement":{{"id":"REQ-2","kind":"quality","priority":"should","statement":{second:?}}}}}]}}"#
    )
}

fn certified(result: VariantGeneration) -> CertifiedVariant {
    match result {
        VariantGeneration::Certified(variant) => *variant,
        VariantGeneration::Excluded(exclusion) => {
            panic!("unexpected exclusion: {:?}", exclusion.preconditions())
        }
    }
}

fn with_parts(
    original: &CertifiedVariant,
    schema_version: &str,
    producer: Producer,
    sources: Vec<SourceDocument>,
    certificate: EquivalenceCertificate,
    digest: Option<Sha256Digest>,
) -> CertifiedVariant {
    let draft = CertifiedVariant::from_parts(
        schema_version.to_owned(),
        producer.clone(),
        original.created_at().map(|t| t.to_owned()),
        original.content_digest().clone(),
        sources.clone(),
        certificate.clone(),
    );
    let digest = digest.unwrap_or_else(|| draft.payload_digest());
    CertifiedVariant::from_parts(
        schema_version.to_owned(),
        producer,
        original.created_at().map(|t| t.to_owned()),
        digest,
        sources,
        certificate,
    )
}

#[test]
fn normalization_is_certified_and_replayable() {
    let baseline = source(PRETTY_SOURCE);
    let variant = certified(
        generate_certified_variant(baseline.clone(), &JsonNormalizationOperator).unwrap(),
    );

    assert_eq!(variant.schema_version(), CERTIFIED_VARIANT_SCHEMA_VERSION);
    assert_eq!(variant.content_digest().as_str().len(), 71);
    variant.validate().unwrap();
    assert_ne!(variant.sources()[0].source(), PRETTY_SOURCE);
    assert_eq!(
        variant.certificate().before().content_digest,
        variant.certificate().after().content_digest
    );
    assert_ne!(
        variant.certificate().before().history_digest,
        variant.certificate().after().history_digest
    );
    assert!(variant.certificate().preconditions().iter().any(|item| {
        item.id == "json.normalize.all-sources-valid-json"
            && item.status == PreconditionStatus::Passed
    }));
    verify_certified_variant(baseline, &variant).unwrap();
}

#[test]
fn repeated_generation_is_byte_deterministic() {
    let first = certified(
        generate_certified_variant(source(PRETTY_SOURCE), &JsonNormalizationOperator).unwrap(),
    );
    let second = certified(
        generate_certified_variant(source(PRETTY_SOURCE), &JsonNormalizationOperator).unwrap(),
    );

    assert_eq!(first.canonical_json(), second.canonical_json());
}

#[test]
fn source_storage_order_does_not_change_certified_artifact() {
    let first = SourceDocument::new("memory://first", 0, PRETTY_SOURCE);
    let second_source = PRETTY_SOURCE
        .replace("REQ-1", "REQ-2")
        .replace("Preserve provenance.", "Remain deterministic.");
    let second = SourceDocument::new("memory://second", 1, &second_source);
    let forward = certified(
        generate_certified_variant(vec![first.clone(), second.clone()], &JsonNormalizationOperator)
            .unwrap(),
    );
    let reverse = certified(
        generate_certified_variant(vec![second, first], &JsonNormalizationOperator).unwrap(),
    );

    assert_eq!(forward.canonical_json(), reverse.canonical_json());
}

#[test]
fn already_normalized_json_is_excluded_with_reason() {
    let normalized = serde_json::to_string(
        &serde_json::from_str::<serde_json::Value>(PRETTY_SOURCE).unwrap(),
    )
    .unwrap();
    let result =
        generate_certified_variant(source(&normalized), &JsonNormalizationOperator).unwrap();
    let VariantGeneration::Excluded(exclusion) = result else {
        panic!("canonical input should be excluded")
    };

    assert!(exclusion.preconditions().iter().any(|item| {
        item.id == "xunlie.variant.output-differs" && item.status == PreconditionStatus::Failed
    }));
}

#[test]
fn dependent_history_is_excluded_from_reversal() {
    let dependent = r#"{"schemaVersion":"xunlie.source/v1","operations":[{"op":"add","requirement":{"id":"REQ-1","kind":"functional","priority":"must","statement":"first"}},{"op":"replace","target":"REQ-1","requirement":{"id":"REQ-1","kind":"functional","priority":"must","statement":"second"}}]}"#;
    let result =
        generate_certified_variant(source(dependent), &ReverseIndependentAddsOperator).unwrap();
    let VariantGeneration::Excluded(exclusion) = result else {
        panic!("dependent history should be excluded")
    };

    assert!(exclusion.preconditions().iter().any(|item| {
        item.id == "independent-adds.add-only" && item.status == PreconditionStatus::Failed
    }));
}

#[test]
fn operators_report_invalid_inputs_and_transform_fails_closed() {
    let invalid_json = source("{not-json}");
    let evaluations = JsonNormalizationOperator.evaluate(&invalid_json);
    assert_eq!(evaluations.len(), 1);
    assert_eq!(evaluations[0].status, PreconditionStatus::Failed);
    assert!(JsonNormalizationOperator.transform(&invalid_json).is_err());

    let multiple_sources = vec![
        SourceDocument::new("memory://first", 0, PRETTY_SOURCE),
        SourceDocument::new("memory://second", 1, PRETTY_SOURCE),
    ];
    let evaluations = ReverseIndependentAddsOperator.evaluate(&multiple_sources);
    assert!(evaluations.iter().any(|item| {
        item.id == "independent-adds.single-source" && item.status == PreconditionStatus::Failed
    }));
    assert!(ReverseIndependentAddsOperator
        .transform(&multiple_sources)
        .is_err());
    assert!(ReverseIndependentAddsOperator
        .transform(&invalid_json)
        .is_err());
}

#[test]
fn unknown_builtin_and_invalid_baseline_are_rejected() {
    let unknown = generate_builtin_variant(source(PRETTY_SOURCE), "test.unknown").unwrap_err();
    assert_eq!(unknown.code(), "XUNLIE-VARIANT-UNKNOWN-OPERATOR");
    assert!(unknown.to_display_string().contains("test.unknown"));
    assert_eq!(
        unknown.to_display_string(),
        "unknown variant operator `test.unknown`; expected one of json.presentation.normalize, history.independent-adds.reverse"
    );

    let invalid =
        generate_certified_variant(Vec::new(), &JsonNormalizationOperator).unwrap_err();
    assert_eq!(invalid.code(), "XUNLIE-VARIANT-INVALID-BASELINE");
    assert_eq!(invalid.diagnostics()[0].code, "XUNLIE-SOURCE-EMPTY-SET");
}

struct TransformFailureOperator;

impl VariantOperator for TransformFailureOperator {
    fn identity(&self) -> VariantOperatorIdentity {
        VariantOperatorIdentity::new("test.transform-failure", "1.0.0")
    }

    fn evaluate(&self, _sources: &[SourceDocument]) -> Vec<PreconditionEvaluation> {
        vec![PreconditionEvaluation::passed(
            "test.transform-ready",
            "fixture transform may run",
        )]
    }

    fn transform(&self, _sources: &[SourceDocument]) -> Result<Vec<SourceDocument>, String> {
        Err("fixture transform failed".to_owned())
    }
}

struct InvalidOutputOperator;

impl VariantOperator for InvalidOutputOperator {
    fn identity(&self) -> VariantOperatorIdentity {
        VariantOperatorIdentity::new("test.invalid-output", "1.0.0")
    }

    fn evaluate(&self, _sources: &[SourceDocument]) -> Vec<PreconditionEvaluation> {
        vec![PreconditionEvaluation::passed(
            "test.invalid-output-ready",
            "fixture transform may run",
        )]
    }

    fn transform(&self, _sources: &[SourceDocument]) -> Result<Vec<SourceDocument>, String> {
        Ok(source("{not-json}"))
    }
}

#[test]
fn operator_failure_and_invalid_output_have_distinct_errors() {
    let failed = generate_certified_variant(source(PRETTY_SOURCE), &TransformFailureOperator)
        .unwrap_err();
    assert_eq!(failed.code(), "XUNLIE-VARIANT-OPERATOR-FAILED");
    assert!(failed.to_display_string().contains("fixture transform failed"));

    let invalid =
        generate_certified_variant(source(PRETTY_SOURCE), &InvalidOutputOperator).unwrap_err();
    assert_eq!(invalid.code(), "XUNLIE-VARIANT-INVALID-OUTPUT");
    assert_eq!(invalid.diagnostics()[0].code, "XUNLIE-SOURCE-INVALID-JSON");
}

#[test]
fn invalid_nested_certificate_is_reported_by_the_container() {
    let original = certified(
        generate_certified_variant(source(PRETTY_SOURCE), &JsonNormalizationOperator).unwrap(),
    );
    let certificate = original.certificate();
    let nested = EquivalenceCertificate::from_parts(
        "xunlie.equivalence-certificate/v999".to_owned(),
        certificate.producer().clone(),
        None,
        certificate.operator().clone(),
        certificate.preconditions().clone(),
        certificate.before().clone(),
        certificate.after().clone(),
        certificate.equivalence_proof().clone(),
        certificate.certificate_digest().clone(),
    );
    let invalid = with_parts(
        &original,
        original.schema_version(),
        original.producer().clone(),
        original.sources().clone(),
        nested,
        Some(original.content_digest().clone()),
    );

    let error = invalid.validate().unwrap_err();
    assert_eq!(error.code(), "XUNLIE-VARIANT-CERTIFICATE-INVALID");
    assert!(error
        .diagnostics()
        .iter()
        .any(|item| item.code == "XUNLIE-CERTIFICATE-SCHEMA"));
}

#[test]
fn verifier_rejects_unknown_mismatched_excluded_and_divergent_replay() {
    let baseline = source(PRETTY_SOURCE);
    let variant = certified(
        generate_certified_variant(baseline.clone(), &JsonNormalizationOperator).unwrap(),
    );

    let mismatch = verify_certified_variant_with_operator(
        baseline.clone(),
        &variant,
        &ReverseIndependentAddsOperator,
    )
    .unwrap_err();
    assert_eq!(mismatch.code(), "XUNLIE-VARIANT-OPERATOR-MISMATCH");

    let normalized = variant.sources().to_vec();
    let excluded =
        verify_certified_variant_with_operator(normalized, &variant, &JsonNormalizationOperator)
            .unwrap_err();
    assert_eq!(excluded.code(), "XUNLIE-VARIANT-REPLAY-EXCLUDED");

    let alternate = source(&format!("\n{PRETTY_SOURCE}"));
    let divergent =
        verify_certified_variant_with_operator(alternate, &variant, &JsonNormalizationOperator)
            .unwrap_err();
    assert_eq!(divergent.code(), "XUNLIE-VARIANT-REPLAY-MISMATCH");

    let certificate = variant.certificate();
    let renamed = EquivalenceCertificate::new(
        certificate.producer().clone(),
        VariantOperatorIdentity::new("test.unknown", "1.0.0"),
        certificate.preconditions().clone(),
        certificate.before().clone(),
        certificate.after().clone(),
    )
    .unwrap();
    let unsupported = with_parts(
        &variant,
        variant.schema_version(),
        variant.producer().clone(),
        variant.sources().clone(),
        renamed,
        None,
    );
    let unknown = verify_certified_variant(baseline, &unsupported).unwrap_err();
    assert_eq!(unknown.code(), "XUNLIE-VARIANT-UNKNOWN-OPERATOR");
}

#[test]
fn tampered_variant_fails_deterministic_replay() {
    let baseline = source(PRETTY_SOURCE);
    let original = certified(
        generate_certified_variant(baseline.clone(), &JsonNormalizationOperator).unwrap(),
    );
    let tampered = with_parts(
        &original,
        original.schema_version(),
        original.producer().clone(),
        source(PRETTY_SOURCE),
        original.certificate().clone(),
        Some(original.content_digest().clone()),
    );

    let error = verify_certified_variant(baseline, &tampered).unwrap_err();
    assert_eq!(error.code(), "XUNLIE-VARIANT-DIGEST-MISMATCH");
}

#[test]
fn variant_schema_and_producer_fields_are_independently_validated() {
    let original = certified(
        generate_certified_variant(source(PRETTY_SOURCE), &JsonNormalizationOperator).unwrap(),
    );

    let wrong_schema = with_parts(
        &original,
        "xunlie.certified-variant/v999",
        original.producer().clone(),
        original.sources().clone(),
        original.certificate().clone(),
        Some(original.content_digest().clone()),
    );
    assert_eq!(
        wrong_schema.validate().unwrap_err().code(),
        "XUNLIE-VARIANT-SCHEMA"
    );

    let mut blank_name = original.producer().clone();
    blank_name.name.clear();
    let mut blank_version = original.producer().clone();
    blank_version.version.clear();
    for producer in [blank_name, blank_version] {
        let invalid = with_parts(
            &original,
            original.schema_version(),
            producer,
            original.sources().clone(),
            original.certificate().clone(),
            Some(original.content_digest().clone()),
        );
        assert_eq!(
            invalid.validate().unwrap_err().code(),
            "XUNLIE-VARIANT-PRODUCER"
        );
    }
}

#[test]
fn source_tampering_is_detected_even_with_rehashed_container() {
    let variant = certified(
        generate_certified_variant(source(PRETTY_SOURCE), &JsonNormalizationOperator).unwrap(),
    );
    let tampered = with_parts(
        &variant,
        variant.schema_version(),
        variant.producer().clone(),
        vec![SourceDocument::new("memory://source", 0, PRETTY_SOURCE)],
        variant.certificate().clone(),
        None,
    );

    assert_eq!(
        tampered.validate().unwrap_err().code(),
        "XUNLIE-VARIANT-HISTORY-DIGEST-MISMATCH"
    );
}

#[test]
fn content_and_artifact_mismatches_are_independently_rejected() {
    let original = certified(
        generate_certified_variant(source(PRETTY_SOURCE), &JsonNormalizationOperator).unwrap(),
    );
    let producer = Producer {
        name: "xunlie-engine".to_owned(),
        version: "0.1.0".to_owned(),
    };
    let certificate = original.certificate();

    let mut wrong_artifact_after = certificate.after().clone();
    wrong_artifact_after.artifact_digest = Sha256Digest::of_bytes(b"wrong-after-artifact");
    let wrong_artifact_certificate = EquivalenceCertificate::new(
        producer.clone(),
        certificate.operator().clone(),
        certificate.preconditions().clone(),
        certificate.before().clone(),
        wrong_artifact_after,
    )
    .unwrap();

    let wrong_content = Sha256Digest::of_bytes(b"wrong-contract-content");
    let mut wrong_content_before = certificate.before().clone();
    wrong_content_before.content_digest = wrong_content.clone();
    let mut wrong_content_after = certificate.after().clone();
    wrong_content_after.content_digest = wrong_content;
    let wrong_content_certificate = EquivalenceCertificate::new(
        producer,
        certificate.operator().clone(),
        certificate.preconditions().clone(),
        wrong_content_before,
        wrong_content_after,
    )
    .unwrap();

    for certificate in [wrong_artifact_certificate, wrong_content_certificate] {
        let invalid = with_parts(
            &original,
            original.schema_version(),
            original.producer().clone(),
            original.sources().clone(),
            certificate,
            None,
        );

        assert_eq!(
            invalid.validate().unwrap_err().code(),
            "XUNLIE-VARIANT-CONTRACT-DIGEST-MISMATCH"
        );
    }
}

struct SemanticMutationOperator;

impl VariantOperator for SemanticMutationOperator {
    fn identity(&self) -> VariantOperatorIdentity {
        VariantOperatorIdentity::new("test.semantic-mutation", "1.0.0")
    }

    fn evaluate(&self, _sources: &[SourceDocument]) -> Vec<PreconditionEvaluation> {
        vec![PreconditionEvaluation::passed(
            "test.claim",
            "operator claims the mutation is safe",
        )]
    }

    fn transform(&self, _sources: &[SourceDocument]) -> Result<Vec<SourceDocument>, String> {
        Ok(source(&two_adds("changed", "also changed")))
    }
}

#[test]
fn operator_cannot_self_certify_a_semantic_mutation() {
    let error = generate_certified_variant(source(PRETTY_SOURCE), &SemanticMutationOperator)
        .unwrap_err();

    assert_eq!(error.code(), "XUNLIE-VARIANT-NOT-EQUIVALENT");
    assert_eq!(error.diagnostics().len(), 1);
    assert_eq!(error.diagnostics()[0].code, "XUNLIE-VARIANT-NOT-EQUIVALENT");
}

#[test]
fn independent_add_reversal_is_metamorphically_equivalent() {
    for (first, second) in [("a", "b"), ("Alpha 1", "beta 2"), ("Z", "same text")] {
        let baseline = source(&two_adds(first, second));
        let variant = certified(
            generate_certified_variant(baseline.clone(), &ReverseIndependentAddsOperator).unwrap(),
        );

        assert_eq!(
            &variant.certificate().before().content_digest,
            &variant.certificate().after().content_digest,
        );
        assert!(verify_certified_variant(baseline, &variant).is_ok());
    }
}

const INDEPENDENT_ADDS_SOURCE: &str = r#"{
  "schemaVersion": "xunlie.source/v1",
  "operations": [
    {
      "op": "add",
      "requirement": {
        "id": "REQ-VAR-001",
        "kind": "functional",
        "priority": "must",
        "statement": "The first independent requirement is preserved."
      }
    },
    {
      "op": "add",
      "requirement": {
        "id": "REQ-VAR-002",
        "kind": "quality",
        "priority": "should",
        "statement": "The second independent requirement is preserved."
      }
    }
  ]
}
"#;

#[test]
fn certified_variant_v1_matches_golden_vector() {
    let generate = || {
        generate_builtin_variant(
            vec![SourceDocument::new(
                "crates/xunlie-testkit/fixtures/independent-adds-source.json",
                0,
                INDEPENDENT_ADDS_SOURCE,
            )],
            "history.independent-adds.reverse",
        )
        .unwrap()
    };
    let VariantGeneration::Certified(variant) = generate() else {
        panic!("golden input must produce a certified variant")
    };
    let VariantGeneration::Certified(again) = generate() else {
        panic!("golden input must produce a certified variant")
    };

    let json = variant.canonical_json();
    assert_eq!(json, again.canonical_json());
    assert!(json.starts_with(
        r#"{"schemaVersion":"xunlie.certified-variant/v1","producer":{"name":"xunlie-engine","version":"0.1.0"},"contentDigest":"sha256:"#
    ));
    assert!(json.contains(
        r#""sources":[{"identity":"crates/xunlie-testkit/fixtures/independent-adds-source.json","position":0,"source":"{\"schemaVersion\":\"xunlie.source/v1\",\"operations\":[{\"op\":\"add\",\"requirement\":{\"id\":\"REQ-VAR-002\""#
    ));
    variant.validate().unwrap();
}

#[test]
fn certify_transformation_decides_from_operator_results() {
    let baseline = source(PRETTY_SOURCE);
    let contract = compile_sources(baseline.clone()).unwrap();
    let result = certify_transformation(
        baseline.clone(),
        &contract,
        VariantOperatorIdentity::new("test.op", "1.0.0"),
        vec![PreconditionEvaluation::failed("test.check", "not applicable")],
        Err("never called".to_owned()),
    )
    .unwrap();
    let VariantGeneration::Excluded(exclusion) = result else {
        panic!("a failed precondition excludes the candidate")
    };
    assert_eq!(exclusion.preconditions().len(), 2);
    assert_eq!(exclusion.preconditions()[0].id, "xunlie.variant.baseline-compiles");
    assert_eq!(
        exclusion.preconditions()[0].explanation,
        format!("baseline compiled to content digest {}", contract.content_digest().as_str())
    );

    let error = certify_transformation(
        baseline.clone(),
        &contract,
        VariantOperatorIdentity::new("test.op", "1.0.0"),
        vec![PreconditionEvaluation::passed("test.check", "fine")],
        Err("boom".to_owned()),
    )
    .unwrap_err();
    assert_eq!(
        error.to_display_string(),
        "operator `test.op` failed after its preconditions passed: boom"
    );
}
