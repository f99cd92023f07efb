use xunlie::{
    resolve_history, CertifiedHistory, ConflictKind, ContractIr, ContractMetadata,
    DigestParseError, EquivalenceCertificate, EquivalenceProof, EquivalenceProofResult, History,
    HistoryEvent, Operation, Precedence, PreconditionEvaluation, PreconditionStatus, Producer,
    Attribute, Requirement, RequirementId, RequirementIdError, RequirementKind, RequirementMap,
    RequirementPriority, ResolutionAction, ResolutionPolicy, Severity, Sha256Digest,
    SourceIdentity, SourceIdentityError, SourceRecord, VariantOperatorIdentity,
    EQUIVALENCE_CERTIFICATE_SCHEMA_VERSION, RECOMPILE_PROOF_METHOD,
};

// ---------------------------------------------------------------------------
// Identities, digests and requirements
// ---------------------------------------------------------------------------

#[test]
fn hashes_known_vector() {
    assert_eq!(
        Sha256Digest::of_bytes(b"abc").as_str(),
        "sha256:ba7816bf8f01cfea414140de5dae2223b00361a396177a9cb410ff61f20015ad"
    );
}

#[test]
fn deserialize_rejects_noncanonical_digest() {
    let raw = "SHA256:BA7816BF8F01CFEA414140DE5DAE2223B00361A396177A9CB410FF61F20015AD";
    assert!(Sha256Digest::parse(raw).is_err());
}

#[test]
fn digest_parse_reports_each_error() {
    assert_eq!(Sha256Digest::parse("md5:abc"), Err(DigestParseError::MissingPrefix));
    assert_eq!(Sha256Digest::parse("sha256:abc"), Err(DigestParseError::InvalidLength(3)));
    let upper = format!("sha256:{}", "A".repeat(64));
    assert_eq!(Sha256Digest::parse(&upper), Err(DigestParseError::InvalidHex));
    let valid = Sha256Digest::of_bytes(b"abc");
    assert_eq!(Sha256Digest::parse(valid.as_str()).unwrap(), valid);
}

#[test]
fn rejects_invalid_requirement_id() {
    assert_eq!(
        RequirementId::new("REQ WITH SPACE"),
        Err(RequirementIdError::InvalidCharacter)
    );
}

#[test]
fn requirement_id_errors_cover_empty_and_too_long() {
    assert_eq!(RequirementId::new(""), Err(RequirementIdError::Empty));
    let long = "R".repeat(129);
    assert_eq!(RequirementId::new(&long), Err(RequirementIdError::TooLong(129)));
    let limit = "R".repeat(128);
    assert_eq!(RequirementId::new(&limit).unwrap().as_str(), limit);
    assert_eq!(RequirementId::new("a.b_c-d/e:F9").unwrap().as_str(), "a.b_c-d/e:F9");
}

#[test]
fn source_identity_rejects_blank_and_control_characters() {
    assert_eq!(SourceIdentity::new(" \t"), Err(SourceIdentityError::Empty));
    assert_eq!(
        SourceIdentity::new("memory://a\u{7}b"),
        Err(SourceIdentityError::ControlCharacter)
    );
    assert_eq!(SourceIdentity::new("memory://ok").unwrap().as_str(), "memory://ok");
}

#[test]
fn requirement_statement_cannot_be_blank() {
    let error = Requirement::new(
        RequirementId::new("REQ-1").unwrap(),
        RequirementKind::Functional,
        RequirementPriority::Must,
        "  ",
    )
    .unwrap_err();
    assert_eq!(error.code, "XUNLIE-REQ-EMPTY-STATEMENT");
    assert_eq!(error.message, "requirement `REQ-1` has an empty statement");
}

#[test]
fn contract_requires_at_least_one_source() {
    let diagnostics = ContractIr::new(
        ContractMetadata::default(),
        Vec::new(),
        ResolutionPolicy::Strict,
        RequirementMap::new(),
    )
    .unwrap_err();

    assert!(diagnostics
        .iter()
        .any(|diagnostic| diagnostic.code == "XUNLIE-CONTRACT-NO-SOURCES"));
}

fn record(identity: &str, position: usize) -> SourceRecord {
    SourceRecord {
        identity: SourceIdentity::new(identity).unwrap(),
        digest: Sha256Digest::of_bytes(identity.as_bytes()),
        position,
    }
}

#[test]
fn contract_sorts_sources_and_validates() {
    let contract = ContractIr::new(
        ContractMetadata::default(),
        vec![record("memory://b", 2), record("memory://c", 0), record("memory://a", 1)],
        ResolutionPolicy::Strict,
        RequirementMap::new(),
    )
    .unwrap();
    let identities: Vec<&str> = contract.sources().iter().map(|s| s.identity.as_str()).collect();
    assert_eq!(identities, vec!["memory://c", "memory://a", "memory://b"]);
    contract.validate().unwrap();
    assert_eq!(
        contract.semantic_canonical_json(),
        r#"{"schemaVersion":"xunlie.contract/v1","resolutionPolicy":"strict","requirements":{}}"#
    );
}

#[test]
fn contract_reports_duplicate_sources() {
    let diagnostics = ContractIr::new(
        ContractMetadata::default(),
        vec![record("memory://a", 0), record("memory://a", 0)],
        ResolutionPolicy::Strict,
        RequirementMap::new(),
    )
    .unwrap_err();
    let codes: Vec<&str> = diagnostics.iter().map(|d| d.code.as_str()).collect();
    assert_eq!(
        codes,
        vec!["XUNLIE-SOURCE-DUPLICATE-IDENTITY", "XUNLIE-SOURCE-DUPLICATE-POSITION"]
    );
    assert_eq!(diagnostics[1].message, "source position 0 appears more than once");
}

// ---------------------------------------------------------------------------
// Resolution
// ---------------------------------------------------------------------------

fn requirement(id: &str, statement: &str) -> Requirement {
    Requirement::new(
        RequirementId::new(id).unwrap(),
        RequirementKind::Functional,
        RequirementPriority::Must,
        statement,
    )
    .unwrap()
}

fn source(position: usize) -> SourceRecord {
    let identity = format!("memory://source-{position}");
    SourceRecord {
        identity: SourceIdentity::new(&identity).unwrap(),
        digest: Sha256Digest::of_bytes(format!("source-{position}").as_bytes()),
        position,
    }
}

fn event(source: &SourceRecord, operation_position: usize, operation: Operation) -> HistoryEvent {
    HistoryEvent {
        precedence: Precedence {
            source_position: source.position,
            operation_position,
        },
        location: source.location(operation_position),
        operation,
    }
}

#[test]
fn add_replace_and_revoke_produce_expected_contract() {
    let source = source(0);
    let history = History {
        policy: ResolutionPolicy::Strict,
        sources: vec![source.clone()],
        events: vec![
            event(
                &source,
                0,
                Operation::Add {
                    requirement: requirement("REQ-1", "first"),
                },
            ),
            event(
                &source,
                1,
                Operation::Replace {
                    target: RequirementId::new("REQ-1").unwrap(),
                    requirement: requirement("REQ-1", "second"),
                },
            ),
            event(
                &source,
                2,
                Operation::Add {
                    requirement: requirement("REQ-2", "temporary"),
                },
            ),
            event(
                &source,
                3,
                Operation::Revoke {
                    target: RequirementId::new("REQ-2").unwrap(),
                },
            ),
        ],
    };

    let resolved = resolve_history(&history).unwrap();
    assert_eq!(resolved.requirements().len(), 1);
    assert_eq!(
        resolved
            .requirements()
            .get(&RequirementId::new("REQ-1").unwrap())
            .unwrap()
            .statement(),
        "second"
    );
    assert_eq!(
        resolved
            .decisions()
            .iter()
            .map(|decision| decision.action)
            .collect::<Vec<_>>(),
        vec![
            ResolutionAction::Added,
            ResolutionAction::Replaced,
            ResolutionAction::Added,
            ResolutionAction::Revoked,
        ]
    );
}

#[test]
fn contradictory_add_reports_both_sources() {
    let first = source(0);
    let second = source(1);
    let history = History {
        policy: ResolutionPolicy::Strict,
        sources: vec![first.clone(), second.clone()],
        events: vec![
            event(
                &first,
                0,
                Operation::Add {
                    requirement: requirement("REQ-1", "first"),
                },
            ),
            event(
                &second,
                0,
                Operation::Add {
                    requirement: requirement("REQ-1", "different"),
                },
            ),
        ],
    };

    let failure = resolve_history(&history).unwrap_err();
    assert_eq!(failure.conflicts().len(), 1);
    let conflict = &failure.conflicts()[0];
    assert_eq!(conflict.kind, ConflictKind::ContradictoryAdd);
    assert_eq!(conflict.diagnostic.severity, Severity::Error);
    assert_eq!(conflict.diagnostic.related.len(), 1);
}

#[test]
fn missing_replace_and_revoke_targets_fail_closed() {
    let source = source(0);
    let target = RequirementId::new("REQ-MISSING").unwrap();
    let history = History {
        policy: ResolutionPolicy::Strict,
        sources: vec![source.clone()],
        events: vec![
            event(
                &source,
                0,
                Operation::Replace {
                    target: target.clone(),
                    requirement: requirement("REQ-MISSING", "replacement"),
                },
            ),
            event(&source, 1, Operation::Revoke { target }),
        ],
    };

    let failure = resolve_history(&history).unwrap_err();
    assert_eq!(failure.conflicts().len(), 2);
    assert_eq!(
        failure.conflicts()[0].kind,
        ConflictKind::MissingReplacementTarget
    );
    assert_eq!(
        failure.conflicts()[1].kind,
        ConflictKind::MissingRevocationTarget
    );
}

#[test]
fn replace_operation_targets_declared_target_not_replacement_id() {
    let target = RequirementId::new("REQ-TARGET").unwrap();
    let operation = Operation::Replace {
        target: target.clone(),
        requirement: requirement("REQ-OTHER", "invalid implicit rename"),
    };

    assert_eq!(operation.target(), &target);
}

#[test]
fn structural_conflict_aborts_before_semantic_resolution() {
    let source = source(0);
    let location = source.location(0);
    let precedence = Precedence {
        source_position: 0,
        operation_position: 0,
    };
    let history = History {
        policy: ResolutionPolicy::Strict,
        sources: vec![source],
        events: vec![
            HistoryEvent {
                precedence,
                location: location.clone(),
                operation: Operation::Add {
                    requirement: requirement("REQ-1", "first"),
                },
            },
            HistoryEvent {
                precedence,
                location,
                operation: Operation::Add {
                    requirement: requirement("REQ-1", "contradictory"),
                },
            },
        ],
    };

    let failure = resolve_history(&history).unwrap_err();
    assert_eq!(failure.conflicts().len(), 1);
    assert_eq!(
        failure.conflicts()[0].kind,
        ConflictKind::DuplicatePrecedence
    );
}

#[test]
fn storage_order_does_not_change_resolution() {
    for (first, second) in [("a", "b"), ("first", "second"), ("zz", "zz")] {
        let source = source(0);
        let add = event(
            &source,
            0,
            Operation::Add {
                requirement: requirement("REQ-1", first),
            },
        );
        let replace = event(
            &source,
            1,
            Operation::Replace {
                target: RequirementId::new("REQ-1").unwrap(),
                requirement: requirement("REQ-1", second),
            },
        );
        let forward = History {
            policy: ResolutionPolicy::Strict,
            sources: vec![source.clone()],
            events: vec![add.clone(), replace.clone()],
        };
        let reverse = History {
            policy: ResolutionPolicy::Strict,
            sources: vec![source],
            events: vec![replace, add],
        };

        assert_eq!(
            resolve_history(&forward).unwrap().requirements(),
            resolve_history(&reverse).unwrap().requirements(),
        );
    }
}

#[test]
fn unknown_source_is_a_structural_conflict() {
    let declared = source(0);
    let undeclared = source(1);
    let history = History {
        policy: ResolutionPolicy::Strict,
        sources: vec![declared],
        events: vec![event(
            &undeclared,
            0,
            Operation::Add {
                requirement: requirement("REQ-1", "first"),
            },
        )],
    };
    let failure = resolve_history(&history).unwrap_err();
    assert_eq!(failure.conflicts()[0].kind, ConflictKind::UnknownSource);
    assert_eq!(
        failure.conflicts()[0].diagnostic.code,
        "XUNLIE-RESOLVE-UNKNOWN-SOURCE"
    );
}

// ---------------------------------------------------------------------------
// Certificates
// ---------------------------------------------------------------------------

fn digest(value: &str) -> Sha256Digest {
    Sha256Digest::of_bytes(value.as_bytes())
}

fn history(history: &str, content: &str, artifact: &str) -> CertifiedHistory {
    CertifiedHistory {
        history_digest: digest(history),
        content_digest: digest(content),
        artifact_digest: digest(artifact),
    }
}

fn engine_producer() -> Producer {
    Producer {
        name: "xunlie-engine".to_owned(),
        version: "0.1.0".to_owned(),
    }
}

fn certificate() -> EquivalenceCertificate {
    EquivalenceCertificate::new(
        engine_producer(),
        VariantOperatorIdentity::new("json.presentation.normalize", "1.0.0"),
        vec![PreconditionEvaluation::passed(
            "source.valid-json",
            "all source documents parsed as JSON",
        )],
        history("before-history", "same-contract", "before-artifact"),
        history("after-history", "same-contract", "after-artifact"),
    )
    .unwrap()
}

fn rebuilt(
    original: &EquivalenceCertificate,
    preconditions: Vec<PreconditionEvaluation>,
    proof: EquivalenceProof,
) -> EquivalenceCertificate {
    EquivalenceCertificate::from_parts(
        original.schema_version().to_owned(),
        original.producer().clone(),
        original.created_at().map(|t| t.to_owned()),
        original.operator().clone(),
        preconditions,
        original.before().clone(),
        original.after().clone(),
        proof,
        original.certificate_digest().clone(),
    )
}

#[test]
fn valid_certificate_survives_canonical_round_trip() {
    let original = certificate();
    let json = original.canonical_json();
    let decoded = rebuilt(
        &original,
        original.preconditions().clone(),
        original.equivalence_proof().clone(),
    );

    decoded.validate().unwrap();
    assert_eq!(decoded, original);
    assert_eq!(decoded.canonical_json(), json);
}

#[test]
fn failed_precondition_cannot_be_certified() {
    let result = EquivalenceCertificate::new(
        engine_producer(),
        VariantOperatorIdentity::new("test.operator", "1.0.0"),
        vec![PreconditionEvaluation::failed(
            "test.precondition",
            "input is outside the safe domain",
        )],
        history("before-history", "same-contract", "before-artifact"),
        history("after-history", "same-contract", "after-artifact"),
    );

    assert!(result
        .unwrap_err()
        .iter()
        .any(|diagnostic| { diagnostic.code == "XUNLIE-CERTIFICATE-FAILED-PRECONDITION" }));
}

#[test]
fn differing_contract_digests_are_rejected() {
    let result = EquivalenceCertificate::new(
        engine_producer(),
        VariantOperatorIdentity::new("test.operator", "1.0.0"),
        vec![PreconditionEvaluation::passed("test.precondition", "passed")],
        history("before-history", "before-contract", "before-artifact"),
        history("after-history", "after-contract", "after-artifact"),
    );

    assert!(result
        .unwrap_err()
        .iter()
        .any(|diagnostic| { diagnostic.code == "XUNLIE-CERTIFICATE-NOT-EQUIVALENT" }));
}

#[test]
fn tampering_invalidates_certificate_digest() {
    let original = certificate();
    let mut preconditions = original.preconditions().clone();
    preconditions[0].explanation = "tampered evidence".to_owned();
    let tampered = rebuilt(&original, preconditions, original.equivalence_proof().clone());

    assert!(tampered
        .validate()
        .unwrap_err()
        .iter()
        .any(|diagnostic| { diagnostic.code == "XUNLIE-CERTIFICATE-DIGEST-MISMATCH" }));
}

#[test]
fn operator_id_and_version_are_independently_required() {
    for (id, version) in [("", "1.0.0"), ("test.operator", "")] {
        let result = EquivalenceCertificate::new(
            engine_producer(),
            VariantOperatorIdentity::new(id, version),
            vec![PreconditionEvaluation::passed("test.precondition", "passed")],
            history("before-history", "same-contract", "before-artifact"),
            history("after-history", "same-contract", "after-artifact"),
        );

        assert!(result
            .unwrap_err()
            .iter()
            .any(|diagnostic| diagnostic.code == "XUNLIE-CERTIFICATE-OPERATOR"));
    }
}

#[test]
fn producer_name_and_version_are_independently_required() {
    for (name, version) in [("", "0.1.0"), ("xunlie-engine", "")] {
        let result = EquivalenceCertificate::new(
            Producer {
                name: name.to_owned(),
                version: version.to_owned(),
            },
            VariantOperatorIdentity::new("test.operator", "1.0.0"),
            vec![PreconditionEvaluation::passed("test.precondition", "passed")],
            history("before-history", "same-contract", "before-artifact"),
            history("after-history", "same-contract", "after-artifact"),
        );

        assert!(result
            .unwrap_err()
            .iter()
            .any(|diagnostic| diagnostic.code == "XUNLIE-CERTIFICATE-PRODUCER"));
    }
}

#[test]
fn precondition_id_and_explanation_are_required() {
    for precondition in [
        PreconditionEvaluation::passed("", "passed"),
        PreconditionEvaluation::passed("test.precondition", ""),
    ] {
        let result = EquivalenceCertificate::new(
            engine_producer(),
            VariantOperatorIdentity::new("test.operator", "1.0.0"),
            vec![precondition],
            history("before-history", "same-contract", "before-artifact"),
            history("after-history", "same-contract", "after-artifact"),
        );

        assert!(result.is_err());
    }
}

#[test]
fn duplicate_preconditions_are_reported_once_per_repeat() {
    let result = EquivalenceCertificate::new(
        engine_producer(),
        VariantOperatorIdentity::new("test.operator", "1.0.0"),
        vec![
            PreconditionEvaluation::passed("same", "first"),
            PreconditionEvaluation::passed("same", "second"),
        ],
        history("before-history", "same-contract", "before-artifact"),
        history("after-history", "same-contract", "after-artifact"),
    );
    let diagnostics = result.unwrap_err();
    assert_eq!(diagnostics.len(), 1);
    assert_eq!(diagnostics[0].code, "XUNLIE-CERTIFICATE-DUPLICATE-PRECONDITION");
    assert_eq!(diagnostics[0].message, "precondition `same` appears more than once");
}

#[test]
fn unchanged_sides_are_rejected() {
    let result = EquivalenceCertificate::new(
        engine_producer(),
        VariantOperatorIdentity::new("test.operator", "1.0.0"),
        vec![PreconditionEvaluation::passed("test.precondition", "passed")],
        history("same-history", "same-contract", "same-artifact"),
        history("same-history", "same-contract", "same-artifact"),
    );
    let codes: Vec<String> = result.unwrap_err().into_iter().map(|d| d.code).collect();
    assert_eq!(
        codes,
        vec![
            "XUNLIE-CERTIFICATE-UNCHANGED-HISTORY".to_owned(),
            "XUNLIE-CERTIFICATE-UNCHANGED-ARTIFACT".to_owned()
        ]
    );
}

#[test]
fn proof_method_is_validated_independently_from_result() {
    let original = certificate();
    let tampered = rebuilt(
        &original,
        original.preconditions().clone(),
        EquivalenceProof {
            method: "test.forged/v1".to_owned(),
            result: EquivalenceProofResult::Equivalent,
        },
    );
    let diagnostics = tampered.validate().unwrap_err();

    assert!(diagnostics
        .iter()
        .any(|diagnostic| diagnostic.code == "XUNLIE-CERTIFICATE-PROOF"));
}

#[test]
fn public_certificate_evidence_accessors_return_persisted_values() {
    let certificate = certificate();

    assert_eq!(
        certificate.schema_version(),
        EQUIVALENCE_CERTIFICATE_SCHEMA_VERSION
    );
    assert_eq!(certificate.preconditions().len(), 1);
    assert_eq!(certificate.preconditions()[0].id, "source.valid-json");
    assert_eq!(certificate.preconditions()[0].status, PreconditionStatus::Passed);
    assert_eq!(certificate.equivalence_proof().method, RECOMPILE_PROOF_METHOD);
}

#[test]
fn certificate_canonical_json_has_documented_shape() {
    let certificate = certificate();
    let json = certificate.canonical_json();
    assert!(json.starts_with(
        r#"{"schemaVersion":"xunlie.equivalence-certificate/v1","producer":{"name":"xunlie-engine","version":"0.1.0"},"operator":{"id":"json.presentation.normalize","version":"1.0.0"},"preconditions":[{"id":"source.valid-json","status":"passed","explanation":"all source documents parsed as JSON"}],"before":{"historyDigest":""#
    ));
    assert!(json.contains(r#""proof":{"method":"xunlie.recompile-and-compare/v1","result":"equivalent"},"contentDigest":"sha256:"#));
    assert!(json.ends_with("\"}"));
}

#[test]
fn requirement_attributes_are_collected_as_a_map() {
    let attribute = |key: &str, value: &str| Attribute { key: key.to_owned(), value: value.to_owned() };
    let requirement = Requirement::from_parts(
        RequirementId::new("REQ-1").unwrap(),
        RequirementKind::Functional,
        RequirementPriority::Must,
        "statement".to_owned(),
        vec![attribute("zeta", "1"), attribute("alpha", "2"), attribute("zeta", "3")],
    );
    let collected: Vec<(&str, &str)> = requirement
        .attributes()
        .iter()
        .map(|a| (a.key.as_str(), a.value.as_str()))
        .collect();
    assert_eq!(collected, vec![("alpha", "2"), ("zeta", "3")]);
}
