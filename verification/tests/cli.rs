use xunlie::{
    argument_exit,
    compile_failure, compile_source_text, contract_failure, diagnostics_are_empty,
    fixture_identity, human_compile_text, human_error_text, human_validate_text,
    portable_identity, read_failure, requested_output_format, usage_failure, validate_contract,
    write_failure, compile, CommandError, EngineFailure, ExitStatus, OutputFormat,
    generate_variant_text, human_variant_text, human_verify_variant_text, variant_decode_failure,
    variant_operator_id, variant_write_failure, verify_variant_text, CertifiedVariant,
    SourceDocument,
};

#[test]
fn source_identity_uses_portable_separators() {
    assert_eq!(
        portable_identity(r"examples\minimal-source.json"),
        "examples/minimal-source.json"
    );
}

#[test]
fn identity_normalizes_windows_separators() {
    assert_eq!(fixture_identity(r"fixture\source.json"), "fixture/source.json");
}

#[test]
fn exit_codes_are_stable() {
    let expected = [
        (ExitStatus::Success, 0),
        (ExitStatus::Usage, 2),
        (ExitStatus::InputIo, 10),
        (ExitStatus::CompileFailed, 11),
        (ExitStatus::ContractInvalid, 12),
        (ExitStatus::OutputIo, 13),
        (ExitStatus::VariantExcluded, 14),
        (ExitStatus::VariantInvalid, 15),
        (ExitStatus::Internal, 70),
    ];
    for (status, code) in expected {
        assert_eq!(status.code(), code);
    }
}

fn args(items: &[&str]) -> Vec<String> {
    items.iter().map(|s| s.to_string()).collect()
}

#[test]
fn output_format_is_detected_before_parsing() {
    assert_eq!(OutputFormat::default(), OutputFormat::Human);
    assert_eq!(
        requested_output_format(&args(&["xunlie", "unknown", "--format", "json"])),
        OutputFormat::Json
    );
    assert_eq!(
        requested_output_format(&args(&["xunlie", "--FORMAT=JSON"])),
        OutputFormat::Json
    );
    assert_eq!(
        requested_output_format(&args(&["xunlie", "--format", "JsOn"])),
        OutputFormat::Json
    );
    assert_eq!(
        requested_output_format(&args(&["xunlie", "--format"])),
        OutputFormat::Human
    );
    assert_eq!(
        requested_output_format(&args(&["xunlie", "--Format", "json"])),
        OutputFormat::Human
    );
}

#[test]
fn command_errors_carry_stable_codes() {
    let usage = usage_failure("unrecognized subcommand".to_owned());
    assert_eq!(usage.exit, ExitStatus::Usage);
    assert_eq!(usage.code, "XUNLIE-E002");
    let read = read_failure("validate", "missing.json", "not found");
    assert_eq!(read.exit.code(), 10);
    assert_eq!(read.message, "could not read 'missing.json': not found");
    let write = write_failure("out.json", "denied");
    assert_eq!(write.exit.code(), 13);
    assert_eq!(write.message, "could not write 'out.json': denied");
    let failure = EngineFailure::message("fixture rejected");
    let compile = compile_failure("source.json", failure);
    assert_eq!(compile.exit.code(), 11);
    assert_eq!(compile.message, "could not compile 'source.json': fixture rejected");
    let invalid = contract_failure("c.json", EngineFailure::message("fixture invalid"));
    assert_eq!(invalid.exit.code(), 12);
    assert_eq!(invalid.code, "XUNLIE-E012");
    assert_eq!(invalid.message, "contract 'c.json' is invalid: fixture invalid");
    assert!(diagnostics_are_empty(&invalid.diagnostics));
}

#[test]
fn human_texts_follow_the_documented_layout() {
    assert_eq!(
        human_compile_text("in.json", "out.json", "sha256:a", "sha256:b"),
        "compiled in.json -> out.json\ncontent digest: sha256:a\nartifact digest: sha256:b\n"
    );
    assert_eq!(
        human_validate_text("c.json", "sha256:a", "sha256:b"),
        "valid c.json\ncontent digest: sha256:a\nartifact digest: sha256:b\n"
    );
    let failure = compile_source_text("memory://x", "{not json}").unwrap_err();
    assert_eq!(failure.message, "contract compilation failed with 1 diagnostic(s)");
    let error: CommandError = compile_failure("x.json", failure);
    let text = human_error_text(&error);
    assert!(text.starts_with(
        "XUNLIE-E011: could not compile 'x.json': contract compilation failed with 1 diagnostic(s)\n  XUNLIE-SOURCE-INVALID-JSON: source is not valid xunlie.source/v1 JSON: "
    ));
    assert!(text.ends_with('\n'));
}

#[test]
fn compile_then_validate_reports_the_same_digests() {
    let source = r#"{"schemaVersion":"xunlie.source/v1","operations":[]}"#;
    let compiled = compile_source_text("memory://stdin", source).unwrap();
    let contract = compile(source).unwrap();
    assert_eq!(compiled.canonical_json, contract.canonical_json());
    let validated = validate_contract(&contract).unwrap();
    assert_eq!(validated.content_digest, compiled.content_digest);
    assert_eq!(validated.artifact_digest, compiled.artifact_digest);
}

const INDEPENDENT_ADDS: &str = r#"{"schemaVersion":"xunlie.source/v1","operations":[{"op":"add","requirement":{"id":"REQ-1","kind":"functional","priority":"must","statement":"First."}},{"op":"add","requirement":{"id":"REQ-2","kind":"quality","priority":"should","statement":"Second."}}]}"#;

const CANONICAL_SOURCE: &str = r#"{"operations":[{"op":"add","requirement":{"id":"REQ-1","kind":"functional","priority":"must","statement":"Preserve provenance."}}],"schemaVersion":"xunlie.source/v1"}"#;

#[test]
fn variant_operator_names_select_builtin_operators() {
    assert_eq!(variant_operator_id("normalize-json"), Some("json.presentation.normalize"));
    assert_eq!(
        variant_operator_id("reverse-independent-adds"),
        Some("history.independent-adds.reverse")
    );
    assert_eq!(variant_operator_id("reverse"), None);
}

#[test]
fn variant_then_verify_succeeds_through_the_command_decisions() {
    let generated = generate_variant_text(
        "history.json",
        "history.json",
        INDEPENDENT_ADDS,
        "history.independent-adds.reverse",
    )
    .unwrap();
    assert_eq!(generated.operator, "history.independent-adds.reverse");
    assert_eq!(generated.content_digest.len(), 71);
    assert_eq!(generated.certificate_digest.len(), 71);
    assert!(generated.canonical_json.starts_with("{\"schemaVersion\":\"xunlie.certified-variant/v1\""));

    let artifact = rebuilt_from(&generated.canonical_json);
    let verified = verify_variant_text("variant.json", "history.json", INDEPENDENT_ADDS, &artifact)
        .unwrap();
    assert_eq!(verified.operator, generated.operator);
    assert_eq!(verified.content_digest, generated.content_digest);
    assert_eq!(verified.certificate_digest, generated.certificate_digest);
}

/// Regenerates the artifact that `generate_variant_text` serialised, through the library.
fn rebuilt_from(canonical_json: &str) -> CertifiedVariant {
    let docs = vec![SourceDocument::new("history.json", 0, INDEPENDENT_ADDS)];
    match xunlie::generate_builtin_variant(docs, "history.independent-adds.reverse").unwrap() {
        xunlie::VariantGeneration::Certified(variant) => {
            assert_eq!(variant.canonical_json(), canonical_json);
            *variant
        }
        xunlie::VariantGeneration::Excluded(_) => panic!("unexpected exclusion"),
    }
}

#[test]
fn failed_precondition_is_exit_14_with_the_failed_precondition() {
    let error = generate_variant_text(
        "canonical.json",
        "canonical.json",
        CANONICAL_SOURCE,
        "json.presentation.normalize",
    )
    .unwrap_err();
    assert_eq!(error.exit, ExitStatus::VariantExcluded);
    assert_eq!(error.exit.code(), 14);
    assert_eq!(error.code, "XUNLIE-E014");
    assert_eq!(error.command, "variant");
    assert_eq!(
        error.message,
        "variant of 'canonical.json' excluded by operator `json.presentation.normalize`"
    );
    assert_eq!(error.diagnostics.len(), 1);
    assert_eq!(error.diagnostics[0].code, "XUNLIE-VARIANT-PRECONDITION-FAILED");
    assert!(error.diagnostics[0].message.starts_with("precondition `xunlie.variant.output-differs` failed: "));
}

#[test]
fn invalid_baseline_is_exit_14_with_compile_diagnostics() {
    let error = generate_variant_text("bad.json", "bad.json", "{", "json.presentation.normalize")
        .unwrap_err();
    assert_eq!(error.exit, ExitStatus::VariantExcluded);
    assert_eq!(error.code, "XUNLIE-E014");
    assert_eq!(
        error.message,
        "could not generate a variant of 'bad.json': baseline history did not compile"
    );
    assert_eq!(error.diagnostics[0].code, "XUNLIE-SOURCE-INVALID-JSON");
}

#[test]
fn tampered_certified_variant_is_exit_15() {
    let generated = generate_variant_text(
        "history.json",
        "history.json",
        INDEPENDENT_ADDS,
        "history.independent-adds.reverse",
    )
    .unwrap();
    let artifact = rebuilt_from(&generated.canonical_json);
    let tampered = CertifiedVariant::from_parts(
        artifact.schema_version().to_owned(),
        xunlie::Producer {
            name: artifact.producer().name.clone(),
            version: artifact.producer().version.clone(),
        },
        None,
        artifact.content_digest().clone(),
        vec![SourceDocument::new("history.json", 0, INDEPENDENT_ADDS)],
        artifact.certificate().clone(),
    );
    let error = verify_variant_text("variant.json", "history.json", INDEPENDENT_ADDS, &tampered)
        .unwrap_err();
    assert_eq!(error.exit, ExitStatus::VariantInvalid);
    assert_eq!(error.exit.code(), 15);
    assert_eq!(error.code, "XUNLIE-E015");
    assert_eq!(error.command, "verify-variant");
    assert!(error.message.starts_with("certified variant 'variant.json' did not verify: "));
    assert_eq!(error.diagnostics[0].code, "XUNLIE-VARIANT-DIGEST-MISMATCH");
}

#[test]
fn variant_io_failures_have_stable_codes() {
    let unreadable = variant_decode_failure("variant.json", "expected value");
    assert_eq!(unreadable.exit, ExitStatus::VariantInvalid);
    assert_eq!(unreadable.code, "XUNLIE-E015");
    assert_eq!(unreadable.message, "certified variant 'variant.json' is not readable: expected value");
    let unwritable = variant_write_failure("out", "is a directory");
    assert_eq!(unwritable.exit, ExitStatus::OutputIo);
    assert_eq!(unwritable.code, "XUNLIE-E013");
    assert_eq!(unwritable.command, "variant");
}

#[test]
fn human_variant_texts_follow_the_documented_layout() {
    assert_eq!(
        human_variant_text("in.json", "out.json", "op", "sha256:a", "sha256:b"),
        "variant in.json -> out.json\noperator: op\ncontent digest: sha256:a\ncertificate digest: sha256:b\n"
    );
    assert_eq!(
        human_verify_variant_text("v.json", "op", "sha256:a", "sha256:b"),
        "verified v.json\noperator: op\ncontent digest: sha256:a\ncertificate digest: sha256:b\n"
    );
}

#[test]
fn help_exits_successfully_and_other_argument_errors_are_usage() {
    assert_eq!(argument_exit(true), ExitStatus::Success);
    assert_eq!(argument_exit(false), ExitStatus::Usage);
}
