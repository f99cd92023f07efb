//! Deterministic compilation of requirement histories into canonical,
//! self-validating contracts, and certification of equivalent histories.
//!
//! The library performs no I/O: callers supply every value that can affect a
//! verdict, and every verdict is a function of those values.

mod canonical;
mod certificate;
mod cli;
mod contract;
mod decode;
mod diagnostic;
mod digest;
mod engine;
mod ir;
mod json;
pub mod laws;
mod operators;
pub mod ordering;
pub mod presentation;
pub mod replay;
pub mod semantics;
pub mod validity;
mod resolution;
mod text;
mod variant;

pub use certificate::{
    CertifiedHistory, EquivalenceCertificate, EquivalenceProof, EquivalenceProofResult,
    PreconditionEvaluation, PreconditionStatus, VariantOperatorIdentity,
    EQUIVALENCE_CERTIFICATE_SCHEMA_VERSION, RECOMPILE_PROOF_METHOD,
};
pub use cli::{
    argument_exit, compile_failure, compile_source_text, contract_failure, diagnostics_are_empty,
    fixture_identity, generate_variant_text, human_compile_text, human_error_text,
    human_validate_text, human_variant_text, human_verify_variant_text, read_failure,
    requested_output_format, usage_failure, validate_contract, variant_decode_failure,
    variant_operator_id, variant_write_failure, verify_variant_text, write_failure,
    CommandError, CompiledContract, EngineFailure, ExitStatus, GeneratedVariant, OutputFormat,
    ValidatedContract, VerifiedVariant,
};
pub use contract::{ContractIr, ContractView, CONTRACT_SCHEMA_VERSION};
pub use decode::{read_envelope, SourceEnvelope};
pub use diagnostic::{Diagnostic, DiagnosticRelated, Severity, SourceLocation};
pub use digest::{DigestParseError, Sha256Digest};
pub use json::{JsonSyntaxError, JsonValue};
pub use engine::{
    compile, compile_sources, compile_sources_with_options, ingest_parsed, CompileError, CompileOptions,
    SourceDocument, SOURCE_SCHEMA_VERSION, STDIN_IDENTITY,
};
pub use ir::{
    Attribute, ContractMetadata, Producer, Requirement, RequirementId, RequirementIdError,
    RequirementKind, RequirementMap, RequirementPriority, SourceIdentity, SourceIdentityError,
    SourceRecord, PRODUCER_VERSION,
};
pub use operators::{
    builtin_operator, BuiltinOperator, JsonNormalizationOperator, ReverseIndependentAddsOperator,
    VariantOperator,
};
pub use resolution::{
    resolve_history, Conflict, ConflictKind, History, HistoryEvent, Operation, Precedence,
    ResolutionAction, ResolutionDecision, ResolutionFailure, ResolutionPolicy, ResolvedContract,
};
pub use text::portable_identity;
pub use variant::{
    certify_transformation, check_replay, generate_builtin_variant, generate_certified_variant,
    verify_certified_variant, verify_certified_variant_with_operator, CertifiedVariant,
    ExcludedVariant, VariantError, VariantGeneration, BUILTIN_OPERATOR_IDS,
    BUILTIN_OPERATOR_VERSION, CERTIFIED_VARIANT_SCHEMA_VERSION, JSON_NORMALIZATION_OPERATOR_ID,
    REVERSE_INDEPENDENT_ADDS_OPERATOR_ID,
};
