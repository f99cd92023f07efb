//! The decisions of the command-line boundary: exit codes, the requested
//! output format, what each command reports, and the human-readable text.
use vstd::prelude::*;

use crate::contract::{contract_json, contract_problems, ContractIr, ContractView};
use crate::diagnostic::{diagnostics_are, Diagnostic, DiagnosticSpec};
use crate::engine::{compile_sources, docs_view, sort_docs, DocView, SourceDocument};
use crate::text::{chars_of, concat3, concat5, decimal};
use crate::certificate::{PreconditionStatus, PreconditionView};
use crate::diagnostic::push_diagnostic;
use crate::operators::{
    builtin_evaluations, builtin_identity, builtin_operator_for, builtin_transform,
};
use crate::variant::{
    compile_default, generate_builtin_variant, spec_generate, spec_verify, unknown_builtin_error,
    unsupported_operator_error, verify_certified_variant, CertifiedVariant, ErrorSpec,
    GenerationView, VariantGeneration, JSON_NORMALIZATION_OPERATOR_ID,
    REVERSE_INDEPENDENT_ADDS_OPERATOR_ID,
};

verus! {

/// Process exit codes are part of the public command-line contract.
#[derive(Clone, Copy, Debug, PartialEq, Eq, Structural)]
pub enum ExitStatus {
    /// The requested operation completed successfully.
    Success,
    /// Arguments or command selection were invalid.
    Usage,
    /// An input file could not be read.
    InputIo,
    /// Source compilation failed without producing a partial contract.
    CompileFailed,
    /// A persisted contract document was invalid.
    ContractInvalid,
    /// A compiled artifact could not be written.
    OutputIo,
    /// No certified variant was produced: a precondition excluded the
    /// history, or generation failed closed.
    VariantExcluded,
    /// A persisted certified variant did not verify.
    VariantInvalid,
    /// Infrastructure, such as an output stream, failed.
    Internal,
}

/// The stable numeric process code of each status.
pub open spec fn exit_code(s: ExitStatus) -> u8 {
    match s {
        ExitStatus::Success => 0,
        ExitStatus::Usage => 2,
        ExitStatus::InputIo => 10,
        ExitStatus::CompileFailed => 11,
        ExitStatus::ContractInvalid => 12,
        ExitStatus::OutputIo => 13,
        ExitStatus::VariantExcluded => 14,
        ExitStatus::VariantInvalid => 15,
        ExitStatus::Internal => 70,
    }
}

impl ExitStatus {
    /// Returns the stable numeric process code.
    pub fn code(self) -> (r: u8)
        ensures
            r == exit_code(self),
    {
        match self {
            ExitStatus::Success => 0,
            ExitStatus::Usage => 2,
            ExitStatus::InputIo => 10,
            ExitStatus::CompileFailed => 11,
            ExitStatus::ContractInvalid => 12,
            ExitStatus::OutputIo => 13,
            ExitStatus::VariantExcluded => 14,
            ExitStatus::VariantInvalid => 15,
            ExitStatus::Internal => 70,
        }
    }
}

/// Output format for command results.
#[derive(Clone, Copy, Debug, PartialEq, Eq, Structural)]
pub enum OutputFormat {
    /// Concise messages intended for a person at a terminal.
    Human,
    /// A single `xunlie.cli.result/v1` object intended for automation.
    Json,
}

impl Default for OutputFormat {
    fn default() -> (r: Self)
        ensures
            r == OutputFormat::Human,
    {
        OutputFormat::Human
    }
}

/// ASCII letters folded to lower case; every other character unchanged.
pub open spec fn ascii_lower(c: char) -> char {
    if 'A' <= c && c <= 'Z' {
        ((c as u8) + 32) as char
    } else {
        c
    }
}

/// Equality of texts up to ASCII case.
pub open spec fn eq_ignore_ascii_case(a: Seq<char>, b: Seq<char>) -> bool {
    &&& a.len() == b.len()
    &&& forall|i: int| 0 <= i < a.len() ==> ascii_lower(#[trigger] a[i]) == ascii_lower(b[i])
}

/// Whether the arguments ask for JSON output: `--format` followed by `json`
/// in any ASCII case, or `--format=json` in any ASCII case.
pub open spec fn json_requested(args: Seq<Seq<char>>) -> bool {
    exists|i: int|
        0 <= i < args.len() && ((#[trigger] args[i] == "--format"@ && i + 1 < args.len()
            && eq_ignore_ascii_case(args[i + 1], "json"@)) || eq_ignore_ascii_case(
            args[i],
            "--format=json"@,
        ))
}

pub open spec fn args_view(args: Seq<String>) -> Seq<Seq<char>> {
    args.map_values(|a: String| a@)
}

fn lower(c: char) -> (r: char)
    ensures
        r == ascii_lower(c),
{
    if 'A' <= c && c <= 'Z' {
        ((c as u8) + 32) as char
    } else {
        c
    }
}

fn same_ignoring_ascii_case(a: &str, b: &str) -> (r: bool)
    ensures
        r == eq_ignore_ascii_case(a@, b@),
{
    let x = chars_of(a);
    let y = chars_of(b);
    if x.len() != y.len() {
        return false;
    }
    let mut i: usize = 0;
    while i < x.len()
        invariant
            i <= x@.len(),
            x@ == a@,
            y@ == b@,
            x@.len() == y@.len(),
            forall|j: int| 0 <= j < i ==> ascii_lower(#[trigger] a@[j]) == ascii_lower(b@[j]),
        decreases x@.len() - i,
    {
        if lower(x[i]) != lower(y[i]) {
            return false;
        }
        i = i + 1;
    }
    true
}

/// Scans raw arguments for a JSON output request, so that even a usage error
/// is reported in the requested format.
pub fn requested_output_format(args: &Vec<String>) -> (r: OutputFormat)
    ensures
        r == (if json_requested(args_view(args@)) {
            OutputFormat::Json
        } else {
            OutputFormat::Human
        }),
{
    let ghost v = args_view(args@);
    let mut i: usize = 0;
    while i < args.len()
        invariant
            i <= args@.len(),
            v == args_view(args@),
            forall|j: int|
                0 <= j < i ==> !((#[trigger] v[j] == "--format"@ && j + 1 < v.len()
                    && eq_ignore_ascii_case(v[j + 1], "json"@)) || eq_ignore_ascii_case(
                    v[j],
                    "--format=json"@,
                )),
        decreases args@.len() - i,
    {
        assert(v[i as int] == args@[i as int]@);
        if args[i] == String::from_str("--format") {
            if i + 1 < args.len() {
                assert(v[i + 1] == args@[i + 1]@);
                if same_ignoring_ascii_case(args[i + 1].as_str(), "json") {
                    return OutputFormat::Json;
                }
            }
        }
        if same_ignoring_ascii_case(args[i].as_str(), "--format=json") {
            return OutputFormat::Json;
        }
        i = i + 1;
    }
    OutputFormat::Human
}

// ---------------------------------------------------------------------------
// Engine results
// ---------------------------------------------------------------------------

/// What a successful compilation reports.
#[derive(Debug)]
pub struct CompiledContract {
    pub canonical_json: String,
    pub content_digest: String,
    pub artifact_digest: String,
}

/// What a successful validation reports.
#[derive(Debug)]
pub struct ValidatedContract {
    pub content_digest: String,
    pub artifact_digest: String,
}

/// Why the engine could not compile or validate.
#[derive(Debug)]
pub struct EngineFailure {
    pub message: String,
    pub diagnostics: Vec<Diagnostic>,
}

impl EngineFailure {
    /// A failure with a message and no diagnostics.
    pub fn message(message: &str) -> (r: Self)
        ensures
            r.message@ == message@,
            r.diagnostics@.len() == 0,
    {
        EngineFailure { message: String::from_str(message), diagnostics: Vec::new() }
    }
}

/// Compiles one source text under the given identity at position zero.
pub fn compile_source_text(identity: &str, source: &str) -> (r: Result<CompiledContract, EngineFailure>)
    ensures
        ({
            let spec = compile_default(seq![DocView { identity: identity@, position: 0, source: source@ }]);
            &&& r is Ok <==> spec is Ok
            &&& r matches Ok(c) ==> {
                &&& c.canonical_json@ == contract_json(spec->Ok_0)
                &&& c.content_digest@ == spec->Ok_0.content_digest
                &&& c.artifact_digest@ == spec->Ok_0.artifact_digest
            }
            &&& r matches Err(f) ==> {
                &&& f.message@ == "contract compilation failed with "@ + decimal(
                    spec->Err_0.len(),
                ) + " diagnostic(s)"@
                &&& diagnostics_are(f.diagnostics@, spec->Err_0)
            }
        }),
{
    let mut docs: Vec<SourceDocument> = Vec::new();
    docs.push(SourceDocument::new(identity, 0, source));
    assert(docs_view(docs@) =~= seq![DocView { identity: identity@, position: 0, source: source@ }]);
    match compile_sources(docs) {
        Err(error) => {
            let message = error.to_display_string();
            Err(EngineFailure { message, diagnostics: error.into_diagnostics() })
        },
        Ok(contract) => Ok(
            CompiledContract {
                canonical_json: contract.canonical_json(),
                content_digest: String::from_str(contract.content_digest().as_str()),
                artifact_digest: String::from_str(contract.artifact_digest().as_str()),
            },
        ),
    }
}

/// Validates a decoded contract document.
pub fn validate_contract(contract: &ContractIr) -> (r: Result<ValidatedContract, EngineFailure>)
    ensures
        r is Ok <==> contract_problems(contract@).len() == 0,
        r matches Ok(v) ==> v.content_digest@ == contract@.content_digest && v.artifact_digest@
            == contract@.artifact_digest,
        r matches Err(f) ==> {
            &&& f.message@ == contract_problems(contract@)[0].message
            &&& diagnostics_are(f.diagnostics@, contract_problems(contract@))
        },
{
    match contract.validate() {
        Err(diagnostics) => {
            let message = if diagnostics.len() > 0 {
                diagnostics[0].message.clone()
            } else {
                String::from_str("ContractIR invariants failed")
            };
            Err(EngineFailure { message, diagnostics })
        },
        Ok(()) => Ok(
            ValidatedContract {
                content_digest: String::from_str(contract.content_digest().as_str()),
                artifact_digest: String::from_str(contract.artifact_digest().as_str()),
            },
        ),
    }
}

// ---------------------------------------------------------------------------
// Command errors
// ---------------------------------------------------------------------------

/// A failed command: its exit status, stable code, command name, message and diagnostics.
#[derive(Debug)]
pub struct CommandError {
    pub exit: ExitStatus,
    pub code: &'static str,
    pub command: &'static str,
    pub message: String,
    pub diagnostics: Vec<Diagnostic>,
}

impl CommandError {
    /// A command error without diagnostics.
    pub fn new(exit: ExitStatus, code: &'static str, command: &'static str, message: String) -> (r:
        Self)
        ensures
            r.exit == exit,
            r.code@ == code@,
            r.command@ == command@,
            r.message@ == message@,
            r.diagnostics@.len() == 0,
    {
        CommandError { exit, code, command, message, diagnostics: Vec::new() }
    }

    /// Attaches diagnostics.
    pub fn with_diagnostics(self, diagnostics: Vec<Diagnostic>) -> (r: Self)
        ensures
            r.exit == self.exit,
            r.code == self.code,
            r.command == self.command,
            r.message == self.message,
            r.diagnostics@ == diagnostics@,
    {
        CommandError { diagnostics, ..self }
    }
}

/// Whether a list of diagnostics is empty (then it is left out of JSON output).
pub fn diagnostics_are_empty(diagnostics: &Vec<Diagnostic>) -> (r: bool)
    ensures
        r == (diagnostics@.len() == 0),
{
    diagnostics.len() == 0
}

/// The exit status when the arguments were not a command to run: success
/// for a help or version request, which is printed, and a usage error otherwise.
pub fn argument_exit(is_help: bool) -> (r: ExitStatus)
    ensures
        r == (if is_help {
            ExitStatus::Success
        } else {
            ExitStatus::Usage
        }),
{
    if is_help {
        ExitStatus::Success
    } else {
        ExitStatus::Usage
    }
}

/// Arguments or command selection were invalid.
pub fn usage_failure(message: String) -> (r: CommandError)
    ensures
        r.exit == ExitStatus::Usage,
        r.code@ == "XUNLIE-E002"@,
        r.command@ == "cli"@,
        r.message@ == message@,
        r.diagnostics@.len() == 0,
{
    CommandError::new(ExitStatus::Usage, "XUNLIE-E002", "cli", message)
}

/// An input file could not be read.
pub fn read_failure(command: &'static str, path: &str, reason: &str) -> (r: CommandError)
    ensures
        r.exit == ExitStatus::InputIo,
        r.code@ == "XUNLIE-E010"@,
        r.command@ == command@,
        r.message@ == "could not read '"@ + path@ + "': "@ + reason@,
        r.diagnostics@.len() == 0,
{
    let message = concat5("could not read '", path, "': ", reason, "");
    proof {
        reveal_strlit("");
    }
    assert(message@ =~= "could not read '"@ + path@ + "': "@ + reason@);
    CommandError::new(ExitStatus::InputIo, "XUNLIE-E010", command, message)
}

/// A source could not be compiled.
pub fn compile_failure(input: &str, failure: EngineFailure) -> (r: CommandError)
    ensures
        r.exit == ExitStatus::CompileFailed,
        r.code@ == "XUNLIE-E011"@,
        r.command@ == "compile"@,
        r.message@ == "could not compile '"@ + input@ + "': "@ + failure.message@,
        r.diagnostics@ == failure.diagnostics@,
{
    let message = concat5("could not compile '", input, "': ", failure.message.as_str(), "");
    proof {
        reveal_strlit("");
    }
    assert(message@ =~= "could not compile '"@ + input@ + "': "@ + failure.message@);
    CommandError::new(ExitStatus::CompileFailed, "XUNLIE-E011", "compile", message).with_diagnostics(
        failure.diagnostics,
    )
}

/// A contract document was invalid.
pub fn contract_failure(path: &str, failure: EngineFailure) -> (r: CommandError)
    ensures
        r.exit == ExitStatus::ContractInvalid,
        r.code@ == "XUNLIE-E012"@,
        r.command@ == "validate"@,
        r.message@ == "contract '"@ + path@ + "' is invalid: "@ + failure.message@,
        r.diagnostics@ == failure.diagnostics@,
{
    let message = concat5("contract '", path, "' is invalid: ", failure.message.as_str(), "");
    proof {
        reveal_strlit("");
    }
    assert(message@ =~= "contract '"@ + path@ + "' is invalid: "@ + failure.message@);
    CommandError::new(ExitStatus::ContractInvalid, "XUNLIE-E012", "validate", message).with_diagnostics(
        failure.diagnostics,
    )
}

/// A compiled artifact could not be written.
pub fn write_failure(path: &str, reason: &str) -> (r: CommandError)
    ensures
        r.exit == ExitStatus::OutputIo,
        r.code@ == "XUNLIE-E013"@,
        r.command@ == "compile"@,
        r.message@ == "could not write '"@ + path@ + "': "@ + reason@,
        r.diagnostics@.len() == 0,
{
    let message = concat5("could not write '", path, "': ", reason, "");
    proof {
        reveal_strlit("");
    }
    assert(message@ =~= "could not write '"@ + path@ + "': "@ + reason@);
    CommandError::new(ExitStatus::OutputIo, "XUNLIE-E013", "compile", message)
}

/// The human-readable report of a failed command: `code: message`, then one
/// indented `code: message` line per diagnostic.
pub open spec fn human_error_lines(code: Seq<char>, message: Seq<char>, ds: Seq<Diagnostic>, n: int) -> Seq<char>
    decreases n,
{
    if n <= 0 {
        code + ": "@ + message + "\n"@
    } else {
        human_error_lines(code, message, ds, n - 1) + "  "@ + ds[n - 1].code@ + ": "@
            + ds[n - 1].message@ + "\n"@
    }
}

/// Renders a failed command for a person.
pub fn human_error_text(error: &CommandError) -> (r: String)
    ensures
        r@ == human_error_lines(error.code@, error.message@, error.diagnostics@, error.diagnostics@.len() as int),
{
    let mut out = concat3(error.code, ": ", error.message.as_str());
    out.append("\n");
    let mut i: usize = 0;
    while i < error.diagnostics.len()
        invariant
            i <= error.diagnostics@.len(),
            out@ == human_error_lines(error.code@, error.message@, error.diagnostics@, i as int),
        decreases error.diagnostics@.len() - i,
    {
        let d = &error.diagnostics[i];
        let line = concat5("  ", d.code.as_str(), ": ", d.message.as_str(), "\n");
        out.append(line.as_str());
        i = i + 1;
    }
    out
}

/// The human-readable report of a successful compilation.
pub fn human_compile_text(input: &str, output: &str, content_digest: &str, artifact_digest: &str) -> (r:
    String)
    ensures
        r@ == "compiled "@ + input@ + " -> "@ + output@ + "\ncontent digest: "@ + content_digest@
            + "\nartifact digest: "@ + artifact_digest@ + "\n"@,
{
    let mut out = concat5("compiled ", input, " -> ", output, "\ncontent digest: ");
    out.append(content_digest);
    out.append("\nartifact digest: ");
    out.append(artifact_digest);
    out.append("\n");
    out
}

/// The human-readable report of a successful validation.
pub fn human_validate_text(input: &str, content_digest: &str, artifact_digest: &str) -> (r: String)
    ensures
        r@ == "valid "@ + input@ + "\ncontent digest: "@ + content_digest@ + "\nartifact digest: "@
            + artifact_digest@ + "\n"@,
{
    let mut out = concat3("valid ", input, "\ncontent digest: ");
    out.append(content_digest);
    out.append("\nartifact digest: ");
    out.append(artifact_digest);
    out.append("\n");
    out
}

// ---------------------------------------------------------------------------
// Certified variants
// ---------------------------------------------------------------------------

/// The built-in operator that a command-line operator name selects.
pub open spec fn cli_operator(name: Seq<char>) -> Option<Seq<char>> {
    if name == "normalize-json"@ {
        Some(JSON_NORMALIZATION_OPERATOR_ID@)
    } else if name == "reverse-independent-adds"@ {
        Some(REVERSE_INDEPENDENT_ADDS_OPERATOR_ID@)
    } else {
        None
    }
}

fn same_text(a: &str, b: &str) -> (r: bool)
    ensures
        r == (a@ == b@),
{
    String::from_str(a) == String::from_str(b)
}

/// Maps a command-line operator name to the id of the built-in operator.
pub fn variant_operator_id(name: &str) -> (r: Option<&'static str>)
    ensures
        match r {
            Some(id) => cli_operator(name@) == Some(id@),
            None => cli_operator(name@) is None,
        },
{
    if same_text(name, "normalize-json") {
        Some(JSON_NORMALIZATION_OPERATOR_ID)
    } else if same_text(name, "reverse-independent-adds") {
        Some(REVERSE_INDEPENDENT_ADDS_OPERATOR_ID)
    } else {
        None
    }
}

/// The one-document history that a variant command works on.
pub open spec fn single_history(identity: Seq<char>, source: Seq<char>) -> Seq<DocView> {
    seq![DocView { identity, position: 0, source }]
}

/// Generation with the built-in operator of the given id.
pub open spec fn builtin_generation(docs: Seq<DocView>, id: Seq<char>) -> Result<
    GenerationView,
    ErrorSpec,
> {
    match builtin_operator_for(id) {
        None => Err(unknown_builtin_error(id)),
        Some(op) => spec_generate(
            docs,
            builtin_identity(op),
            builtin_evaluations(op, sort_docs(docs)),
            builtin_transform(op, sort_docs(docs)),
        ),
    }
}

/// One diagnostic per failed precondition, in order.
pub open spec fn excluded_diagnostics(s: Seq<PreconditionView>, n: int) -> Seq<DiagnosticSpec>
    decreases n,
{
    if n <= 0 {
        Seq::empty()
    } else if s[n - 1].status == PreconditionStatus::Failed {
        excluded_diagnostics(s, n - 1).push(
            DiagnosticSpec {
                code: "XUNLIE-VARIANT-PRECONDITION-FAILED"@,
                message: "precondition `"@ + s[n - 1].id + "` failed: "@ + s[n - 1].explanation,
                primary: None,
                related: Seq::empty(),
            },
        )
    } else {
        excluded_diagnostics(s, n - 1)
    }
}

/// What a successful variant generation reports.
#[derive(Debug)]
pub struct GeneratedVariant {
    pub canonical_json: String,
    pub operator: String,
    pub content_digest: String,
    pub certificate_digest: String,
}

/// What a successful variant verification reports.
#[derive(Debug)]
pub struct VerifiedVariant {
    pub operator: String,
    pub content_digest: String,
    pub certificate_digest: String,
}

fn excluded_diagnostic_list(s: &Vec<crate::certificate::PreconditionEvaluation>) -> (r: Vec<Diagnostic>)
    ensures
        diagnostics_are(
            r@,
            excluded_diagnostics(
                crate::certificate::evaluations_view(s@),
                s@.len() as int,
            ),
        ),
{
    let ghost v = crate::certificate::evaluations_view(s@);
    let mut out: Vec<Diagnostic> = Vec::new();
    let mut i: usize = 0;
    while i < s.len()
        invariant
            i <= s@.len(),
            v == crate::certificate::evaluations_view(s@),
            diagnostics_are(out@, excluded_diagnostics(v, i as int)),
        decreases s@.len() - i,
    {
        let p = &s[i];
        assert(v[i as int] == p@);
        if !p.is_passed() {
            let message = concat5("precondition `", p.id.as_str(), "` failed: ", p.explanation.as_str(), "");
            proof {
                reveal_strlit("");
            }
            let ghost spec = DiagnosticSpec {
                code: "XUNLIE-VARIANT-PRECONDITION-FAILED"@,
                message: "precondition `"@ + v[i as int].id + "` failed: "@ + v[i as int].explanation,
                primary: None,
                related: Seq::empty(),
            };
            assert(message@ =~= spec.message);
            push_diagnostic(
                &mut out,
                Diagnostic::error("XUNLIE-VARIANT-PRECONDITION-FAILED", message.as_str()),
                Ghost(excluded_diagnostics(v, i as int)),
                Ghost(spec),
            );
        }
        i = i + 1;
    }
    out
}

/// Generates a certified variant of one source text, under the given
/// identity at position zero, with the built-in operator of the given id.
/// An exclusion or a failed generation is reported with exit status 14.
pub fn generate_variant_text(input: &str, identity: &str, source: &str, operator_id: &str) -> (r:
    Result<GeneratedVariant, CommandError>)
    ensures
        match builtin_generation(single_history(identity@, source@), operator_id@) {
            Ok(GenerationView::Certified(v)) => r matches Ok(g) && {
                &&& g.canonical_json@ == crate::variant::variant_json(v)
                &&& g.operator@ == v.certificate.operator.id
                &&& g.content_digest@ == v.content_digest
                &&& g.certificate_digest@ == v.certificate.certificate_digest
            },
            Ok(GenerationView::Excluded(o, pre)) => r matches Err(e) && {
                &&& e.exit == ExitStatus::VariantExcluded
                &&& e.code@ == "XUNLIE-E014"@
                &&& e.command@ == "variant"@
                &&& e.message@ == "variant of '"@ + input@ + "' excluded by operator `"@ + o.id
                    + "`"@
                &&& diagnostics_are(e.diagnostics@, excluded_diagnostics(pre, pre.len() as int))
            },
            Err(x) => r matches Err(e) && {
                &&& e.exit == ExitStatus::VariantExcluded
                &&& e.code@ == "XUNLIE-E014"@
                &&& e.command@ == "variant"@
                &&& e.message@ == "could not generate a variant of '"@ + input@ + "': "@ + x.message
                &&& diagnostics_are(e.diagnostics@, x.diagnostics)
            },
        },
{
    let mut docs: Vec<SourceDocument> = Vec::new();
    docs.push(SourceDocument::new(identity, 0, source));
    assert(docs_view(docs@) =~= single_history(identity@, source@));
    let ghost spec = builtin_generation(single_history(identity@, source@), operator_id@);
    match generate_builtin_variant(docs, operator_id) {
        Ok(VariantGeneration::Certified(v)) => {
            let certificate = v.certificate();
            Ok(
                GeneratedVariant {
                    canonical_json: v.canonical_json(),
                    operator: certificate.operator().id.clone(),
                    content_digest: String::from_str(v.content_digest().as_str()),
                    certificate_digest: String::from_str(certificate.certificate_digest().as_str()),
                },
            )
        },
        Ok(VariantGeneration::Excluded(x)) => {
            let message = concat5(
                "variant of '",
                input,
                "' excluded by operator `",
                x.operator().id.as_str(),
                "`",
            );
            let diagnostics = excluded_diagnostic_list(x.preconditions());
            Err(
                CommandError::new(
                    ExitStatus::VariantExcluded,
                    "XUNLIE-E014",
                    "variant",
                    message,
                ).with_diagnostics(diagnostics),
            )
        },
        Err(e) => {
            let ghost x = spec->Err_0;
            let text = e.to_display_string();
            let message = concat5("could not generate a variant of '", input, "': ", text.as_str(), "");
            proof {
                reveal_strlit("");
            }
            assert(message@ =~= "could not generate a variant of '"@ + input@ + "': "@ + x.message);
            let diagnostics = e.into_diagnostics();
            Err(
                CommandError::new(
                    ExitStatus::VariantExcluded,
                    "XUNLIE-E014",
                    "variant",
                    message,
                ).with_diagnostics(diagnostics),
            )
        },
    }
}

/// Verification with the built-in operator that the artifact's certificate names.
pub open spec fn builtin_verification(artifact: crate::variant::VariantView, docs: Seq<DocView>) -> Result<
    (),
    ErrorSpec,
> {
    match builtin_operator_for(artifact.certificate.operator.id) {
        None => Err(unsupported_operator_error(artifact.certificate.operator.id)),
        Some(op) => spec_verify(
            artifact,
            builtin_identity(op),
            spec_generate(
                docs,
                builtin_identity(op),
                builtin_evaluations(op, sort_docs(docs)),
                builtin_transform(op, sort_docs(docs)),
            ),
        ),
    }
}

/// Verifies a persisted variant against one source text, under the given
/// identity at position zero. A failure is reported with exit status 15.
pub fn verify_variant_text(path: &str, identity: &str, source: &str, artifact: &CertifiedVariant) -> (r:
    Result<VerifiedVariant, CommandError>)
    ensures
        match builtin_verification(artifact@, single_history(identity@, source@)) {
            Ok(()) => r matches Ok(v) && {
                &&& v.operator@ == artifact@.certificate.operator.id
                &&& v.content_digest@ == artifact@.content_digest
                &&& v.certificate_digest@ == artifact@.certificate.certificate_digest
            },
            Err(x) => r matches Err(e) && {
                &&& e.exit == ExitStatus::VariantInvalid
                &&& e.code@ == "XUNLIE-E015"@
                &&& e.command@ == "verify-variant"@
                &&& e.message@ == "certified variant '"@ + path@ + "' did not verify: "@ + x.message
                &&& diagnostics_are(e.diagnostics@, x.diagnostics)
            },
        },
{
    let mut docs: Vec<SourceDocument> = Vec::new();
    docs.push(SourceDocument::new(identity, 0, source));
    assert(docs_view(docs@) =~= single_history(identity@, source@));
    let ghost spec = builtin_verification(artifact@, single_history(identity@, source@));
    match verify_certified_variant(docs, artifact) {
        Ok(()) => {
            let certificate = artifact.certificate();
            Ok(
                VerifiedVariant {
                    operator: certificate.operator().id.clone(),
                    content_digest: String::from_str(artifact.content_digest().as_str()),
                    certificate_digest: String::from_str(certificate.certificate_digest().as_str()),
                },
            )
        },
        Err(e) => {
            let ghost x = spec->Err_0;
            let text = e.to_display_string();
            let message = concat5("certified variant '", path, "' did not verify: ", text.as_str(), "");
            proof {
                reveal_strlit("");
            }
            assert(message@ =~= "certified variant '"@ + path@ + "' did not verify: "@ + x.message);
            let diagnostics = e.into_diagnostics();
            Err(
                CommandError::new(
                    ExitStatus::VariantInvalid,
                    "XUNLIE-E015",
                    "verify-variant",
                    message,
                ).with_diagnostics(diagnostics),
            )
        },
    }
}

/// A persisted variant could not be read as a certified variant.
pub fn variant_decode_failure(path: &str, reason: &str) -> (r: CommandError)
    ensures
        r.exit == ExitStatus::VariantInvalid,
        r.code@ == "XUNLIE-E015"@,
        r.command@ == "verify-variant"@,
        r.message@ == "certified variant '"@ + path@ + "' is not readable: "@ + reason@,
        r.diagnostics@.len() == 0,
{
    let message = concat5("certified variant '", path, "' is not readable: ", reason, "");
    proof {
        reveal_strlit("");
    }
    assert(message@ =~= "certified variant '"@ + path@ + "' is not readable: "@ + reason@);
    CommandError::new(ExitStatus::VariantInvalid, "XUNLIE-E015", "verify-variant", message)
}

/// A generated variant could not be written.
pub fn variant_write_failure(path: &str, reason: &str) -> (r: CommandError)
    ensures
        r.exit == ExitStatus::OutputIo,
        r.code@ == "XUNLIE-E013"@,
        r.command@ == "variant"@,
        r.message@ == "could not write '"@ + path@ + "': "@ + reason@,
        r.diagnostics@.len() == 0,
{
    let message = concat5("could not write '", path, "': ", reason, "");
    proof {
        reveal_strlit("");
    }
    assert(message@ =~= "could not write '"@ + path@ + "': "@ + reason@);
    CommandError::new(ExitStatus::OutputIo, "XUNLIE-E013", "variant", message)
}

/// The human-readable report of a generated variant.
pub fn human_variant_text(
    input: &str,
    output: &str,
    operator: &str,
    content_digest: &str,
    certificate_digest: &str,
) -> (r: String)
    ensures
        r@ == "variant "@ + input@ + " -> "@ + output@ + "\noperator: "@ + operator@
            + "\ncontent digest: "@ + content_digest@ + "\ncertificate digest: "@
            + certificate_digest@ + "\n"@,
{
    let mut out = concat5("variant ", input, " -> ", output, "\noperator: ");
    out.append(operator);
    out.append("\ncontent digest: ");
    out.append(content_digest);
    out.append("\ncertificate digest: ");
    out.append(certificate_digest);
    out.append("\n");
    out
}

/// The human-readable report of a verified variant.
pub fn human_verify_variant_text(
    input: &str,
    operator: &str,
    content_digest: &str,
    certificate_digest: &str,
) -> (r: String)
    ensures
        r@ == "verified "@ + input@ + "\noperator: "@ + operator@ + "\ncontent digest: "@
            + content_digest@ + "\ncertificate digest: "@ + certificate_digest@ + "\n"@,
{
    let mut out = concat3("verified ", input, "\noperator: ");
    out.append(operator);
    out.append("\ncontent digest: ");
    out.append(content_digest);
    out.append("\ncertificate digest: ");
    out.append(certificate_digest);
    out.append("\n");
    out
}

/// Cross-platform path identity suitable for source provenance in tests.
pub fn fixture_identity(path: &str) -> (r: String)
    ensures
        r@ == path@.map_values(|c: char| if c == '\\' { '/' } else { c }),
{
    crate::text::portable_identity(path)
}

} // verus!
