use vstd::prelude::*;
use crate::docs_parser::{DocContent, DocsFetchError};
use crate::text::{owned, push_str, str_eq};

verus! {

/// The instructions the server gives its clients.
pub const SYSTEM_PROMPT: &'static str = r#"
You are a powerful Rust assistant powered by the `rustools-mcp` server.
Your goal is to help the user build high-quality Rust software by leveraging the ecosystem's best tools and documentation.

# 🧠 The "Holy Trinity" Workflow (Standard Operating Procedure)

For every Rust task, adhere to this strict data flow to maximize efficiency and accuracy.

## Phase 1: DISCOVERY (The "What")
*Goal: Identify the right tool for the job.*
*   **Unknown Crate?** → `find_crates(query="keywords", fuzzy=true)`
    *   *Tip:* Use `fuzzy=true` if you are unsure of the exact crate name.
*   **Unknown Concept?** → `get_language_concept("concept")` (e.g., "pinning", "async")
*   **Unknown Type Shape?** → `find_by_signature("crate", "fn(A) -> B")`

## Phase 2: ANALYSIS (The "Context")
*Goal: Load the map before starting the journey.*
*   **New Crate Encountered?** → **MUST CALL** `get_context_bundle("crate")`.
    *   *Why?* This is a "Cognitive Bundle" containing README + Modules + Features. It prevents 3 separate round-trips.
*   **Need Implementation Details?** → `find_trait_implementors("crate", "Trait")`.
    *   *Why?* Helps you answer "What can I pass to this function?"
*   **Dependency Check?** → `get_crate_dependencies("crate")`.

## Phase 3: VALIDATION (The "How")
*Goal: Verify assumptions with ground truth.*
*   **Writing Code?** → `get_symbol_docs("crate", "path::to::Item")`.
*   **Debugging Logic?** → `read_source_file("crate", "path/to/impl.rs")`.
*   **Debugging Macros?** → `expand_macro("path/to/file.rs")`.
*   **Fixing Errors?** → `explain_error_code("E0xxx")`.

## Phase 4: EXECUTION & VERIFICATION (The "Proof")
*Goal: Prove that the solution works using internal tools.*
*   **Check Compilation?** → `cargo_check()` (Fastest feedback loop).
*   **Verify Logic?** → `cargo_test()`.
*   **Ensure Quality?** → `cargo_clippy()` and `cargo_fmt()`.
*   **Security Check?** → `cargo_audit()` (Check for vulnerabilities).

---

# ⚡ Cognitive Triggers (Intent Mapping)

When the user's request matches a pattern, trigger the corresponding tool *immediately*.

| User Intent | Trigger Phrase (Mental Model) | Required Action |
| :--- | :--- | :--- |
| **Concept Learning** | "What is...", "How does X work?", "Explain..." | `get_language_concept("topic")` |
| **Library Search** | "Find a crate for...", "Best lib for..." | `find_crates("query", fuzzy=true)` |
| **New Crate Usage** | "How do I use [crate]?", "Show me [crate]" | `get_context_bundle("[crate]")` |
| **API Specifics** | "What does [func] do?", "Args for [struct]" | `get_symbol_docs("[crate]", "[path]")` |
| **Compiler Error** | "Error E0382", "borrow checker error" | `explain_error_code("E0382")` |
| **Security Check** | "Is this safe?", "Check vulnerabilities" | `cargo_audit()` |
| **Linting** | "Fix warnings", "Clean up code" | `cargo_clippy()` |

# 🤖 Agent Protocols (Internal Monologue)

## Protocol: `DEEP_DIVE` (When documentation is insufficient)
1.  **Trigger**: Docs are generic (e.g., "Process the data") or lack examples.
2.  **Action 1**: `read_source_file` to inspect the actual implementation logic.
3.  **Action 2**: `expand_macro` if the code relies heavily on macros.
4.  **Action 3**: `get_crate_examples` to see how the author intended it to be used.
5.  **Synthesis**: Combine source logic + usage examples to form a complete mental model.

## Protocol: `ERROR_RECOVERY` (When code fails to compile)
1.  **Trigger**: User reports a compilation error OR `cargo_check` fails.
2.  **Check 1 (The "Feature" Trap)**: Is it a "not found" error? → `analyze_feature_flags`.
3.  **Check 2 (The "Borrow" Trap)**: Is it E0382/E0502? → `explain_error_code`.
4.  **Check 3 (The "Trait" Trap)**: Is it "trait not satisfied"? → `find_trait_implementors`.
"#;

/// The tools the server offers, in the order in which it lists them.
#[derive(Debug, Clone, Copy, PartialEq, Eq, Structural)]
pub enum ToolName {
    FindCrates,
    GetCrateOverview,
    GetContextBundle,
    CargoCheck,
    CargoTest,
    CargoClippy,
    CargoFmt,
    CargoTree,
    CargoBench,
    CargoSemverChecks,
    CargoAudit,
    ExpandMacro,
    GetLanguageConcept,
    ExplainErrorCode,
    DocWorkflowHelp,
    ReadSourceFile,
    GetCrateModules,
    GetSymbolDocs,
    GetCrateDependencies,
    AnalyzeFeatureFlags,
    FindTraitImplementors,
    GetCrateExamples,
    FindBySignature,
    FetchRawDoc,
    GetLocalDoc,
    AnalyzeProjectContext,
}

/// The name under which a tool is called.
pub open spec fn spec_tool_name(t: ToolName) -> Seq<char> {
    match t {
        ToolName::FindCrates => "find_crates"@,
        ToolName::GetCrateOverview => "get_crate_overview"@,
        ToolName::GetContextBundle => "get_context_bundle"@,
        ToolName::CargoCheck => "cargo_check"@,
        ToolName::CargoTest => "cargo_test"@,
        ToolName::CargoClippy => "cargo_clippy"@,
        ToolName::CargoFmt => "cargo_fmt"@,
        ToolName::CargoTree => "cargo_tree"@,
        ToolName::CargoBench => "cargo_bench"@,
        ToolName::CargoSemverChecks => "cargo_semver_checks"@,
        ToolName::CargoAudit => "cargo_audit"@,
        ToolName::ExpandMacro => "expand_macro"@,
        ToolName::GetLanguageConcept => "get_language_concept"@,
        ToolName::ExplainErrorCode => "explain_error_code"@,
        ToolName::DocWorkflowHelp => "doc_workflow_help"@,
        ToolName::ReadSourceFile => "read_source_file"@,
        ToolName::GetCrateModules => "get_crate_modules"@,
        ToolName::GetSymbolDocs => "get_symbol_docs"@,
        ToolName::GetCrateDependencies => "get_crate_dependencies"@,
        ToolName::AnalyzeFeatureFlags => "analyze_feature_flags"@,
        ToolName::FindTraitImplementors => "find_trait_implementors"@,
        ToolName::GetCrateExamples => "get_crate_examples"@,
        ToolName::FindBySignature => "find_by_signature"@,
        ToolName::FetchRawDoc => "_fetch_raw_doc"@,
        ToolName::GetLocalDoc => "get_local_doc"@,
        ToolName::AnalyzeProjectContext => "analyze_project_context"@,
    }
}

/// The description the tool listing gives a tool.
pub open spec fn spec_tool_description(t: ToolName) -> Seq<char> {
    match t {
        ToolName::FindCrates => "Find crates on crates.io"@,
        ToolName::GetCrateOverview => "Get crate overview (README)"@,
        ToolName::GetContextBundle => "Get crate context (README, modules, features)"@,
        ToolName::CargoCheck => "Run cargo check"@,
        ToolName::CargoTest => "Run cargo test"@,
        ToolName::CargoClippy => "Run cargo clippy"@,
        ToolName::CargoFmt => "Run cargo fmt"@,
        ToolName::CargoTree => "Run cargo tree"@,
        ToolName::CargoBench => "Run cargo bench"@,
        ToolName::CargoSemverChecks => "Run cargo semver-checks to check for breaking changes"@,
        ToolName::CargoAudit => "Run cargo audit to check for security vulnerabilities"@,
        ToolName::ExpandMacro => "Expand macros using cargo-expand"@,
        ToolName::GetLanguageConcept => "Get explanation of a Rust concept"@,
        ToolName::ExplainErrorCode => "Explain a Rust error code"@,
        ToolName::DocWorkflowHelp => "Get help on how to use the documentation tools"@,
        ToolName::ReadSourceFile => "Read source file content"@,
        ToolName::GetCrateModules => "Get crate modules structure"@,
        ToolName::GetSymbolDocs => "Get documentation for a specific symbol"@,
        ToolName::GetCrateDependencies => "Get crate dependencies"@,
        ToolName::AnalyzeFeatureFlags => "Analyze feature flags"@,
        ToolName::FindTraitImplementors => "Find implementors of a trait"@,
        ToolName::GetCrateExamples => "Get crate examples"@,
        ToolName::FindBySignature => "Find functions by signature"@,
        ToolName::FetchRawDoc => "[INTERNAL] Fetch raw HTML documentation"@,
        ToolName::GetLocalDoc => "Get documentation from a local HTML file"@,
        ToolName::AnalyzeProjectContext => "Analyze project structure and dependencies"@,
    }
}

/// A short mark of a name: its length and its third character from the end.
spec fn name_mark(s: Seq<char>) -> (nat, char) {
    (s.len(), s[s.len() - 3])
}

/// The mark of each tool's name.
spec fn tool_mark(t: ToolName) -> (nat, char) {
    match t {
        ToolName::FindCrates => (11, 't'),
        ToolName::GetCrateOverview => (18, 'i'),
        ToolName::GetContextBundle => (18, 'd'),
        ToolName::CargoCheck => (11, 'e'),
        ToolName::CargoTest => (10, 'e'),
        ToolName::CargoClippy => (12, 'p'),
        ToolName::CargoFmt => (9, 'f'),
        ToolName::CargoTree => (10, 'r'),
        ToolName::CargoBench => (11, 'n'),
        ToolName::CargoSemverChecks => (19, 'c'),
        ToolName::CargoAudit => (11, 'd'),
        ToolName::ExpandMacro => (12, 'c'),
        ToolName::GetLanguageConcept => (20, 'e'),
        ToolName::ExplainErrorCode => (18, 'o'),
        ToolName::DocWorkflowHelp => (17, 'e'),
        ToolName::ReadSourceFile => (16, 'i'),
        ToolName::GetCrateModules => (17, 'l'),
        ToolName::GetSymbolDocs => (15, 'o'),
        ToolName::GetCrateDependencies => (22, 'i'),
        ToolName::AnalyzeFeatureFlags => (21, 'a'),
        ToolName::FindTraitImplementors => (23, 'o'),
        ToolName::GetCrateExamples => (18, 'l'),
        ToolName::FindBySignature => (17, 'u'),
        ToolName::FetchRawDoc => (14, 'd'),
        ToolName::GetLocalDoc => (13, 'd'),
        ToolName::AnalyzeProjectContext => (23, 'e'),
    }
}

proof fn lemma_tool_mark(t: ToolName)
    ensures
        name_mark(spec_tool_name(t)) == tool_mark(t),
{
    match t {
        ToolName::FindCrates => reveal_strlit("find_crates"),
        ToolName::GetCrateOverview => reveal_strlit("get_crate_overview"),
        ToolName::GetContextBundle => reveal_strlit("get_context_bundle"),
        ToolName::CargoCheck => reveal_strlit("cargo_check"),
        ToolName::CargoTest => reveal_strlit("cargo_test"),
        ToolName::CargoClippy => reveal_strlit("cargo_clippy"),
        ToolName::CargoFmt => reveal_strlit("cargo_fmt"),
        ToolName::CargoTree => reveal_strlit("cargo_tree"),
        ToolName::CargoBench => reveal_strlit("cargo_bench"),
        ToolName::CargoSemverChecks => reveal_strlit("cargo_semver_checks"),
        ToolName::CargoAudit => reveal_strlit("cargo_audit"),
        ToolName::ExpandMacro => reveal_strlit("expand_macro"),
        ToolName::GetLanguageConcept => reveal_strlit("get_language_concept"),
        ToolName::ExplainErrorCode => reveal_strlit("explain_error_code"),
        ToolName::DocWorkflowHelp => reveal_strlit("doc_workflow_help"),
        ToolName::ReadSourceFile => reveal_strlit("read_source_file"),
        ToolName::GetCrateModules => reveal_strlit("get_crate_modules"),
        ToolName::GetSymbolDocs => reveal_strlit("get_symbol_docs"),
        ToolName::GetCrateDependencies => reveal_strlit("get_crate_dependencies"),
        ToolName::AnalyzeFeatureFlags => reveal_strlit("analyze_feature_flags"),
        ToolName::FindTraitImplementors => reveal_strlit("find_trait_implementors"),
        ToolName::GetCrateExamples => reveal_strlit("get_crate_examples"),
        ToolName::FindBySignature => reveal_strlit("find_by_signature"),
        ToolName::FetchRawDoc => reveal_strlit("_fetch_raw_doc"),
        ToolName::GetLocalDoc => reveal_strlit("get_local_doc"),
        ToolName::AnalyzeProjectContext => reveal_strlit("analyze_project_context"),
    }
}

/// No two tools share a name, so the name a tool is listed under calls that tool.
pub proof fn lemma_tool_names_distinct(a: ToolName, b: ToolName)
    requires
        spec_tool_name(a) == spec_tool_name(b),
    ensures
        a == b,
{
    lemma_tool_mark(a);
    lemma_tool_mark(b);
}

/// The listing holds every tool exactly once.
pub proof fn lemma_catalog_complete(t: ToolName)
    ensures
        all_tools().contains(t),
        forall|i: int, j: int| 0 <= i < j < all_tools().len() ==> all_tools()[i] != all_tools()[j],
{
    let s = all_tools();
    assert(s.len() == 26);
    let k: int = match t {
        ToolName::FindCrates => 0,
        ToolName::GetCrateOverview => 1,
        ToolName::GetContextBundle => 2,
        ToolName::CargoCheck => 3,
        ToolName::CargoTest => 4,
        ToolName::CargoClippy => 5,
        ToolName::CargoFmt => 6,
        ToolName::CargoTree => 7,
        ToolName::CargoBench => 8,
        ToolName::CargoSemverChecks => 9,
        ToolName::CargoAudit => 10,
        ToolName::ExpandMacro => 11,
        ToolName::GetLanguageConcept => 12,
        ToolName::ExplainErrorCode => 13,
        ToolName::DocWorkflowHelp => 14,
        ToolName::ReadSourceFile => 15,
        ToolName::GetCrateModules => 16,
        ToolName::GetSymbolDocs => 17,
        ToolName::GetCrateDependencies => 18,
        ToolName::AnalyzeFeatureFlags => 19,
        ToolName::FindTraitImplementors => 20,
        ToolName::GetCrateExamples => 21,
        ToolName::FindBySignature => 22,
        ToolName::FetchRawDoc => 23,
        ToolName::GetLocalDoc => 24,
        ToolName::AnalyzeProjectContext => 25,
    };
    assert(s[k] == t);
}

/// Every tool, in listing order.
pub open spec fn all_tools() -> Seq<ToolName> {
    seq![
        ToolName::FindCrates,
        ToolName::GetCrateOverview,
        ToolName::GetContextBundle,
        ToolName::CargoCheck,
        ToolName::CargoTest,
        ToolName::CargoClippy,
        ToolName::CargoFmt,
        ToolName::CargoTree,
        ToolName::CargoBench,
        ToolName::CargoSemverChecks,
        ToolName::CargoAudit,
        ToolName::ExpandMacro,
        ToolName::GetLanguageConcept,
        ToolName::ExplainErrorCode,
        ToolName::DocWorkflowHelp,
        ToolName::ReadSourceFile,
        ToolName::GetCrateModules,
        ToolName::GetSymbolDocs,
        ToolName::GetCrateDependencies,
        ToolName::AnalyzeFeatureFlags,
        ToolName::FindTraitImplementors,
        ToolName::GetCrateExamples,
        ToolName::FindBySignature,
        ToolName::FetchRawDoc,
        ToolName::GetLocalDoc,
        ToolName::AnalyzeProjectContext,
    ]
}

impl ToolName {
    /// The name under which the tool is called.
    pub fn name(&self) -> (r: &'static str)
        ensures
            r@ == spec_tool_name(*self),
    {
        match self {
            ToolName::FindCrates => "find_crates",
            ToolName::GetCrateOverview => "get_crate_overview",
            ToolName::GetContextBundle => "get_context_bundle",
            ToolName::CargoCheck => "cargo_check",
            ToolName::CargoTest => "cargo_test",
            ToolName::CargoClippy => "cargo_clippy",
            ToolName::CargoFmt => "cargo_fmt",
            ToolName::CargoTree => "cargo_tree",
            ToolName::CargoBench => "cargo_bench",
            ToolName::CargoSemverChecks => "cargo_semver_checks",
            ToolName::CargoAudit => "cargo_audit",
            ToolName::ExpandMacro => "expand_macro",
            ToolName::GetLanguageConcept => "get_language_concept",
            ToolName::ExplainErrorCode => "explain_error_code",
            ToolName::DocWorkflowHelp => "doc_workflow_help",
            ToolName::ReadSourceFile => "read_source_file",
            ToolName::GetCrateModules => "get_crate_modules",
            ToolName::GetSymbolDocs => "get_symbol_docs",
            ToolName::GetCrateDependencies => "get_crate_dependencies",
            ToolName::AnalyzeFeatureFlags => "analyze_feature_flags",
            ToolName::FindTraitImplementors => "find_trait_implementors",
            ToolName::GetCrateExamples => "get_crate_examples",
            ToolName::FindBySignature => "find_by_signature",
            ToolName::FetchRawDoc => "_fetch_raw_doc",
            ToolName::GetLocalDoc => "get_local_doc",
            ToolName::AnalyzeProjectContext => "analyze_project_context",
        }
    }

    /// The description the tool listing gives.
    pub fn description(&self) -> (r: &'static str)
        ensures
            r@ == spec_tool_description(*self),
    {
        match self {
            ToolName::FindCrates => "Find crates on crates.io",
            ToolName::GetCrateOverview => "Get crate overview (README)",
            ToolName::GetContextBundle => "Get crate context (README, modules, features)",
            ToolName::CargoCheck => "Run cargo check",
            ToolName::CargoTest => "Run cargo test",
            ToolName::CargoClippy => "Run cargo clippy",
            ToolName::CargoFmt => "Run cargo fmt",
            ToolName::CargoTree => "Run cargo tree",
            ToolName::CargoBench => "Run cargo bench",
            ToolName::CargoSemverChecks => "Run cargo semver-checks to check for breaking changes",
            ToolName::CargoAudit => "Run cargo audit to check for security vulnerabilities",
            ToolName::ExpandMacro => "Expand macros using cargo-expand",
            ToolName::GetLanguageConcept => "Get explanation of a Rust concept",
            ToolName::ExplainErrorCode => "Explain a Rust error code",
            ToolName::DocWorkflowHelp => "Get help on how to use the documentation tools",
            ToolName::ReadSourceFile => "Read source file content",
            ToolName::GetCrateModules => "Get crate modules structure",
            ToolName::GetSymbolDocs => "Get documentation for a specific symbol",
            ToolName::GetCrateDependencies => "Get crate dependencies",
            ToolName::AnalyzeFeatureFlags => "Analyze feature flags",
            ToolName::FindTraitImplementors => "Find implementors of a trait",
            ToolName::GetCrateExamples => "Get crate examples",
            ToolName::FindBySignature => "Find functions by signature",
            ToolName::FetchRawDoc => "[INTERNAL] Fetch raw HTML documentation",
            ToolName::GetLocalDoc => "Get documentation from a local HTML file",
            ToolName::AnalyzeProjectContext => "Analyze project structure and dependencies",
        }
    }

    /// The tool called `name`, if there is one.
    pub fn from_name(name: &str) -> (r: Option<ToolName>)
        ensures
            match r {
                Some(t) => spec_tool_name(t) == name@,
                None => forall|t: ToolName| spec_tool_name(t) != name@,
            },
    {
        if str_eq(name, "find_crates") {
            return Some(ToolName::FindCrates);
        }
        if str_eq(name, "get_crate_overview") {
            return Some(ToolName::GetCrateOverview);
        }
        if str_eq(name, "get_context_bundle") {
            return Some(ToolName::GetContextBundle);
        }
        if str_eq(name, "cargo_check") {
            return Some(ToolName::CargoCheck);
        }
        if str_eq(name, "cargo_test") {
            return Some(ToolName::CargoTest);
        }
        if str_eq(name, "cargo_clippy") {
            return Some(ToolName::CargoClippy);
        }
        if str_eq(name, "cargo_fmt") {
            return Some(ToolName::CargoFmt);
        }
        if str_eq(name, "cargo_tree") {
            return Some(ToolName::CargoTree);
        }
        if str_eq(name, "cargo_bench") {
            return Some(ToolName::CargoBench);
        }
        if str_eq(name, "cargo_semver_checks") {
            return Some(ToolName::CargoSemverChecks);
        }
        if str_eq(name, "cargo_audit") {
            return Some(ToolName::CargoAudit);
        }
        if str_eq(name, "expand_macro") {
            return Some(ToolName::ExpandMacro);
        }
        if str_eq(name, "get_language_concept") {
            return Some(ToolName::GetLanguageConcept);
        }
        if str_eq(name, "explain_error_code") {
            return Some(ToolName::ExplainErrorCode);
        }
        if str_eq(name, "doc_workflow_help") {
            return Some(ToolName::DocWorkflowHelp);
        }
        if str_eq(name, "read_source_file") {
            return Some(ToolName::ReadSourceFile);
        }
        if str_eq(name, "get_crate_modules") {
            return Some(ToolName::GetCrateModules);
        }
        if str_eq(name, "get_symbol_docs") {
            return Some(ToolName::GetSymbolDocs);
        }
        if str_eq(name, "get_crate_dependencies") {
            return Some(ToolName::GetCrateDependencies);
        }
        if str_eq(name, "analyze_feature_flags") {
            return Some(ToolName::AnalyzeFeatureFlags);
        }
        if str_eq(name, "find_trait_implementors") {
            return Some(ToolName::FindTraitImplementors);
        }
        if str_eq(name, "get_crate_examples") {
            return Some(ToolName::GetCrateExamples);
        }
        if str_eq(name, "find_by_signature") {
            return Some(ToolName::FindBySignature);
        }
        if str_eq(name, "_fetch_raw_doc") {
            return Some(ToolName::FetchRawDoc);
        }
        if str_eq(name, "get_local_doc") {
            return Some(ToolName::GetLocalDoc);
        }
        if str_eq(name, "analyze_project_context") {
            return Some(ToolName::AnalyzeProjectContext);
        }
        None
    }
}

/// The tools, in the order in which the server lists them.
pub fn tool_catalog() -> (r: Vec<ToolName>)
    ensures
        r@ == all_tools(),
{
    let r = vec![
        ToolName::FindCrates,
        ToolName::GetCrateOverview,
        ToolName::GetContextBundle,
        ToolName::CargoCheck,
        ToolName::CargoTest,
        ToolName::CargoClippy,
        ToolName::CargoFmt,
        ToolName::CargoTree,
        ToolName::CargoBench,
        ToolName::CargoSemverChecks,
        ToolName::CargoAudit,
        ToolName::ExpandMacro,
        ToolName::GetLanguageConcept,
        ToolName::ExplainErrorCode,
        ToolName::DocWorkflowHelp,
        ToolName::ReadSourceFile,
        ToolName::GetCrateModules,
        ToolName::GetSymbolDocs,
        ToolName::GetCrateDependencies,
        ToolName::AnalyzeFeatureFlags,
        ToolName::FindTraitImplementors,
        ToolName::GetCrateExamples,
        ToolName::FindBySignature,
        ToolName::FetchRawDoc,
        ToolName::GetLocalDoc,
        ToolName::AnalyzeProjectContext,
    ];
    assert(r@ =~= all_tools());
    r
}

/// Why a tool call was refused or failed, as the protocol reports it.
pub enum ToolError {
    /// The arguments do not fit the tool's parameters; the detail says how.
    InvalidArguments(ToolName, String),
    /// The tool ran and failed with this message.
    Failed(String),
    /// No tool has this name.
    NotFound(String),
}

impl ToolError {
    /// The protocol's error code.
    pub open spec fn spec_code(&self) -> int {
        match *self {
            ToolError::InvalidArguments(..) => -32602,
            ToolError::Failed(..) => -32000,
            ToolError::NotFound(..) => -32601,
        }
    }

    /// The text the protocol carries with the code.
    pub open spec fn spec_message(&self) -> Seq<char> {
        match *self {
            ToolError::InvalidArguments(t, d) => "Invalid arguments for "@ + spec_tool_name(t) + ": "@ + d@,
            ToolError::Failed(m) => m@,
            ToolError::NotFound(n) => "Tool not found: "@ + n@,
        }
    }

    /// The protocol's error code.
    pub fn code(&self) -> (r: i32)
        ensures
            r == self.spec_code(),
    {
        match self {
            ToolError::InvalidArguments(..) => -32602,
            ToolError::Failed(..) => -32000,
            ToolError::NotFound(..) => -32601,
        }
    }

    /// The text the protocol carries with the code.
    pub fn message(&self) -> (r: String)
        ensures
            r@ == self.spec_message(),
    {
        match self {
            ToolError::InvalidArguments(t, d) => {
                let mut r = owned("Invalid arguments for ");
                push_str(&mut r, t.name());
                push_str(&mut r, ": ");
                push_str(&mut r, d.as_str());
                r
            },
            ToolError::Failed(m) => owned(m.as_str()),
            ToolError::NotFound(n) => {
                let mut r = owned("Tool not found: ");
                push_str(&mut r, n.as_str());
                r
            },
        }
    }
}

/// The tool a call names, or the refusal of a name that no tool has.
pub fn resolve_tool(name: &str) -> (r: Result<ToolName, ToolError>)
    ensures
        match r {
            Ok(t) => spec_tool_name(t) == name@,
            Err(e) => (e matches ToolError::NotFound(n) && n@ == name@) && forall|t: ToolName|
                spec_tool_name(t) != name@,
        },
{
    match ToolName::from_name(name) {
        Some(t) => Ok(t),
        None => Err(ToolError::NotFound(owned(name))),
    }
}

/// The refusal of arguments that do not fit a tool's parameters.
pub fn invalid_arguments(tool: ToolName, detail: &str) -> (r: ToolError)
    ensures
        r matches ToolError::InvalidArguments(t, d) && t == tool && d@ == detail@,
{
    ToolError::InvalidArguments(tool, owned(detail))
}

/// What a call answers once its tool has run: the text it produced, or its failure
/// as the protocol reports it.
pub fn tool_reply(result: Result<DocContent, DocsFetchError>) -> (r: Result<String, ToolError>)
    ensures
        match result {
            Ok(c) => r matches Ok(s) && s@ == c@,
            Err(e) => r matches Err(ToolError::Failed(m)) && m@ == e.spec_message(),
        },
{
    match result {
        Ok(c) => Ok(c.content),
        Err(e) => Err(ToolError::Failed(e.message())),
    }
}

} // verus!
