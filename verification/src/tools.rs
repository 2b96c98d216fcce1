use vstd::prelude::*;
use crate::cache::Cache;
use crate::docs_parser::{CacheKey, CacheKeyView, DocContent, DocsFetchError, DocsRsParams, opt_view, clone_opt};
use crate::rust_book::BookChapter;
use crate::error_index::spec_normalize_code;
use crate::error_index::normalize_error_code;
use crate::docs_parser::{extract_content, spec_page_content, unrenderable_message, MainContent};
use crate::text::{has_prefix, is_blank, owned, push_str, replace_all, replace_str, starts_with_str, trim};

verus! {

/// Arguments of `find_crates`.
#[derive(Debug, Clone)]
pub struct FindCratesArgs {
    /// Search query (e.g., 'async runtime', 'json parser', 'web framework')
    pub query: String,
    /// Maximum results (1-100, default: 10)
    pub limit: Option<u32>,
    /// Enable fuzzy matching for better results (defaults to false)
    pub fuzzy: Option<bool>,
}

/// Arguments of `get_crate_overview`.
#[derive(Debug, Clone)]
pub struct GetCrateOverviewArgs {
    /// Crate name (e.g., 'tokio', 'serde', 'reqwest')
    pub crate_name: String,
    /// Version like '1.0.0'. Omit for latest.
    pub version: Option<String>,
}

/// Arguments of `get_context_bundle`.
#[derive(Debug, Clone)]
pub struct GetContextBundleArgs {
    /// Crate name
    pub crate_name: String,
    /// Version (Optional, defaults to latest)
    pub version: Option<String>,
}

/// Arguments of `get_crate_dependencies`.
#[derive(Debug, Clone)]
pub struct GetCrateDependenciesArgs {
    /// Crate name
    pub crate_name: String,
    /// Version (Required)
    pub version: String,
    /// Dependency kind filter (dev, build, normal). If omitted, shows all.
    pub kind: Option<String>,
}

/// Arguments of `analyze_feature_flags`.
#[derive(Debug, Clone)]
pub struct AnalyzeFeatureFlagsArgs {
    /// Crate name
    pub crate_name: String,
    /// Version (Required)
    pub version: String,
}

/// Arguments of `find_trait_implementors`.
#[derive(Debug, Clone)]
pub struct FindTraitImplementorsArgs {
    /// Crate name
    pub crate_name: String,
    /// Trait path (e.g., 'Serialize' or 'serde::Serialize')
    pub trait_path: String,
    /// Version (Optional, defaults to latest)
    pub version: Option<String>,
    /// Max results (default: 30)
    pub limit: Option<usize>,
}

/// Arguments of `get_crate_examples`.
#[derive(Debug, Clone)]
pub struct GetCrateExamplesArgs {
    /// Crate name
    pub crate_name: String,
    /// Version (Optional)
    pub version: Option<String>,
    /// Limit number of examples (Optional)
    pub limit: Option<usize>,
}

/// Arguments of `find_by_signature`.
#[derive(Debug, Clone)]
pub struct FindBySignatureArgs {
    /// Crate name
    pub crate_name: String,
    /// Signature pattern (e.g., 'fn(&str) -> Result')
    pub signature_pattern: String,
    /// Version (Optional, defaults to latest)
    pub version: Option<String>,
}

/// Arguments of `get_crate_modules`.
#[derive(Debug, Clone)]
pub struct GetCrateModulesArgs {
    /// Crate name
    pub crate_name: String,
    /// Version (Optional, defaults to latest)
    pub version: Option<String>,
    /// Max items per section (default: unlimited)
    pub limit: Option<usize>,
}

/// Arguments of `read_source_file`.
#[derive(Debug, Clone)]
pub struct ReadSourceFileArgs {
    /// Crate name
    pub crate_name: String,
    /// Path to file (e.g., 'src/lib.rs')
    pub path: String,
    /// Version
    pub version: Option<String>,
    /// Start line number (1-based, optional)
    pub start_line: Option<usize>,
    /// End line number (1-based, optional)
    pub end_line: Option<usize>,
}

/// Arguments of `get_symbol_docs`.
#[derive(Debug, Clone)]
pub struct GetSymbolDocsArgs {
    /// Crate name (e.g., 'std', 'tokio')
    pub crate_name: String,
    /// Symbol path (e.g., 'vec::Vec', 'net::TcpListener::bind')
    pub symbol_path: String,
    /// Version like '1.0.0'. Omit for latest.
    pub version: Option<String>,
}

/// Arguments of `_fetch_raw_doc`.
#[derive(Debug, Clone)]
pub struct FetchRawDocArgs {
    pub crate_name: String,
    pub version: String,
    pub path: String,
}

/// Arguments of `cargo_check`.
#[derive(Debug, Clone)]
pub struct CargoCheckArgs {
    /// Optional arguments (e.g., ['--all-features', '--lib'])
    pub args: Option<Vec<String>>,
    /// The directory to run the command in
    pub cwd: Option<String>,
}

/// Arguments of `cargo_test`.
#[derive(Debug, Clone)]
pub struct CargoTestArgs {
    /// Optional arguments (e.g., ['test_name'])
    pub args: Option<Vec<String>>,
    /// The directory to run the command in
    pub cwd: Option<String>,
}

/// Arguments of `cargo_clippy`.
#[derive(Debug, Clone)]
pub struct CargoClippyArgs {
    /// Optional arguments
    pub args: Option<Vec<String>>,
    /// The directory to run the command in
    pub cwd: Option<String>,
}

/// Arguments of `cargo_fmt`.
#[derive(Debug, Clone)]
pub struct CargoFmtArgs {
    /// Optional arguments
    pub args: Option<Vec<String>>,
    /// The directory to run the command in
    pub cwd: Option<String>,
}

/// Arguments of `cargo_tree`.
#[derive(Debug, Clone)]
pub struct CargoTreeArgs {
    /// Optional arguments (e.g., ['--invert', '--depth', '2'])
    pub args: Option<Vec<String>>,
    /// The directory to run the command in
    pub cwd: Option<String>,
}

/// Arguments of `cargo_bench`.
#[derive(Debug, Clone)]
pub struct CargoBenchArgs {
    /// Optional arguments (e.g., ['bench_name'])
    pub args: Option<Vec<String>>,
    /// The directory to run the command in
    pub cwd: Option<String>,
}

/// Arguments of `cargo_semver_checks`.
#[derive(Debug, Clone)]
pub struct CargoSemverChecksArgs {
    /// Optional arguments (e.g., ['--check-build'])
    pub args: Option<Vec<String>>,
    /// The directory to run the command in
    pub cwd: Option<String>,
}

/// Arguments of `cargo_audit`.
#[derive(Debug, Clone)]
pub struct CargoAuditArgs {
    /// Optional arguments (e.g., ['--deny', 'warnings'])
    pub args: Option<Vec<String>>,
    /// The directory to run the command in
    pub cwd: Option<String>,
}

/// Arguments of `expand_macro`.
#[derive(Debug, Clone)]
pub struct ExpandMacroArgs {
    /// File path or module path to expand
    pub path: String,
    /// Specific item within the file to expand (optional)
    pub item: Option<String>,
    /// The directory to run the command in
    pub cwd: Option<String>,
}

/// Arguments of `get_language_concept`.
#[derive(Debug, Clone)]
pub struct GetLanguageConceptArgs {
    /// The concept to search for (e.g., 'ownership', 'smart pointers')
    pub concept: String,
}

/// Arguments of `explain_error_code`.
#[derive(Debug, Clone)]
pub struct ExplainErrorCodeArgs {
    /// The error code (e.g., 'E0382')
    pub code: String,
}

/// Arguments of `doc_workflow_help` (it takes none).
#[derive(Debug, Clone)]
pub struct DocWorkflowHelpArgs {}

/// Arguments of `get_local_doc`.
#[derive(Debug, Clone)]
pub struct GetLocalDocArgs {
    pub path: String,
    pub cwd: Option<String>,
}

/// Arguments of `analyze_project_context`.
#[derive(Debug, Clone)]
pub struct AnalyzeProjectContextArgs {
    /// The absolute path to the project root
    pub project_path: String,
}

/// What a documentation tool does next with a request.
pub enum ToolStep {
    /// The answer is known without fetching: a refusal of the input, or what the cache holds.
    Done(Result<DocContent, DocsFetchError>),
    /// The cache holds nothing for this key: fetch what it names, then hand the
    /// result to `record_fetch`.
    Fetch(CacheKey),
}

/// `step` answers a request for `key` from a cache that holds `contents`: with what it
/// holds for the key, or, when it holds nothing, by asking for that key to be fetched.
pub open spec fn answers_from(step: ToolStep, contents: Map<CacheKeyView, Seq<char>>, key: CacheKeyView) -> bool {
    if contents.contains_key(key) {
        step matches ToolStep::Done(Ok(c)) && c@ == contents[key]
    } else {
        step matches ToolStep::Fetch(k) && k@ == key
    }
}

/// `step` refuses the request as invalid input, with message `msg`.
pub open spec fn refuses(step: ToolStep, msg: Seq<char>) -> bool {
    step matches ToolStep::Done(Err(DocsFetchError::InvalidInput(m))) && m@ == msg
}

/// The answer the cache holds for `key`, or a fetch of it.
fn cached_step<C: Cache>(cache: &C, key: CacheKey) -> (r: ToolStep)
    requires
        cache.well_formed(),
    ensures
        answers_from(r, cache.contents(), key@),
{
    match cache.get(&key) {
        Some(c) => ToolStep::Done(Ok(c)),
        None => ToolStep::Fetch(key),
    }
}

fn refusal(msg: &str) -> (r: ToolStep)
    ensures
        refuses(r, msg@),
{
    ToolStep::Done(Err(DocsFetchError::InvalidInput(owned(msg))))
}

/// Records what a fetch for `key` brought: content is cached under the key, a failure
/// is not. Answers with what the fetch brought.
pub fn record_fetch<C: Cache>(cache: &mut C, key: CacheKey, result: Result<DocContent, DocsFetchError>) -> (r: Result<DocContent, DocsFetchError>)
    requires
        old(cache).well_formed(),
    ensures
        final(cache).well_formed(),
        match result {
            Ok(c) => final(cache).contents() == old(cache).contents().insert(key@, c@) && (r matches Ok(d) && d@ == c@),
            Err(_) => final(cache).contents() == old(cache).contents() && r == result,
        },
{
    match result {
        Ok(c) => {
            let d = c.duplicate();
            cache.insert(key, c);
            Ok(d)
        },
        Err(e) => Err(e),
    }
}

/// What is fetched and recorded for a key answers the next request for that key.
pub proof fn lemma_recorded_answer(contents: Map<CacheKeyView, Seq<char>>, key: CacheKeyView, fetched: Seq<char>, step: ToolStep)
    requires
        answers_from(step, contents.insert(key, fetched), key),
    ensures
        step matches ToolStep::Done(Ok(c)) && c@ == fetched,
{
}

/// Searches crates.io: a blank query is refused; otherwise answered from the cache
/// or fetched.
pub fn find_crates<C: Cache>(cache: &C, args: &FindCratesArgs) -> (r: ToolStep)
    requires
        cache.well_formed(),
    ensures
        trim(args.query@).len() == 0 ==> refuses(r, "Query cannot be empty"@),
        trim(args.query@).len() > 0 ==> answers_from(
            r,
            cache.contents(),
            CacheKeyView::FindCrates { query: args.query@, limit: args.limit, fuzzy: args.fuzzy },
        ),
{
    if is_blank(args.query.as_str()) {
        return refusal("Query cannot be empty");
    }
    let key = CacheKey::FindCrates { query: owned(args.query.as_str()), limit: args.limit, fuzzy: args.fuzzy };
    cached_step(cache, key)
}

/// A crate's overview: a blank crate name is refused; otherwise answered from the cache
/// or fetched.
pub fn get_crate_overview<C: Cache>(cache: &C, args: &GetCrateOverviewArgs) -> (r: ToolStep)
    requires
        cache.well_formed(),
    ensures
        trim(args.crate_name@).len() == 0 ==> refuses(r, "Crate name cannot be empty"@),
        trim(args.crate_name@).len() > 0 ==> answers_from(
            r,
            cache.contents(),
            CacheKeyView::GetCrateOverview { crate_name: args.crate_name@, version: opt_view(args.version) },
        ),
{
    if is_blank(args.crate_name.as_str()) {
        return refusal("Crate name cannot be empty");
    }
    let key = CacheKey::GetCrateOverview { crate_name: owned(args.crate_name.as_str()), version: clone_opt(&args.version) };
    cached_step(cache, key)
}

/// A crate's context bundle, answered from the cache or fetched.
pub fn get_context_bundle<C: Cache>(cache: &C, args: &GetContextBundleArgs) -> (r: ToolStep)
    requires
        cache.well_formed(),
    ensures
        answers_from(
            r,
            cache.contents(),
            CacheKeyView::GetContextBundle { crate_name: args.crate_name@, version: opt_view(args.version) },
        ),
{
    let key = CacheKey::GetContextBundle { crate_name: owned(args.crate_name.as_str()), version: clone_opt(&args.version) };
    cached_step(cache, key)
}

/// A crate's dependencies, answered from the cache or fetched.
pub fn get_crate_dependencies<C: Cache>(cache: &C, args: &GetCrateDependenciesArgs) -> (r: ToolStep)
    requires
        cache.well_formed(),
    ensures
        answers_from(
            r,
            cache.contents(),
            CacheKeyView::GetCrateDependencies { crate_name: args.crate_name@, version: args.version@, kind: opt_view(args.kind) },
        ),
{
    let key = CacheKey::GetCrateDependencies {
        crate_name: owned(args.crate_name.as_str()),
        version: owned(args.version.as_str()),
        kind: clone_opt(&args.kind),
    };
    cached_step(cache, key)
}

/// A crate's feature flags, answered from the cache or fetched.
pub fn analyze_feature_flags<C: Cache>(cache: &C, args: &AnalyzeFeatureFlagsArgs) -> (r: ToolStep)
    requires
        cache.well_formed(),
    ensures
        answers_from(
            r,
            cache.contents(),
            CacheKeyView::AnalyzeFeatureFlags { crate_name: args.crate_name@, version: args.version@ },
        ),
{
    let key = CacheKey::AnalyzeFeatureFlags { crate_name: owned(args.crate_name.as_str()), version: owned(args.version.as_str()) };
    cached_step(cache, key)
}

/// The implementors of a trait, answered from the cache or fetched.
pub fn find_trait_implementors<C: Cache>(cache: &C, args: &FindTraitImplementorsArgs) -> (r: ToolStep)
    requires
        cache.well_formed(),
    ensures
        answers_from(
            r,
            cache.contents(),
            CacheKeyView::FindTraitImplementors {
                crate_name: args.crate_name@,
                trait_path: args.trait_path@,
                version: opt_view(args.version),
                limit: args.limit,
            },
        ),
{
    let key = CacheKey::FindTraitImplementors {
        crate_name: owned(args.crate_name.as_str()),
        trait_path: owned(args.trait_path.as_str()),
        version: clone_opt(&args.version),
        limit: args.limit,
    };
    cached_step(cache, key)
}

/// A crate's examples, answered from the cache or fetched.
pub fn get_crate_examples<C: Cache>(cache: &C, args: &GetCrateExamplesArgs) -> (r: ToolStep)
    requires
        cache.well_formed(),
    ensures
        answers_from(
            r,
            cache.contents(),
            CacheKeyView::GetCrateExamples { crate_name: args.crate_name@, version: opt_view(args.version), limit: args.limit },
        ),
{
    let key = CacheKey::GetCrateExamples {
        crate_name: owned(args.crate_name.as_str()),
        version: clone_opt(&args.version),
        limit: args.limit,
    };
    cached_step(cache, key)
}

/// A search of a crate by signature, answered from the cache or fetched.
pub fn find_by_signature<C: Cache>(cache: &C, args: &FindBySignatureArgs) -> (r: ToolStep)
    requires
        cache.well_formed(),
    ensures
        answers_from(
            r,
            cache.contents(),
            CacheKeyView::FindBySignature {
                crate_name: args.crate_name@,
                signature_pattern: args.signature_pattern@,
                version: opt_view(args.version),
            },
        ),
{
    let key = CacheKey::FindBySignature {
        crate_name: owned(args.crate_name.as_str()),
        signature_pattern: owned(args.signature_pattern.as_str()),
        version: clone_opt(&args.version),
    };
    cached_step(cache, key)
}

/// A crate's module overview: a blank crate name is refused; otherwise answered from
/// the cache or fetched.
pub fn get_crate_modules<C: Cache>(cache: &C, args: &GetCrateModulesArgs) -> (r: ToolStep)
    requires
        cache.well_formed(),
    ensures
        trim(args.crate_name@).len() == 0 ==> refuses(r, "Crate name cannot be empty"@),
        trim(args.crate_name@).len() > 0 ==> answers_from(
            r,
            cache.contents(),
            CacheKeyView::GetCrateModules { crate_name: args.crate_name@, version: opt_view(args.version), limit: args.limit },
        ),
{
    if is_blank(args.crate_name.as_str()) {
        return refusal("Crate name cannot be empty");
    }
    let key = CacheKey::GetCrateModules {
        crate_name: owned(args.crate_name.as_str()),
        version: clone_opt(&args.version),
        limit: args.limit,
    };
    cached_step(cache, key)
}

/// `s` holds no `::`.
pub open spec fn no_double_colon(s: Seq<char>) -> bool {
    forall|i: int| 0 <= i < s.len() - 1 ==> !(#[trigger] s[i] == ':' && s[i + 1] == ':')
}

proof fn lemma_normalized_head(s: Seq<char>)
    ensures
        replace_all(s, "::"@, "/"@).len() == 0 <==> s.len() == 0,
        s.len() > 0 ==> replace_all(s, "::"@, "/"@)[0] == if has_prefix(s, "::"@) {
            '/'
        } else {
            s[0]
        },
{
    reveal_strlit("::");
    reveal_strlit("/");
}

proof fn lemma_normalized_has_no_double_colon(s: Seq<char>)
    ensures
        no_double_colon(replace_all(s, "::"@, "/"@)),
    decreases s.len(),
{
    reveal_strlit("::");
    reveal_strlit("/");
    let f = replace_all(s, "::"@, "/"@);
    if s.len() > 0 {
        if has_prefix(s, "::"@) {
            let rest = s.skip(2);
            lemma_normalized_has_no_double_colon(rest);
            let fr = replace_all(rest, "::"@, "/"@);
            assert(f == "/"@ + fr);
            assert forall|i: int| 0 <= i < f.len() - 1 implies !(#[trigger] f[i] == ':' && f[i + 1] == ':') by {
                if i > 0 {
                    assert(f[i] == fr[i - 1] && f[i + 1] == fr[i]);
                }
            }
        } else {
            let rest = s.skip(1);
            lemma_normalized_has_no_double_colon(rest);
            lemma_normalized_head(rest);
            let fr = replace_all(rest, "::"@, "/"@);
            assert(f == seq![s[0]] + fr);
            assert forall|i: int| 0 <= i < f.len() - 1 implies !(#[trigger] f[i] == ':' && f[i + 1] == ':') by {
                if i > 0 {
                    assert(f[i] == fr[i - 1] && f[i + 1] == fr[i]);
                } else if s[0] == ':' {
                    assert(s.len() >= 2 ==> s[1] != ':') by {
                        if s.len() >= 2 && s[1] == ':' {
                            assert(s.take(2) =~= "::"@);
                        }
                    }
                    assert(rest.len() > 0 ==> !has_prefix(rest, "::"@) || rest[0] != ':');
                    assert(f[1] == fr[0]);
                    assert(rest[0] == s[1]);
                }
            }
        }
    }
}

proof fn lemma_normalized_fixed(t: Seq<char>)
    requires
        no_double_colon(t),
    ensures
        replace_all(t, "::"@, "/"@) == t,
    decreases t.len(),
{
    reveal_strlit("::");
    if t.len() > 0 {
        assert(!has_prefix(t, "::"@)) by {
            if has_prefix(t, "::"@) {
                assert(t.take(2)[0] == t[0] && t.take(2)[1] == t[1]);
            }
        }
        let rest = t.skip(1);
        assert forall|i: int| 0 <= i < rest.len() - 1 implies !(#[trigger] rest[i] == ':' && rest[i + 1] == ':') by {
            assert(rest[i] == t[i + 1] && rest[i + 1] == t[i + 2]);
        }
        lemma_normalized_fixed(rest);
        assert(seq![t[0]] + rest =~= t);
    }
}

/// A symbol path keeps its form once its `::` separators are written as `/`, so a
/// path given either way is looked up and cached under one key.
pub proof fn lemma_symbol_path_normal_form(s: Seq<char>)
    ensures
        replace_all(replace_all(s, "::"@, "/"@), "::"@, "/"@) == replace_all(s, "::"@, "/"@),
{
    lemma_normalized_has_no_double_colon(s);
    lemma_normalized_fixed(replace_all(s, "::"@, "/"@));
}

/// A symbol's documentation. The symbol path may separate its segments with `::` or
/// `/`; it is looked up and cached with `/`. A blank crate name, then a blank symbol
/// path, is refused.
pub fn get_symbol_docs<C: Cache>(cache: &C, args: &GetSymbolDocsArgs) -> (r: ToolStep)
    requires
        cache.well_formed(),
    ensures
        trim(args.crate_name@).len() == 0 ==> refuses(r, "Crate name cannot be empty"@),
        trim(args.crate_name@).len() > 0 && trim(args.symbol_path@).len() == 0 ==> refuses(
            r,
            "Symbol path cannot be empty"@,
        ),
        trim(args.crate_name@).len() > 0 && trim(args.symbol_path@).len() > 0 ==> answers_from(
            r,
            cache.contents(),
            CacheKeyView::GetSymbolDocs {
                crate_name: args.crate_name@,
                symbol_path: replace_all(args.symbol_path@, "::"@, "/"@),
                version: opt_view(args.version),
            },
        ),
{
    if is_blank(args.crate_name.as_str()) {
        return refusal("Crate name cannot be empty");
    }
    if is_blank(args.symbol_path.as_str()) {
        return refusal("Symbol path cannot be empty");
    }
    let normalized = replace_str(args.symbol_path.as_str(), "::", "/");
    let key = CacheKey::GetSymbolDocs {
        crate_name: owned(args.crate_name.as_str()),
        symbol_path: normalized,
        version: clone_opt(&args.version),
    };
    cached_step(cache, key)
}

/// A raw documentation page, answered from the cache or fetched.
pub fn _fetch_raw_doc<C: Cache>(cache: &C, args: &FetchRawDocArgs) -> (r: ToolStep)
    requires
        cache.well_formed(),
    ensures
        answers_from(
            r,
            cache.contents(),
            CacheKeyView::FetchRawDoc { crate_name: args.crate_name@, version: args.version@, path: args.path@ },
        ),
{
    let params = DocsRsParams {
        crate_name: owned(args.crate_name.as_str()),
        version: owned(args.version.as_str()),
        path: owned(args.path.as_str()),
    };
    cached_step(cache, CacheKey::FetchRawDoc(params))
}

/// A source file of a crate, answered from the cache or fetched.
pub fn read_source_file<C: Cache>(cache: &C, args: &ReadSourceFileArgs) -> (r: ToolStep)
    requires
        cache.well_formed(),
    ensures
        answers_from(
            r,
            cache.contents(),
            CacheKeyView::ReadSourceFile {
                crate_name: args.crate_name@,
                path: args.path@,
                version: opt_view(args.version),
                start_line: args.start_line,
                end_line: args.end_line,
            },
        ),
{
    let key = CacheKey::ReadSourceFile {
        crate_name: owned(args.crate_name.as_str()),
        path: owned(args.path.as_str()),
        version: clone_opt(&args.version),
        start_line: args.start_line,
        end_line: args.end_line,
    };
    cached_step(cache, key)
}

/// The guide that `doc_workflow_help` gives.
pub const WORKFLOW_GUIDE: &'static str = r#"
🧭 RUST DOC MCP - WORKFLOW GUIDE

Follow this decision tree:

1️⃣ NEW CRATE? (Start Here)
   → Use: get_context_bundle("crate") (Replaces get_crate_overview + get_crate_modules)
   → Use: find_crates("query") if you're not sure which crate to use.
   → RETURNS: Bundle of README, Modules, and Feature Flags.
   
2️⃣ NEED TO FIND AN API BY TYPE?
   → Use: find_by_signature("crate", "fn(u32) -> String")
   → Use: find_trait_implementors("crate", "TraitName")
   
3️⃣ EXPLORE STRUCTURE?
   → Use: get_crate_modules("crate_name")
   → Example: get_crate_modules("tokio")
   → Returns: List of modules, structs, enums (API surface)
   
4️⃣ NEED SPECIFIC API DETAILS?
   → Use: get_symbol_docs("crate", "path::to::Symbol")
   → Example: get_symbol_docs("reqwest", "Client::get")
   → Example: get_symbol_docs("std", "vec::Vec::push")
   
5️⃣ LANGUAGE CONCEPTS & SPECS?
   → Use: get_language_concept("concept") (e.g., "ownership", "lifetimes")
   → Use: web_search site:doc.rust-lang.org/reference (for "formal grammar", "memory model")
   → Use: explain_error_code("E0382")

6️⃣ DEEP DIVE?
   → Use: get_crate_dependencies("crate", "version")
   → Use: get_crate_examples("crate")
   → Use: analyze_feature_flags("crate", "version")
   → Use: read_source_file("crate", "path/to/file.rs")
   
7️⃣ EXECUTION & VERIFICATION?
   → Use: cargo_check() (verify compilation)
   → Use: cargo_test() (run tests)
   → Use: cargo_clippy() (linting)
   → Use: cargo_fmt() (formatting)

8️⃣ DEBUGGING/RAW HTML/SOURCE?
   → Use: read_source_file("crate", "path/to/file.rs")
   → Use: expand_macro("path/to/file.rs") (debug macros)
   → Use: _fetch_raw_doc (advanced only)

❌ COMMON MISTAKES TO AVOID:
- Don't guess function names. Use get_crate_modules first.
- Don't read entire files if you just need a function signature.
- Don't forget to check feature flags if code fails to compile.
"#;

/// The guide to the documentation tools.
pub fn doc_workflow_help() -> (r: DocContent)
    ensures
        r@ == WORKFLOW_GUIDE@,
{
    DocContent { content: owned(WORKFLOW_GUIDE) }
}

/// Checks a concept before the book is searched: a blank concept is refused.
pub fn check_concept(args: &GetLanguageConceptArgs) -> (r: Result<(), DocsFetchError>)
    ensures
        r is Ok <==> trim(args.concept@).len() > 0,
        r matches Err(DocsFetchError::InvalidInput(m)) ==> m@ == "Concept cannot be empty"@,
        r is Err ==> r matches Err(DocsFetchError::InvalidInput(_)),
{
    if is_blank(args.concept.as_str()) {
        Err(DocsFetchError::InvalidInput(owned("Concept cannot be empty")))
    } else {
        Ok(())
    }
}

/// What a search of the book for `concept` leads to: the chapter found, or the error
/// to answer with when none was found or the search failed with message `e`.
pub fn concept_chapter(concept: &str, search: Result<Option<BookChapter>, String>) -> (r: Result<BookChapter, DocsFetchError>)
    ensures
        match search {
            Ok(Some(c)) => r == Ok::<BookChapter, DocsFetchError>(c),
            Ok(None) => r matches Err(DocsFetchError::ItemNotFound(m)) && m@ == "Concept '"@ + concept@
                + "' not found in the Rust Book"@,
            Err(e) => r matches Err(DocsFetchError::RequestError(m)) && m@ == "Failed to search book: "@ + e@,
        },
{
    match search {
        Ok(Some(c)) => Ok(c),
        Ok(None) => {
            let mut m = owned("Concept '");
            push_str(&mut m, concept);
            push_str(&mut m, "' not found in the Rust Book");
            Err(DocsFetchError::ItemNotFound(m))
        },
        Err(e) => {
            let mut m = owned("Failed to search book: ");
            push_str(&mut m, e.as_str());
            Err(DocsFetchError::RequestError(m))
        },
    }
}

/// The answer for a chapter once its content was fetched: the chapter's title as a
/// heading over its content, or the failure to fetch it.
pub fn concept_answer(chapter: &BookChapter, content: Result<String, String>) -> (r: Result<DocContent, DocsFetchError>)
    ensures
        match content {
            Ok(s) => r matches Ok(d) && d@ == "# "@ + chapter.title@ + "\n\n"@ + s@,
            Err(e) => r matches Err(DocsFetchError::RequestError(m)) && m@ == "Failed to fetch chapter content: "@
                + e@,
        },
{
    match content {
        Ok(s) => {
            let mut d = owned("# ");
            push_str(&mut d, chapter.title.as_str());
            push_str(&mut d, "\n\n");
            push_str(&mut d, s.as_str());
            Ok(DocContent { content: d })
        },
        Err(e) => {
            let mut m = owned("Failed to fetch chapter content: ");
            push_str(&mut m, e.as_str());
            Err(DocsFetchError::RequestError(m))
        },
    }
}

/// The code an explanation is looked up for, trimmed and upper-cased; a code that is
/// empty after that is refused.
pub fn check_error_code(args: &ExplainErrorCodeArgs) -> (r: Result<String, DocsFetchError>)
    ensures
        match r {
            Ok(c) => c@ == spec_normalize_code(args.code@) && c@.len() > 0,
            Err(e) => spec_normalize_code(args.code@).len() == 0 && (e matches DocsFetchError::InvalidInput(m)
                && m@ == "Error code cannot be empty"@),
        },
{
    let code = normalize_error_code(args.code.as_str());
    if code.as_str().unicode_len() == 0 {
        return Err(DocsFetchError::InvalidInput(owned("Error code cannot be empty")));
    }
    Ok(code)
}

/// The answer once the explanation was fetched, or the failure to fetch it.
pub fn error_code_answer(result: Result<String, String>) -> (r: Result<DocContent, DocsFetchError>)
    ensures
        match result {
            Ok(s) => r matches Ok(d) && d@ == s@,
            Err(e) => r matches Err(DocsFetchError::RequestError(m)) && m@ == "Failed to fetch error explanation: "@
                + e@,
        },
{
    match result {
        Ok(s) => Ok(DocContent { content: s }),
        Err(e) => {
            let mut m = owned("Failed to fetch error explanation: ");
            push_str(&mut m, e.as_str());
            Err(DocsFetchError::RequestError(m))
        },
    }
}

/// The arguments a cargo tool passes on: those given, or none.
pub fn cargo_tool_args(args: Option<Vec<String>>) -> (r: Vec<String>)
    ensures
        match args {
            Some(a) => r == a,
            None => r@.len() == 0,
        },
{
    match args {
        Some(a) => a,
        None => Vec::new(),
    }
}

/// A cargo tool's answer: the command's report, or its failure as a command error.
pub fn cargo_tool_outcome(result: Result<String, String>) -> (r: Result<DocContent, DocsFetchError>)
    ensures
        match result {
            Ok(s) => r matches Ok(d) && d@ == s@,
            Err(e) => r matches Err(DocsFetchError::CommandError(m)) && m@ == e@,
        },
{
    match result {
        Ok(s) => Ok(DocContent { content: s }),
        Err(e) => Err(DocsFetchError::CommandError(e)),
    }
}

/// `base` joined with the relative path `p`, as `Path::join` does: with a separator
/// between them unless `base` is empty or already ends with one.
pub open spec fn join_path(base: Seq<char>, p: Seq<char>) -> Seq<char> {
    if base.len() == 0 || base.last() == '/' {
        base + p
    } else {
        base + "/"@ + p
    }
}

/// The file `get_local_doc` reads: the path as given when it is absolute or no working
/// directory is given, else the path taken from the working directory.
pub open spec fn spec_local_doc_path(path: Seq<char>, cwd: Option<Seq<char>>) -> Seq<char> {
    match cwd {
        Some(c) => if has_prefix(path, "/"@) {
            path
        } else {
            join_path(c, path)
        },
        None => path,
    }
}

/// The file `get_local_doc` reads.
pub fn local_doc_path(args: &GetLocalDocArgs) -> (r: String)
    ensures
        r@ == spec_local_doc_path(args.path@, opt_view(args.cwd)),
{
    match &args.cwd {
        Some(c) => {
            if starts_with_str(args.path.as_str(), "/") {
                return owned(args.path.as_str());
            }
            let cs = c.as_str();
            let n = cs.unicode_len();
            let mut r = owned(cs);
            if n > 0 && cs.get_char(n - 1) != '/' {
                push_str(&mut r, "/");
            }
            push_str(&mut r, args.path.as_str());
            r
        },
        None => owned(args.path.as_str()),
    }
}

/// The documentation in a local HTML file read from `path`, from its rendered
/// `#main-content`: extracted as from a page whose address is the file's `file://` URL.
pub fn local_doc(main: &MainContent, path: &str) -> (r: Result<DocContent, DocsFetchError>)
    ensures
        match main {
            MainContent::Markdown(md) => r matches Ok(d) && d@ == spec_page_content(md@, "file://"@ + path@),
            MainContent::Missing => r == Err::<DocContent, DocsFetchError>(DocsFetchError::ContentNotFound),
            MainContent::Unrenderable => r matches Err(DocsFetchError::ParseError(m))
                && m@ == unrenderable_message(),
        },
{
    let mut url = owned("file://");
    push_str(&mut url, path);
    match extract_content(main, url.as_str()) {
        Ok(c) => Ok(DocContent { content: c }),
        Err(e) => Err(e),
    }
}

} // verus!
