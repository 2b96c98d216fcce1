use vstd::prelude::*;
use crate::text::{lex_le, lemma_lex_total, lemma_lex_trans, str_le, split_all, split_char_str, find_sep, find_sep_exec, lemma_find_sep_from_spec, contains, occurs_at, find, find_chars, has_prefix, join, join_strings, lemma_find, owned, push_char, push_decimal, push_str, replace_char, replace_char_str, starts_with_str, str_eq, string_of, string_of_range, to_chars, decimal, views};


verus! {

/// Errors that can occur when fetching and parsing documentation.
#[derive(Debug, Clone, PartialEq, Eq)]
pub enum DocsFetchError {
    /// Error occurred during HTTP request
    RequestError(String),
    /// Error parsing or constructing URLs
    UrlError(String),
    /// Documentation was not found at the specified location
    DocsNotFound,
    /// Error occurred while parsing documentation content
    ParseError(String),
    CrateNotFound(String),
    ItemNotFound(String),
    ContentNotFound,
    VersionNotFound(String, String),
    CommandError(String),
    InvalidInput(String),
}

/// Parameters for specifying which documentation to fetch from docs.rs.
#[derive(Debug, Clone, PartialEq, Eq, Hash)]
pub struct DocsRsParams {
    /// Name of the crate to fetch documentation for
    pub crate_name: String,
    /// Version of the crate (e.g., "1.0.0")
    pub version: String,
    /// Path to the specific documentation page
    pub path: String,
}

/// Documentation content fetched from docs.rs.
#[derive(Debug, Clone, PartialEq, Eq)]
pub struct DocContent {
    /// The extracted documentation content as plain text
    pub content: String,
}

impl View for DocContent {
    type V = Seq<char>;

    open spec fn view(&self) -> Seq<char> {
        self.content@
    }
}

impl DocContent {
    /// A copy with the same content.
    pub fn duplicate(&self) -> (r: DocContent)
        ensures
            r@ == self@,
    {
        DocContent { content: self.content.clone() }
    }
}

/// Cache key for documentation requests
#[allow(inconsistent_fields)]
#[derive(Debug, Clone, PartialEq, Eq, Hash)]
pub enum CacheKey {
    FindCrates { query: String, limit: Option<u32>, fuzzy: Option<bool> },
    GetCrateOverview { crate_name: String, version: Option<String> },
    GetCrateModules { crate_name: String, version: Option<String>, limit: Option<usize> },
    GetSymbolDocs { crate_name: String, symbol_path: String, version: Option<String> },
    FetchRawDoc(DocsRsParams),
    ReadSourceFile {
        crate_name: String,
        path: String,
        version: Option<String>,
        start_line: Option<usize>,
        end_line: Option<usize>,
    },
    GetCrateDependencies { crate_name: String, version: String, kind: Option<String> },
    GetCrateExamples { crate_name: String, version: Option<String>, limit: Option<usize> },
    AnalyzeFeatureFlags { crate_name: String, version: String },
    FindBySignature { crate_name: String, signature_pattern: String, version: Option<String> },
    FindTraitImplementors {
        crate_name: String,
        trait_path: String,
        version: Option<String>,
        limit: Option<usize>,
    },
    GetContextBundle { crate_name: String, version: Option<String> },
}

/// The mathematical value of a cache key: its strings taken as character sequences.
#[allow(inconsistent_fields)]
pub enum CacheKeyView {
    FindCrates { query: Seq<char>, limit: Option<u32>, fuzzy: Option<bool> },
    GetCrateOverview { crate_name: Seq<char>, version: Option<Seq<char>> },
    GetCrateModules { crate_name: Seq<char>, version: Option<Seq<char>>, limit: Option<usize> },
    GetSymbolDocs { crate_name: Seq<char>, symbol_path: Seq<char>, version: Option<Seq<char>> },
    FetchRawDoc { crate_name: Seq<char>, version: Seq<char>, path: Seq<char> },
    ReadSourceFile {
        crate_name: Seq<char>,
        path: Seq<char>,
        version: Option<Seq<char>>,
        start_line: Option<usize>,
        end_line: Option<usize>,
    },
    GetCrateDependencies { crate_name: Seq<char>, version: Seq<char>, kind: Option<Seq<char>> },
    GetCrateExamples { crate_name: Seq<char>, version: Option<Seq<char>>, limit: Option<usize> },
    AnalyzeFeatureFlags { crate_name: Seq<char>, version: Seq<char> },
    FindBySignature {
        crate_name: Seq<char>,
        signature_pattern: Seq<char>,
        version: Option<Seq<char>>,
    },
    FindTraitImplementors {
        crate_name: Seq<char>,
        trait_path: Seq<char>,
        version: Option<Seq<char>>,
        limit: Option<usize>,
    },
    GetContextBundle { crate_name: Seq<char>, version: Option<Seq<char>> },
}

/// The contents of an optional string.
pub open spec fn opt_view(o: Option<String>) -> Option<Seq<char>> {
    match o {
        Some(s) => Some(s@),
        None => None,
    }
}

impl View for CacheKey {
    type V = CacheKeyView;

    open spec fn view(&self) -> CacheKeyView {
        match *self {
            CacheKey::FindCrates { query, limit, fuzzy } => CacheKeyView::FindCrates {
                query: query@,
                limit,
                fuzzy,
            },
            CacheKey::GetCrateOverview { crate_name, version } => CacheKeyView::GetCrateOverview {
                crate_name: crate_name@,
                version: opt_view(version),
            },
            CacheKey::GetCrateModules { crate_name, version, limit } =>
                CacheKeyView::GetCrateModules {
                crate_name: crate_name@,
                version: opt_view(version),
                limit,
            },
            CacheKey::GetSymbolDocs { crate_name, symbol_path, version } =>
                CacheKeyView::GetSymbolDocs {
                crate_name: crate_name@,
                symbol_path: symbol_path@,
                version: opt_view(version),
            },
            CacheKey::FetchRawDoc(p) => CacheKeyView::FetchRawDoc {
                crate_name: p.crate_name@,
                version: p.version@,
                path: p.path@,
            },
            CacheKey::ReadSourceFile { crate_name, path, version, start_line, end_line } =>
                CacheKeyView::ReadSourceFile {
                crate_name: crate_name@,
                path: path@,
                version: opt_view(version),
                start_line,
                end_line,
            },
            CacheKey::GetCrateDependencies { crate_name, version, kind } =>
                CacheKeyView::GetCrateDependencies {
                crate_name: crate_name@,
                version: version@,
                kind: opt_view(kind),
            },
            CacheKey::GetCrateExamples { crate_name, version, limit } =>
                CacheKeyView::GetCrateExamples {
                crate_name: crate_name@,
                version: opt_view(version),
                limit,
            },
            CacheKey::AnalyzeFeatureFlags { crate_name, version } =>
                CacheKeyView::AnalyzeFeatureFlags { crate_name: crate_name@, version: version@ },
            CacheKey::FindBySignature { crate_name, signature_pattern, version } =>
                CacheKeyView::FindBySignature {
                crate_name: crate_name@,
                signature_pattern: signature_pattern@,
                version: opt_view(version),
            },
            CacheKey::FindTraitImplementors { crate_name, trait_path, version, limit } =>
                CacheKeyView::FindTraitImplementors {
                crate_name: crate_name@,
                trait_path: trait_path@,
                version: opt_view(version),
                limit,
            },
            CacheKey::GetContextBundle { crate_name, version } => CacheKeyView::GetContextBundle {
                crate_name: crate_name@,
                version: opt_view(version),
            },
        }
    }
}

/// A copy of an optional string.
pub fn clone_opt(o: &Option<String>) -> (r: Option<String>)
    ensures
        opt_view(r) == opt_view(*o),
{
    match o {
        Some(s) => Some(s.clone()),
        None => None,
    }
}

/// Equality of optional strings by contents.
pub fn opt_eq(a: &Option<String>, b: &Option<String>) -> (r: bool)
    ensures
        r == (opt_view(*a) == opt_view(*b)),
{
    match (a, b) {
        (Some(x), Some(y)) => *x == *y,
        (None, None) => true,
        _ => false,
    }
}

impl CacheKey {
    /// A copy of the key.
    pub fn duplicate(&self) -> (r: CacheKey)
        ensures
            r@ == self@,
    {
        match self {
            CacheKey::FindCrates { query, limit, fuzzy } => CacheKey::FindCrates {
                query: query.clone(),
                limit: *limit,
                fuzzy: *fuzzy,
            },
            CacheKey::GetCrateOverview { crate_name, version } => CacheKey::GetCrateOverview {
                crate_name: crate_name.clone(),
                version: clone_opt(version),
            },
            CacheKey::GetCrateModules { crate_name, version, limit } => CacheKey::GetCrateModules {
                crate_name: crate_name.clone(),
                version: clone_opt(version),
                limit: *limit,
            },
            CacheKey::GetSymbolDocs { crate_name, symbol_path, version } =>
                CacheKey::GetSymbolDocs {
                crate_name: crate_name.clone(),
                symbol_path: symbol_path.clone(),
                version: clone_opt(version),
            },
            CacheKey::FetchRawDoc(p) => CacheKey::FetchRawDoc(
                DocsRsParams {
                    crate_name: p.crate_name.clone(),
                    version: p.version.clone(),
                    path: p.path.clone(),
                },
            ),
            CacheKey::ReadSourceFile { crate_name, path, version, start_line, end_line } =>
                CacheKey::ReadSourceFile {
                crate_name: crate_name.clone(),
                path: path.clone(),
                version: clone_opt(version),
                start_line: *start_line,
                end_line: *end_line,
            },
            CacheKey::GetCrateDependencies { crate_name, version, kind } =>
                CacheKey::GetCrateDependencies {
                crate_name: crate_name.clone(),
                version: version.clone(),
                kind: clone_opt(kind),
            },
            CacheKey::GetCrateExamples { crate_name, version, limit } =>
                CacheKey::GetCrateExamples {
                crate_name: crate_name.clone(),
                version: clone_opt(version),
                limit: *limit,
            },
            CacheKey::AnalyzeFeatureFlags { crate_name, version } =>
                CacheKey::AnalyzeFeatureFlags {
                crate_name: crate_name.clone(),
                version: version.clone(),
            },
            CacheKey::FindBySignature { crate_name, signature_pattern, version } =>
                CacheKey::FindBySignature {
                crate_name: crate_name.clone(),
                signature_pattern: signature_pattern.clone(),
                version: clone_opt(version),
            },
            CacheKey::FindTraitImplementors { crate_name, trait_path, version, limit } =>
                CacheKey::FindTraitImplementors {
                crate_name: crate_name.clone(),
                trait_path: trait_path.clone(),
                version: clone_opt(version),
                limit: *limit,
            },
            CacheKey::GetContextBundle { crate_name, version } => CacheKey::GetContextBundle {
                crate_name: crate_name.clone(),
                version: clone_opt(version),
            },
        }
    }

    /// Equality of keys by contents.
    pub fn same_as(&self, other: &CacheKey) -> (r: bool)
        ensures
            r == (self@ == other@),
    {
        match (self, other) {
            (
                CacheKey::FindCrates { query: q1, limit: l1, fuzzy: f1 },
                CacheKey::FindCrates { query: q2, limit: l2, fuzzy: f2 },
            ) => {
                let le = match (l1, l2) {
                    (Some(a), Some(b)) => *a == *b,
                    (None, None) => true,
                    _ => false,
                };
                let fe = match (f1, f2) {
                    (Some(a), Some(b)) => *a == *b,
                    (None, None) => true,
                    _ => false,
                };
                *q1 == *q2 && le && fe
            },
            (
                CacheKey::GetCrateOverview { crate_name: c1, version: v1 },
                CacheKey::GetCrateOverview { crate_name: c2, version: v2 },
            ) => *c1 == *c2 && opt_eq(v1, v2),
            (
                CacheKey::GetCrateModules { crate_name: c1, version: v1, limit: l1 },
                CacheKey::GetCrateModules { crate_name: c2, version: v2, limit: l2 },
            ) => *c1 == *c2 && opt_eq(v1, v2) && usize_opt_eq(l1, l2),
            (
                CacheKey::GetSymbolDocs { crate_name: c1, symbol_path: s1, version: v1 },
                CacheKey::GetSymbolDocs { crate_name: c2, symbol_path: s2, version: v2 },
            ) => *c1 == *c2 && *s1 == *s2 && opt_eq(v1, v2),
            (CacheKey::FetchRawDoc(p1), CacheKey::FetchRawDoc(p2)) => p1.crate_name == p2.crate_name
                && p1.version == p2.version && p1.path == p2.path,
            (
                CacheKey::ReadSourceFile {
                    crate_name: c1,
                    path: p1,
                    version: v1,
                    start_line: s1,
                    end_line: e1,
                },
                CacheKey::ReadSourceFile {
                    crate_name: c2,
                    path: p2,
                    version: v2,
                    start_line: s2,
                    end_line: e2,
                },
            ) => *c1 == *c2 && *p1 == *p2 && opt_eq(v1, v2) && usize_opt_eq(s1, s2)
                && usize_opt_eq(e1, e2),
            (
                CacheKey::GetCrateDependencies { crate_name: c1, version: v1, kind: k1 },
                CacheKey::GetCrateDependencies { crate_name: c2, version: v2, kind: k2 },
            ) => *c1 == *c2 && *v1 == *v2 && opt_eq(k1, k2),
            (
                CacheKey::GetCrateExamples { crate_name: c1, version: v1, limit: l1 },
                CacheKey::GetCrateExamples { crate_name: c2, version: v2, limit: l2 },
            ) => *c1 == *c2 && opt_eq(v1, v2) && usize_opt_eq(l1, l2),
            (
                CacheKey::AnalyzeFeatureFlags { crate_name: c1, version: v1 },
                CacheKey::AnalyzeFeatureFlags { crate_name: c2, version: v2 },
            ) => *c1 == *c2 && *v1 == *v2,
            (
                CacheKey::FindBySignature { crate_name: c1, signature_pattern: s1, version: v1 },
                CacheKey::FindBySignature { crate_name: c2, signature_pattern: s2, version: v2 },
            ) => *c1 == *c2 && *s1 == *s2 && opt_eq(v1, v2),
            (
                CacheKey::FindTraitImplementors {
                    crate_name: c1,
                    trait_path: t1,
                    version: v1,
                    limit: l1,
                },
                CacheKey::FindTraitImplementors {
                    crate_name: c2,
                    trait_path: t2,
                    version: v2,
                    limit: l2,
                },
            ) => *c1 == *c2 && *t1 == *t2 && opt_eq(v1, v2) && usize_opt_eq(l1, l2),
            (
                CacheKey::GetContextBundle { crate_name: c1, version: v1 },
                CacheKey::GetContextBundle { crate_name: c2, version: v2 },
            ) => *c1 == *c2 && opt_eq(v1, v2),
            _ => false,
        }
    }
}

/// Equality of optional counts.
pub fn usize_opt_eq(a: &Option<usize>, b: &Option<usize>) -> (r: bool)
    ensures
        r == (*a == *b),
{
    match (a, b) {
        (Some(x), Some(y)) => *x == *y,
        (None, None) => true,
        _ => false,
    }
}


// ---------------------------------------------------------------------------
// Error messages
// ---------------------------------------------------------------------------

impl DocsFetchError {
    /// The text the error displays as.
    pub open spec fn spec_message(&self) -> Seq<char> {
        match *self {
            DocsFetchError::RequestError(s) => "Request error: "@ + s@,
            DocsFetchError::UrlError(s) => "Invalid URL: "@ + s@,
            DocsFetchError::DocsNotFound => "Failed to find documentation"@,
            DocsFetchError::ParseError(s) => "Failed to parse documentation: "@ + s@,
            DocsFetchError::CrateNotFound(s) => "Crate not found: "@ + s@,
            DocsFetchError::ItemNotFound(s) => "Item not found: "@ + s@,
            DocsFetchError::ContentNotFound => "Documentation content not found in page"@,
            DocsFetchError::VersionNotFound(v, c) => "Version not found: "@ + v@ + " for crate "@
                + c@,
            DocsFetchError::CommandError(s) => "Command failed: "@ + s@,
            DocsFetchError::InvalidInput(s) => "Invalid input: "@ + s@,
        }
    }

    /// The text the error displays as.
    pub fn message(&self) -> (r: String)
        ensures
            r@ == self.spec_message(),
    {
        let mut r = String::new();
        match self {
            DocsFetchError::RequestError(s) => {
                push_str(&mut r, "Request error: ");
                push_str(&mut r, s.as_str());
            },
            DocsFetchError::UrlError(s) => {
                push_str(&mut r, "Invalid URL: ");
                push_str(&mut r, s.as_str());
            },
            DocsFetchError::DocsNotFound => push_str(&mut r, "Failed to find documentation"),
            DocsFetchError::ParseError(s) => {
                push_str(&mut r, "Failed to parse documentation: ");
                push_str(&mut r, s.as_str());
            },
            DocsFetchError::CrateNotFound(s) => {
                push_str(&mut r, "Crate not found: ");
                push_str(&mut r, s.as_str());
            },
            DocsFetchError::ItemNotFound(s) => {
                push_str(&mut r, "Item not found: ");
                push_str(&mut r, s.as_str());
            },
            DocsFetchError::ContentNotFound => push_str(
                &mut r,
                "Documentation content not found in page",
            ),
            DocsFetchError::VersionNotFound(v, c) => {
                push_str(&mut r, "Version not found: ");
                push_str(&mut r, v.as_str());
                push_str(&mut r, " for crate ");
                push_str(&mut r, c.as_str());
            },
            DocsFetchError::CommandError(s) => {
                push_str(&mut r, "Command failed: ");
                push_str(&mut r, s.as_str());
            },
            DocsFetchError::InvalidInput(s) => {
                push_str(&mut r, "Invalid input: ");
                push_str(&mut r, s.as_str());
            },
        }
        assert(r@ =~= self.spec_message());
        r
    }
}

// ---------------------------------------------------------------------------
// Versions and locations
// ---------------------------------------------------------------------------

/// The crates whose documentation lives on doc.rust-lang.org.
pub open spec fn spec_is_std_crate(name: Seq<char>) -> bool {
    name == "std"@ || name == "core"@ || name == "alloc"@ || name == "proc_macro"@ || name
        == "test"@
}

pub fn is_std_crate(name: &str) -> (r: bool)
    ensures
        r == spec_is_std_crate(name@),
{
    str_eq(name, "std") || str_eq(name, "core") || str_eq(name, "alloc") || str_eq(
        name,
        "proc_macro",
    ) || str_eq(name, "test")
}

/// How a requested version is settled.
#[derive(Debug)]
pub enum VersionChoice {
    /// The version to use, known without asking crates.io.
    Known(String),
    /// The latest version has to be asked from crates.io.
    AskLatest,
}

/// A standard-library crate keeps what was asked (`latest` when nothing was); another
/// crate keeps an explicit version other than `latest`, and otherwise needs its latest one.
pub open spec fn spec_version_choice(crate_name: Seq<char>, version: Option<Seq<char>>) -> Option<Seq<char>> {
    if spec_is_std_crate(crate_name) {
        Some(
            match version {
                Some(v) => v,
                None => "latest"@,
            },
        )
    } else {
        match version {
            Some(v) => if v != "latest"@ {
                Some(v)
            } else {
                None
            },
            None => None,
        }
    }
}

/// The decision half of version resolution: the version to use, or that the latest
/// one must be asked from crates.io.
pub fn choose_version(crate_name: &str, version: Option<String>) -> (r: VersionChoice)
    ensures
        match r {
            VersionChoice::Known(v) => spec_version_choice(crate_name@, opt_view(version))
                == Some(v@),
            VersionChoice::AskLatest => spec_version_choice(crate_name@, opt_view(version))
                is None,
        },
{
    if is_std_crate(crate_name) {
        return match version {
            Some(v) => VersionChoice::Known(v),
            None => VersionChoice::Known(owned("latest")),
        };
    }
    match version {
        Some(v) => if !str_eq(v.as_str(), "latest") {
            VersionChoice::Known(v)
        } else {
            VersionChoice::AskLatest
        },
        None => VersionChoice::AskLatest,
    }
}

/// The site that serves a crate's documentation.
pub open spec fn spec_base_url(base_url: Seq<char>, crate_name: Seq<char>, version: Seq<char>) -> Seq<char> {
    if spec_is_std_crate(crate_name) {
        if version == "latest"@ {
            "https://doc.rust-lang.org"@
        } else {
            "https://doc.rust-lang.org/"@ + version
        }
    } else {
        base_url
    }
}

pub fn get_base_url(base_url: &str, crate_name: &str, version: &str) -> (r: String)
    ensures
        r@ == spec_base_url(base_url@, crate_name@, version@),
{
    if is_std_crate(crate_name) {
        if str_eq(version, "latest") {
            owned("https://doc.rust-lang.org")
        } else {
            let mut r = owned("https://doc.rust-lang.org/");
            push_str(&mut r, version);
            r
        }
    } else {
        owned(base_url)
    }
}

/// The crates.io address of a crate's metadata.
pub open spec fn spec_crate_metadata_url(crate_name: Seq<char>) -> Seq<char> {
    "https://crates.io/api/v1/crates/"@ + crate_name
}

pub fn crate_metadata_url(crate_name: &str) -> (r: String)
    ensures
        r@ == spec_crate_metadata_url(crate_name@),
{
    let mut r = owned("https://crates.io/api/v1/crates/");
    push_str(&mut r, crate_name);
    r
}

/// The page of a crate's root documentation.
pub open spec fn spec_crate_page_url(base: Seq<char>, crate_name: Seq<char>, version: Seq<char>) -> Seq<char> {
    if spec_is_std_crate(crate_name) {
        base + "/"@ + crate_name + "/index.html"@
    } else {
        base + "/"@ + crate_name + "/"@ + version + "/"@
    }
}

pub fn crate_page_url(base: &str, crate_name: &str, version: &str) -> (r: String)
    ensures
        r@ == spec_crate_page_url(base@, crate_name@, version@),
{
    let mut r = owned(base);
    push_str(&mut r, "/");
    push_str(&mut r, crate_name);
    if is_std_crate(crate_name) {
        push_str(&mut r, "/index.html");
    } else {
        push_str(&mut r, "/");
        push_str(&mut r, version);
        push_str(&mut r, "/");
    }
    r
}

/// The page of a crate's module index (`get_crate_modules`).
pub open spec fn spec_crate_index_url(base: Seq<char>, crate_name: Seq<char>, version: Seq<char>) -> Seq<char> {
    if spec_is_std_crate(crate_name) {
        base + "/"@ + crate_name + "/index.html"@
    } else {
        base + "/"@ + crate_name + "/"@ + version + "/index.html"@
    }
}

pub fn crate_index_url(base: &str, crate_name: &str, version: &str) -> (r: String)
    ensures
        r@ == spec_crate_index_url(base@, crate_name@, version@),
{
    let mut r = owned(base);
    push_str(&mut r, "/");
    push_str(&mut r, crate_name);
    if !is_std_crate(crate_name) {
        push_str(&mut r, "/");
        push_str(&mut r, version);
    }
    push_str(&mut r, "/index.html");
    r
}

/// A raw documentation page on the docs site (`fetch_docs`).
pub open spec fn spec_raw_doc_url(base_url: Seq<char>, crate_name: Seq<char>, version: Seq<char>, path: Seq<char>) -> Seq<char> {
    base_url + "/"@ + crate_name + "/"@ + version + "/"@ + path
}

pub fn raw_doc_url(base_url: &str, crate_name: &str, version: &str, path: &str) -> (r: String)
    ensures
        r@ == spec_raw_doc_url(base_url@, crate_name@, version@, path@),
{
    let mut r = owned(base_url);
    push_str(&mut r, "/");
    push_str(&mut r, crate_name);
    push_str(&mut r, "/");
    push_str(&mut r, version);
    push_str(&mut r, "/");
    push_str(&mut r, path);
    r
}

/// `s.trim_start_matches(p)`: every leading copy of `p` removed.
pub open spec fn trim_start_matches(s: Seq<char>, p: Seq<char>) -> Seq<char>
    decreases s.len(),
{
    if p.len() > 0 && has_prefix(s, p) {
        trim_start_matches(s.skip(p.len() as int), p)
    } else {
        s
    }
}

pub fn trim_start_matches_str(s: &str, p: &str) -> (r: String)
    ensures
        r@ == trim_start_matches(s@, p@),
{
    let v = to_chars(s);
    let pv = to_chars(p);
    let mut i: usize = 0;
    assert(v@.skip(0) =~= v@);
    loop
        invariant
            i <= v.len(),
            v@ == s@,
            pv@ == p@,
            trim_start_matches(s@, p@) == trim_start_matches(v@.skip(i as int), p@),
        ensures
            i <= v.len(),
            trim_start_matches(s@, p@) == v@.skip(i as int),
        decreases v.len() - i,
    {
        if pv.len() == 0 || v.len() - i < pv.len() {
            break;
        }
        let mut j: usize = 0;
        let mut same = true;
        while j < pv.len()
            invariant
                j <= pv.len(),
                i + pv.len() <= v.len(),
                same == forall|m: int| 0 <= m < j ==> v@[i + m] == pv@[m],
            decreases pv.len() - j,
        {
            if v[i + j] != pv[j] {
                same = false;
            }
            j = j + 1;
        }
        let ghost rest = v@.skip(i as int);
        if !same {
            proof {
                if has_prefix(rest, pv@) {
                    assert forall|m: int| 0 <= m < pv.len() implies v@[i + m] == pv@[m] by {
                        assert(rest.take(pv.len() as int)[m] == rest[m]);
                    }
                }
            }
            break;
        }
        assert(rest.take(pv.len() as int) =~= pv@);
        assert(rest.skip(pv.len() as int) =~= v@.skip(i + pv.len()));
        i = i + pv.len();
    }
    let r = string_of_range(&v, i, v.len());
    assert(v@.subrange(i as int, v.len() as int) =~= v@.skip(i as int));
    r
}

/// A crate's source file page (`read_source_file`): the crate name with `-` as `_` in the
/// path, and the file path without leading `src/` and `/`.
pub open spec fn spec_source_url(base_url: Seq<char>, crate_name: Seq<char>, version: Seq<char>, path: Seq<char>) -> Seq<char> {
    base_url + "/"@ + crate_name + "/"@ + version + "/src/"@ + replace_char(crate_name, '-', '_')
        + "/"@ + trim_start_matches(trim_start_matches(path, "src/"@), "/"@) + ".html"@
}

pub fn source_url(base_url: &str, crate_name: &str, version: &str, path: &str) -> (r: String)
    ensures
        r@ == spec_source_url(base_url@, crate_name@, version@, path@),
{
    let crate_safe = replace_char_str(crate_name, '-', '_');
    let p1 = trim_start_matches_str(path, "src/");
    let clean = trim_start_matches_str(p1.as_str(), "/");
    let mut r = owned(base_url);
    push_str(&mut r, "/");
    push_str(&mut r, crate_name);
    push_str(&mut r, "/");
    push_str(&mut r, version);
    push_str(&mut r, "/src/");
    push_str(&mut r, crate_safe.as_str());
    push_str(&mut r, "/");
    push_str(&mut r, clean.as_str());
    push_str(&mut r, ".html");
    r
}

/// Where a crate's published examples would be (`get_crate_examples`).
pub open spec fn spec_examples_url(base_url: Seq<char>, crate_name: Seq<char>, version: Seq<char>) -> Seq<char> {
    base_url + "/"@ + crate_name + "/"@ + version + "/src/"@ + replace_char(crate_name, '-', '_')
        + "/examples/"@
}

pub fn examples_url(base_url: &str, crate_name: &str, version: &str) -> (r: String)
    ensures
        r@ == spec_examples_url(base_url@, crate_name@, version@),
{
    let crate_safe = replace_char_str(crate_name, '-', '_');
    let mut r = owned(base_url);
    push_str(&mut r, "/");
    push_str(&mut r, crate_name);
    push_str(&mut r, "/");
    push_str(&mut r, version);
    push_str(&mut r, "/src/");
    push_str(&mut r, crate_safe.as_str());
    push_str(&mut r, "/examples/");
    r
}

/// The answer when the examples directory exists.
pub open spec fn spec_examples_found(url: Seq<char>) -> Seq<char> {
    "Examples directory found at source root.\n\nPlease browse the examples here:\n"@ + url
}

/// The answer when it does not: where else to look, from the crate's metadata.
pub open spec fn spec_examples_missing(url: Seq<char>, metadata: Option<Option<Seq<char>>>) -> Seq<char> {
    let repo_msg = match metadata {
        Some(Some(repo)) => "Please check the crate's repository for examples:\n"@ + repo,
        Some(None) => "No repository link found in crate metadata."@,
        None => "Could not fetch crate metadata."@,
    };
    "No 'examples' directory found in published source at "@ + url
        + ".\n\nNote: Many crates exclude examples from the published package to reduce size.\n\n"@
        + repo_msg
}

/// The answer of `get_crate_examples`: `found` says whether the examples directory
/// answered; `metadata` is the crate's repository link when its metadata could be
/// fetched.
pub fn examples_message(url: &str, found: bool, metadata: Option<Option<String>>) -> (r: String)
    ensures
        r@ == if found {
            spec_examples_found(url@)
        } else {
            spec_examples_missing(
                url@,
                match metadata {
                    Some(m) => Some(opt_view(m)),
                    None => None,
                },
            )
        },
{
    if found {
        let mut r = owned("Examples directory found at source root.\n\nPlease browse the examples here:\n");
        push_str(&mut r, url);
        return r;
    }
    let mut r = owned("No 'examples' directory found in published source at ");
    push_str(&mut r, url);
    push_str(
        &mut r,
        ".\n\nNote: Many crates exclude examples from the published package to reduce size.\n\n",
    );
    match metadata {
        Some(Some(repo)) => {
            push_str(&mut r, "Please check the crate's repository for examples:\n");
            push_str(&mut r, repo.as_str());
        },
        Some(None) => push_str(&mut r, "No repository link found in crate metadata."),
        None => push_str(&mut r, "Could not fetch crate metadata."),
    }
    r
}

/// The crates.io address of a crate version's dependencies.
pub open spec fn spec_dependencies_url(crate_name: Seq<char>, version: Seq<char>) -> Seq<char> {
    "https://crates.io/api/v1/crates/"@ + crate_name + "/"@ + version + "/dependencies"@
}

pub fn dependencies_url(crate_name: &str, version: &str) -> (r: String)
    ensures
        r@ == spec_dependencies_url(crate_name@, version@),
{
    let mut r = owned("https://crates.io/api/v1/crates/");
    push_str(&mut r, crate_name);
    push_str(&mut r, "/");
    push_str(&mut r, version);
    push_str(&mut r, "/dependencies");
    r
}

/// The crates.io address of a crate version (`analyze_feature_flags`).
pub open spec fn spec_version_url(crate_name: Seq<char>, version: Seq<char>) -> Seq<char> {
    "https://crates.io/api/v1/crates/"@ + crate_name + "/"@ + version
}

pub fn version_url(crate_name: &str, version: &str) -> (r: String)
    ensures
        r@ == spec_version_url(crate_name@, version@),
{
    let mut r = owned("https://crates.io/api/v1/crates/");
    push_str(&mut r, crate_name);
    push_str(&mut r, "/");
    push_str(&mut r, version);
    r
}

// ---------------------------------------------------------------------------
// Refused requests, line windows and dependency kinds
// ---------------------------------------------------------------------------

/// What a request asked for, as far as the error for a refused answer depends on it.
#[derive(Debug, Clone, Copy, PartialEq, Eq)]
pub enum Requested {
    /// A crate's metadata on crates.io.
    CrateMetadata,
    /// A documentation or source page.
    DocsPage,
    /// One version of a crate on crates.io.
    CrateVersion,
    /// A crate's root documentation page.
    CrateRoot,
    /// A crate version's dependency list on crates.io.
    Dependencies,
}

/// The error for a request whose answer did not come with a success status.
pub fn refused_request(what: Requested, crate_name: &str, version: &str, url: &str) -> (e: DocsFetchError)
    ensures
        match what {
            Requested::CrateMetadata => e matches DocsFetchError::CrateNotFound(c) && c@ == crate_name@,
            Requested::DocsPage => e == DocsFetchError::DocsNotFound,
            Requested::CrateVersion => e matches DocsFetchError::VersionNotFound(v, c) && v@ == version@
                && c@ == crate_name@,
            Requested::CrateRoot => e matches DocsFetchError::ItemNotFound(m) && m@ == "Crate root not found at "@
                + url@,
            Requested::Dependencies => e matches DocsFetchError::ParseError(m) && m@
                == "Failed to fetch dependencies"@,
        },
{
    match what {
        Requested::CrateMetadata => DocsFetchError::CrateNotFound(owned(crate_name)),
        Requested::DocsPage => DocsFetchError::DocsNotFound,
        Requested::CrateVersion => DocsFetchError::VersionNotFound(owned(version), owned(crate_name)),
        Requested::CrateRoot => {
            let mut m = owned("Crate root not found at ");
            push_str(&mut m, url);
            DocsFetchError::ItemNotFound(m)
        },
        Requested::Dependencies => DocsFetchError::ParseError(owned("Failed to fetch dependencies")),
    }
}

/// Where a window of lines starts among `n` lines: at line `start` (1-based; the first
/// line for 0 or no start), and at the end when `start` is past it.
pub open spec fn window_lo(n: nat, start: Option<usize>) -> nat {
    let s: nat = match start {
        Some(s) => if s == 0 {
            0
        } else {
            (s - 1) as nat
        },
        None => 0,
    };
    if s > n {
        n
    } else {
        s
    }
}

/// Where a window of lines starting at `lo` ends among `n` lines: after line `end`
/// (1-based, included), after the last line when `end` is absent or past it, and
/// nowhere after `lo` when `end` comes before it.
pub open spec fn window_hi(n: nat, lo: nat, end: Option<usize>) -> nat {
    let e: nat = match end {
        Some(e) => if e > n {
            n
        } else {
            e as nat
        },
        None => n,
    };
    if e < lo {
        lo
    } else {
        e
    }
}

/// Lines `start` to `end` (1-based, both included) of `text`, cut at `\n` and joined
/// again with `\n`; the whole text when neither bound is given.
pub open spec fn line_window(text: Seq<char>, start: Option<usize>, end: Option<usize>) -> Seq<char> {
    if start is None && end is None {
        text
    } else {
        let lines = split_all(text, '\n');
        let lo = window_lo(lines.len(), start);
        join(lines.subrange(lo as int, window_hi(lines.len(), lo, end) as int), "\n"@)
    }
}

/// Lines `start` to `end` (1-based, both included) of a fetched text.
pub fn select_lines(text: &str, start: Option<usize>, end: Option<usize>) -> (r: String)
    ensures
        r@ == line_window(text@, start, end),
{
    if start.is_none() && end.is_none() {
        return owned(text);
    }
    let lines = split_char_str(text, '\n');
    let ghost lv = views(lines@);
    let n = lines.len();
    let s: usize = match start {
        Some(s) => if s == 0 {
            0
        } else {
            s - 1
        },
        None => 0,
    };
    let lo = if s > n {
        n
    } else {
        s
    };
    let e: usize = match end {
        Some(e) => if e > n {
            n
        } else {
            e
        },
        None => n,
    };
    let hi = if e < lo {
        lo
    } else {
        e
    };
    assert(lo == window_lo(lv.len(), start) && hi == window_hi(lv.len(), lo as nat, end));
    let mut r = String::new();
    let mut k = lo;
    assert(lv.subrange(lo as int, lo as int) =~= Seq::<Seq<char>>::empty());
    while k < hi
        invariant
            lo <= k <= hi <= n,
            n == lines.len(),
            lv == views(lines@),
            r@ == join(lv.subrange(lo as int, k as int), "\n"@),
        decreases hi - k,
    {
        let ghost before = r@;
        if k > lo {
            push_str(&mut r, "\n");
        }
        push_str(&mut r, lines[k].as_str());
        assert(lv[k as int] == lines@[k as int]@);
        assert(lv.subrange(lo as int, k + 1).drop_last() =~= lv.subrange(lo as int, k as int));
        assert(lv.subrange(lo as int, k + 1).last() == lv[k as int]);
        if k == lo {
            assert(before =~= Seq::<char>::empty());
            assert(r@ =~= lv.subrange(lo as int, k + 1)[0]);
        }
        k = k + 1;
    }
    r
}

/// The dependencies, each given with its kind, whose kind is `kind`, in order; all of
/// them when no kind is given.
pub open spec fn kept_dependencies<T>(deps: Seq<(String, T)>, kind: Option<Seq<char>>) -> Seq<(String, T)>
    decreases deps.len(),
{
    if deps.len() == 0 {
        Seq::empty()
    } else {
        let rest = kept_dependencies(deps.drop_first(), kind);
        if kind is Some && deps[0].0@ != kind->0 {
            rest
        } else {
            seq![deps[0]] + rest
        }
    }
}

/// The dependencies of kind `kind` (such as `normal`, `dev` or `build`), each given with
/// its kind, in order; all of them when no kind is given.
pub fn filter_dependencies<T>(deps: Vec<(String, T)>, kind: &Option<String>) -> (r: Vec<(String, T)>)
    ensures
        r@ == kept_dependencies(deps@, opt_view(*kind)),
{
    let ghost orig = deps@;
    let ghost k = opt_view(*kind);
    let mut rest = deps;
    let mut out: Vec<(String, T)> = Vec::new();
    assert(out@ + kept_dependencies(rest@, k) =~= kept_dependencies(orig, k));
    while rest.len() > 0
        invariant
            k == opt_view(*kind),
            out@ + kept_dependencies(rest@, k) == kept_dependencies(orig, k),
        decreases rest.len(),
    {
        let ghost r0 = rest@;
        let ghost o0 = out@;
        let d = rest.remove(0);
        assert(rest@ =~= r0.drop_first());
        let keep = match kind {
            Some(want) => str_eq(d.0.as_str(), want.as_str()),
            None => true,
        };
        if keep {
            out.push(d);
            assert(out@ + kept_dependencies(rest@, k) =~= o0 + (seq![r0[0]] + kept_dependencies(r0.drop_first(), k)));
        }
    }
    assert(rest@.len() == 0);
    assert(out@ =~= out@ + kept_dependencies(rest@, k));
    out
}

// ---------------------------------------------------------------------------
// Page content
// ---------------------------------------------------------------------------

/// The outer HTML of the first element of `html` that CSS selector `selector` matches.
pub uninterp spec fn html_first_match(html: Seq<char>, selector: Seq<char>) -> Option<Seq<char>>;

/// Trusted: parses `html` as a document with `scraper::Html::parse_document`, selects with
/// `scraper::Selector::parse(selector)` and returns `ElementRef::html` of the first match.
/// The result is named, not described: it is a function of the two arguments alone.
/// The selector is one of this library's fixed, valid selectors.
#[verifier::external_body]
pub(crate) fn select_first_html(html: &str, selector: &str) -> (r: Option<String>)
    ensures
        opt_view(r) == html_first_match(html@, selector@),
{
    let document = scraper::Html::parse_document(html);
    let sel = scraper::Selector::parse(selector).ok()?;
    document.select(&sel).next().map(|e| e.html())
}

/// Every run of three or more newlines shortened to two.
pub open spec fn collapse_newlines(s: Seq<char>) -> Seq<char>
    decreases s.len(),
{
    if s.len() == 0 {
        s
    } else {
        let r = collapse_newlines(s.drop_last());
        if s.last() == '\n' && r.len() >= 2 && r[r.len() - 1] == '\n' && r[r.len() - 2] == '\n' {
            r
        } else {
            r.push(s.last())
        }
    }
}

pub fn collapse_newlines_str(s: &str) -> (r: String)
    ensures
        r@ == collapse_newlines(s@),
{
    let v = to_chars(s);
    let mut out: Vec<char> = Vec::new();
    let mut i: usize = 0;
    assert(v@.take(0) =~= Seq::<char>::empty());
    while i < v.len()
        invariant
            i <= v.len(),
            v@ == s@,
            out@ == collapse_newlines(v@.take(i as int)),
        decreases v.len() - i,
    {
        assert(v@.take(i + 1).drop_last() =~= v@.take(i as int));
        assert(v@.take(i + 1).last() == v@[i as int]);
        let n = out.len();
        if !(v[i] == '\n' && n >= 2 && out[n - 1] == '\n' && out[n - 2] == '\n') {
            out.push(v[i]);
        }
        i = i + 1;
    }
    assert(v@.take(v.len() as int) =~= v@);
    string_of(&out)
}

/// A page's main element after rendering to Markdown: absent from the page, present
/// but refused by the renderer, or its Markdown.
#[derive(Debug, Clone, PartialEq, Eq)]
pub enum MainContent {
    Missing,
    Unrenderable,
    Markdown(String),
}

/// The element `#main-content` of a documentation page, as HTML.
pub fn main_content(html: &str) -> (r: Option<String>)
    ensures
        opt_view(r) == html_first_match(html@, "#main-content"@),
{
    select_first_html(html, "#main-content")
}

/// The element `main` of a page, as HTML.
pub fn main_element(html: &str) -> (r: Option<String>)
    ensures
        opt_view(r) == html_first_match(html@, "main"@),
{
    select_first_html(html, "main")
}

/// The message for main content that could not be rendered to Markdown.
pub open spec fn unrenderable_message() -> Seq<char> {
    "Could not convert the page content to Markdown"@
}

/// A documentation page's content: its Markdown with newline runs shortened, under a
/// line naming its source.
pub open spec fn spec_page_content(markdown: Seq<char>, url: Seq<char>) -> Seq<char> {
    "Source: "@ + url + "\n\n"@ + collapse_newlines(markdown)
}

/// The content of a documentation page from its rendered main element; `ContentNotFound`
/// when the page has no `#main-content`, a `ParseError` when it could not be rendered.
pub fn extract_content(main: &MainContent, url: &str) -> (r: Result<String, DocsFetchError>)
    ensures
        match main {
            MainContent::Markdown(md) => r matches Ok(s) && s@ == spec_page_content(md@, url@),
            MainContent::Missing => r == Err::<String, DocsFetchError>(DocsFetchError::ContentNotFound),
            MainContent::Unrenderable => r matches Err(DocsFetchError::ParseError(m))
                && m@ == unrenderable_message(),
        },
{
    match main {
        MainContent::Markdown(markdown) => {
            let clean = collapse_newlines_str(markdown.as_str());
            let mut out = owned("Source: ");
            push_str(&mut out, url);
            push_str(&mut out, "\n\n");
            push_str(&mut out, clean.as_str());
            Ok(out)
        },
        MainContent::Missing => Err(DocsFetchError::ContentNotFound),
        MainContent::Unrenderable => Err(DocsFetchError::ParseError(
            owned("Could not convert the page content to Markdown"),
        )),
    }
}

/// The header put above a crate's overview when its metadata is known.
pub open spec fn spec_crate_header(crate_name: Seq<char>, version: Seq<char>, url: Seq<char>, description: Option<Seq<char>>, repository: Option<Seq<char>>) -> Seq<char> {
    "# Crate: "@ + crate_name + " "@ + version + "\n\n"@ + match description {
        Some(d) => "> "@ + d + "\n\n"@,
        None => Seq::empty(),
    } + match repository {
        Some(r) => "- **Repository**: "@ + r + "\n"@,
        None => Seq::empty(),
    } + "- **Docs**: "@ + url + "\n\n---\n\n"@
}

pub fn crate_header(
    crate_name: &str,
    version: &str,
    url: &str,
    description: &Option<String>,
    repository: &Option<String>,
) -> (r: String)
    ensures
        r@ == spec_crate_header(crate_name@, version@, url@, opt_view(*description), opt_view(*repository)),
{
    let mut r = owned("# Crate: ");
    push_str(&mut r, crate_name);
    push_str(&mut r, " ");
    push_str(&mut r, version);
    push_str(&mut r, "\n\n");
    if let Some(d) = description {
        push_str(&mut r, "> ");
        push_str(&mut r, d.as_str());
        push_str(&mut r, "\n\n");
    }
    if let Some(repo) = repository {
        push_str(&mut r, "- **Repository**: ");
        push_str(&mut r, repo.as_str());
        push_str(&mut r, "\n");
    }
    push_str(&mut r, "- **Docs**: ");
    push_str(&mut r, url);
    push_str(&mut r, "\n\n---\n\n");
    assert(r@ =~= spec_crate_header(crate_name@, version@, url@, opt_view(*description), opt_view(*repository)));
    r
}

/// The overview page: the metadata header, when there is one, above the content.
pub fn with_header(header: Option<String>, content: String) -> (r: DocContent)
    ensures
        r@ == match header {
            Some(h) => h@ + content@,
            None => content@,
        },
{
    match header {
        Some(h) => {
            let mut r = h;
            push_str(&mut r, content.as_str());
            DocContent { content: r }
        },
        None => DocContent { content },
    }
}

/// The answer of `find_trait_implementors`: the page from its `# Implementors` heading
/// on, or from `## Implementors`, or else the whole page with a note.
pub open spec fn spec_implementors_section(content: Seq<char>) -> Seq<char> {
    match find(content, "# Implementors"@) {
        Some(i) => content.skip(i),
        None => match find(content, "## Implementors"@) {
            Some(i) => content.skip(i),
            None => "Could not isolate 'Implementors' section. Here is the full doc:\n\n"@ + content,
        },
    }
}

pub fn implementors_section(content: &str) -> (r: String)
    ensures
        r@ == spec_implementors_section(content@),
{
    let v = to_chars(content);
    let p1 = to_chars("# Implementors");
    if let Some(i) = find_chars(&v, &p1) {
        proof {
            lemma_find(v@, p1@);
        }
        let r = string_of_range(&v, i, v.len());
        assert(v@.subrange(i as int, v.len() as int) =~= v@.skip(i as int));
        return r;
    }
    let p2 = to_chars("## Implementors");
    if let Some(i) = find_chars(&v, &p2) {
        proof {
            lemma_find(v@, p2@);
        }
        let r = string_of_range(&v, i, v.len());
        assert(v@.subrange(i as int, v.len() as int) =~= v@.skip(i as int));
        return r;
    }
    let mut r = owned("Could not isolate 'Implementors' section. Here is the full doc:\n\n");
    push_str(&mut r, content);
    r
}

/// The context bundle: overview, modules and features under one title.
pub open spec fn spec_context_bundle(crate_name: Seq<char>, overview: Seq<char>, modules: Seq<char>, features: Seq<char>) -> Seq<char> {
    "# Context Bundle: "@ + crate_name + "\n\n## Overview\n"@ + overview + "\n\n## Modules\n"@
        + modules + "\n\n## Features\n"@ + features + "\n"@
}

pub fn context_bundle(crate_name: &str, overview: &str, modules: &str, features: &str) -> (r: String)
    ensures
        r@ == spec_context_bundle(crate_name@, overview@, modules@, features@),
{
    let mut r = owned("# Context Bundle: ");
    push_str(&mut r, crate_name);
    push_str(&mut r, "\n\n## Overview\n");
    push_str(&mut r, overview);
    push_str(&mut r, "\n\n## Modules\n");
    push_str(&mut r, modules);
    push_str(&mut r, "\n\n## Features\n");
    push_str(&mut r, features);
    push_str(&mut r, "\n");
    r
}


// ---------------------------------------------------------------------------
// Item lookup
// ---------------------------------------------------------------------------

/// `s.split("::")`: the pieces between all separators, scanning left to right.
pub open spec fn split_sep_all(s: Seq<char>) -> Seq<Seq<char>>
    decreases s.len(),
{
    match find_sep(s) {
        Some(i) => if 0 <= i && i + 2 <= s.len() {
            seq![s.take(i)] + split_sep_all(s.skip(i + 2))
        } else {
            seq![s]
        },
        None => seq![s],
    }
}

/// `s.split("::")`.
pub fn split_sep_str(s: &str) -> (r: Vec<String>)
    ensures
        views(r@) == split_sep_all(s@),
{
    let v = to_chars(s);
    let mut out: Vec<String> = Vec::new();
    let mut from: usize = 0;
    assert(v@.skip(0) =~= v@);
    loop
        invariant
            from <= v.len(),
            v@ == s@,
            views(out@) + split_sep_all(v@.skip(from as int)) == split_sep_all(s@),
        decreases v.len() - from,
    {
        let ghost rest = v@.skip(from as int);
        proof {
            crate::text::lemma_shift_find_sep(v@, from as nat, 0);
            lemma_find_sep_from_spec(rest, 0);
        }
        match find_sep_exec(&v, from) {
            Some(j) => {
                let piece = string_of_range(&v, from, j);
                let ghost before = views(out@);
                out.push(piece);
                assert(rest.take(j - from) =~= v@.subrange(from as int, j as int));
                assert(rest.skip(j - from + 2) =~= v@.skip(j + 2));
                assert(views(out@) =~= before.push(rest.take(j - from)));
                assert(views(out@) + split_sep_all(v@.skip(j + 2)) =~= before + split_sep_all(rest));
                from = j + 2;
            },
            None => {
                let piece = string_of_range(&v, from, v.len());
                let ghost before = views(out@);
                out.push(piece);
                assert(v@.subrange(from as int, v.len() as int) =~= rest);
                assert(views(out@) =~= before + split_sep_all(rest));
                return out;
            },
        }
    }
}

/// The symbol path with the crate prefix `crate::` (or a bare leading `::`) removed,
/// every repeated copy of it too.
pub open spec fn spec_clean_symbol_path(crate_name: Seq<char>, symbol_path: Seq<char>) -> Seq<char> {
    let cp = crate_name + "::"@;
    if has_prefix(symbol_path, cp) {
        trim_start_matches(symbol_path, cp)
    } else if has_prefix(symbol_path, "::"@) {
        trim_start_matches(symbol_path, "::"@)
    } else {
        symbol_path
    }
}

/// The pieces of a cleaned symbol path: cut at `/`, or at `::` when it has no `/`.
pub open spec fn spec_symbol_parts(clean: Seq<char>) -> Seq<Seq<char>> {
    let by_slash = split_all(clean, '/');
    if by_slash.len() == 1 {
        split_sep_all(clean)
    } else {
        by_slash
    }
}

/// The pieces of a symbol path as `lookup_item` reads it.
pub fn symbol_parts(crate_name: &str, symbol_path: &str) -> (r: Vec<String>)
    ensures
        views(r@) == spec_symbol_parts(spec_clean_symbol_path(crate_name@, symbol_path@)),
        r.len() >= 1,
{
    let mut cp = owned(crate_name);
    push_str(&mut cp, "::");
    let clean = if starts_with_str(symbol_path, cp.as_str()) {
        trim_start_matches_str(symbol_path, cp.as_str())
    } else if starts_with_str(symbol_path, "::") {
        trim_start_matches_str(symbol_path, "::")
    } else {
        owned(symbol_path)
    };
    let by_slash = split_char_str(clean.as_str(), '/');
    if by_slash.len() == 1 {
        let r = split_sep_str(clean.as_str());
        proof {
            lemma_split_sep_all_len(clean@);
        }
        r
    } else {
        proof {
            crate::text::lemma_split_all_len(clean@, '/');
        }
        by_slash
    }
}

proof fn lemma_split_sep_all_len(s: Seq<char>)
    ensures
        split_sep_all(s).len() >= 1,
    decreases s.len(),
{
    match find_sep(s) {
        Some(i) => if 0 <= i && i + 2 <= s.len() {
            lemma_split_sep_all_len(s.skip(i + 2));
        },
        None => {},
    }
}

/// The item kinds tried, in order.
pub open spec fn item_types() -> Seq<Seq<char>> {
    seq!["struct"@, "enum"@, "trait"@, "fn"@, "macro"@, "type"@, "constant"@, "mod"@]
}

/// The page of an item of kind `kind` under the documentation root `prefix`.
pub open spec fn spec_item_page(prefix: Seq<char>, mod_path: Seq<char>, item: Seq<char>, kind: Seq<char>) -> Seq<char> {
    let dir = if mod_path.len() == 0 {
        prefix
    } else {
        prefix + "/"@ + mod_path
    };
    if kind == "mod"@ {
        dir + "/"@ + item + "/index.html"@
    } else {
        dir + "/"@ + kind + "."@ + item + ".html"@
    }
}

/// The documentation root under which a crate's items live.
pub open spec fn spec_item_prefix(base: Seq<char>, crate_name: Seq<char>, version: Seq<char>) -> Seq<char> {
    if spec_is_std_crate(crate_name) {
        base + "/"@ + crate_name
    } else {
        base + "/"@ + crate_name + "/"@ + version + "/"@ + crate_name
    }
}

/// The external root of the `windows` crate's documentation.
pub open spec fn windows_prefix() -> Seq<char> {
    "https://microsoft.github.io/windows-docs-rs/doc/windows"@
}

/// The candidate pages for an item, one per kind, in the order they are tried.
pub open spec fn spec_item_urls(prefix: Seq<char>, parts: Seq<Seq<char>>) -> Seq<Seq<char>> {
    let item = parts.last();
    let mod_path = join(parts.drop_last(), "/"@);
    item_types().map_values(|k: Seq<char>| spec_item_page(prefix, mod_path, item, k))
}

pub fn item_prefix(base: &str, crate_name: &str, version: &str) -> (r: String)
    ensures
        r@ == spec_item_prefix(base@, crate_name@, version@),
{
    let mut r = owned(base);
    push_str(&mut r, "/");
    push_str(&mut r, crate_name);
    if !is_std_crate(crate_name) {
        push_str(&mut r, "/");
        push_str(&mut r, version);
        push_str(&mut r, "/");
        push_str(&mut r, crate_name);
    }
    r
}

/// The external root of the `windows` crate's documentation.
pub fn windows_item_prefix() -> (r: String)
    ensures
        r@ == windows_prefix(),
{
    owned("https://microsoft.github.io/windows-docs-rs/doc/windows")
}

fn item_page(prefix: &str, mod_path: &str, item: &str, kind: &str) -> (r: String)
    ensures
        r@ == spec_item_page(prefix@, mod_path@, item@, kind@),
{
    let mut r = owned(prefix);
    if !mod_path.is_empty() {
        push_str(&mut r, "/");
        push_str(&mut r, mod_path);
    }
    push_str(&mut r, "/");
    if str_eq(kind, "mod") {
        push_str(&mut r, item);
        push_str(&mut r, "/index.html");
    } else {
        push_str(&mut r, kind);
        push_str(&mut r, ".");
        push_str(&mut r, item);
        push_str(&mut r, ".html");
    }
    r
}

/// The candidate pages for an item under `prefix`, in the order they are tried.
pub fn item_urls(prefix: &str, parts: &Vec<String>) -> (r: Vec<String>)
    requires
        parts.len() >= 1,
    ensures
        views(r@) == spec_item_urls(prefix@, views(parts@)),
{
    let n = parts.len();
    let item = &parts[n - 1];
    let mut front: Vec<String> = Vec::new();
    let mut i: usize = 0;
    while i + 1 < n
        invariant
            n == parts.len(),
            i < n,
            views(front@) == views(parts@).take(i as int),
        decreases n - i,
    {
        let ghost before = views(front@);
        front.push(parts[i].clone());
        assert(views(front@) =~= before.push(parts@[i as int]@));
        assert(views(parts@).take(i + 1) =~= views(parts@).take(i as int).push(parts@[i as int]@));
        i = i + 1;
    }
    assert(views(parts@).take(i as int) =~= views(parts@).drop_last());
    let mp = join_strings(&front, "/");
    let kinds = ["struct", "enum", "trait", "fn", "macro", "type", "constant", "mod"];
    let mut r: Vec<String> = Vec::new();
    let mut k: usize = 0;
    proof {
        reveal_strlit("struct");
        reveal_strlit("enum");
        reveal_strlit("trait");
        reveal_strlit("fn");
        reveal_strlit("macro");
        reveal_strlit("type");
        reveal_strlit("constant");
        reveal_strlit("mod");
    }
    assert(kinds@.map_values(|x: &str| x@) =~= item_types());
    while k < 8
        invariant
            k <= 8,
            kinds@.map_values(|x: &str| x@) == item_types(),
            views(r@) == item_types().take(k as int).map_values(
                |kd: Seq<char>| spec_item_page(prefix@, mp@, item@, kd),
            ),
        decreases 8 - k,
    {
        let kind = kinds[k];
        assert(kind@ == item_types()[k as int]);
        let ghost before = views(r@);
        r.push(item_page(prefix, mp.as_str(), item.as_str(), kind));
        assert(views(r@) =~= before.push(spec_item_page(prefix@, mp@, item@, kind@)));
        assert(item_types().take(k + 1) =~= item_types().take(k as int).push(kind@));
        k = k + 1;
    }
    assert(item_types().take(8) =~= item_types());
    assert(views(parts@).last() == item@);
    r
}

/// Whether the `windows` crate's externally hosted documentation is tried after the
/// docs site fails.
pub fn uses_external_docs(crate_name: &str) -> (r: bool)
    ensures
        r == (crate_name@ == "windows"@),
{
    str_eq(crate_name, "windows")
}

/// The candidate pages of an item lookup, tried in order until one answers.
pub struct ItemSearch {
    urls: Vec<String>,
    next: usize,
    last_error: Option<String>,
}

impl ItemSearch {
    pub closed spec fn candidates(&self) -> Seq<Seq<char>> {
        views(self.urls@)
    }

    pub closed spec fn position(&self) -> nat {
        self.next as nat
    }

    pub closed spec fn last_request_error(&self) -> Option<Seq<char>> {
        opt_view(self.last_error)
    }

    pub closed spec fn inv(&self) -> bool {
        self.next <= self.urls.len()
    }

    /// A search over `urls`, none tried yet.
    pub fn new(urls: Vec<String>) -> (s: Self)
        ensures
            s.inv(),
            s.candidates() == views(urls@),
            s.position() == 0,
            s.last_request_error() is None,
    {
        ItemSearch { urls, next: 0, last_error: None }
    }

    /// The next page to request, if any is left.
    pub fn next_url(&self) -> (r: Option<String>)
        requires
            self.inv(),
        ensures
            match r {
                Some(u) => self.position() < self.candidates().len() && u@
                    == self.candidates()[self.position() as int],
                None => self.position() == self.candidates().len(),
            },
    {
        if self.next < self.urls.len() {
            Some(self.urls[self.next].clone())
        } else {
            None
        }
    }

    /// The current page could not be requested; its error is remembered.
    pub fn request_failed(&mut self, error: String)
        requires
            old(self).inv(),
            old(self).position() < old(self).candidates().len(),
        ensures
            final(self).inv(),
            final(self).candidates() == old(self).candidates(),
            final(self).position() == old(self).position() + 1,
            final(self).last_request_error() == Some(error@),
    {
        self.next = self.next + 1;
        self.last_error = Some(error);
    }

    /// The current page answered with a failure status; the search moves on.
    pub fn not_found(&mut self)
        requires
            old(self).inv(),
            old(self).position() < old(self).candidates().len(),
        ensures
            final(self).inv(),
            final(self).candidates() == old(self).candidates(),
            final(self).position() == old(self).position() + 1,
            final(self).last_request_error() == old(self).last_request_error(),
    {
        self.next = self.next + 1;
    }

    /// The error when every candidate failed: the last request error if there was one,
    /// else a 404.
    pub fn failure(&self) -> (e: DocsFetchError)
        ensures
            match self.last_request_error() {
                Some(m) => e is RequestError && e->RequestError_0@ == m,
                None => e is ItemNotFound && e->ItemNotFound_0@ == "Status: 404 Not Found"@,
            },
    {
        match &self.last_error {
            Some(m) => DocsFetchError::RequestError(m.clone()),
            None => DocsFetchError::ItemNotFound(owned("Status: 404 Not Found")),
        }
    }
}


// ---------------------------------------------------------------------------
// Search results and feature flags
// ---------------------------------------------------------------------------

/// One crate of a crates.io search.
#[derive(Debug, Clone)]
pub struct CrateSummary {
    pub name: String,
    pub max_version: String,
    pub description: Option<String>,
}

/// How many crates are asked from crates.io: the requested number (10 by default),
/// or for a fuzzy search at least 50 and twice the requested number.
pub open spec fn spec_fetch_limit(limit: Option<u32>, fuzzy: bool) -> nat {
    let requested: nat = match limit {
        Some(l) => l as nat,
        None => 10,
    };
    if fuzzy {
        if 50 >= requested * 2 {
            50
        } else {
            requested * 2
        }
    } else {
        requested
    }
}

pub fn search_fetch_limit(limit: Option<u32>, fuzzy: bool) -> (r: u32)
    requires
        fuzzy ==> match limit {
            Some(l) => l as nat * 2 <= u32::MAX,
            None => true,
        },
    ensures
        r as nat == spec_fetch_limit(limit, fuzzy),
{
    let requested = match limit {
        Some(l) => l,
        None => 10,
    };
    if fuzzy {
        let twice = requested * 2;
        if 50 >= twice {
            50
        } else {
            twice
        }
    } else {
        requested
    }
}

/// The crates.io search address.
pub open spec fn spec_search_url(query: Seq<char>, fetch_limit: nat) -> Seq<char> {
    "https://crates.io/api/v1/crates?q="@ + query + "&per_page="@ + decimal(fetch_limit)
}

pub fn search_url(query: &str, fetch_limit: u32) -> (r: String)
    ensures
        r@ == spec_search_url(query@, fetch_limit as nat),
{
    let mut r = owned("https://crates.io/api/v1/crates?q=");
    push_str(&mut r, query);
    push_str(&mut r, "&per_page=");
    crate::text::push_decimal(&mut r, fetch_limit as u64);
    r
}

pub open spec fn summary_row(c: CrateSummary) -> Seq<char> {
    "| "@ + c.name@ + " | "@ + c.max_version@ + " | "@ + replace_char(
        match c.description {
            Some(d) => d@,
            None => Seq::empty(),
        },
        '\n',
        ' ',
    ) + " |\n"@
}

pub open spec fn summary_rows(cs: Seq<CrateSummary>) -> Seq<char>
    decreases cs.len(),
{
    if cs.len() == 0 {
        Seq::empty()
    } else {
        summary_rows(cs.drop_last()) + summary_row(cs.last())
    }
}

/// The search answer: a title, then a table of the first `limit` crates (10 by default)
/// in the order given.
pub open spec fn spec_search_results(query: Seq<char>, fuzzy: bool, crates: Seq<CrateSummary>, limit: Option<u32>) -> Seq<char> {
    let requested: nat = match limit {
        Some(l) => l as nat,
        None => 10,
    };
    let shown = if crates.len() > requested {
        crates.take(requested as int)
    } else {
        crates
    };
    "# Search Results for '"@ + query + "' (fuzzy: "@ + (if fuzzy {
        "true"@
    } else {
        "false"@
    }) + ")\n\n"@
        + "| Crate | Latest Version | Description |\n|-------|----------------|-------------|\n"@
        + summary_rows(shown)
}

pub fn search_results(query: &str, fuzzy: bool, crates: &Vec<CrateSummary>, limit: Option<u32>) -> (r: String)
    ensures
        r@ == spec_search_results(query@, fuzzy, crates@, limit),
{
    let requested: usize = match limit {
        Some(l) => l as usize,
        None => 10,
    };
    let shown: usize = if crates.len() > requested {
        requested
    } else {
        crates.len()
    };
    let mut r = owned("# Search Results for '");
    push_str(&mut r, query);
    push_str(&mut r, "' (fuzzy: ");
    if fuzzy {
        push_str(&mut r, "true");
    } else {
        push_str(&mut r, "false");
    }
    push_str(&mut r, ")\n\n");
    push_str(
        &mut r,
        "| Crate | Latest Version | Description |\n|-------|----------------|-------------|\n",
    );
    let ghost head = r@;
    let mut i: usize = 0;
    assert(crates@.take(0) =~= Seq::<CrateSummary>::empty());
    while i < shown
        invariant
            i <= shown <= crates.len(),
            r@ == head + summary_rows(crates@.take(i as int)),
        decreases shown - i,
    {
        let c = &crates[i];
        push_str(&mut r, "| ");
        push_str(&mut r, c.name.as_str());
        push_str(&mut r, " | ");
        push_str(&mut r, c.max_version.as_str());
        push_str(&mut r, " | ");
        match &c.description {
            Some(d) => {
                let clean = replace_char_str(d.as_str(), '\n', ' ');
                push_str(&mut r, clean.as_str());
            },
            None => {
                let clean = replace_char_str("", '\n', ' ');
                push_str(&mut r, clean.as_str());
            },
        }
        push_str(&mut r, " |\n");
        assert(crates@.take(i + 1).drop_last() =~= crates@.take(i as int));
        assert(crates@.take(i + 1).last() == *c);
        proof {
            reveal_strlit("");
        }
        assert(r@ =~= head + summary_rows(crates@.take(i + 1)));
        i = i + 1;
    }
    if crates.len() > requested {
        assert(r@ == spec_search_results(query@, fuzzy, crates@, limit));
    } else {
        assert(crates@.take(i as int) =~= crates@);
    }
    r
}

/// Ordered by name.
pub open spec fn sorted_by_name(fs: Seq<(String, Vec<String>)>) -> bool {
    forall|i: int, j: int| 0 <= i < j < fs.len() ==> lex_le((#[trigger] fs[i]).0@, (#[trigger] fs[j]).0@)
}

/// No two features share a name (they are the keys of a map).
pub open spec fn names_distinct(fs: Seq<(String, Vec<String>)>) -> bool {
    forall|i: int, j: int| 0 <= i < fs.len() && 0 <= j < fs.len() && i != j ==> (#[trigger] fs[i]).0@ != (#[trigger] fs[j]).0@
}

/// The features ordered by name.
pub fn sort_features(features: Vec<(String, Vec<String>)>) -> (r: Vec<(String, Vec<String>)>)
    ensures
        r@.to_multiset() == features@.to_multiset(),
        sorted_by_name(r@),
{
    broadcast use vstd::seq_lib::group_to_multiset_ensures;

    let ghost orig = features@;
    let mut rem = features;
    let mut out: Vec<(String, Vec<String>)> = Vec::new();
    while rem.len() > 0
        invariant
            out@.to_multiset().add(rem@.to_multiset()) == orig.to_multiset(),
            sorted_by_name(out@),
            forall|i: int, j: int| 0 <= i < out.len() && 0 <= j < rem.len() ==> lex_le((#[trigger] out@[i]).0@, (#[trigger] rem@[j]).0@),
        decreases rem.len(),
    {
        let mut m: usize = 0;
        let mut k: usize = 1;
        proof {
            lemma_lex_total(rem@[0].0@, rem@[0].0@);
        }
        while k < rem.len()
            invariant
                m < k <= rem.len(),
                forall|j: int| 0 <= j < k ==> lex_le(rem@[m as int].0@, (#[trigger] rem@[j]).0@),
            decreases rem.len() - k,
        {
            proof {
                lemma_lex_total(rem@[m as int].0@, rem@[k as int].0@);
            }
            if !str_le(rem[m].0.as_str(), rem[k].0.as_str()) {
                proof {
                    assert forall|j: int| 0 <= j < k + 1 implies lex_le(rem@[k as int].0@, (#[trigger] rem@[j]).0@) by {
                        if j < k {
                            lemma_lex_trans(rem@[k as int].0@, rem@[m as int].0@, rem@[j].0@);
                        } else {
                            lemma_lex_total(rem@[k as int].0@, rem@[k as int].0@);
                        }
                    }
                }
                m = k;
            }
            k = k + 1;
        }
        let ghost old_rem = rem@;
        let ghost old_out = out@;
        let x = rem.remove(m);
        out.push(x);
        proof {
            old_rem.to_multiset_ensures();
            old_out.to_multiset_ensures();
        }
        assert(old_rem.remove(m as int).to_multiset() =~= old_rem.to_multiset().remove(x));
        assert(old_out.push(x).to_multiset() =~= old_out.to_multiset().insert(x));
        assert(old_rem.to_multiset().contains(x)) by {
            assert(old_rem.contains(x));
        }
        assert(out@.to_multiset().add(rem@.to_multiset()) =~= old_out.to_multiset().add(old_rem.to_multiset()));
        assert forall|i: int, j: int| 0 <= i < j < out.len() implies lex_le((#[trigger] out@[i]).0@, (#[trigger] out@[j]).0@) by {
            if j == out.len() - 1 {
                assert(out@[j] == old_rem[m as int]);
                assert(out@[i] == old_out[i]);
            } else {
                assert(out@[i] == old_out[i]);
                assert(out@[j] == old_out[j]);
            }
        }
        assert forall|i: int, j: int| 0 <= i < out.len() && 0 <= j < rem.len() implies lex_le((#[trigger] out@[i]).0@, (#[trigger] rem@[j]).0@) by {
            let jj = if j < m { j } else { j + 1 };
            assert(rem@[j] == old_rem[jj]);
            if i == out.len() - 1 {
                assert(out@[i] == old_rem[m as int]);
            } else {
                assert(out@[i] == old_out[i]);
            }
        }
    }
    assert(rem@.to_multiset() =~= vstd::multiset::Multiset::empty());
    assert(out@.to_multiset().add(rem@.to_multiset()) =~= out@.to_multiset());
    out
}

pub open spec fn feature_row(f: (String, Vec<String>)) -> Seq<char> {
    "| **"@ + f.0@ + "** | "@ + (if f.0@ == "default"@ {
        "Yes"@
    } else {
        "No"@
    }) + " | "@ + (if f.1@.len() == 0 {
        "-"@
    } else {
        join(views(f.1@), ", "@)
    }) + " |\n"@
}

pub open spec fn feature_rows(fs: Seq<(String, Vec<String>)>) -> Seq<char>
    decreases fs.len(),
{
    if fs.len() == 0 {
        Seq::empty()
    } else {
        feature_rows(fs.drop_last()) + feature_row(fs.last())
    }
}

fn push_feature_row(r: &mut String, f: &(String, Vec<String>))
    ensures
        final(r)@ == old(r)@ + feature_row(*f),
{
    push_str(r, "| **");
    push_str(r, f.0.as_str());
    push_str(r, "** | ");
    if str_eq(f.0.as_str(), "default") {
        push_str(r, "Yes");
    } else {
        push_str(r, "No");
    }
    push_str(r, " | ");
    if f.1.len() == 0 {
        push_str(r, "-");
    } else {
        let joined = join_strings(&f.1, ", ");
        push_str(r, joined.as_str());
    }
    push_str(r, " |\n");
    assert(r@ =~= old(r)@ + feature_row(*f));
}

/// The feature flag report of a crate version, its features already ordered.
pub open spec fn spec_feature_report(crate_name: Seq<char>, version: Seq<char>, sorted: Seq<(String, Vec<String>)>) -> Seq<char> {
    "# Feature Flags for "@ + crate_name + " "@ + version + "\n\n"@ + if sorted.len() == 0 {
        "No feature flags found.\n"@
    } else {
        "| Feature | Enabled By Default | Dependencies |\n|---------|--------------------|--------------|\n"@
            + feature_rows(sorted)
    }
}

/// The feature flag report of a crate version: one row per feature, by name, saying
/// whether it is the default set and what it enables.
pub fn feature_flags_report(crate_name: &str, version: &str, features: Vec<(String, Vec<String>)>) -> (r: String)
    requires
        names_distinct(features@),
    ensures
        exists|sorted: Seq<(String, Vec<String>)>|
            sorted.to_multiset() == features@.to_multiset() && sorted_by_name(sorted) && r@
                == spec_feature_report(crate_name@, version@, sorted),
{
    let sorted = sort_features(features);
    let mut r = owned("# Feature Flags for ");
    push_str(&mut r, crate_name);
    push_str(&mut r, " ");
    push_str(&mut r, version);
    push_str(&mut r, "\n\n");
    if sorted.len() == 0 {
        push_str(&mut r, "No feature flags found.\n");
        return r;
    }
    push_str(
        &mut r,
        "| Feature | Enabled By Default | Dependencies |\n|---------|--------------------|--------------|\n",
    );
    let ghost head = r@;
    let mut i: usize = 0;
    assert(sorted@.take(0) =~= Seq::<(String, Vec<String>)>::empty());
    while i < sorted.len()
        invariant
            i <= sorted.len(),
            r@ == head + feature_rows(sorted@.take(i as int)),
        decreases sorted.len() - i,
    {
        let f = &sorted[i];
        push_feature_row(&mut r, f);
        assert(sorted@.take(i + 1).drop_last() =~= sorted@.take(i as int));
        assert(sorted@.take(i + 1).last() == *f);
        assert(r@ =~= head + feature_rows(sorted@.take(i + 1)));
        i = i + 1;
    }
    assert(sorted@.take(sorted.len() as int) =~= sorted@);
    r
}

// ---------------------------------------------------------------------------
// Search by signature
// ---------------------------------------------------------------------------

/// A byte that `urlencoding` leaves as it is: ASCII alphanumerics and `-_.~`.
pub open spec fn url_safe_byte(b: u8) -> bool {
    (48 <= b <= 57) || (65 <= b <= 90) || (97 <= b <= 122) || b == 45 || b == 46 || b == 95 || b
        == 126
}

/// An upper-case hexadecimal digit.
pub open spec fn hex_upper(d: nat) -> char {
    if d < 10 {
        crate::text::digit_char(d)
    } else if d == 10 {
        'A'
    } else if d == 11 {
        'B'
    } else if d == 12 {
        'C'
    } else if d == 13 {
        'D'
    } else if d == 14 {
        'E'
    } else {
        'F'
    }
}

/// Percent-encoding of a byte string: safe bytes as their characters, every other byte
/// as `%` and two upper-case hexadecimal digits.
pub open spec fn percent_encode(bytes: Seq<u8>) -> Seq<char>
    decreases bytes.len(),
{
    if bytes.len() == 0 {
        Seq::empty()
    } else {
        let b = bytes.last();
        percent_encode(bytes.drop_last()) + if url_safe_byte(b) {
            seq![b as char]
        } else {
            seq!['%', hex_upper((b / 16) as nat), hex_upper((b % 16) as nat)]
        }
    }
}

fn hex_upper_exec(d: u8) -> (c: char)
    requires
        d < 16,
    ensures
        c == hex_upper(d as nat),
{
    if d < 10 {
        crate::text::digit_char_exec(d as u64)
    } else if d == 10 {
        'A'
    } else if d == 11 {
        'B'
    } else if d == 12 {
        'C'
    } else if d == 13 {
        'D'
    } else if d == 14 {
        'E'
    } else {
        'F'
    }
}

/// The percent-encoding of the UTF-8 bytes of `s`: ASCII alphanumerics and `-`, `_`,
/// `.`, `~` as themselves, every other byte as `%` and two upper-case hexadecimal
/// digits, which is what `urlencoding::encode` produces.
pub fn url_encode(s: &str) -> (r: String)
    ensures
        r@ == percent_encode(vstd::utf8::encode_utf8(s@)),
{
    let bytes = s.as_bytes();
    let mut r = String::new();
    let mut i: usize = 0;
    assert(bytes@.take(0) =~= Seq::<u8>::empty());
    while i < bytes.len()
        invariant
            i <= bytes@.len(),
            bytes@ == vstd::utf8::encode_utf8(s@),
            r@ == percent_encode(bytes@.take(i as int)),
        decreases bytes@.len() - i,
    {
        let b = bytes[i];
        assert(bytes@.take(i + 1).drop_last() =~= bytes@.take(i as int));
        assert(bytes@.take(i + 1).last() == b);
        let ghost before = r@;
        if (48 <= b && b <= 57) || (65 <= b && b <= 90) || (97 <= b && b <= 122) || b == 45 || b == 46 || b == 95
            || b == 126 {
            push_char(&mut r, b as char);
            assert(r@ =~= before + seq![b as char]);
        } else {
            push_char(&mut r, '%');
            push_char(&mut r, hex_upper_exec(b / 16));
            push_char(&mut r, hex_upper_exec(b % 16));
            assert(r@ =~= before + seq!['%', hex_upper((b / 16) as nat), hex_upper((b % 16) as nat)]);
        }
        i = i + 1;
    }
    assert(bytes@.take(bytes@.len() as int) =~= bytes@);
    r
}

/// The docs-site search page for a signature pattern.
pub open spec fn spec_signature_search_url(base: Seq<char>, crate_name: Seq<char>, version: Seq<char>, pattern: Seq<char>) -> Seq<char> {
    let q = percent_encode(vstd::utf8::encode_utf8(pattern));
    if spec_is_std_crate(crate_name) {
        base + "/"@ + crate_name + "/?search="@ + q
    } else {
        base + "/"@ + crate_name + "/"@ + version + "/"@ + crate_name + "/?search="@ + q
    }
}

/// The answer of `find_by_signature`: the search needs a browser, so it points to the
/// search page.
pub open spec fn spec_signature_message(url: Seq<char>) -> Seq<char> {
    "Search by signature requires client-side JavaScript and cannot be performed via this tool.\n\nPlease visit the search results page directly:\n"@
        + url
}

pub fn signature_search_message(base: &str, crate_name: &str, version: &str, pattern: &str) -> (r: String)
    ensures
        r@ == spec_signature_message(spec_signature_search_url(base@, crate_name@, version@, pattern@)),
{
    let q = url_encode(pattern);
    let mut url = owned(base);
    push_str(&mut url, "/");
    push_str(&mut url, crate_name);
    if is_std_crate(crate_name) {
        push_str(&mut url, "/?search=");
    } else {
        push_str(&mut url, "/");
        push_str(&mut url, version);
        push_str(&mut url, "/");
        push_str(&mut url, crate_name);
        push_str(&mut url, "/?search=");
    }
    push_str(&mut url, q.as_str());
    let mut r = owned(
        "Search by signature requires client-side JavaScript and cannot be performed via this tool.\n\nPlease visit the search results page directly:\n",
    );
    push_str(&mut r, url.as_str());
    r
}

// ---------------------------------------------------------------------------
// Laws of the overview header, the search answer and the feature report
// ---------------------------------------------------------------------------

/// A crate's repository, when it has one, is listed on its own line just before the
/// Docs line: the header with a repository is the header without one, with the line
/// `- **Repository**: <r>` inserted before `- **Docs**: <url>`.
pub proof fn lemma_header_lists_repository(
    crate_name: Seq<char>,
    version: Seq<char>,
    url: Seq<char>,
    description: Option<Seq<char>>,
    repository: Seq<char>,
)
    ensures
        ({
            let docs = "- **Docs**: "@ + url + "\n\n---\n\n"@;
            let without = spec_crate_header(crate_name, version, url, description, None);
            let top = without.take(without.len() - docs.len());
            &&& without.len() >= docs.len()
            &&& without == top + docs
            &&& spec_crate_header(crate_name, version, url, description, Some(repository)) == top
                + ("- **Repository**: "@ + repository + "\n"@) + docs
        }),
{
    let docs = "- **Docs**: "@ + url + "\n\n---\n\n"@;
    let head = "# Crate: "@ + crate_name + " "@ + version + "\n\n"@ + match description {
        Some(d) => "> "@ + d + "\n\n"@,
        None => Seq::<char>::empty(),
    };
    let without = spec_crate_header(crate_name, version, url, description, None);
    assert(without =~= head + docs);
    assert(without.take(without.len() - docs.len()) =~= head);
    assert(spec_crate_header(crate_name, version, url, description, Some(repository)) =~= head + (
    "- **Repository**: "@ + repository + "\n"@) + docs);
}

/// The search answer lists exactly the first `limit` crates (10 when no limit is given),
/// or all of them when there are fewer: it is the answer for no crates (title and table
/// header) followed by the rows of those crates, in order.
pub proof fn lemma_search_lists_first_crates(query: Seq<char>, fuzzy: bool, crates: Seq<CrateSummary>, limit: Option<u32>)
    ensures
        ({
            let wanted: nat = match limit {
                Some(l) => l as nat,
                None => 10,
            };
            let n: nat = if crates.len() < wanted {
                crates.len()
            } else {
                wanted
            };
            spec_search_results(query, fuzzy, crates, limit) == spec_search_results(query, fuzzy, Seq::empty(), limit)
                + summary_rows(crates.take(n as int))
        }),
{
    let e = Seq::<CrateSummary>::empty();
    assert(summary_rows(e.take(0)) == Seq::<char>::empty()) by {
        assert(e.take(0).len() == 0);
    }
    let wanted: nat = match limit {
        Some(l) => l as nat,
        None => 10,
    };
    if crates.len() <= wanted {
        assert(crates.take(crates.len() as int) =~= crates);
    }
    assert(spec_search_results(query, fuzzy, e, limit) =~= spec_search_results(query, fuzzy, e, limit) + summary_rows(
        e,
    ));
}

/// Without a limit the search answer is the one for a limit of 10.
pub proof fn lemma_search_default_limit(query: Seq<char>, fuzzy: bool, crates: Seq<CrateSummary>)
    ensures
        spec_search_results(query, fuzzy, crates, None) == spec_search_results(query, fuzzy, crates, Some(10u32)),
{
}

proof fn lemma_contains_append(a: Seq<char>, b: Seq<char>, p: Seq<char>)
    requires
        contains(a, p),
    ensures
        contains(a + b, p),
{
    let i = choose|i: int| occurs_at(a, p, i);
    assert((a + b).subrange(i, i + p.len()) =~= a.subrange(i, i + p.len()));
    assert(occurs_at(a + b, p, i));
}

proof fn lemma_contains_prepend(a: Seq<char>, b: Seq<char>, p: Seq<char>)
    requires
        contains(b, p),
    ensures
        contains(a + b, p),
{
    let i = choose|i: int| occurs_at(b, p, i);
    assert((a + b).subrange(a.len() + i, a.len() + i + p.len()) =~= b.subrange(i, i + p.len()));
    assert(occurs_at(a + b, p, a.len() + i));
}

/// Every piece occurs in the pieces joined.
proof fn lemma_join_contains_each(parts: Seq<Seq<char>>, sep: Seq<char>, k: int)
    requires
        0 <= k < parts.len(),
    ensures
        contains(join(parts, sep), parts[k]),
    decreases parts.len(),
{
    if parts.len() == 1 {
        assert(join(parts, sep).subrange(0, parts[0].len() as int) =~= parts[0]);
        assert(occurs_at(join(parts, sep), parts[0], 0));
    } else if k == parts.len() - 1 {
        let front = join(parts.drop_last(), sep) + sep;
        assert(join(parts, sep) == front + parts.last());
        assert((front + parts.last()).subrange(front.len() as int, (front.len() + parts.last().len()) as int) =~= parts.last());
        assert(occurs_at(join(parts, sep), parts[k], front.len() as int));
    } else {
        lemma_join_contains_each(parts.drop_last(), sep, k);
        assert(parts.drop_last()[k] == parts[k]);
        lemma_contains_append(join(parts.drop_last(), sep), sep + parts.last(), parts[k]);
        assert(join(parts.drop_last(), sep) + (sep + parts.last()) =~= join(parts, sep));
    }
}

/// A feature's row ends with every feature or dependency it enables, in order, joined by
/// `, ` (or `-` when it enables nothing), and each of them occurs in the row.
pub proof fn lemma_feature_row_lists_all_enabled(f: (String, Vec<String>))
    ensures
        f.1@.len() > 0 ==> exists|front: Seq<char>|
            feature_row(f) == front + join(views(f.1@), ", "@) + " |\n"@,
        f.1@.len() == 0 ==> exists|front: Seq<char>| feature_row(f) == front + "-"@ + " |\n"@,
        forall|k: int| 0 <= k < f.1@.len() ==> contains(feature_row(f), #[trigger] f.1@[k]@),
        has_prefix(feature_row(f), "| **"@ + f.0@ + "** | "@),
{
    let front = "| **"@ + f.0@ + "** | "@ + (if f.0@ == "default"@ {
        "Yes"@
    } else {
        "No"@
    }) + " | "@;
    let p = "| **"@ + f.0@ + "** | "@;
    assert(feature_row(f).subrange(0, p.len() as int) =~= p);
    if f.1@.len() > 0 {
        let j = join(views(f.1@), ", "@);
        assert(feature_row(f) =~= front + j + " |\n"@);
        assert forall|k: int| 0 <= k < f.1@.len() implies contains(feature_row(f), #[trigger] f.1@[k]@) by {
            assert(views(f.1@)[k] == f.1@[k]@);
            lemma_join_contains_each(views(f.1@), ", "@, k);
            lemma_contains_prepend(front, j, f.1@[k]@);
            lemma_contains_append(front + j, " |\n"@, f.1@[k]@);
        }
    } else {
        assert(feature_row(f) =~= front + "-"@ + " |\n"@);
    }
}

} // verus!
