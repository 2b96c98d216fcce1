use vstd::prelude::*;
use crate::docs_parser::{CacheKey, CacheKeyView, DocContent, DocsRsParams, opt_view};
use crate::text::{last_index_of, to_chars, string_of_range, decimal, has_prefix, lemma_decimal, lemma_no_colon_sep_free, lemma_parse_decimal, lemma_sep_free_then, owned, parse_unsigned, parse_unsigned_exec, push_decimal, push_str, sep, sep_free, split_n, splitn_sep, str_eq, strip_prefix, strip_prefix_str};

verus! {

// ---------------------------------------------------------------------------
// Normalized keys: specification
// ---------------------------------------------------------------------------

/// The crate name under which keys that belong to no crate are filed.
pub open spec fn global_crate() -> Seq<char> {
    "__global__"@
}

/// The version written for an absent one.
pub open spec fn latest() -> Seq<char> {
    "latest"@
}

pub open spec fn ver_or_latest(v: Option<Seq<char>>) -> Seq<char> {
    match v {
        Some(x) => x,
        None => latest(),
    }
}

pub open spec fn count_or_zero(n: Option<usize>) -> nat {
    match n {
        Some(x) => x as nat,
        None => 0,
    }
}

/// The file (crate) a key is stored under.
pub open spec fn spec_crate_name(k: CacheKeyView) -> Seq<char> {
    match k {
        CacheKeyView::FindCrates { .. } => global_crate(),
        CacheKeyView::GetCrateOverview { crate_name, .. } => crate_name,
        CacheKeyView::GetCrateModules { crate_name, .. } => crate_name,
        CacheKeyView::GetSymbolDocs { crate_name, .. } => crate_name,
        CacheKeyView::FetchRawDoc { crate_name, .. } => crate_name,
        CacheKeyView::ReadSourceFile { crate_name, .. } => crate_name,
        CacheKeyView::GetCrateDependencies { crate_name, .. } => crate_name,
        CacheKeyView::GetCrateExamples { crate_name, .. } => crate_name,
        CacheKeyView::AnalyzeFeatureFlags { crate_name, .. } => crate_name,
        CacheKeyView::FindBySignature { crate_name, .. } => crate_name,
        CacheKeyView::FindTraitImplementors { crate_name, .. } => crate_name,
        CacheKeyView::GetContextBundle { crate_name, .. } => crate_name,
    }
}

/// The string a key is stored as inside its crate's file.
pub open spec fn spec_normalize_key(k: CacheKeyView) -> Seq<char> {
    match k {
        CacheKeyView::FindCrates { query, limit, .. } => "search::"@ + query + sep() + decimal(
            match limit {
                Some(l) => l as nat,
                None => 0,
            },
        ),
        CacheKeyView::GetCrateOverview { version, .. } => "landing::"@ + ver_or_latest(version),
        CacheKeyView::GetCrateModules { version, limit, .. } => "modules::"@ + ver_or_latest(
            version,
        ) + sep() + decimal(count_or_zero(limit)),
        CacheKeyView::GetSymbolDocs { version, symbol_path, .. } => "item::"@ + ver_or_latest(
            version,
        ) + sep() + symbol_path,
        CacheKeyView::FetchRawDoc { version, path, .. } => "doc::"@ + version + sep() + path,
        CacheKeyView::ReadSourceFile { version, path, start_line, end_line, .. } => "source::"@
            + ver_or_latest(version) + sep() + decimal(count_or_zero(start_line)) + sep()
            + decimal(count_or_zero(end_line)) + sep() + path,
        CacheKeyView::GetCrateDependencies { version, kind, .. } => "deps::"@ + version + sep()
            + match kind {
            Some(x) => x,
            None => "all"@,
        },
        CacheKeyView::GetCrateExamples { version, limit, .. } => "examples::"@ + ver_or_latest(
            version,
        ) + sep() + decimal(count_or_zero(limit)),
        CacheKeyView::AnalyzeFeatureFlags { version, .. } => "features::"@ + version,
        CacheKeyView::FindTraitImplementors { version, trait_path, limit, .. } =>
            "trait_impls::"@ + ver_or_latest(version) + sep() + decimal(count_or_zero(limit))
            + sep() + trait_path,
        CacheKeyView::GetContextBundle { version, .. } => "bundle::"@ + ver_or_latest(version),
        CacheKeyView::FindBySignature { version, signature_pattern, .. } => "signature::"@
            + ver_or_latest(version) + sep() + signature_pattern,
    }
}

/// A stored version field: `latest` stands for an absent version.
pub open spec fn version_field(s: Seq<char>) -> Option<Seq<char>> {
    if s == latest() {
        None
    } else {
        Some(s)
    }
}

/// A stored count of type `usize`: a positive number, or absent.
pub open spec fn count_field(s: Seq<char>) -> Option<usize> {
    match parse_unsigned(s, usize::MAX as nat) {
        Some(n) => if n > 0 {
            Some(n as usize)
        } else {
            None
        },
        None => None,
    }
}

/// A stored search limit of type `u32`: a positive number, or absent.
pub open spec fn limit_field(s: Seq<char>) -> Option<u32> {
    match parse_unsigned(s, u32::MAX as nat) {
        Some(n) => if n > 0 {
            Some(n as u32)
        } else {
            None
        },
        None => None,
    }
}

pub open spec fn global_key_error(k: Seq<char>) -> Seq<char> {
    "Invalid global key: "@ + k
}

pub open spec fn crate_key_error(c: Seq<char>, k: Seq<char>) -> Seq<char> {
    "Invalid normalized key format for crate "@ + c + ": "@ + k
}

/// Reading back a key stored in the global file.
pub open spec fn denormalize_global(k: Seq<char>) -> Result<CacheKeyView, Seq<char>> {
    match strip_prefix(k, "search::"@) {
        Some(rest) => {
            let parts = split_n(rest, 2);
            if parts.len() == 2 {
                Ok(CacheKeyView::FindCrates { query: parts[0], limit: limit_field(parts[1]), fuzzy: None })
            } else {
                Err(global_key_error(k))
            }
        },
        None => Err(global_key_error(k)),
    }
}

/// Reading back a key stored in the file of crate `c`, by its tag.
pub open spec fn denormalize_in_crate(c: Seq<char>, k: Seq<char>) -> Result<CacheKeyView, Seq<char>> {
    let err = Err(crate_key_error(c, k));
    match strip_prefix(k, "doc::"@) {
        Some(rest) => {
            let p = split_n(rest, 2);
            if p.len() == 2 {
                Ok(CacheKeyView::FetchRawDoc { crate_name: c, version: p[0], path: p[1] })
            } else {
                err
            }
        },
        None => match strip_prefix(k, "landing::"@) {
            Some(rest) => Ok(
                CacheKeyView::GetCrateOverview { crate_name: c, version: version_field(rest) },
            ),
            None => match strip_prefix(k, "modules::"@) {
                Some(rest) => {
                    let p = split_n(rest, 2);
                    if p.len() == 2 {
                        Ok(
                            CacheKeyView::GetCrateModules {
                                crate_name: c,
                                version: version_field(p[0]),
                                limit: count_field(p[1]),
                            },
                        )
                    } else {
                        Ok(
                            CacheKeyView::GetCrateModules {
                                crate_name: c,
                                version: version_field(rest),
                                limit: None,
                            },
                        )
                    }
                },
                None => match strip_prefix(k, "item::"@) {
                    Some(rest) => {
                        let p = split_n(rest, 2);
                        if p.len() == 2 {
                            Ok(
                                CacheKeyView::GetSymbolDocs {
                                    crate_name: c,
                                    symbol_path: p[1],
                                    version: version_field(p[0]),
                                },
                            )
                        } else {
                            err
                        }
                    },
                    None => denormalize_in_crate_rest(c, k),
                },
            },
        },
    }
}

/// Reading back a key by its tag, for the tags after `item::`.
pub open spec fn denormalize_in_crate_rest(c: Seq<char>, k: Seq<char>) -> Result<CacheKeyView, Seq<char>> {
    let err = Err(crate_key_error(c, k));
    match strip_prefix(k, "source::"@) {
        Some(rest) => {
            let p = split_n(rest, 4);
            if p.len() == 4 {
                Ok(
                    CacheKeyView::ReadSourceFile {
                        crate_name: c,
                        path: p[3],
                        version: version_field(p[0]),
                        start_line: count_field(p[1]),
                        end_line: count_field(p[2]),
                    },
                )
            } else if p.len() == 2 {
                Ok(
                    CacheKeyView::ReadSourceFile {
                        crate_name: c,
                        path: p[1],
                        version: version_field(p[0]),
                        start_line: None,
                        end_line: None,
                    },
                )
            } else {
                err
            }
        },
        None => match strip_prefix(k, "deps::"@) {
            Some(rest) => {
                let p = split_n(rest, 2);
                if p.len() == 2 {
                    Ok(
                        CacheKeyView::GetCrateDependencies {
                            crate_name: c,
                            version: p[0],
                            kind: if p[1] == "all"@ {
                                None
                            } else {
                                Some(p[1])
                            },
                        },
                    )
                } else {
                    Ok(CacheKeyView::GetCrateDependencies { crate_name: c, version: rest, kind: None })
                }
            },
            None => match strip_prefix(k, "examples::"@) {
                Some(rest) => {
                    let p = split_n(rest, 2);
                    if p.len() == 2 {
                        Ok(
                            CacheKeyView::GetCrateExamples {
                                crate_name: c,
                                version: version_field(p[0]),
                                limit: count_field(p[1]),
                            },
                        )
                    } else {
                        Ok(
                            CacheKeyView::GetCrateExamples {
                                crate_name: c,
                                version: version_field(rest),
                                limit: None,
                            },
                        )
                    }
                },
                None => match strip_prefix(k, "features::"@) {
                    Some(rest) => Ok(
                        CacheKeyView::AnalyzeFeatureFlags { crate_name: c, version: rest },
                    ),
                    None => denormalize_in_crate_last(c, k),
                },
            },
        },
    }
}

/// Reading back a key by its tag, for the last tags, and the untagged form
/// `version::path` of raw documentation pages.
pub open spec fn denormalize_in_crate_last(c: Seq<char>, k: Seq<char>) -> Result<CacheKeyView, Seq<char>> {
    let err = Err(crate_key_error(c, k));
    match strip_prefix(k, "trait_impls::"@) {
        Some(rest) => {
            let p = split_n(rest, 3);
            if p.len() == 3 {
                Ok(
                    CacheKeyView::FindTraitImplementors {
                        crate_name: c,
                        trait_path: p[2],
                        version: version_field(p[0]),
                        limit: count_field(p[1]),
                    },
                )
            } else if p.len() == 2 {
                Ok(
                    CacheKeyView::FindTraitImplementors {
                        crate_name: c,
                        trait_path: p[1],
                        version: version_field(p[0]),
                        limit: None,
                    },
                )
            } else {
                err
            }
        },
        None => match strip_prefix(k, "bundle::"@) {
            Some(rest) => Ok(
                CacheKeyView::GetContextBundle { crate_name: c, version: version_field(rest) },
            ),
            None => match strip_prefix(k, "signature::"@) {
                Some(rest) => {
                    let p = split_n(rest, 2);
                    if p.len() == 2 {
                        Ok(
                            CacheKeyView::FindBySignature {
                                crate_name: c,
                                signature_pattern: p[1],
                                version: version_field(p[0]),
                            },
                        )
                    } else {
                        err
                    }
                },
                None => {
                    let p = split_n(k, 2);
                    if p.len() == 2 {
                        Ok(CacheKeyView::FetchRawDoc { crate_name: c, version: p[0], path: p[1] })
                    } else {
                        err
                    }
                },
            },
        },
    }
}

/// Reading back the key stored as `k` in the file of crate `c`.
#[verifier::opaque]
pub open spec fn spec_denormalize_key(c: Seq<char>, k: Seq<char>) -> Result<CacheKeyView, Seq<char>> {
    if c == global_crate() {
        denormalize_global(k)
    } else {
        denormalize_in_crate(c, k)
    }
}

// ---------------------------------------------------------------------------
// Normalized keys: code
// ---------------------------------------------------------------------------

/// Helper to extract crate name for file organization
pub fn get_crate_name(key: &CacheKey) -> (r: String)
    ensures
        r@ == spec_crate_name(key@),
{
    match key {
        CacheKey::FetchRawDoc(p) => p.crate_name.clone(),
        CacheKey::FindCrates { .. } => owned("__global__"),
        CacheKey::GetCrateOverview { crate_name, .. } => crate_name.clone(),
        CacheKey::GetCrateModules { crate_name, .. } => crate_name.clone(),
        CacheKey::GetSymbolDocs { crate_name, .. } => crate_name.clone(),
        CacheKey::ReadSourceFile { crate_name, .. } => crate_name.clone(),
        CacheKey::GetCrateDependencies { crate_name, .. } => crate_name.clone(),
        CacheKey::GetCrateExamples { crate_name, .. } => crate_name.clone(),
        CacheKey::AnalyzeFeatureFlags { crate_name, .. } => crate_name.clone(),
        CacheKey::FindTraitImplementors { crate_name, .. } => crate_name.clone(),
        CacheKey::GetContextBundle { crate_name, .. } => crate_name.clone(),
        CacheKey::FindBySignature { crate_name, .. } => crate_name.clone(),
    }
}

/// Appends a version, `latest` when absent.
fn push_version(out: &mut String, v: &Option<String>)
    ensures
        final(out)@ == old(out)@ + ver_or_latest(opt_view(*v)),
{
    match v {
        Some(x) => push_str(out, x.as_str()),
        None => push_str(out, "latest"),
    }
}

/// Appends a count, `0` when absent.
fn push_count(out: &mut String, n: &Option<usize>)
    ensures
        final(out)@ == old(out)@ + decimal(count_or_zero(*n)),
{
    match n {
        Some(x) => push_decimal(out, *x as u64),
        None => push_decimal(out, 0),
    }
}

/// Normalizes cache key into a string for storage within a crate file.
pub fn normalize_key(key: &CacheKey) -> (r: String)
    ensures
        r@ == spec_normalize_key(key@),
{
    let mut out = String::new();
    match key {
        CacheKey::FetchRawDoc(p) => {
            push_str(&mut out, "doc::");
            push_str(&mut out, p.version.as_str());
            push_str(&mut out, "::");
            push_str(&mut out, p.path.as_str());
        },
        CacheKey::FindCrates { query, limit, .. } => {
            push_str(&mut out, "search::");
            push_str(&mut out, query.as_str());
            push_str(&mut out, "::");
            match limit {
                Some(l) => push_decimal(&mut out, *l as u64),
                None => push_decimal(&mut out, 0),
            }
        },
        CacheKey::GetCrateOverview { version, .. } => {
            push_str(&mut out, "landing::");
            push_version(&mut out, version);
        },
        CacheKey::GetCrateModules { version, limit, .. } => {
            push_str(&mut out, "modules::");
            push_version(&mut out, version);
            push_str(&mut out, "::");
            push_count(&mut out, limit);
        },
        CacheKey::GetSymbolDocs { version, symbol_path, .. } => {
            push_str(&mut out, "item::");
            push_version(&mut out, version);
            push_str(&mut out, "::");
            push_str(&mut out, symbol_path.as_str());
        },
        CacheKey::ReadSourceFile { version, path, start_line, end_line, .. } => {
            push_str(&mut out, "source::");
            push_version(&mut out, version);
            push_str(&mut out, "::");
            push_count(&mut out, start_line);
            push_str(&mut out, "::");
            push_count(&mut out, end_line);
            push_str(&mut out, "::");
            push_str(&mut out, path.as_str());
        },
        CacheKey::GetCrateDependencies { version, kind, .. } => {
            push_str(&mut out, "deps::");
            push_str(&mut out, version.as_str());
            push_str(&mut out, "::");
            match kind {
                Some(k) => push_str(&mut out, k.as_str()),
                None => push_str(&mut out, "all"),
            }
        },
        CacheKey::GetCrateExamples { version, limit, .. } => {
            push_str(&mut out, "examples::");
            push_version(&mut out, version);
            push_str(&mut out, "::");
            push_count(&mut out, limit);
        },
        CacheKey::AnalyzeFeatureFlags { version, .. } => {
            push_str(&mut out, "features::");
            push_str(&mut out, version.as_str());
        },
        CacheKey::FindTraitImplementors { version, trait_path, limit, .. } => {
            push_str(&mut out, "trait_impls::");
            push_version(&mut out, version);
            push_str(&mut out, "::");
            push_count(&mut out, limit);
            push_str(&mut out, "::");
            push_str(&mut out, trait_path.as_str());
        },
        CacheKey::GetContextBundle { version, .. } => {
            push_str(&mut out, "bundle::");
            push_version(&mut out, version);
        },
        CacheKey::FindBySignature { version, signature_pattern, .. } => {
            push_str(&mut out, "signature::");
            push_version(&mut out, version);
            push_str(&mut out, "::");
            push_str(&mut out, signature_pattern.as_str());
        },
    }
    proof {
        reveal_strlit("::");
        assert("::"@ =~= sep());
    }
    assert(out@ =~= spec_normalize_key(key@));
    out
}


/// Maps a stored result onto the shape `denormalize_key` promises.
pub open spec fn key_result_matches(r: Result<CacheKey, String>, spec: Result<CacheKeyView, Seq<char>>) -> bool {
    match r {
        Ok(k) => spec == Ok::<CacheKeyView, Seq<char>>(k@),
        Err(e) => spec == Err::<CacheKeyView, Seq<char>>(e@),
    }
}

fn version_field_exec(s: &String) -> (r: Option<String>)
    ensures
        opt_view(r) == version_field(s@),
{
    if str_eq(s.as_str(), "latest") {
        None
    } else {
        Some(s.clone())
    }
}

fn count_field_exec(s: &String) -> (r: Option<usize>)
    ensures
        r == count_field(s@),
{
    match parse_unsigned_exec(s.as_str(), usize::MAX as u64) {
        Some(n) => if n > 0 {
            Some(n as usize)
        } else {
            None
        },
        None => None,
    }
}

fn limit_field_exec(s: &String) -> (r: Option<u32>)
    ensures
        r == limit_field(s@),
{
    match parse_unsigned_exec(s.as_str(), u32::MAX as u64) {
        Some(n) => if n > 0 {
            Some(n as u32)
        } else {
            None
        },
        None => None,
    }
}

fn global_error(k: &str) -> (e: String)
    ensures
        e@ == global_key_error(k@),
{
    let mut e = String::new();
    push_str(&mut e, "Invalid global key: ");
    push_str(&mut e, k);
    e
}

fn crate_error(c: &str, k: &str) -> (e: String)
    ensures
        e@ == crate_key_error(c@, k@),
{
    let mut e = String::new();
    push_str(&mut e, "Invalid normalized key format for crate ");
    push_str(&mut e, c);
    push_str(&mut e, ": ");
    push_str(&mut e, k);
    e
}

fn denormalize_global_exec(k: &str) -> (r: Result<CacheKey, String>)
    ensures
        key_result_matches(r, denormalize_global(k@)),
{
    match strip_prefix_str(k, "search::") {
        Some(rest) => {
            let parts = splitn_sep(rest.as_str(), 2);
            if parts.len() == 2 {
                let query = parts[0].clone();
                let limit = limit_field_exec(&parts[1]);
                Ok(CacheKey::FindCrates { query, limit, fuzzy: None })
            } else {
                Err(global_error(k))
            }
        },
        None => Err(global_error(k)),
    }
}

fn denormalize_in_crate_exec(c: &str, k: &str) -> (r: Result<CacheKey, String>)
    ensures
        key_result_matches(r, denormalize_in_crate(c@, k@)),
{
    if let Some(rest) = strip_prefix_str(k, "doc::") {
        let p = splitn_sep(rest.as_str(), 2);
        if p.len() == 2 {
            return Ok(
                CacheKey::FetchRawDoc(
                    DocsRsParams { crate_name: owned(c), version: p[0].clone(), path: p[1].clone() },
                ),
            );
        }
        return Err(crate_error(c, k));
    }
    if let Some(rest) = strip_prefix_str(k, "landing::") {
        return Ok(
            CacheKey::GetCrateOverview { crate_name: owned(c), version: version_field_exec(&rest) },
        );
    }
    if let Some(rest) = strip_prefix_str(k, "modules::") {
        let p = splitn_sep(rest.as_str(), 2);
        if p.len() == 2 {
            return Ok(
                CacheKey::GetCrateModules {
                    crate_name: owned(c),
                    version: version_field_exec(&p[0]),
                    limit: count_field_exec(&p[1]),
                },
            );
        }
        return Ok(
            CacheKey::GetCrateModules {
                crate_name: owned(c),
                version: version_field_exec(&rest),
                limit: None,
            },
        );
    }
    if let Some(rest) = strip_prefix_str(k, "item::") {
        let p = splitn_sep(rest.as_str(), 2);
        if p.len() == 2 {
            return Ok(
                CacheKey::GetSymbolDocs {
                    crate_name: owned(c),
                    symbol_path: p[1].clone(),
                    version: version_field_exec(&p[0]),
                },
            );
        }
        return Err(crate_error(c, k));
    }
    denormalize_in_crate_rest_exec(c, k)
}

fn denormalize_in_crate_rest_exec(c: &str, k: &str) -> (r: Result<CacheKey, String>)
    ensures
        key_result_matches(r, denormalize_in_crate_rest(c@, k@)),
{
    if let Some(rest) = strip_prefix_str(k, "source::") {
        let p = splitn_sep(rest.as_str(), 4);
        if p.len() == 4 {
            return Ok(
                CacheKey::ReadSourceFile {
                    crate_name: owned(c),
                    path: p[3].clone(),
                    version: version_field_exec(&p[0]),
                    start_line: count_field_exec(&p[1]),
                    end_line: count_field_exec(&p[2]),
                },
            );
        } else if p.len() == 2 {
            return Ok(
                CacheKey::ReadSourceFile {
                    crate_name: owned(c),
                    path: p[1].clone(),
                    version: version_field_exec(&p[0]),
                    start_line: None,
                    end_line: None,
                },
            );
        }
        return Err(crate_error(c, k));
    }
    if let Some(rest) = strip_prefix_str(k, "deps::") {
        let p = splitn_sep(rest.as_str(), 2);
        if p.len() == 2 {
            let kind = if str_eq(p[1].as_str(), "all") {
                None
            } else {
                Some(p[1].clone())
            };
            return Ok(
                CacheKey::GetCrateDependencies { crate_name: owned(c), version: p[0].clone(), kind },
            );
        }
        return Ok(CacheKey::GetCrateDependencies { crate_name: owned(c), version: rest, kind: None });
    }
    if let Some(rest) = strip_prefix_str(k, "examples::") {
        let p = splitn_sep(rest.as_str(), 2);
        if p.len() == 2 {
            return Ok(
                CacheKey::GetCrateExamples {
                    crate_name: owned(c),
                    version: version_field_exec(&p[0]),
                    limit: count_field_exec(&p[1]),
                },
            );
        }
        return Ok(
            CacheKey::GetCrateExamples {
                crate_name: owned(c),
                version: version_field_exec(&rest),
                limit: None,
            },
        );
    }
    if let Some(rest) = strip_prefix_str(k, "features::") {
        return Ok(CacheKey::AnalyzeFeatureFlags { crate_name: owned(c), version: rest });
    }
    denormalize_in_crate_last_exec(c, k)
}

fn denormalize_in_crate_last_exec(c: &str, k: &str) -> (r: Result<CacheKey, String>)
    ensures
        key_result_matches(r, denormalize_in_crate_last(c@, k@)),
{
    if let Some(rest) = strip_prefix_str(k, "trait_impls::") {
        let p = splitn_sep(rest.as_str(), 3);
        if p.len() == 3 {
            return Ok(
                CacheKey::FindTraitImplementors {
                    crate_name: owned(c),
                    trait_path: p[2].clone(),
                    version: version_field_exec(&p[0]),
                    limit: count_field_exec(&p[1]),
                },
            );
        } else if p.len() == 2 {
            return Ok(
                CacheKey::FindTraitImplementors {
                    crate_name: owned(c),
                    trait_path: p[1].clone(),
                    version: version_field_exec(&p[0]),
                    limit: None,
                },
            );
        }
        return Err(crate_error(c, k));
    }
    if let Some(rest) = strip_prefix_str(k, "bundle::") {
        return Ok(
            CacheKey::GetContextBundle { crate_name: owned(c), version: version_field_exec(&rest) },
        );
    }
    if let Some(rest) = strip_prefix_str(k, "signature::") {
        let p = splitn_sep(rest.as_str(), 2);
        if p.len() == 2 {
            return Ok(
                CacheKey::FindBySignature {
                    crate_name: owned(c),
                    signature_pattern: p[1].clone(),
                    version: version_field_exec(&p[0]),
                },
            );
        }
        return Err(crate_error(c, k));
    }
    let p = splitn_sep(k, 2);
    if p.len() == 2 {
        return Ok(
            CacheKey::FetchRawDoc(
                DocsRsParams { crate_name: owned(c), version: p[0].clone(), path: p[1].clone() },
            ),
        );
    }
    Err(crate_error(c, k))
}

/// Reconstructs CacheKey from a normalized string and crate name.
pub fn denormalize_key(crate_name: &str, normalized_key: &str) -> (r: Result<CacheKey, String>)
    ensures
        key_result_matches(r, spec_denormalize_key(crate_name@, normalized_key@)),
{
    reveal(spec_denormalize_key);
    if str_eq(crate_name, "__global__") {
        denormalize_global_exec(normalized_key)
    } else {
        denormalize_in_crate_exec(crate_name, normalized_key)
    }
}


// ---------------------------------------------------------------------------
// Reading a normalized key back
// ---------------------------------------------------------------------------

/// A version field that is stored and read back unchanged: not the word `latest`,
/// and without a `::` that would cut it short.
pub open spec fn version_ok(v: Option<Seq<char>>) -> bool {
    match v {
        Some(x) => x != latest() && sep_free(x),
        None => true,
    }
}

/// The keys that the normalized form keeps apart: reading back the stored form gives
/// the key itself. A search key loses its `fuzzy` flag and a zero limit reads back as
/// no limit; a version `latest` reads back as no version; a `::` inside a field that is
/// followed by another one moves the cut; and a crate named like the global file reads
/// back as a search.
pub open spec fn round_trips(k: CacheKeyView) -> bool {
    match k {
        CacheKeyView::FindCrates { query, limit, fuzzy } => sep_free(query) && limit != Some(0u32)
            && fuzzy is None,
        CacheKeyView::GetCrateOverview { crate_name, version } => crate_name != global_crate()
            && version != Some(latest()),
        CacheKeyView::GetCrateModules { crate_name, version, limit } => crate_name
            != global_crate() && version_ok(version) && limit != Some(0usize),
        CacheKeyView::GetSymbolDocs { crate_name, version, .. } => crate_name != global_crate()
            && version_ok(version),
        CacheKeyView::FetchRawDoc { crate_name, version, .. } => crate_name != global_crate()
            && sep_free(version),
        CacheKeyView::ReadSourceFile { crate_name, version, start_line, end_line, .. } =>
            crate_name != global_crate() && version_ok(version) && start_line != Some(0usize)
            && end_line != Some(0usize),
        CacheKeyView::GetCrateDependencies { crate_name, version, kind } => crate_name
            != global_crate() && sep_free(version) && kind != Some("all"@),
        CacheKeyView::GetCrateExamples { crate_name, version, limit } => crate_name
            != global_crate() && version_ok(version) && limit != Some(0usize),
        CacheKeyView::AnalyzeFeatureFlags { crate_name, .. } => crate_name != global_crate(),
        CacheKeyView::FindTraitImplementors { crate_name, version, limit, .. } => crate_name
            != global_crate() && version_ok(version) && limit != Some(0usize),
        CacheKeyView::GetContextBundle { crate_name, version } => crate_name != global_crate()
            && version != Some(latest()),
        CacheKeyView::FindBySignature { crate_name, version, .. } => crate_name
            != global_crate() && version_ok(version),
    }
}

proof fn lemma_tagged(t: Seq<char>, x: Seq<char>)
    ensures
        strip_prefix(t + x, t) == Some(x),
        forall|i: int| 0 <= i < t.len() ==> #[trigger] (t + x)[i] == t[i],
{
    assert((t + x).take(t.len() as int) =~= t);
    assert((t + x).skip(t.len() as int) =~= x);
}

proof fn lemma_not_prefix(s: Seq<char>, p: Seq<char>)
    requires
        s.len() >= 2,
        p.len() >= 2,
        s[0] != p[0] || s[1] != p[1],
    ensures
        strip_prefix(s, p) is None,
{
    if has_prefix(s, p) {
        assert(s.take(p.len() as int)[0] == s[0]);
        assert(s.take(p.len() as int)[1] == s[1]);
    }
}

proof fn lemma_split_first(a: Seq<char>, r: Seq<char>, n: nat)
    requires
        sep_free(a),
        n >= 2,
    ensures
        split_n(a + sep() + r, n) == seq![a] + split_n(r, (n - 1) as nat),
{
    lemma_sep_free_then(a, r);
    let s = a + sep() + r;
    assert(s.take(a.len() as int) =~= a);
    assert(s.skip(a.len() + 2int) =~= r);
}

proof fn lemma_split_two(a: Seq<char>, b: Seq<char>)
    requires
        sep_free(a),
    ensures
        split_n(a + sep() + b, 2) =~= seq![a, b],
{
    lemma_split_first(a, b, 2);
}

proof fn lemma_latest_sep_free()
    ensures
        sep_free(latest()),
{
    reveal_strlit("latest");
    lemma_no_colon_sep_free(latest());
}

proof fn lemma_decimal_sep_free(n: nat)
    ensures
        sep_free(decimal(n)),
{
    lemma_decimal(n);
    lemma_no_colon_sep_free(decimal(n));
}

proof fn lemma_version_back(v: Option<Seq<char>>)
    requires
        v != Some(latest()),
    ensures
        version_field(ver_or_latest(v)) == v,
{
}

proof fn lemma_version_ok(v: Option<Seq<char>>)
    requires
        version_ok(v),
    ensures
        version_field(ver_or_latest(v)) == v,
        sep_free(ver_or_latest(v)),
{
    lemma_latest_sep_free();
}

proof fn lemma_count_back(n: Option<usize>)
    requires
        n != Some(0usize),
    ensures
        count_field(decimal(count_or_zero(n))) == n,
{
    lemma_parse_decimal(count_or_zero(n), usize::MAX as nat);
}

proof fn lemma_reveal_tags()
    ensures
        "search::"@ =~= seq!['s', 'e', 'a', 'r', 'c', 'h', ':', ':'],
        "doc::"@ =~= seq!['d', 'o', 'c', ':', ':'],
        "landing::"@ =~= seq!['l', 'a', 'n', 'd', 'i', 'n', 'g', ':', ':'],
        "modules::"@ =~= seq!['m', 'o', 'd', 'u', 'l', 'e', 's', ':', ':'],
        "item::"@ =~= seq!['i', 't', 'e', 'm', ':', ':'],
        "source::"@ =~= seq!['s', 'o', 'u', 'r', 'c', 'e', ':', ':'],
        "deps::"@ =~= seq!['d', 'e', 'p', 's', ':', ':'],
        "examples::"@ =~= seq!['e', 'x', 'a', 'm', 'p', 'l', 'e', 's', ':', ':'],
        "features::"@ =~= seq!['f', 'e', 'a', 't', 'u', 'r', 'e', 's', ':', ':'],
        "trait_impls::"@ =~= seq![
            't',
            'r',
            'a',
            'i',
            't',
            '_',
            'i',
            'm',
            'p',
            'l',
            's',
            ':',
            ':',
        ],
        "bundle::"@ =~= seq!['b', 'u', 'n', 'd', 'l', 'e', ':', ':'],
        "signature::"@ =~= seq!['s', 'i', 'g', 'n', 'a', 't', 'u', 'r', 'e', ':', ':'],
{
    reveal_strlit("search::");
    reveal_strlit("doc::");
    reveal_strlit("landing::");
    reveal_strlit("modules::");
    reveal_strlit("item::");
    reveal_strlit("source::");
    reveal_strlit("deps::");
    reveal_strlit("examples::");
    reveal_strlit("features::");
    reveal_strlit("trait_impls::");
    reveal_strlit("bundle::");
    reveal_strlit("signature::");
}

/// A key that starts with tag `t` is not taken for any tag that differs from `t` in its
/// first two characters.
proof fn lemma_tag_excludes(t: Seq<char>, x: Seq<char>, p: Seq<char>)
    requires
        t.len() >= 2,
        p.len() >= 2,
        t[0] != p[0] || t[1] != p[1],
    ensures
        strip_prefix(t + x, p) is None,
{
    lemma_tagged(t, x);
    assert((t + x)[0] == t[0]);
    assert((t + x)[1] == t[1]);
    lemma_not_prefix(t + x, p);
}

proof fn lemma_round_trip_find_crates(k: CacheKeyView)
    requires
        round_trips(k),
        k is FindCrates,
    ensures
        spec_denormalize_key(spec_crate_name(k), spec_normalize_key(k)) == Ok::<CacheKeyView, Seq<char>>(k),
{
    reveal(spec_denormalize_key);
    lemma_reveal_tags();
    reveal_strlit("__global__");
    let key = spec_normalize_key(k);
    match k {
        CacheKeyView::FindCrates { query, limit, fuzzy } => {
            let n: nat = match limit {
                Some(l) => l as nat,
                None => 0,
            };
            let x = query + sep() + decimal(n);
            assert(key =~= "search::"@ + x);
            lemma_tagged("search::"@, x);
            lemma_split_two(query, decimal(n));
            lemma_parse_decimal(n, u32::MAX as nat);
        },
        _ => {},
    }
}

proof fn lemma_round_trip_fetch_raw_doc(k: CacheKeyView)
    requires
        round_trips(k),
        k is FetchRawDoc,
    ensures
        spec_denormalize_key(spec_crate_name(k), spec_normalize_key(k)) == Ok::<CacheKeyView, Seq<char>>(k),
{
    reveal(spec_denormalize_key);
    lemma_reveal_tags();
    reveal_strlit("__global__");
    let key = spec_normalize_key(k);
    match k {
        CacheKeyView::FetchRawDoc { crate_name, version, path } => {
            let x = version + sep() + path;
            assert(key =~= "doc::"@ + x);
            lemma_tagged("doc::"@, x);
            lemma_split_two(version, path);
        },
        _ => {},
    }
}

proof fn lemma_round_trip_get_crate_overview(k: CacheKeyView)
    requires
        round_trips(k),
        k is GetCrateOverview,
    ensures
        spec_denormalize_key(spec_crate_name(k), spec_normalize_key(k)) == Ok::<CacheKeyView, Seq<char>>(k),
{
    reveal(spec_denormalize_key);
    lemma_reveal_tags();
    reveal_strlit("__global__");
    let key = spec_normalize_key(k);
    match k {
        CacheKeyView::GetCrateOverview { crate_name, version } => {
            let x = ver_or_latest(version);
            lemma_tagged("landing::"@, x);
            lemma_tag_excludes("landing::"@, x, "doc::"@);
            lemma_version_back(version);
        },
        _ => {},
    }
}

proof fn lemma_round_trip_get_crate_modules(k: CacheKeyView)
    requires
        round_trips(k),
        k is GetCrateModules,
    ensures
        spec_denormalize_key(spec_crate_name(k), spec_normalize_key(k)) == Ok::<CacheKeyView, Seq<char>>(k),
{
    reveal(spec_denormalize_key);
    lemma_reveal_tags();
    reveal_strlit("__global__");
    let key = spec_normalize_key(k);
    match k {
        CacheKeyView::GetCrateModules { crate_name, version, limit } => {
            let d = decimal(count_or_zero(limit));
            let x = ver_or_latest(version) + sep() + d;
            assert(key =~= "modules::"@ + x);
            lemma_tagged("modules::"@, x);
            lemma_tag_excludes("modules::"@, x, "doc::"@);
            lemma_tag_excludes("modules::"@, x, "landing::"@);
            lemma_version_ok(version);
            lemma_split_two(ver_or_latest(version), d);
            lemma_count_back(limit);
        },
        _ => {},
    }
}

proof fn lemma_round_trip_get_symbol_docs(k: CacheKeyView)
    requires
        round_trips(k),
        k is GetSymbolDocs,
    ensures
        spec_denormalize_key(spec_crate_name(k), spec_normalize_key(k)) == Ok::<CacheKeyView, Seq<char>>(k),
{
    reveal(spec_denormalize_key);
    lemma_reveal_tags();
    reveal_strlit("__global__");
    let key = spec_normalize_key(k);
    match k {
        CacheKeyView::GetSymbolDocs { crate_name, symbol_path, version } => {
            let x = ver_or_latest(version) + sep() + symbol_path;
            assert(key =~= "item::"@ + x);
            lemma_tagged("item::"@, x);
            lemma_tag_excludes("item::"@, x, "doc::"@);
            lemma_tag_excludes("item::"@, x, "landing::"@);
            lemma_tag_excludes("item::"@, x, "modules::"@);
            lemma_version_ok(version);
            lemma_split_two(ver_or_latest(version), symbol_path);
        },
        _ => {},
    }
}

proof fn lemma_round_trip_read_source_file(k: CacheKeyView)
    requires
        round_trips(k),
        k is ReadSourceFile,
    ensures
        spec_denormalize_key(spec_crate_name(k), spec_normalize_key(k)) == Ok::<CacheKeyView, Seq<char>>(k),
{
    reveal(spec_denormalize_key);
    lemma_reveal_tags();
    reveal_strlit("__global__");
    let key = spec_normalize_key(k);
    match k {
        CacheKeyView::ReadSourceFile { crate_name, path, version, start_line, end_line } => {
            let v = ver_or_latest(version);
            let ds = decimal(count_or_zero(start_line));
            let de = decimal(count_or_zero(end_line));
            let x = v + sep() + (ds + sep() + (de + sep() + path));
            assert(key =~= "source::"@ + x);
            lemma_tagged("source::"@, x);
            lemma_tag_excludes("source::"@, x, "doc::"@);
            lemma_tag_excludes("source::"@, x, "landing::"@);
            lemma_tag_excludes("source::"@, x, "modules::"@);
            lemma_tag_excludes("source::"@, x, "item::"@);
            lemma_version_ok(version);
            lemma_decimal_sep_free(count_or_zero(start_line));
            lemma_decimal_sep_free(count_or_zero(end_line));
            lemma_split_first(v, ds + sep() + (de + sep() + path), 4);
            lemma_split_first(ds, de + sep() + path, 3);
            lemma_split_first(de, path, 2);
            assert(split_n(x, 4) =~= seq![v, ds, de, path]);
            lemma_count_back(start_line);
            lemma_count_back(end_line);
        },
        _ => {},
    }
}

proof fn lemma_round_trip_get_crate_dependencies(k: CacheKeyView)
    requires
        round_trips(k),
        k is GetCrateDependencies,
    ensures
        spec_denormalize_key(spec_crate_name(k), spec_normalize_key(k)) == Ok::<CacheKeyView, Seq<char>>(k),
{
    reveal(spec_denormalize_key);
    lemma_reveal_tags();
    reveal_strlit("__global__");
    let key = spec_normalize_key(k);
    match k {
        CacheKeyView::GetCrateDependencies { crate_name, version, kind } => {
            let kk = match kind {
                Some(y) => y,
                None => "all"@,
            };
            let x = version + sep() + kk;
            assert(key =~= "deps::"@ + x);
            lemma_tagged("deps::"@, x);
            lemma_tag_excludes("deps::"@, x, "doc::"@);
            lemma_tag_excludes("deps::"@, x, "landing::"@);
            lemma_tag_excludes("deps::"@, x, "modules::"@);
            lemma_tag_excludes("deps::"@, x, "item::"@);
            lemma_tag_excludes("deps::"@, x, "source::"@);
            lemma_split_two(version, kk);
        },
        _ => {},
    }
}

proof fn lemma_round_trip_get_crate_examples(k: CacheKeyView)
    requires
        round_trips(k),
        k is GetCrateExamples,
    ensures
        spec_denormalize_key(spec_crate_name(k), spec_normalize_key(k)) == Ok::<CacheKeyView, Seq<char>>(k),
{
    reveal(spec_denormalize_key);
    lemma_reveal_tags();
    reveal_strlit("__global__");
    let key = spec_normalize_key(k);
    match k {
        CacheKeyView::GetCrateExamples { crate_name, version, limit } => {
            let d = decimal(count_or_zero(limit));
            let x = ver_or_latest(version) + sep() + d;
            assert(key =~= "examples::"@ + x);
            lemma_tagged("examples::"@, x);
            lemma_tag_excludes("examples::"@, x, "doc::"@);
            lemma_tag_excludes("examples::"@, x, "landing::"@);
            lemma_tag_excludes("examples::"@, x, "modules::"@);
            lemma_tag_excludes("examples::"@, x, "item::"@);
            lemma_tag_excludes("examples::"@, x, "source::"@);
            lemma_tag_excludes("examples::"@, x, "deps::"@);
            lemma_version_ok(version);
            lemma_split_two(ver_or_latest(version), d);
            lemma_count_back(limit);
        },
        _ => {},
    }
}

proof fn lemma_round_trip_analyze_feature_flags(k: CacheKeyView)
    requires
        round_trips(k),
        k is AnalyzeFeatureFlags,
    ensures
        spec_denormalize_key(spec_crate_name(k), spec_normalize_key(k)) == Ok::<CacheKeyView, Seq<char>>(k),
{
    reveal(spec_denormalize_key);
    lemma_reveal_tags();
    reveal_strlit("__global__");
    let key = spec_normalize_key(k);
    match k {
        CacheKeyView::AnalyzeFeatureFlags { crate_name, version } => {
            let x = version;
            lemma_tagged("features::"@, x);
            lemma_tag_excludes("features::"@, x, "doc::"@);
            lemma_tag_excludes("features::"@, x, "landing::"@);
            lemma_tag_excludes("features::"@, x, "modules::"@);
            lemma_tag_excludes("features::"@, x, "item::"@);
            lemma_tag_excludes("features::"@, x, "source::"@);
            lemma_tag_excludes("features::"@, x, "deps::"@);
            lemma_tag_excludes("features::"@, x, "examples::"@);
        },
        _ => {},
    }
}

proof fn lemma_round_trip_find_trait_implementors(k: CacheKeyView)
    requires
        round_trips(k),
        k is FindTraitImplementors,
    ensures
        spec_denormalize_key(spec_crate_name(k), spec_normalize_key(k)) == Ok::<CacheKeyView, Seq<char>>(k),
{
    reveal(spec_denormalize_key);
    lemma_reveal_tags();
    reveal_strlit("__global__");
    let key = spec_normalize_key(k);
    match k {
        CacheKeyView::FindTraitImplementors { crate_name, trait_path, version, limit } => {
            let v = ver_or_latest(version);
            let d = decimal(count_or_zero(limit));
            let x = v + sep() + (d + sep() + trait_path);
            assert(key =~= "trait_impls::"@ + x);
            lemma_tagged("trait_impls::"@, x);
            lemma_tag_excludes("trait_impls::"@, x, "doc::"@);
            lemma_tag_excludes("trait_impls::"@, x, "landing::"@);
            lemma_tag_excludes("trait_impls::"@, x, "modules::"@);
            lemma_tag_excludes("trait_impls::"@, x, "item::"@);
            lemma_tag_excludes("trait_impls::"@, x, "source::"@);
            lemma_tag_excludes("trait_impls::"@, x, "deps::"@);
            lemma_tag_excludes("trait_impls::"@, x, "examples::"@);
            lemma_tag_excludes("trait_impls::"@, x, "features::"@);
            lemma_version_ok(version);
            lemma_decimal_sep_free(count_or_zero(limit));
            lemma_split_first(v, d + sep() + trait_path, 3);
            lemma_split_first(d, trait_path, 2);
            assert(split_n(x, 3) =~= seq![v, d, trait_path]);
            lemma_count_back(limit);
        },
        _ => {},
    }
}

proof fn lemma_round_trip_get_context_bundle(k: CacheKeyView)
    requires
        round_trips(k),
        k is GetContextBundle,
    ensures
        spec_denormalize_key(spec_crate_name(k), spec_normalize_key(k)) == Ok::<CacheKeyView, Seq<char>>(k),
{
    reveal(spec_denormalize_key);
    lemma_reveal_tags();
    reveal_strlit("__global__");
    let key = spec_normalize_key(k);
    match k {
        CacheKeyView::GetContextBundle { crate_name, version } => {
            let x = ver_or_latest(version);
            lemma_tagged("bundle::"@, x);
            lemma_tag_excludes("bundle::"@, x, "doc::"@);
            lemma_tag_excludes("bundle::"@, x, "landing::"@);
            lemma_tag_excludes("bundle::"@, x, "modules::"@);
            lemma_tag_excludes("bundle::"@, x, "item::"@);
            lemma_tag_excludes("bundle::"@, x, "source::"@);
            lemma_tag_excludes("bundle::"@, x, "deps::"@);
            lemma_tag_excludes("bundle::"@, x, "examples::"@);
            lemma_tag_excludes("bundle::"@, x, "features::"@);
            lemma_tag_excludes("bundle::"@, x, "trait_impls::"@);
            lemma_version_back(version);
        },
        _ => {},
    }
}

proof fn lemma_round_trip_find_by_signature(k: CacheKeyView)
    requires
        round_trips(k),
        k is FindBySignature,
    ensures
        spec_denormalize_key(spec_crate_name(k), spec_normalize_key(k)) == Ok::<CacheKeyView, Seq<char>>(k),
{
    reveal(spec_denormalize_key);
    lemma_reveal_tags();
    reveal_strlit("__global__");
    let key = spec_normalize_key(k);
    match k {
        CacheKeyView::FindBySignature { crate_name, signature_pattern, version } => {
            let x = ver_or_latest(version) + sep() + signature_pattern;
            assert(key =~= "signature::"@ + x);
            lemma_tagged("signature::"@, x);
            lemma_tag_excludes("signature::"@, x, "doc::"@);
            lemma_tag_excludes("signature::"@, x, "landing::"@);
            lemma_tag_excludes("signature::"@, x, "modules::"@);
            lemma_tag_excludes("signature::"@, x, "item::"@);
            lemma_tag_excludes("signature::"@, x, "source::"@);
            lemma_tag_excludes("signature::"@, x, "deps::"@);
            lemma_tag_excludes("signature::"@, x, "examples::"@);
            lemma_tag_excludes("signature::"@, x, "features::"@);
            lemma_tag_excludes("signature::"@, x, "trait_impls::"@);
            lemma_tag_excludes("signature::"@, x, "bundle::"@);
            lemma_version_ok(version);
            lemma_split_two(ver_or_latest(version), signature_pattern);
        },
        _ => {},
    }
}

/// Storing a key and reading it back gives the same key, for every key that
/// `round_trips` admits.
pub proof fn lemma_key_round_trip(k: CacheKeyView)
    requires
        round_trips(k),
    ensures
        spec_denormalize_key(spec_crate_name(k), spec_normalize_key(k)) == Ok::<CacheKeyView, Seq<char>>(k),
{
    match k {
        CacheKeyView::FindCrates { .. } => lemma_round_trip_find_crates(k),
        CacheKeyView::FetchRawDoc { .. } => lemma_round_trip_fetch_raw_doc(k),
        CacheKeyView::GetCrateOverview { .. } => lemma_round_trip_get_crate_overview(k),
        CacheKeyView::GetCrateModules { .. } => lemma_round_trip_get_crate_modules(k),
        CacheKeyView::GetSymbolDocs { .. } => lemma_round_trip_get_symbol_docs(k),
        CacheKeyView::ReadSourceFile { .. } => lemma_round_trip_read_source_file(k),
        CacheKeyView::GetCrateDependencies { .. } => lemma_round_trip_get_crate_dependencies(k),
        CacheKeyView::GetCrateExamples { .. } => lemma_round_trip_get_crate_examples(k),
        CacheKeyView::AnalyzeFeatureFlags { .. } => lemma_round_trip_analyze_feature_flags(k),
        CacheKeyView::FindTraitImplementors { .. } => lemma_round_trip_find_trait_implementors(k),
        CacheKeyView::GetContextBundle { .. } => lemma_round_trip_get_context_bundle(k),
        CacheKeyView::FindBySignature { .. } => lemma_round_trip_find_by_signature(k),
    }
}


// ---------------------------------------------------------------------------
// The cache
// ---------------------------------------------------------------------------

/// Caching behavior for documentation: a map from request keys to fetched content.
pub trait Cache {
    /// What the cache holds.
    spec fn contents(&self) -> Map<CacheKeyView, Seq<char>>;

    /// The cache's internal invariant.
    spec fn well_formed(&self) -> bool;

    /// Retrieves content from the cache.
    fn get(&self, key: &CacheKey) -> (r: Option<DocContent>)
        requires
            self.well_formed(),
        ensures
            match r {
                Some(v) => self.contents().contains_key(key@) && v@ == self.contents()[key@],
                None => !self.contents().contains_key(key@),
            },
    ;

    /// Inserts content into the cache, replacing what the key held before.
    fn insert(&mut self, key: CacheKey, value: DocContent)
        requires
            old(self).well_formed(),
        ensures
            final(self).well_formed(),
            final(self).contents() == old(self).contents().insert(key@, value@),
    ;

    /// Checks if a key exists in the cache.
    fn contains_key(&self, key: &CacheKey) -> (r: bool)
        requires
            self.well_formed(),
        ensures
            r == self.contents().contains_key(key@),
    ;

    /// Clears the entire cache.
    fn clear(&mut self)
        requires
            old(self).well_formed(),
        ensures
            final(self).well_formed(),
            final(self).contents() == Map::<CacheKeyView, Seq<char>>::empty(),
    ;
}

/// One cached item as it is stored on disk: the crate file it goes to, its normalized
/// key inside that file, and the content.
#[derive(Debug, Clone)]
pub struct StoredEntry {
    pub crate_name: String,
    pub key: String,
    pub content: DocContent,
}

/// The plain values of a stored item.
pub open spec fn stored_view(e: StoredEntry) -> (Seq<char>, Seq<char>, Seq<char>) {
    (e.crate_name@, e.key@, e.content@)
}

pub open spec fn stored_views(s: Seq<StoredEntry>) -> Seq<(Seq<char>, Seq<char>, Seq<char>)> {
    s.map_values(|e: StoredEntry| stored_view(e))
}

/// Loading stored items in order: each one whose key reads back is inserted,
/// a later one replacing an earlier one with the same key.
pub open spec fn restore_fold(s: Seq<(Seq<char>, Seq<char>, Seq<char>)>) -> Map<CacheKeyView, Seq<char>>
    decreases s.len(),
{
    if s.len() == 0 {
        Map::empty()
    } else {
        let prev = restore_fold(s.drop_last());
        let e = s.last();
        match spec_denormalize_key(e.0, e.1) {
            Ok(k) => prev.insert(k, e.2),
            Err(_) => prev,
        }
    }
}

/// No two stored items share a crate file and a key inside it.
pub open spec fn stored_distinct(s: Seq<(Seq<char>, Seq<char>, Seq<char>)>) -> bool {
    forall|i: int, j: int|
        0 <= i < s.len() && 0 <= j < s.len() && i != j ==> (#[trigger] s[i]).0 != (#[trigger] s[j]).0
            || s[i].1 != s[j].1
}

/// Every stored item is the stored form of a cached item.
pub open spec fn stored_sound(s: Seq<(Seq<char>, Seq<char>, Seq<char>)>, m: Map<CacheKeyView, Seq<char>>) -> bool {
    forall|i: int|
        0 <= i < s.len() ==> exists|k: CacheKeyView|
            #![trigger m.dom().contains(k)]
            m.dom().contains(k) && spec_crate_name(k) == (#[trigger] s[i]).0 && spec_normalize_key(k)
                == s[i].1 && m[k] == s[i].2
}

/// Every cached key has a stored item in its crate file under its normalized key.
pub open spec fn stored_complete(s: Seq<(Seq<char>, Seq<char>, Seq<char>)>, m: Map<CacheKeyView, Seq<char>>) -> bool {
    forall|k: CacheKeyView|
        m.dom().contains(k) ==> exists|i: int|
            0 <= i < s.len() && (#[trigger] s[i]).0 == spec_crate_name(k) && s[i].1
                == spec_normalize_key(k)
}

/// The position of the stored item filed under crate `c` and key `nk`.
fn find_stored(out: &Vec<StoredEntry>, c: &String, nk: &String) -> (r: Option<usize>)
    ensures
        match r {
            Some(q) => q < out.len() && stored_views(out@)[q as int].0 == c@
                && stored_views(out@)[q as int].1 == nk@,
            None => forall|q: int|
                0 <= q < out.len() ==> (#[trigger] stored_views(out@)[q]).0 != c@
                    || stored_views(out@)[q].1 != nk@,
        },
{
    let mut p: usize = 0;
    while p < out.len()
        invariant
            p <= out.len(),
            forall|q: int|
                0 <= q < p ==> (#[trigger] stored_views(out@)[q]).0 != c@
                    || stored_views(out@)[q].1 != nk@,
        decreases out.len() - p,
    {
        if out[p].crate_name == *c && out[p].key == *nk {
            return Some(p);
        }
        p = p + 1;
    }
    None
}

/// Thread-safe cache implementation with disk persistence: the in-memory part.
pub struct InMemoryCache {
    keys: Vec<CacheKey>,
    values: Vec<DocContent>,
    /// Directory where cache files are stored
    cache_dir: String,
}

impl InMemoryCache {
    /// The keys held, in insertion order.
    pub closed spec fn key_views(&self) -> Seq<CacheKeyView> {
        self.keys@.map_values(|k: CacheKey| k@)
    }

    /// The directory where the cache files are kept.
    pub closed spec fn dir(&self) -> Seq<char> {
        self.cache_dir@
    }

    /// The position of `k` among the keys held.
    closed spec fn index_of(&self, k: CacheKeyView) -> int {
        choose|i: int| 0 <= i < self.keys.len() && self.keys@[i]@ == k
    }

    pub closed spec fn wf(&self) -> bool {
        &&& self.keys.len() == self.values.len()
        &&& forall|i: int, j: int|
            0 <= i < self.keys.len() && 0 <= j < self.keys.len() && i != j ==> (#[trigger] self.keys@[i])@
                != (#[trigger] self.keys@[j])@
    }

    pub closed spec fn view_map(&self) -> Map<CacheKeyView, Seq<char>> {
        Map::new(
            |k: CacheKeyView| exists|i: int| 0 <= i < self.keys.len() && (#[trigger] self.keys@[i])@ == k,
            |k: CacheKeyView| self.values@[self.index_of(k)]@,
        )
    }

    proof fn lemma_at(&self, i: int)
        requires
            self.wf(),
            0 <= i < self.keys.len(),
        ensures
            self.view_map().contains_key(self.keys@[i]@),
            self.view_map()[self.keys@[i]@] == self.values@[i]@,
    {
        let k = self.keys@[i]@;
        assert(self.view_map().dom().contains(k));
        let j = self.index_of(k);
        assert(0 <= j < self.keys.len() && self.keys@[j]@ == k);
    }

    /// Creates a new cache instance using the specified directory for persistence.
    pub fn new(cache_dir: String) -> (c: Self)
        ensures
            c.wf(),
            c@ == Map::<CacheKeyView, Seq<char>>::empty(),
            c.dir() == cache_dir@,
    {
        let c = InMemoryCache { keys: Vec::new(), values: Vec::new(), cache_dir };
        assert(c.view_map() =~= Map::<CacheKeyView, Seq<char>>::empty());
        c
    }

    /// The directory where the cache files are kept.
    pub fn cache_dir(&self) -> (r: &String)
        ensures
            r@ == self.dir(),
    {
        &self.cache_dir
    }

    /// The position of `key`, if it is held.
    fn find(&self, key: &CacheKey) -> (r: Option<usize>)
        requires
            self.wf(),
        ensures
            match r {
                Some(i) => i < self.keys.len() && self.keys@[i as int]@ == key@,
                None => !self.view_map().contains_key(key@),
            },
    {
        let mut i: usize = 0;
        while i < self.keys.len()
            invariant
                self.wf(),
                i <= self.keys.len(),
                forall|j: int| 0 <= j < i ==> (#[trigger] self.keys@[j])@ != key@,
            decreases self.keys.len() - i,
        {
            if self.keys[i].same_as(key) {
                return Some(i);
            }
            i = i + 1;
        }
        None
    }

    /// The number of cached items.
    pub fn len(&self) -> (n: usize)
        requires
            self.wf(),
        ensures
            n == self@.len(),
    {
        proof {
            self.lemma_dom_len();
        }
        self.keys.len()
    }

    proof fn lemma_dom_len(&self)
        requires
            self.wf(),
        ensures
            self.view_map().dom().finite(),
            self.view_map().len() == self.keys.len(),
        decreases self.keys.len(),
    {
        let ks = self.key_views();
        assert forall|k: CacheKeyView| self.view_map().dom().contains(k) <==> ks.to_set().contains(k) by {
            if self.view_map().dom().contains(k) {
                let i = choose|i: int| 0 <= i < self.keys.len() && (#[trigger] self.keys@[i])@ == k;
                assert(ks[i] == k);
            }
            if ks.to_set().contains(k) {
                let i = choose|i: int| 0 <= i < ks.len() && ks[i] == k;
                assert(self.keys@[i]@ == k);
            }
        }
        assert(self.view_map().dom() =~= ks.to_set());
        assert forall|i: int, j: int| 0 <= i < ks.len() && 0 <= j < ks.len() && i != j implies ks[i]
            != ks[j] by {
            assert(ks[i] == self.keys@[i]@);
            assert(ks[j] == self.keys@[j]@);
        }
        ks.unique_seq_to_set();
    }

    /// Stored form of everything cached: one item per distinct pair of crate file and
    /// normalized key. Keys that share both are stored once, with the content of one of them.
    pub fn snapshot(&self) -> (out: Vec<StoredEntry>)
        requires
            self.wf(),
        ensures
            stored_distinct(stored_views(out@)),
            stored_sound(stored_views(out@), self@),
            stored_complete(stored_views(out@), self@),
    {
        let mut out: Vec<StoredEntry> = Vec::new();
        let mut i: usize = 0;
        while i < self.keys.len()
            invariant
                self.wf(),
                i <= self.keys.len(),
                stored_distinct(stored_views(out@)),
                stored_sound(stored_views(out@), self@),
                forall|j: int|
                    0 <= j < i ==> exists|p: int|
                        0 <= p < out.len() && (#[trigger] stored_views(out@)[p]).0
                            == spec_crate_name((#[trigger] self.keys@[j])@) && stored_views(out@)[p].1
                            == spec_normalize_key(self.keys@[j]@),
            decreases self.keys.len() - i,
        {
            let c = get_crate_name(&self.keys[i]);
            let nk = normalize_key(&self.keys[i]);
            let v = self.values[i].duplicate();
            proof {
                self.lemma_at(i as int);
            }
            let ghost old_out = stored_views(out@);
            let found = find_stored(&out, &c, &nk);
            let entry = StoredEntry { crate_name: c, key: nk, content: v };
            match found {
                Some(q) => {
                    out.set(q, entry);
                },
                None => {
                    out.push(entry);
                },
            }
            let ghost now = stored_views(out@);
            let ghost newv = (c@, nk@, v@);
            proof {
                match found {
                    Some(q) => {
                        assert(now =~= old_out.update(q as int, newv));
                    },
                    None => {
                        assert(now =~= old_out.push(newv));
                    },
                }
            }
            assert forall|a: int, b: int|
                0 <= a < now.len() && 0 <= b < now.len() && a != b implies (#[trigger] now[a]).0
                != (#[trigger] now[b]).0 || now[a].1 != now[b].1 by {
                assert(old_out[a].0 != old_out[b].0 || old_out[a].1 != old_out[b].1 || a
                    >= old_out.len() || b >= old_out.len());
            }
            assert forall|a: int| 0 <= a < now.len() implies exists|k: CacheKeyView|
                #![trigger self@.dom().contains(k)]
                self@.dom().contains(k) && spec_crate_name(k) == (#[trigger] now[a]).0
                    && spec_normalize_key(k) == now[a].1 && self@[k] == now[a].2 by {
                if (found is None && a == old_out.len()) || (found is Some && a == found->0) {
                    let k = self.keys@[i as int]@;
                    assert(self@.dom().contains(k));
                } else {
                    assert(now[a] == old_out[a]);
                }
            }
            assert forall|j: int| 0 <= j < i + 1 implies exists|p: int|
                0 <= p < out.len() && (#[trigger] stored_views(out@)[p]).0 == spec_crate_name(
                    (#[trigger] self.keys@[j])@,
                ) && stored_views(out@)[p].1 == spec_normalize_key(self.keys@[j]@) by {
                if j == i {
                    let w = match found {
                        Some(q) => q as int,
                        None => old_out.len() as int,
                    };
                    assert(now[w].0 == c@ && now[w].1 == nk@);
                } else {
                    let p = choose|p: int|
                        0 <= p < old_out.len() && (#[trigger] old_out[p]).0 == spec_crate_name(
                            self.keys@[j]@,
                        ) && old_out[p].1 == spec_normalize_key(self.keys@[j]@);
                    if found is Some && p == found->0 {
                        assert(now[p].0 == old_out[p].0 && now[p].1 == old_out[p].1);
                    } else {
                        assert(now[p] == old_out[p]);
                    }
                }
            }
            i = i + 1;
        }
        assert forall|k: CacheKeyView| self@.dom().contains(k) implies exists|p: int|
            0 <= p < out.len() && (#[trigger] stored_views(out@)[p]).0 == spec_crate_name(k)
                && stored_views(out@)[p].1 == spec_normalize_key(k) by {
            let j = choose|j: int| 0 <= j < self.keys.len() && (#[trigger] self.keys@[j])@ == k;
            assert(self.keys@[j]@ == k);
        }
        out
    }
}

impl View for InMemoryCache {
    type V = Map<CacheKeyView, Seq<char>>;

    closed spec fn view(&self) -> Map<CacheKeyView, Seq<char>> {
        self.view_map()
    }
}


impl Cache for InMemoryCache {
    open spec fn contents(&self) -> Map<CacheKeyView, Seq<char>> {
        self@
    }

    open spec fn well_formed(&self) -> bool {
        self.wf()
    }

    fn get(&self, key: &CacheKey) -> (r: Option<DocContent>) {
        match self.find(key) {
            Some(i) => {
                proof {
                    self.lemma_at(i as int);
                }
                Some(self.values[i].duplicate())
            },
            None => None,
        }
    }

    fn insert(&mut self, key: CacheKey, value: DocContent)
        ensures
            final(self).dir() == old(self).dir(),
    {
        self.put(key, value);
    }

    fn contains_key(&self, key: &CacheKey) -> (r: bool) {
        self.find(key).is_some()
    }

    fn clear(&mut self)
        ensures
            final(self).dir() == old(self).dir(),
    {
        self.empty_out();
    }
}

impl InMemoryCache {
    /// Binds `key` to `value`.
    pub fn put(&mut self, key: CacheKey, value: DocContent)
        requires
            old(self).wf(),
        ensures
            final(self).wf(),
            final(self)@ == old(self)@.insert(key@, value@),
            final(self).dir() == old(self).dir(),
    {
        let ghost old_self = *self;
        let ghost kv = key@;
        let ghost vv = value@;
        match self.find(&key) {
            Some(i) => {
                self.keys.set(i, key);
                self.values.set(i, value);
                assert forall|a: int, b: int|
                    0 <= a < self.keys.len() && 0 <= b < self.keys.len() && a != b implies (
                    #[trigger] self.keys@[a])@ != (#[trigger] self.keys@[b])@ by {
                    assert(old_self.keys@[a]@ == self.keys@[a]@);
                    assert(old_self.keys@[b]@ == self.keys@[b]@);
                }
                proof { self.lemma_insert_view(old_self, i as int, kv, vv); }
            },
            None => {
                self.keys.push(key);
                self.values.push(value);
                assert forall|a: int, b: int|
                    0 <= a < self.keys.len() && 0 <= b < self.keys.len() && a != b implies (
                    #[trigger] self.keys@[a])@ != (#[trigger] self.keys@[b])@ by {
                    if a < old_self.keys.len() && b < old_self.keys.len() {
                        assert(old_self.keys@[a] == self.keys@[a]);
                        assert(old_self.keys@[b] == self.keys@[b]);
                    } else if a < old_self.keys.len() {
                        assert(old_self.keys@[a] == self.keys@[a]);
                        if self.keys@[a]@ == kv {
                            old_self.lemma_at(a);
                        }
                    } else {
                        assert(old_self.keys@[b] == self.keys@[b]);
                        if self.keys@[b]@ == kv {
                            old_self.lemma_at(b);
                        }
                    }
                }
                proof { self.lemma_insert_view(old_self, old_self.keys.len() as int, kv, vv); }
            },
        }
    }

    /// Forgets everything cached.
    pub fn empty_out(&mut self)
        requires
            old(self).wf(),
        ensures
            final(self).wf(),
            final(self)@ == Map::<CacheKeyView, Seq<char>>::empty(),
            final(self).dir() == old(self).dir(),
    {
        self.keys = Vec::new();
        self.values = Vec::new();
        assert(self.view_map() =~= Map::<CacheKeyView, Seq<char>>::empty());
    }

    /// After writing `(k, v)` at position `i` (an update, or an append when `i` is the old
    /// length), the map is the old one with `k` bound to `v`.
    proof fn lemma_insert_view(&self, old_self: InMemoryCache, i: int, k: CacheKeyView, v: Seq<char>)
        requires
            old_self.wf(),
            self.wf(),
            0 <= i <= old_self.keys.len(),
            i == old_self.keys.len() ==> self.keys.len() == old_self.keys.len() + 1,
            i < old_self.keys.len() ==> self.keys.len() == old_self.keys.len() && old_self.keys@[i]@
                == k,
            self.keys@[i]@ == k,
            self.values@[i]@ == v,
            forall|j: int|
                0 <= j < old_self.keys.len() && j != i ==> self.keys@[j] == old_self.keys@[j]
                    && self.values@[j] == old_self.values@[j],
        ensures
            self.view_map() == old_self.view_map().insert(k, v),
    {
        let nm = self.view_map();
        let om = old_self.view_map().insert(k, v);
        self.lemma_at(i);
        assert forall|x: CacheKeyView| nm.contains_key(x) <==> om.contains_key(x) by {
            if nm.contains_key(x) && x != k {
                let j = choose|j: int| 0 <= j < self.keys.len() && (#[trigger] self.keys@[j])@ == x;
                assert(j != i);
                assert(old_self.keys@[j]@ == x);
            }
            if om.contains_key(x) && x != k {
                let j = choose|j: int| 0 <= j < old_self.keys.len() && (#[trigger] old_self.keys@[j])@ == x;
                assert(self.keys@[j]@ == x);
            }
        }
        assert forall|x: CacheKeyView| nm.contains_key(x) implies nm[x] == om[x] by {
            if x != k {
                let j = choose|j: int| 0 <= j < self.keys.len() && (#[trigger] self.keys@[j])@ == x;
                assert(j != i);
                self.lemma_at(j);
                assert(old_self.keys@[j]@ == x);
                old_self.lemma_at(j);
            }
        }
        assert(nm =~= om);
    }

    /// Replaces everything cached by what the stored items hold, read back in order:
    /// an item whose key does not read back is skipped, and a later item replaces an
    /// earlier one with the same key.
    pub fn load_entries(&mut self, stored: &Vec<StoredEntry>)
        requires
            old(self).wf(),
        ensures
            final(self).wf(),
            final(self)@ == restore_fold(stored_views(stored@)),
            final(self).dir() == old(self).dir(),
    {
        self.empty_out();
        let ghost sv = stored_views(stored@);
        assert(sv.take(0) =~= Seq::<(Seq<char>, Seq<char>, Seq<char>)>::empty());
        let mut i: usize = 0;
        while i < stored.len()
            invariant
                self.wf(),
                i <= stored.len(),
                sv == stored_views(stored@),
                self@ == restore_fold(sv.take(i as int)),
                self.dir() == old(self).dir(),
            decreases stored.len() - i,
        {
            let e = &stored[i];
            assert(sv.take(i + 1).drop_last() =~= sv.take(i as int));
            assert(sv.take(i + 1).last() == stored_view(*e));
            match denormalize_key(e.crate_name.as_str(), e.key.as_str()) {
                Ok(k) => {
                    let v = e.content.duplicate();
                    self.put(k, v);
                },
                Err(_) => {},
            }
            i = i + 1;
        }
        assert(sv.take(stored.len() as int) =~= sv);
    }
}

/// The key a stored item reads back as.
pub open spec fn stored_key(e: (Seq<char>, Seq<char>, Seq<char>)) -> CacheKeyView {
    match spec_denormalize_key(e.0, e.1) {
        Ok(k) => k,
        Err(_) => arbitrary(),
    }
}

/// Under the round-trip condition, a stored item of a cached key reads back as that key.
proof fn lemma_stored_reads_back(s: Seq<(Seq<char>, Seq<char>, Seq<char>)>, m: Map<CacheKeyView, Seq<char>>, i: int)
    requires
        forall|k: CacheKeyView| m.dom().contains(k) ==> round_trips(k),
        stored_sound(s, m),
        0 <= i < s.len(),
    ensures
        spec_denormalize_key(s[i].0, s[i].1) == Ok::<CacheKeyView, Seq<char>>(stored_key(s[i])),
        m.dom().contains(stored_key(s[i])),
        m[stored_key(s[i])] == s[i].2,
{
    let k = choose|k: CacheKeyView|
        #![trigger m.dom().contains(k)]
        m.dom().contains(k) && spec_crate_name(k) == s[i].0 && spec_normalize_key(k) == s[i].1
            && m[k] == s[i].2;
    lemma_key_round_trip(k);
}

proof fn lemma_restore_prefix(s: Seq<(Seq<char>, Seq<char>, Seq<char>)>, m: Map<CacheKeyView, Seq<char>>, n: int)
    requires
        forall|k: CacheKeyView| m.dom().contains(k) ==> round_trips(k),
        stored_distinct(s),
        stored_sound(s, m),
        0 <= n <= s.len(),
    ensures
        forall|k: CacheKeyView|
            restore_fold(s.take(n)).contains_key(k) <==> exists|i: int|
                0 <= i < n && stored_key(#[trigger] s[i]) == k,
        forall|i: int| 0 <= i < n ==> restore_fold(s.take(n))[stored_key(#[trigger] s[i])] == s[i].2,
    decreases n,
{
    if n == 0 {
        assert(s.take(0) =~= Seq::<(Seq<char>, Seq<char>, Seq<char>)>::empty());
    } else {
        lemma_restore_prefix(s, m, n - 1);
        let t = s.take(n);
        assert(t.drop_last() =~= s.take(n - 1));
        assert(t.last() == s[n - 1]);
        lemma_stored_reads_back(s, m, n - 1);
        let kn = stored_key(s[n - 1]);
        assert forall|i: int| 0 <= i < n - 1 implies stored_key(#[trigger] s[i]) != kn by {
            lemma_stored_reads_back(s, m, i);
            let ki = stored_key(s[i]);
            lemma_key_round_trip(ki);
            lemma_key_round_trip(kn);
            if ki == kn {
                let a = choose|k: CacheKeyView|
                    #![trigger m.dom().contains(k)]
                    m.dom().contains(k) && spec_crate_name(k) == s[i].0 && spec_normalize_key(k)
                        == s[i].1 && m[k] == s[i].2;
                let b = choose|k: CacheKeyView|
                    #![trigger m.dom().contains(k)]
                    m.dom().contains(k) && spec_crate_name(k) == s[n - 1].0 && spec_normalize_key(
                        k,
                    ) == s[n - 1].1 && m[k] == s[n - 1].2;
                lemma_key_round_trip(a);
                lemma_key_round_trip(b);
                assert(s[i].0 != s[n - 1].0 || s[i].1 != s[n - 1].1);
            }
        }
        let r = restore_fold(t);
        assert forall|k: CacheKeyView| r.contains_key(k) <==> exists|i: int|
            0 <= i < n && stored_key(#[trigger] s[i]) == k by {
            if r.contains_key(k) && k != kn {
                assert(restore_fold(s.take(n - 1)).contains_key(k));
            }
            if k == kn {
                assert(stored_key(s[n - 1]) == k);
            }
        }
    }
}

proof fn lemma_restore_all(s: Seq<(Seq<char>, Seq<char>, Seq<char>)>, m: Map<CacheKeyView, Seq<char>>)
    requires
        forall|k: CacheKeyView| m.dom().contains(k) ==> round_trips(k),
        stored_distinct(s),
        stored_sound(s, m),
    ensures
        forall|k: CacheKeyView|
            restore_fold(s).contains_key(k) <==> exists|i: int|
                0 <= i < s.len() && stored_key(#[trigger] s[i]) == k,
        forall|i: int| 0 <= i < s.len() ==> restore_fold(s)[stored_key(#[trigger] s[i])] == s[i].2,
{
    lemma_restore_prefix(s, m, s.len() as int);
    assert(s.take(s.len() as int) =~= s);
}

proof fn lemma_restored_value(s: Seq<(Seq<char>, Seq<char>, Seq<char>)>, m: Map<CacheKeyView, Seq<char>>, k: CacheKeyView)
    requires
        forall|k: CacheKeyView| m.dom().contains(k) ==> round_trips(k),
        stored_sound(s, m),
        restore_fold(s).contains_key(k),
        forall|k: CacheKeyView|
            restore_fold(s).contains_key(k) <==> exists|i: int|
                0 <= i < s.len() && stored_key(#[trigger] s[i]) == k,
        forall|i: int| 0 <= i < s.len() ==> restore_fold(s)[stored_key(#[trigger] s[i])] == s[i].2,
    ensures
        restore_fold(s)[k] == m[k],
{
    let i = choose|i: int| 0 <= i < s.len() && stored_key(#[trigger] s[i]) == k;
    lemma_stored_reads_back(s, m, i);
}

proof fn lemma_restored_key(s: Seq<(Seq<char>, Seq<char>, Seq<char>)>, m: Map<CacheKeyView, Seq<char>>, k: CacheKeyView)
    requires
        forall|k: CacheKeyView| m.dom().contains(k) ==> round_trips(k),
        stored_sound(s, m),
        stored_complete(s, m),
        forall|k: CacheKeyView|
            restore_fold(s).contains_key(k) <==> exists|i: int|
                0 <= i < s.len() && stored_key(#[trigger] s[i]) == k,
    ensures
        restore_fold(s).contains_key(k) <==> m.contains_key(k),
{
    if restore_fold(s).contains_key(k) {
        let i = choose|i: int| 0 <= i < s.len() && stored_key(#[trigger] s[i]) == k;
        lemma_stored_reads_back(s, m, i);
    }
    if m.contains_key(k) {
        let i = choose|i: int|
            0 <= i < s.len() && (#[trigger] s[i]).0 == spec_crate_name(k) && s[i].1
                == spec_normalize_key(k);
        lemma_stored_reads_back(s, m, i);
        lemma_key_round_trip(k);
        assert(stored_key(s[i]) == k);
    }
}

/// Saving and loading again gives back the cache: stored items with the properties that
/// `snapshot` ensures, read back in any order, rebuild exactly the cached map, provided
/// every cached key survives its normalized form (`round_trips`).
pub proof fn lemma_persistence_round_trip(s: Seq<(Seq<char>, Seq<char>, Seq<char>)>, m: Map<CacheKeyView, Seq<char>>)
    requires
        forall|k: CacheKeyView| m.dom().contains(k) ==> round_trips(k),
        stored_distinct(s),
        stored_sound(s, m),
        stored_complete(s, m),
    ensures
        restore_fold(s) == m,
{
    lemma_restore_all(s, m);
    let r = restore_fold(s);
    assert forall|k: CacheKeyView| r.contains_key(k) <==> m.contains_key(k) by {
        lemma_restored_key(s, m, k);
    }
    assert forall|k: CacheKeyView| r.contains_key(k) implies r[k] == m[k] by {
        lemma_restored_value(s, m, k);
    }
    assert(r =~= m);
}


// ---------------------------------------------------------------------------
// Cache files
// ---------------------------------------------------------------------------

/// The items of one crate's cache file.
#[derive(Debug)]
pub struct CrateFile {
    pub crate_name: String,
    pub entries: Vec<StoredEntry>,
}

/// The stored items filed under crate `c`, in order.
pub open spec fn filed_under(s: Seq<(Seq<char>, Seq<char>, Seq<char>)>, c: Seq<char>) -> Seq<(Seq<char>, Seq<char>, Seq<char>)> {
    s.filter(|e: (Seq<char>, Seq<char>, Seq<char>)| e.0 == c)
}

/// Some stored item is filed under crate `c`.
pub open spec fn stored_in_crate(stored: Seq<StoredEntry>, c: Seq<char>) -> bool {
    exists|j: int| 0 <= j < stored.len() && stored[j].crate_name@ == c
}

/// Some file is the file of crate `c`.
pub open spec fn has_file(files: Seq<CrateFile>, c: Seq<char>) -> bool {
    exists|a: int| 0 <= a < files.len() && files[a].crate_name@ == c
}

fn has_name(names: &Vec<String>, c: &String) -> (r: bool)
    ensures
        r == exists|i: int| 0 <= i < names.len() && (#[trigger] names@[i])@ == c@,
{
    let mut i: usize = 0;
    while i < names.len()
        invariant
            i <= names.len(),
            forall|j: int| 0 <= j < i ==> (#[trigger] names@[j])@ != c@,
        decreases names.len() - i,
    {
        if names[i] == *c {
            return true;
        }
        i = i + 1;
    }
    false
}

/// The stored items filed under crate `c`, in order.
fn collect_crate(stored: &Vec<StoredEntry>, c: &String) -> (out: Vec<StoredEntry>)
    ensures
        stored_views(out@) == filed_under(stored_views(stored@), c@),
{
    let ghost sv = stored_views(stored@);
    let mut out: Vec<StoredEntry> = Vec::new();
    let mut j: usize = 0;
    proof {
        reveal_with_fuel(Seq::<(Seq<char>, Seq<char>, Seq<char>)>::filter, 1);
        assert(sv.take(0) =~= Seq::<(Seq<char>, Seq<char>, Seq<char>)>::empty());
        assert(stored_views(out@) =~= filed_under(sv.take(0), c@));
    }
    while j < stored.len()
        invariant
            j <= stored.len(),
            sv == stored_views(stored@),
            stored_views(out@) == filed_under(sv.take(j as int), c@),
        decreases stored.len() - j,
    {
        proof {
            reveal_with_fuel(Seq::<(Seq<char>, Seq<char>, Seq<char>)>::filter, 1);
            assert(sv.take(j + 1).drop_last() =~= sv.take(j as int));
            assert(sv.take(j + 1).last() == sv[j as int]);
        }
        let ghost before = out@;
        if stored[j].crate_name == *c {
            let e = StoredEntry {
                crate_name: stored[j].crate_name.clone(),
                key: stored[j].key.clone(),
                content: stored[j].content.duplicate(),
            };
            out.push(e);
            assert(stored_views(out@) =~= stored_views(before).push(sv[j as int]));
        }
        j = j + 1;
    }
    assert(sv.take(stored.len() as int) =~= sv);
    out
}

/// Groups stored items by crate, one file per crate: each crate name that occurs gets
/// exactly one file, which holds that crate's items in their order.
pub fn group_by_crate(stored: &Vec<StoredEntry>) -> (files: Vec<CrateFile>)
    ensures
        forall|a: int, b: int|
            0 <= a < files.len() && 0 <= b < files.len() && a != b ==> (#[trigger] files@[a]).crate_name@
                != (#[trigger] files@[b]).crate_name@,
        forall|a: int| 0 <= a < files.len() ==> stored_in_crate(stored@, (#[trigger] files@[a]).crate_name@),
        forall|j: int| 0 <= j < stored.len() ==> has_file(files@, (#[trigger] stored@[j]).crate_name@),
        forall|a: int|
            0 <= a < files.len() ==> stored_views((#[trigger] files@[a]).entries@) == filed_under(
                stored_views(stored@),
                files@[a].crate_name@,
            ),
{
    let mut names: Vec<String> = Vec::new();
    let mut j: usize = 0;
    while j < stored.len()
        invariant
            j <= stored.len(),
            forall|a: int, b: int|
                0 <= a < names.len() && 0 <= b < names.len() && a != b ==> (#[trigger] names@[a])@
                    != (#[trigger] names@[b])@,
            forall|a: int|
                0 <= a < names.len() ==> exists|i: int|
                    0 <= i < stored.len() && (#[trigger] stored@[i]).crate_name@ == (#[trigger] names@[a])@,
            forall|i: int|
                0 <= i < j ==> exists|a: int|
                    0 <= a < names.len() && (#[trigger] names@[a])@ == (#[trigger] stored@[i]).crate_name@,
        decreases stored.len() - j,
    {
        let c = &stored[j].crate_name;
        if !has_name(&names, c) {
            let ghost before = names@;
            names.push(c.clone());
            assert forall|a: int| 0 <= a < names.len() implies exists|i: int|
                0 <= i < stored.len() && (#[trigger] stored@[i]).crate_name@ == (#[trigger] names@[a])@ by {
                if a < before.len() {
                    assert(names@[a] == before[a]);
                } else {
                    assert(stored@[j as int].crate_name@ == names@[a]@);
                }
            }
            assert forall|i: int| 0 <= i < j + 1 implies exists|a: int|
                0 <= a < names.len() && (#[trigger] names@[a])@ == (#[trigger] stored@[i]).crate_name@ by {
                if i < j {
                    let a = choose|a: int| 0 <= a < before.len() && (#[trigger] before[a])@ == stored@[i].crate_name@;
                    assert(names@[a] == before[a]);
                } else {
                    assert(names@[before.len() as int]@ == stored@[i].crate_name@);
                }
            }
        }
        j = j + 1;
    }
    let mut files: Vec<CrateFile> = Vec::new();
    let mut a: usize = 0;
    while a < names.len()
        invariant
            a <= names.len(),
            files.len() == a,
            forall|b: int| 0 <= b < a ==> (#[trigger] files@[b]).crate_name@ == names@[b]@,
            forall|b: int|
                0 <= b < a ==> stored_views((#[trigger] files@[b]).entries@) == filed_under(
                    stored_views(stored@),
                    files@[b].crate_name@,
                ),
        decreases names.len() - a,
    {
        let entries = collect_crate(stored, &names[a]);
        files.push(CrateFile { crate_name: names[a].clone(), entries });
        a = a + 1;
    }
    assert forall|x: int, y: int|
        0 <= x < files.len() && 0 <= y < files.len() && x != y implies (#[trigger] files@[x]).crate_name@
        != (#[trigger] files@[y]).crate_name@ by {
        assert(names@[x]@ != names@[y]@);
    }
    assert forall|x: int| 0 <= x < files.len() implies stored_in_crate(stored@, (#[trigger] files@[x]).crate_name@) by {
        assert(files@[x].crate_name@ == names@[x]@);
        let i = choose|i: int| 0 <= i < stored.len() && (#[trigger] stored@[i]).crate_name@ == names@[x]@;
        assert(stored@[i].crate_name@ == files@[x].crate_name@);
    }
    assert forall|i: int| 0 <= i < stored.len() implies has_file(files@, (#[trigger] stored@[i]).crate_name@) by {
        let x = choose|x: int| 0 <= x < names.len() && (#[trigger] names@[x])@ == stored@[i].crate_name@;
        assert(files@[x].crate_name@ == names@[x]@);
        assert(files@[x].crate_name@ == stored@[i].crate_name@);
    }
    files
}

/// The crate whose cache file has this file name: the name's stem when its extension
/// is `json` (a dot at position zero starts no extension).
pub open spec fn spec_crate_of_cache_file(name: Seq<char>) -> Option<Seq<char>> {
    match last_index_of(name, '.') {
        Some(p) => if p > 0 && name.skip(p + 1) == "json"@ {
            Some(name.take(p))
        } else {
            None
        },
        None => None,
    }
}

/// The file name of a crate's cache file.
pub open spec fn spec_cache_file_name(c: Seq<char>) -> Seq<char> {
    c + ".json"@
}

/// The file name of a crate's cache file.
pub fn cache_file_name(crate_name: &str) -> (r: String)
    ensures
        r@ == spec_cache_file_name(crate_name@),
{
    let mut r = owned(crate_name);
    push_str(&mut r, ".json");
    r
}

/// The crate whose cache file has this file name, if it is one.
pub fn crate_of_cache_file(file_name: &str) -> (r: Option<String>)
    ensures
        opt_view(r) == spec_crate_of_cache_file(file_name@),
{
    let v = to_chars(file_name);
    let mut i = v.len();
    assert(v@.take(i as int) =~= v@);
    while i > 0 && v[i - 1] != '.'
        invariant
            i <= v.len(),
            v@ == file_name@,
            forall|j: int| i <= j < v.len() ==> v@[j] != '.',
            last_index_of(v@, '.') == last_index_of(v@.take(i as int), '.'),
        decreases i,
    {
        assert(v@.take(i as int).drop_last() =~= v@.take(i - 1));
        i = i - 1;
    }
    if i == 0 {
        assert(v@.take(0) =~= Seq::<char>::empty());
        return None;
    }
    let p = i - 1;
    assert(v@.take(i as int).last() == '.');
    assert(last_index_of(v@.take(i as int), '.') == Some(p as int));
    if p == 0 {
        return None;
    }
    let ext = string_of_range(&v, i, v.len());
    assert(v@.subrange(i as int, v.len() as int) =~= v@.skip(p + 1));
    if str_eq(ext.as_str(), "json") {
        let stem = string_of_range(&v, 0, p);
        assert(v@.subrange(0, p as int) =~= v@.take(p as int));
        Some(stem)
    } else {
        None
    }
}

/// A crate's cache file is read back as that crate's, for every crate name
/// but the empty one (whose file name `.json` has no extension).
pub proof fn lemma_cache_file_round_trip(c: Seq<char>)
    requires
        c.len() > 0,
    ensures
        spec_crate_of_cache_file(spec_cache_file_name(c)) == Some(c),
{
    reveal_strlit(".json");
    reveal_strlit("json");
    let n = spec_cache_file_name(c);
    let s1 = n.drop_last();
    let s2 = s1.drop_last();
    let s3 = s2.drop_last();
    let s4 = s3.drop_last();
    assert(n.last() == 'n');
    assert(s1.last() == 'o');
    assert(s2.last() == 's');
    assert(s3.last() == 'j');
    assert(s4 =~= c.push('.'));
    assert(s4.last() == '.');
    assert(last_index_of(s4, '.') == Some(c.len() as int));
    assert(last_index_of(s3, '.') == last_index_of(s4, '.'));
    assert(last_index_of(s2, '.') == last_index_of(s3, '.'));
    assert(last_index_of(s1, '.') == last_index_of(s2, '.'));
    assert(last_index_of(n, '.') == last_index_of(s1, '.'));
    assert(n.skip(c.len() + 1int) =~= "json"@);
    assert(n.take(c.len() as int) =~= c);
}

} // verus!
