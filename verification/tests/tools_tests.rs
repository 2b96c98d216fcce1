use rustools_mcp::cache::{Cache, InMemoryCache};
use rustools_mcp::docs_parser::{CacheKey, DocContent, DocsFetchError, DocsRsParams, MainContent};
use rustools_mcp::rust_book::BookChapter;
use rustools_mcp::tools::{
    _fetch_raw_doc, analyze_feature_flags, find_by_signature, find_trait_implementors, get_context_bundle,
    get_crate_dependencies, get_crate_examples, local_doc, read_source_file, AnalyzeFeatureFlagsArgs, FetchRawDocArgs,
    FindBySignatureArgs, FindTraitImplementorsArgs, GetContextBundleArgs, GetCrateDependenciesArgs,
    GetCrateExamplesArgs, ReadSourceFileArgs,
    cargo_tool_args, cargo_tool_outcome, check_concept, check_error_code, concept_answer, concept_chapter,
    doc_workflow_help, error_code_answer, find_crates, get_crate_modules, get_crate_overview, get_symbol_docs,
    local_doc_path, record_fetch, ExplainErrorCodeArgs, FindCratesArgs, GetCrateModulesArgs, GetCrateOverviewArgs,
    GetLanguageConceptArgs, GetLocalDocArgs, GetSymbolDocsArgs, ToolStep, WORKFLOW_GUIDE,
};

fn test_cache() -> InMemoryCache {
    InMemoryCache::new("test_cache".to_string())
}

#[test]
fn test_find_crates_empty_query() {
    let cache = test_cache();
    let args = FindCratesArgs { query: "".to_string(), limit: None, fuzzy: None };
    let result = find_crates(&cache, &args);
    assert!(matches!(result, ToolStep::Done(Err(DocsFetchError::InvalidInput(_)))));
}

#[test]
fn test_get_crate_overview_empty_name() {
    let cache = test_cache();
    let args = GetCrateOverviewArgs { crate_name: "".to_string(), version: None };
    let result = get_crate_overview(&cache, &args);
    assert!(matches!(result, ToolStep::Done(Err(DocsFetchError::InvalidInput(_)))));
}

#[test]
fn blank_inputs_are_refused_with_their_messages() {
    let cache = test_cache();
    let step = find_crates(&cache, &FindCratesArgs { query: "  \t".to_string(), limit: None, fuzzy: None });
    match step {
        ToolStep::Done(Err(DocsFetchError::InvalidInput(m))) => assert_eq!(m, "Query cannot be empty"),
        _ => panic!("blank query accepted"),
    }
    let step = get_crate_modules(&cache, &GetCrateModulesArgs { crate_name: " ".to_string(), version: None, limit: None });
    match step {
        ToolStep::Done(Err(DocsFetchError::InvalidInput(m))) => assert_eq!(m, "Crate name cannot be empty"),
        _ => panic!("blank crate accepted"),
    }
    let step = get_symbol_docs(
        &cache,
        &GetSymbolDocsArgs { crate_name: "serde".to_string(), symbol_path: "".to_string(), version: None },
    );
    match step {
        ToolStep::Done(Err(DocsFetchError::InvalidInput(m))) => assert_eq!(m, "Symbol path cannot be empty"),
        _ => panic!("blank symbol accepted"),
    }
}

#[test]
fn a_miss_asks_for_a_fetch_and_a_recorded_fetch_answers_the_next_request() {
    let mut cache = test_cache();
    let args = FindCratesArgs { query: "json".to_string(), limit: Some(5), fuzzy: None };
    let key = match find_crates(&cache, &args) {
        ToolStep::Fetch(k) => k,
        _ => panic!("expected a fetch"),
    };
    assert_eq!(key, CacheKey::FindCrates { query: "json".to_string(), limit: Some(5), fuzzy: None });
    let answer = record_fetch(&mut cache, key, Ok(DocContent { content: "found".to_string() }));
    assert_eq!(answer.unwrap().content, "found");
    match find_crates(&cache, &args) {
        ToolStep::Done(Ok(c)) => assert_eq!(c.content, "found"),
        _ => panic!("expected a cached answer"),
    }
}

#[test]
fn a_failed_fetch_is_not_cached() {
    let mut cache = test_cache();
    let key = CacheKey::GetCrateOverview { crate_name: "nope".to_string(), version: None };
    let answer = record_fetch(&mut cache, key.clone(), Err(DocsFetchError::DocsNotFound));
    assert_eq!(answer, Err(DocsFetchError::DocsNotFound));
    assert!(!cache.contains_key(&key));
}

#[test]
fn symbol_paths_are_looked_up_with_slashes() {
    let cache = test_cache();
    let args = GetSymbolDocsArgs {
        crate_name: "std".to_string(),
        symbol_path: "vec::Vec::push".to_string(),
        version: None,
    };
    match get_symbol_docs(&cache, &args) {
        ToolStep::Fetch(CacheKey::GetSymbolDocs { symbol_path, .. }) => assert_eq!(symbol_path, "vec/Vec/push"),
        _ => panic!("expected a fetch"),
    }
}

#[test]
fn concept_steps() {
    assert!(check_concept(&GetLanguageConceptArgs { concept: "ownership".to_string() }).is_ok());
    match check_concept(&GetLanguageConceptArgs { concept: " ".to_string() }) {
        Err(DocsFetchError::InvalidInput(m)) => assert_eq!(m, "Concept cannot be empty"),
        _ => panic!("blank concept accepted"),
    }
    match concept_chapter("warp drive", Ok(None)) {
        Err(DocsFetchError::ItemNotFound(m)) => assert_eq!(m, "Concept 'warp drive' not found in the Rust Book"),
        _ => panic!("expected not found"),
    }
    match concept_chapter("x", Err("timeout".to_string())) {
        Err(DocsFetchError::RequestError(m)) => assert_eq!(m, "Failed to search book: timeout"),
        _ => panic!("expected a request error"),
    }
    let chapter = BookChapter { title: "Ownership".to_string(), url: "u".to_string(), content: None };
    assert_eq!(concept_answer(&chapter, Ok("text".to_string())).unwrap().content, "# Ownership\n\ntext");
    match concept_answer(&chapter, Err("down".to_string())) {
        Err(DocsFetchError::RequestError(m)) => assert_eq!(m, "Failed to fetch chapter content: down"),
        _ => panic!("expected a request error"),
    }
}

#[test]
fn error_code_steps() {
    assert_eq!(check_error_code(&ExplainErrorCodeArgs { code: " e0382 ".to_string() }).unwrap(), "E0382");
    match check_error_code(&ExplainErrorCodeArgs { code: "  ".to_string() }) {
        Err(DocsFetchError::InvalidInput(m)) => assert_eq!(m, "Error code cannot be empty"),
        _ => panic!("blank code accepted"),
    }
    assert_eq!(error_code_answer(Ok("md".to_string())).unwrap().content, "md");
    match error_code_answer(Err("bad".to_string())) {
        Err(DocsFetchError::RequestError(m)) => assert_eq!(m, "Failed to fetch error explanation: bad"),
        _ => panic!("expected a request error"),
    }
}

#[test]
fn cargo_tool_steps() {
    assert!(cargo_tool_args(None).is_empty());
    assert_eq!(cargo_tool_args(Some(vec!["--lib".to_string()])), vec!["--lib"]);
    assert_eq!(cargo_tool_outcome(Ok("done".to_string())).unwrap().content, "done");
    assert_eq!(cargo_tool_outcome(Err("failed".to_string())), Err(DocsFetchError::CommandError("failed".to_string())));
}

#[test]
fn workflow_guide_is_returned_whole() {
    let help = doc_workflow_help();
    assert_eq!(help.content, WORKFLOW_GUIDE);
    assert!(help.content.contains("RUST DOC MCP - WORKFLOW GUIDE"));
}

#[test]
fn local_doc_paths() {
    let rel = GetLocalDocArgs { path: "doc/index.html".to_string(), cwd: Some("/work".to_string()) };
    assert_eq!(local_doc_path(&rel), "/work/doc/index.html");
    let slash = GetLocalDocArgs { path: "doc/index.html".to_string(), cwd: Some("/work/".to_string()) };
    assert_eq!(local_doc_path(&slash), "/work/doc/index.html");
    let abs = GetLocalDocArgs { path: "/tmp/a.html".to_string(), cwd: Some("/work".to_string()) };
    assert_eq!(local_doc_path(&abs), "/tmp/a.html");
    let none = GetLocalDocArgs { path: "a.html".to_string(), cwd: None };
    assert_eq!(local_doc_path(&none), "a.html");
}

#[test]
fn each_documentation_tool_asks_for_its_own_key() {
    let cache = test_cache();
    let key_of = |step: ToolStep| match step {
        ToolStep::Fetch(k) => k,
        ToolStep::Done(_) => panic!("expected a fetch"),
    };
    let v = Some("1.0.0".to_string());
    assert_eq!(
        key_of(get_context_bundle(&cache, &GetContextBundleArgs { crate_name: "a".to_string(), version: v.clone() })),
        CacheKey::GetContextBundle { crate_name: "a".to_string(), version: v.clone() }
    );
    assert_eq!(
        key_of(get_crate_dependencies(
            &cache,
            &GetCrateDependenciesArgs { crate_name: "a".to_string(), version: "1".to_string(), kind: None }
        )),
        CacheKey::GetCrateDependencies { crate_name: "a".to_string(), version: "1".to_string(), kind: None }
    );
    assert_eq!(
        key_of(analyze_feature_flags(&cache, &AnalyzeFeatureFlagsArgs { crate_name: "a".to_string(), version: "1".to_string() })),
        CacheKey::AnalyzeFeatureFlags { crate_name: "a".to_string(), version: "1".to_string() }
    );
    assert_eq!(
        key_of(find_trait_implementors(
            &cache,
            &FindTraitImplementorsArgs { crate_name: "a".to_string(), trait_path: "T".to_string(), version: None, limit: Some(3) }
        )),
        CacheKey::FindTraitImplementors { crate_name: "a".to_string(), trait_path: "T".to_string(), version: None, limit: Some(3) }
    );
    assert_eq!(
        key_of(get_crate_examples(&cache, &GetCrateExamplesArgs { crate_name: "a".to_string(), version: None, limit: None })),
        CacheKey::GetCrateExamples { crate_name: "a".to_string(), version: None, limit: None }
    );
    assert_eq!(
        key_of(find_by_signature(
            &cache,
            &FindBySignatureArgs { crate_name: "a".to_string(), signature_pattern: "fn()".to_string(), version: None }
        )),
        CacheKey::FindBySignature { crate_name: "a".to_string(), signature_pattern: "fn()".to_string(), version: None }
    );
    assert_eq!(
        key_of(_fetch_raw_doc(
            &cache,
            &FetchRawDocArgs { crate_name: "a".to_string(), version: "1".to_string(), path: "p".to_string() }
        )),
        CacheKey::FetchRawDoc(DocsRsParams { crate_name: "a".to_string(), version: "1".to_string(), path: "p".to_string() })
    );
    assert_eq!(
        key_of(read_source_file(
            &cache,
            &ReadSourceFileArgs {
                crate_name: "a".to_string(),
                path: "src/lib.rs".to_string(),
                version: None,
                start_line: Some(1),
                end_line: Some(9),
            }
        )),
        CacheKey::ReadSourceFile {
            crate_name: "a".to_string(),
            path: "src/lib.rs".to_string(),
            version: None,
            start_line: Some(1),
            end_line: Some(9),
        }
    );
}

#[test]
fn local_docs_are_extracted_with_their_file_url() {
    let doc = local_doc(&MainContent::Markdown("Local\n\n\n\ntext".to_string()), "/tmp/a.html").unwrap();
    assert_eq!(doc.content, "Source: file:///tmp/a.html\n\nLocal\n\ntext");
    assert_eq!(local_doc(&MainContent::Missing, "/tmp/b.html"), Err(DocsFetchError::ContentNotFound));
}
