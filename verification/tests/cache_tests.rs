use rustools_mcp::cache::{
    cache_file_name, crate_of_cache_file, denormalize_key, get_crate_name, group_by_crate, normalize_key, Cache,
    InMemoryCache, StoredEntry,
};
use rustools_mcp::docs_parser::{CacheKey, DocContent, DocsRsParams};

#[test]
fn test_cache_insert_retrieve() {
    let mut cache = InMemoryCache::new("test_cache".to_string());

    let key = CacheKey::FetchRawDoc(DocsRsParams {
        crate_name: "test_crate".to_string(),
        version: "1.0.0".to_string(),
        path: "index.html".to_string(),
    });

    let value = DocContent { content: "test content".to_string() };

    cache.insert(key.clone(), value.clone());

    let retrieved = cache.get(&key);
    assert_eq!(retrieved, Some(value));
}

#[test]
fn test_cache_persistence() {
    let key = CacheKey::FetchRawDoc(DocsRsParams {
        crate_name: "test_crate_2".to_string(),
        version: "1.0.0".to_string(),
        path: "lib.rs".to_string(),
    });

    let value = DocContent { content: "persistent content".to_string() };

    // The first instance stores the item; what it would write to disk is its snapshot,
    // filed by crate.
    let files = {
        let mut cache = InMemoryCache::new("cache_dir".to_string());
        cache.insert(key.clone(), value.clone());
        group_by_crate(&cache.snapshot())
    };
    assert_eq!(files.len(), 1);
    assert_eq!(files[0].crate_name, "test_crate_2");

    // A second instance loads what was filed.
    let mut stored: Vec<StoredEntry> = Vec::new();
    for file in files {
        stored.extend(file.entries);
    }
    let mut cache2 = InMemoryCache::new("cache_dir".to_string());
    cache2.load_entries(&stored);

    let retrieved = cache2.get(&key);
    assert_eq!(retrieved, Some(value));
}

#[test]
fn cache_insert_replaces_and_clear_empties() {
    let mut cache = InMemoryCache::new(".cache".to_string());
    let key = CacheKey::GetCrateOverview { crate_name: "serde".to_string(), version: None };
    cache.insert(key.clone(), DocContent { content: "one".to_string() });
    cache.insert(key.clone(), DocContent { content: "two".to_string() });
    assert_eq!(cache.len(), 1);
    assert_eq!(cache.get(&key).unwrap().content, "two");
    assert!(cache.contains_key(&key));
    cache.clear();
    assert!(!cache.contains_key(&key));
    assert_eq!(cache.get(&key), None);
    assert_eq!(cache.cache_dir(), ".cache");
}

#[test]
fn crate_names_of_keys() {
    let search = CacheKey::FindCrates { query: "json".to_string(), limit: Some(5), fuzzy: None };
    assert_eq!(get_crate_name(&search), "__global__");
    let deps = CacheKey::GetCrateDependencies {
        crate_name: "tokio".to_string(),
        version: "1.0.0".to_string(),
        kind: None,
    };
    assert_eq!(get_crate_name(&deps), "tokio");
}

#[test]
fn normalized_keys() {
    let search = CacheKey::FindCrates { query: "json".to_string(), limit: Some(5), fuzzy: Some(true) };
    assert_eq!(normalize_key(&search), "search::json::5");
    let overview = CacheKey::GetCrateOverview { crate_name: "serde".to_string(), version: None };
    assert_eq!(normalize_key(&overview), "landing::latest");
    let source = CacheKey::ReadSourceFile {
        crate_name: "serde".to_string(),
        path: "src/lib.rs".to_string(),
        version: Some("1.0.0".to_string()),
        start_line: Some(3),
        end_line: None,
    };
    assert_eq!(normalize_key(&source), "source::1.0.0::3::0::src/lib.rs");
    let deps = CacheKey::GetCrateDependencies {
        crate_name: "tokio".to_string(),
        version: "1.0.0".to_string(),
        kind: None,
    };
    assert_eq!(normalize_key(&deps), "deps::1.0.0::all");
}

#[test]
fn keys_round_trip_through_their_stored_form() {
    let keys = vec![
        CacheKey::FindCrates { query: "json".to_string(), limit: Some(5), fuzzy: None },
        CacheKey::GetCrateOverview { crate_name: "serde".to_string(), version: Some("1.0.0".to_string()) },
        CacheKey::GetCrateModules { crate_name: "serde".to_string(), version: None, limit: Some(20) },
        CacheKey::GetSymbolDocs {
            crate_name: "std".to_string(),
            symbol_path: "vec/Vec".to_string(),
            version: None,
        },
        CacheKey::FetchRawDoc(DocsRsParams {
            crate_name: "serde".to_string(),
            version: "1.0.0".to_string(),
            path: "serde/index.html".to_string(),
        }),
        CacheKey::GetCrateDependencies {
            crate_name: "tokio".to_string(),
            version: "1.0.0".to_string(),
            kind: Some("dev".to_string()),
        },
        CacheKey::AnalyzeFeatureFlags { crate_name: "tokio".to_string(), version: "1.0.0".to_string() },
        CacheKey::FindTraitImplementors {
            crate_name: "serde".to_string(),
            trait_path: "Serialize".to_string(),
            version: None,
            limit: Some(30),
        },
        CacheKey::GetContextBundle { crate_name: "serde".to_string(), version: None },
        CacheKey::FindBySignature {
            crate_name: "serde".to_string(),
            signature_pattern: "fn(&str)".to_string(),
            version: None,
        },
    ];
    for key in keys {
        let back = denormalize_key(&get_crate_name(&key), &normalize_key(&key)).unwrap();
        assert_eq!(back, key);
    }
}

#[test]
fn denormalize_falls_back_to_raw_docs_and_rejects_the_rest() {
    let key = denormalize_key("serde", "1.0.0::serde/index.html").unwrap();
    assert_eq!(
        key,
        CacheKey::FetchRawDoc(DocsRsParams {
            crate_name: "serde".to_string(),
            version: "1.0.0".to_string(),
            path: "serde/index.html".to_string(),
        })
    );
    assert_eq!(
        denormalize_key("serde", "nothing").unwrap_err(),
        "Invalid normalized key format for crate serde: nothing"
    );
    assert!(denormalize_key("__global__", "landing::latest").is_err());
}

#[test]
fn cache_file_names_round_trip() {
    assert_eq!(cache_file_name("serde"), "serde.json");
    assert_eq!(crate_of_cache_file("serde.json"), Some("serde".to_string()));
    assert_eq!(crate_of_cache_file("README"), None);
}

#[test]
fn insert_and_clear_keep_the_cache_directory() {
    let mut cache = InMemoryCache::new("/tmp/docs-cache".to_string());
    let key = CacheKey::GetCrateOverview { crate_name: "serde".to_string(), version: None };
    cache.insert(key.clone(), DocContent { content: "text".to_string() });
    assert_eq!(cache.cache_dir(), "/tmp/docs-cache");
    assert!(cache.contains_key(&key));
    cache.clear();
    assert_eq!(cache.cache_dir(), "/tmp/docs-cache");
    assert!(!cache.contains_key(&key));
}
