use rustools_mcp::context_engine::{
    analyze_items, architecture, count_lines, format_context_as_markdown, is_rust_source, manifest_dependencies,
    rank_hotspots, ArchitectureType, Hotspot, ProjectAnalyzer, ProjectScan, SourceItem, TypeShape,
};

#[test]
fn analysis_report_has_headings() {
    let mut scan = ProjectScan::new();
    let source = "pub struct Point { x: i32, y: i32 }\n\npub async fn run(p: &Point, n: u32) -> Result<(), String> { Ok(()) }\nfn helper() {}\n";
    scan.add_file("src/lib.rs".to_string(), Some(source.to_string()));
    let deps = manifest_dependencies(Some("[dependencies]\nserde = \"1\"\n".to_string()));
    let context = scan.finish(deps, architecture(false, true));
    let report = format_context_as_markdown(&context);
    let run = &context.modules[0].1.functions[0];
    assert_eq!(run.name, "run");
    assert!(run.is_async);
    assert_eq!(run.args, vec!["&T", "u32"]);
    assert_eq!(run.return_type, "Result");
    assert_eq!(context.modules[0].1.functions[1].return_type, "()");
    assert_eq!(context.modules[0].1.structs[0].fields, 2);
    assert!(report.contains("# Project Context Analysis"));
    assert!(report.contains("## Modules"));
    assert_eq!(
        report,
        "# Project Context Analysis\n\n## Overview\n- **Total Files**: 1\n- **Total Lines**: 4\n- **Architecture**: Library\n\n\
## Dependencies\n- **serde** (1)\n\n## Modules\n### src/lib.rs\n- **Path**: src/lib.rs\n- **Complexity**: 3\n\
- **Structs**:\n  - Point (pub)\n- **Functions**:\n  - run (pub)\n  - helper (private)\n\n## Hotspots\n"
    );
}

#[test]
fn functions_and_structs_are_read_from_items() {
    let items = vec![
        SourceItem::Function(
            "run".to_string(),
            true,
            true,
            Some(TypeShape::Path(Some("Result".to_string()))),
            vec![None, Some(TypeShape::Reference), Some(TypeShape::Complex), Some(TypeShape::Path(None))],
        ),
        SourceItem::Other,
        SourceItem::Struct("S".to_string(), false, 2),
    ];
    let m = analyze_items(&items, "src/a.rs".to_string());
    assert_eq!(m.path, "src/a.rs");
    assert_eq!(m.complexity, 2);
    assert_eq!(m.functions.len(), 1);
    assert_eq!(m.functions[0].visibility, "pub");
    assert!(m.functions[0].is_async);
    assert_eq!(m.functions[0].args, vec!["self", "&T", "Complex", "?"]);
    assert_eq!(m.functions[0].return_type, "Result");
    assert_eq!(m.functions[0].lines, 0);
    assert_eq!(m.structs[0].visibility, "private");
    assert_eq!(m.structs[0].fields, 2);
}

#[test]
fn line_counts_follow_str_lines() {
    assert_eq!(count_lines(""), 0);
    assert_eq!(count_lines("a"), 1);
    assert_eq!(count_lines("a\n"), 1);
    assert_eq!(count_lines("a\nb"), 2);
    assert_eq!(count_lines("a\n\n"), 2);
    assert_eq!(count_lines("\n"), 1);
}

#[test]
fn rust_sources_by_extension() {
    assert!(is_rust_source("src/lib.rs"));
    assert!(is_rust_source("a.rs"));
    assert!(!is_rust_source("src/.rs"));
    assert!(!is_rust_source("notes.rst"));
    assert!(!is_rust_source("rs"));
}

#[test]
fn long_files_become_hotspots() {
    let mut scan = ProjectScan::new();
    let long = "fn f() {}\n".repeat(305);
    scan.add_file("src/big.rs".to_string(), Some(long));
    scan.add_file("src/small.rs".to_string(), Some("fn g() {}\n".to_string()));
    scan.add_file("src/unreadable.rs".to_string(), None);
    scan.add_file("src/broken.rs".to_string(), Some("fn (".to_string()));
    assert_eq!(scan.total_files, 4);
    assert_eq!(scan.total_lines, 307);
    assert_eq!(scan.modules.len(), 2);
    assert_eq!(scan.hotspots.len(), 1);
    assert_eq!(scan.hotspots[0].path, "src/big.rs");
    assert_eq!(scan.hotspots[0].score, 30);
    assert_eq!(scan.hotspots[0].reason, "Large file (305 lines, 305 functions)");
}

#[test]
fn a_path_scanned_twice_keeps_one_module() {
    let mut scan = ProjectScan::new();
    scan.add_file("src/a.rs".to_string(), Some("fn one() {}\n".to_string()));
    scan.add_file("src/a.rs".to_string(), Some("fn one() {}\nfn two() {}\n".to_string()));
    assert_eq!(scan.modules.len(), 1);
    assert_eq!(scan.modules[0].1.functions.len(), 2);
}

fn hotspot(path: &str, score: u32) -> Hotspot {
    Hotspot { path: path.to_string(), score, reason: String::new() }
}

#[test]
fn hotspots_rank_by_score_keeping_ties_in_order() {
    let hs = vec![hotspot("a", 3), hotspot("b", 9), hotspot("c", 3), hotspot("d", 5), hotspot("e", 9)];
    let ranked: Vec<String> = rank_hotspots(&hs).into_iter().map(|h| h.path).collect();
    assert_eq!(ranked, vec!["b", "e", "d", "a", "c"]);
}

#[test]
fn at_most_ten_hotspots_are_kept() {
    let mut scan = ProjectScan::new();
    for i in 0..12 {
        scan.hotspots.push(hotspot(&format!("f{}", i), i));
    }
    let context = scan.finish(Vec::new(), ArchitectureType::Unknown);
    assert_eq!(context.hotspots.len(), 10);
    assert_eq!(context.hotspots[0].score, 11);
    assert_eq!(context.hotspots[9].score, 2);
}

#[test]
fn architecture_choice() {
    assert_eq!(architecture(true, true), ArchitectureType::Binary);
    assert_eq!(architecture(false, true), ArchitectureType::Library);
    assert_eq!(architecture(false, false), ArchitectureType::Unknown);
}

#[test]
fn dependencies_from_manifest() {
    let deps = manifest_dependencies(Some(
        "[package]\nname = \"x\"\n\n[dependencies]\nanyhow = \"1\"\ntokio = { version = \"1\", features = [\"full\"] }\n"
            .to_string(),
    ));
    assert_eq!(deps.len(), 2);
    assert_eq!(deps[0].name, "anyhow");
    assert_eq!(deps[0].version, "1");
    assert_eq!(deps[1].name, "tokio");
    assert_eq!(deps[1].version, "*");
    assert!(deps[1].features.is_empty());
    assert!(manifest_dependencies(None).is_empty());
    assert!(manifest_dependencies(Some("not [ toml".to_string())).is_empty());
}

#[test]
fn analyzer_keeps_its_root() {
    let analyzer = ProjectAnalyzer::new("/project".to_string());
    assert_eq!(analyzer.root_path(), "/project");
}
