use rustools_mcp::docs_parser::{
    choose_version, context_bundle, crate_header, extract_content, feature_flags_report, get_base_url,
    implementors_section, is_std_crate, item_prefix, item_urls, search_fetch_limit, search_results, search_url,
    signature_search_message, source_url, symbol_parts, main_content, main_element, CrateSummary, DocsFetchError, ItemSearch,
    MainContent, VersionChoice,
};
use rustools_mcp::docs_parser::{filter_dependencies, refused_request, select_lines, url_encode, Requested};
use rustools_mcp::modules_overview::crate_modules_overview;

#[test]
fn std_crates_and_versions() {
    assert!(is_std_crate("core"));
    assert!(!is_std_crate("serde"));
    assert!(matches!(choose_version("std", None), VersionChoice::Known(v) if v == "latest"));
    assert!(matches!(choose_version("serde", Some("1.0.0".to_string())), VersionChoice::Known(v) if v == "1.0.0"));
    assert!(matches!(choose_version("serde", Some("latest".to_string())), VersionChoice::AskLatest));
    assert!(matches!(choose_version("serde", None), VersionChoice::AskLatest));
    assert_eq!(get_base_url("https://docs.rs", "std", "latest"), "https://doc.rust-lang.org");
    assert_eq!(get_base_url("https://docs.rs", "std", "1.80.0"), "https://doc.rust-lang.org/1.80.0");
    assert_eq!(get_base_url("https://docs.rs", "serde", "1.0.0"), "https://docs.rs");
}

#[test]
fn page_content_comes_from_main_content() {
    let html = "<html><body><nav>menu</nav><section id=\"main-content\"><p>Hello docs</p></section></body></html>";
    let main = main_content(html).unwrap();
    assert!(main.contains("Hello docs"));
    assert!(!main.contains("menu"));
    let text = extract_content(&MainContent::Markdown(html2md::parse_html(&main)), "https://docs.rs/x").unwrap();
    assert!(text.starts_with("Source: https://docs.rs/x\n\n"));
    assert!(text.contains("Hello docs"));
    assert!(!text.contains("menu"));
    assert_eq!(main_content("<html><body>x</body></html>"), None);
    assert_eq!(extract_content(&MainContent::Missing, "u"), Err(DocsFetchError::ContentNotFound));
}

#[test]
fn page_content_collapses_newline_runs() {
    let md = MainContent::Markdown("# T\n\n\n\nbody\n\n\nend".to_string());
    assert_eq!(extract_content(&md, "u").unwrap(), "Source: u\n\n# T\n\nbody\n\nend");
}

#[test]
fn unrenderable_content_is_a_parse_error() {
    assert_eq!(
        extract_content(&MainContent::Unrenderable, "u"),
        Err(DocsFetchError::ParseError("Could not convert the page content to Markdown".to_string()))
    );
}

#[test]
fn main_elements_are_selected() {
    let main = main_element("<html><body><nav>n</nav><main><h1>Title</h1></main></body></html>").unwrap();
    assert!(main.starts_with("<main>"));
    assert!(main.contains("Title"));
    assert!(!main.contains("<nav>"));
    assert_eq!(main_element("<p>x</p>"), None);
}

#[test]
fn crate_headers() {
    let h = crate_header("serde", "1.0.0", "https://docs.rs/serde/1.0.0/", &Some("A framework".to_string()), &None);
    assert_eq!(h, "# Crate: serde 1.0.0\n\n> A framework\n\n- **Docs**: https://docs.rs/serde/1.0.0/\n\n---\n\n");
}

#[test]
fn implementors_sections() {
    assert_eq!(implementors_section("intro\n## Implementors\nA\n"), "# Implementors\nA\n");
    assert_eq!(
        implementors_section("no section"),
        "Could not isolate 'Implementors' section. Here is the full doc:\n\nno section"
    );
}

#[test]
fn bundles() {
    assert_eq!(
        context_bundle("serde", "O", "M", "F"),
        "# Context Bundle: serde\n\n## Overview\nO\n\n## Modules\nM\n\n## Features\nF\n"
    );
}

#[test]
fn symbols_and_item_pages() {
    assert_eq!(symbol_parts("std", "std::vec::Vec"), vec!["vec", "Vec"]);
    assert_eq!(symbol_parts("std", "vec/Vec"), vec!["vec", "Vec"]);
    assert_eq!(symbol_parts("serde", "::Serialize"), vec!["Serialize"]);
    let prefix = item_prefix("https://docs.rs", "serde", "1.0.0");
    assert_eq!(prefix, "https://docs.rs/serde/1.0.0/serde");
    let urls = item_urls(&prefix, &vec!["de".to_string(), "Deserializer".to_string()]);
    assert_eq!(urls.len(), 8);
    assert_eq!(urls[0], "https://docs.rs/serde/1.0.0/serde/de/struct.Deserializer.html");
    assert_eq!(urls[7], "https://docs.rs/serde/1.0.0/serde/de/Deserializer/index.html");
}

#[test]
fn item_search_reports_the_last_failure() {
    let mut search = ItemSearch::new(vec!["a".to_string(), "b".to_string()]);
    assert_eq!(search.next_url(), Some("a".to_string()));
    search.request_failed("timeout".to_string());
    assert_eq!(search.next_url(), Some("b".to_string()));
    search.not_found();
    assert_eq!(search.next_url(), None);
    assert_eq!(search.failure(), DocsFetchError::RequestError("timeout".to_string()));
    let mut quiet = ItemSearch::new(vec!["a".to_string()]);
    quiet.not_found();
    assert_eq!(quiet.failure(), DocsFetchError::ItemNotFound("Status: 404 Not Found".to_string()));
}

#[test]
fn search_requests_and_results() {
    assert_eq!(search_fetch_limit(None, false), 10);
    assert_eq!(search_fetch_limit(Some(5), true), 50);
    assert_eq!(search_fetch_limit(Some(40), true), 80);
    assert_eq!(search_url("json", 10), "https://crates.io/api/v1/crates?q=json&per_page=10");
    let crates = vec![
        CrateSummary {
            name: "serde_json".to_string(),
            max_version: "1.0.0".to_string(),
            description: Some("JSON\nsupport".to_string()),
        },
        CrateSummary { name: "json".to_string(), max_version: "0.12.4".to_string(), description: None },
    ];
    assert_eq!(
        search_results("json", false, &crates, Some(1)),
        "# Search Results for 'json' (fuzzy: false)\n\n| Crate | Latest Version | Description |\n|-------|----------------|-------------|\n| serde_json | 1.0.0 | JSON support |\n"
    );
}

#[test]
fn feature_reports_are_sorted_by_name() {
    let features = vec![
        ("std".to_string(), vec!["alloc".to_string()]),
        ("default".to_string(), vec!["std".to_string()]),
        ("alloc".to_string(), vec![]),
    ];
    assert_eq!(
        feature_flags_report("serde", "1.0.0", features),
        "# Feature Flags for serde 1.0.0\n\n| Feature | Enabled By Default | Dependencies |\n|---------|--------------------|--------------|\n| **alloc** | No | - |\n| **default** | Yes | std |\n| **std** | No | alloc |\n"
    );
    assert_eq!(feature_flags_report("x", "1", vec![]), "# Feature Flags for x 1\n\nNo feature flags found.\n");
}

#[test]
fn signature_search_points_to_the_search_page() {
    assert_eq!(
        signature_search_message("https://docs.rs", "serde", "1.0.0", "fn(&str)"),
        "Search by signature requires client-side JavaScript and cannot be performed via this tool.\n\nPlease visit the search results page directly:\nhttps://docs.rs/serde/1.0.0/serde/?search=fn%28%26str%29"
    );
}

#[test]
fn source_urls() {
    assert_eq!(
        source_url("https://docs.rs", "my-crate", "1.0.0", "src/lib.rs"),
        "https://docs.rs/my-crate/1.0.0/src/my_crate/lib.rs.html"
    );
}

#[test]
fn module_overview_from_item_table() {
    let html = "<html><body><table class=\"item-table\">\
        <tr><td><a class=\"mod\" href=\"de/index.html\">de</a></td><td class=\"docblock-short\">Deserialization</td></tr>\
        <tr><td><a class=\"trait\" href=\"trait.Serialize.html\">Serialize</a></td><td class=\"docblock-short\">A data structure</td></tr>\
        </table></body></html>";
    let text = crate_modules_overview(html, "serde", "1.0.0", "https://docs.rs/serde/1.0.0/serde/", None);
    assert_eq!(
        text,
        "# API Overview for serde 1.0.0\n\n*Found 2 items. Showing top 2.*\n\n\
## Modules\n- **de**: Deserialization\n\n## Traits\n- **Serialize**: A data structure\n\n"
    );
    let links = "<html><body><a class=\"mod\" href=\"m/index.html\">m</a><a class=\"fn\" href=\"fn.f.html\">f</a></body></html>";
    let text = crate_modules_overview(links, "x", "1", "u", Some(1));
    assert_eq!(text, "# API Overview for x 1\n\n*Found 2 items. Showing top 2.*\n\n## Modules\n- **m**\n\n## Functions\n- **f**\n\n");
    let empty = crate_modules_overview("<html></html>", "x", "1", "u", None);
    assert_eq!(empty, "No modules or items found at u. The documentation might use a non-standard layout.");
}

fn fn_links(n: usize) -> String {
    let mut html = String::from("<html><body><a class=\"mod\" href=\"m/index.html\">m</a>");
    for i in 0..n {
        html.push_str(&format!("<a class=\"fn\" href=\"fn.f{i}.html\">f{i}</a>"));
    }
    html.push_str("</body></html>");
    html
}

#[test]
fn module_overview_limits_each_section() {
    let text = crate_modules_overview(&fn_links(4), "x", "1", "u", Some(2));
    assert_eq!(
        text,
        "# API Overview for x 1\n\n*Found 5 items. Showing top 3.*\n\n## Modules\n- **m**\n\n\
## Functions\n- **f0**\n- **f1**\n*... and 2 more ...*\n\n"
    );
}

#[test]
fn module_overview_without_limit_lists_everything() {
    let text = crate_modules_overview(&fn_links(60), "x", "1", "u", None);
    assert!(text.starts_with("# API Overview for x 1\n\n*Found 61 items. Showing top 61.*\n\n"));
    assert!(text.contains("- **f59**\n"));
    assert!(!text.contains("more ...*"));
}

#[test]
fn module_overview_cuts_long_descriptions_between_characters() {
    let desc = format!("{}{}", "a".repeat(96), "é".repeat(10));
    let html = format!(
        "<html><body><table class=\"item-table\"><tr><td><a class=\"struct\" href=\"struct.S.html\">S</a></td>\
<td class=\"docblock-short\">{desc}</td></tr></table></body></html>"
    );
    let text = crate_modules_overview(&html, "x", "1", "u", None);
    let cut = format!("{}...", "a".repeat(96));
    assert!(text.contains(&format!("## Structs\n- **S**: {cut}\n")));
    let ascii = "b".repeat(120);
    let html = format!(
        "<html><body><table class=\"item-table\"><tr><td><a class=\"struct\" href=\"struct.S.html\">S</a></td>\
<td class=\"docblock-short\">{ascii}</td></tr></table></body></html>"
    );
    let text = crate_modules_overview(&html, "x", "1", "u", None);
    assert!(text.contains(&format!("- **S**: {}...\n", "b".repeat(97))));
}

#[test]
fn url_encoding_keeps_unreserved_bytes() {
    assert_eq!(url_encode("fn(x: &str) -> T"), "fn%28x%3A%20%26str%29%20-%3E%20T");
    assert_eq!(url_encode("a-b_c.d~e"), "a-b_c.d~e");
    assert_eq!(url_encode("é"), "%C3%A9");
    assert_eq!(url_encode(""), "");
}

#[test]
fn line_windows_are_one_based_and_inclusive() {
    let text = "one\ntwo\nthree\nfour";
    assert_eq!(select_lines(text, None, None), text);
    assert_eq!(select_lines(text, Some(2), Some(3)), "two\nthree");
    assert_eq!(select_lines(text, Some(3), None), "three\nfour");
    assert_eq!(select_lines(text, None, Some(1)), "one");
    assert_eq!(select_lines(text, Some(0), Some(2)), "one\ntwo");
    assert_eq!(select_lines(text, Some(3), Some(100)), "three\nfour");
    assert_eq!(select_lines(text, Some(4), Some(2)), "");
    assert_eq!(select_lines(text, Some(9), None), "");
}

#[test]
fn dependencies_are_filtered_by_kind() {
    let deps = vec![
        ("normal".to_string(), "serde"),
        ("dev".to_string(), "tokio"),
        ("normal".to_string(), "log"),
        ("build".to_string(), "cc"),
    ];
    let kept: Vec<&str> = filter_dependencies(deps.clone(), &Some("normal".to_string())).into_iter().map(|d| d.1).collect();
    assert_eq!(kept, vec!["serde", "log"]);
    let dev: Vec<&str> = filter_dependencies(deps.clone(), &Some("dev".to_string())).into_iter().map(|d| d.1).collect();
    assert_eq!(dev, vec!["tokio"]);
    assert_eq!(filter_dependencies(deps.clone(), &None).len(), 4);
    assert!(filter_dependencies(deps, &Some("other".to_string())).is_empty());
}

#[test]
fn refused_requests_become_errors() {
    assert_eq!(refused_request(Requested::DocsPage, "x", "1", "u"), DocsFetchError::DocsNotFound);
    assert_eq!(refused_request(Requested::CrateMetadata, "x", "1", "u"), DocsFetchError::CrateNotFound("x".to_string()));
    assert_eq!(
        refused_request(Requested::CrateVersion, "x", "1.0", "u"),
        DocsFetchError::VersionNotFound("1.0".to_string(), "x".to_string())
    );
    assert_eq!(
        refused_request(Requested::CrateRoot, "x", "1", "https://docs.rs/x/1/x/index.html"),
        DocsFetchError::ItemNotFound("Crate root not found at https://docs.rs/x/1/x/index.html".to_string())
    );
    assert_eq!(
        refused_request(Requested::Dependencies, "x", "1", "u"),
        DocsFetchError::ParseError("Failed to fetch dependencies".to_string())
    );
}
