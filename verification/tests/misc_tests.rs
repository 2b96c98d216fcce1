use rustools_mcp::config::{default_cache_dir, default_log_level, default_server_address, default_ui_port, Config};
use rustools_mcp::error_index::{error_code_url, error_explanation, missing_code_message, normalize_error_code};
use rustools_mcp::rust_book::{chapter_markdown, find_concept, parse_toc, BookChapter};
use rustools_mcp::docs_parser::MainContent;
use rustools_mcp::web_ui::{is_cache_listing, is_safe_cache_name};

#[test]
fn config_defaults() {
    assert_eq!(default_cache_dir(), ".cache");
    assert_eq!(default_log_level(), "info");
    assert_eq!(default_ui_port(), 3000);
    assert_eq!(default_server_address(), "127.0.0.1:8080");
    let c = Config::load_from(None);
    assert_eq!(c.cache_dir, ".cache");
    assert_eq!(c.ui_port, 3000);
    let custom = Config {
        cache_dir: "/c".to_string(),
        log_level: "debug".to_string(),
        ui_port: 4000,
        server_address: "0.0.0.0:1".to_string(),
    };
    let c = Config::load_from(Some(custom));
    assert_eq!(c.cache_dir, "/c");
    assert!(c.debug_logging(false));
    assert_eq!(c.dashboard_port(None), 4000);
    assert_eq!(c.dashboard_port(Some(5)), 5);
    assert_eq!(c.bind_address(None), "0.0.0.0:1");
    assert_eq!(c.bind_address(Some("1.2.3.4:5".to_string())), "1.2.3.4:5");
    assert!(!Config::defaults().debug_logging(false));
    assert!(Config::defaults().debug_logging(true));
}

#[test]
fn error_codes() {
    assert_eq!(normalize_error_code("  e0382 "), "E0382");
    assert_eq!(error_code_url(" e0382").unwrap(), "https://doc.rust-lang.org/error_codes/E0382.html");
    assert_eq!(error_code_url("X0382").unwrap_err(), "Invalid error code format. Expected format like 'E0382'");
    assert!(error_code_url("E1").is_err());
    assert_eq!(missing_code_message("E9999", "404 Not Found"), "Error code 'E9999' not found (Status: 404 Not Found)");
}

#[test]
fn error_explanations_come_from_main() {
    let md = MainContent::Markdown("# Title\n\nUse of a moved value.".to_string());
    let text = error_explanation("E0382", &md).unwrap();
    assert_eq!(text, "# Error Code E0382\n\n# Title\n\nUse of a moved value.");
    assert_eq!(
        error_explanation("E0382", &MainContent::Missing).unwrap_err(),
        "Could not find <main> content for error code E0382"
    );
    assert_eq!(
        error_explanation("E0382", &MainContent::Unrenderable).unwrap_err(),
        "Could not convert the page content to Markdown"
    );
}

#[test]
fn table_of_contents() {
    let html = "<html><body><ol>\
        <li class=\"chapter-item\"><a href=\"ch01-00-getting-started.html\">1. Getting Started</a></li>\
        <li class=\"chapter-item\"><a href=\"#top\">Top</a></li>\
        <li class=\"chapter-item\"><a href=\"https://example.com/x.html\">External</a></li>\
        <li class=\"chapter-item\"><a href=\"empty.html\">  </a></li>\
        </ol></body></html>";
    let chapters = parse_toc(html).unwrap();
    assert_eq!(chapters.len(), 2);
    assert_eq!(chapters[0].title, "1. Getting Started");
    assert_eq!(chapters[0].url, "https://doc.rust-lang.org/book/ch01-00-getting-started.html");
    assert_eq!(chapters[1].url, "https://example.com/x.html");
    assert_eq!(parse_toc("<html></html>").unwrap_err(), "Failed to parse Table of Contents from Rust Book");
}

fn chapter(title: &str) -> BookChapter {
    BookChapter { title: title.to_string(), url: String::new(), content: None }
}

#[test]
fn concepts_match_exactly_first_then_by_containment() {
    let chapters = vec![chapter("Understanding Ownership"), chapter("Ownership"), chapter("Smart Pointers")];
    assert_eq!(find_concept(&chapters, "ownership"), Some(1));
    assert_eq!(find_concept(&chapters, "POINTERS"), Some(2));
    assert_eq!(find_concept(&chapters, "owner"), Some(0));
    assert_eq!(find_concept(&chapters, "lifetimes"), None);
}

#[test]
fn chapter_pages() {
    assert_eq!(chapter_markdown(&MainContent::Markdown("Hello".to_string())).unwrap(), "Hello");
    assert_eq!(chapter_markdown(&MainContent::Missing).unwrap_err(), "Could not find <main> content in chapter page");
    assert_eq!(
        chapter_markdown(&MainContent::Unrenderable).unwrap_err(),
        "Could not convert the page content to Markdown"
    );
}

#[test]
fn dashboard_file_names() {
    assert!(is_safe_cache_name("serde.json"));
    assert!(!is_safe_cache_name("../secret"));
    assert!(!is_safe_cache_name("a/b.json"));
    assert!(!is_safe_cache_name("a\\b.json"));
    assert!(is_cache_listing("serde.json"));
    assert!(!is_cache_listing("serde.txt"));
}
