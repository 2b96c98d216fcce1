use vstd::prelude::*;
use crate::docs_parser::{opt_view, unrenderable_message, MainContent};
use crate::text::{contains, contains_str, has_prefix, join, join_strings, owned, push_str, starts_with_str, str_eq, trim, trim_str, views};

verus! {

/// Where the chapters of the Rust Book live.
pub const BOOK_URL: &'static str = "https://doc.rust-lang.org/book/";

/// The Rust Book's table of contents.
pub const TOC_URL: &'static str = "https://doc.rust-lang.org/book/toc.html";

/// A chapter of the Rust Book.
#[derive(Debug, Clone)]
pub struct BookChapter {
    pub title: String,
    pub url: String,
    pub content: Option<String>,
}

impl View for BookChapter {
    type V = (Seq<char>, Seq<char>, Option<Seq<char>>);

    open spec fn view(&self) -> (Seq<char>, Seq<char>, Option<Seq<char>>) {
        (self.title@, self.url@, opt_view(self.content))
    }
}

/// An anchor of a page: its link target, if it has one, and the pieces of its text.
pub struct Anchor {
    pub href: Option<String>,
    pub text: Vec<String>,
}

pub open spec fn anchor_view(a: Anchor) -> (Option<Seq<char>>, Seq<Seq<char>>) {
    (opt_view(a.href), views(a.text@))
}

/// The anchors of `html` that CSS selector `selector` matches, in document order, each
/// with its attribute `attr` and its text pieces, as scraper finds them.
pub uninterp spec fn html_anchors(html: Seq<char>, selector: Seq<char>, attr: Seq<char>) -> Seq<(Option<Seq<char>>, Seq<Seq<char>>)>;

/// Trusted: parses `html` with `scraper::Html::parse_document`, selects with
/// `scraper::Selector::parse(selector)`, and gives each match's attribute `attr` and its
/// `text()` pieces. Named as a function of the arguments; an unparsable selector
/// matches nothing.
#[verifier::external_body]
fn select_anchors(html: &str, selector: &str, attr: &str) -> (r: Vec<Anchor>)
    ensures
        r@.map_values(|a: Anchor| anchor_view(a)) == html_anchors(html@, selector@, attr@),
{
    let doc = scraper::Html::parse_document(html);
    let Ok(sel) = scraper::Selector::parse(selector) else { return Vec::new() };
    doc.select(&sel).map(|e| Anchor { href: e.value().attr(attr).map(String::from), text: e.text().map(String::from).collect() }).collect()
}

/// What `str::to_lowercase` makes of a string.
pub uninterp spec fn lowercase(s: Seq<char>) -> Seq<char>;

/// Trusted: `str::to_lowercase`; named, as a function of the string alone.
#[verifier::external_body]
fn to_lower(s: &str) -> (r: String)
    ensures
        r@ == lowercase(s@),
{
    s.to_lowercase()
}

/// The chapter an anchor of the table of contents names, as (title, url): none for an
/// anchor without a target, for an in-page anchor, or for one without text. A relative
/// target is taken from the book's root.
pub open spec fn toc_entry(a: (Option<Seq<char>>, Seq<Seq<char>>)) -> Option<(Seq<char>, Seq<char>)> {
    match a.0 {
        None => None,
        Some(href) => {
            let title = trim(join(a.1, " "@));
            if has_prefix(href, "#"@) || title.len() == 0 {
                None
            } else if has_prefix(href, "http"@) {
                Some((title, href))
            } else {
                Some((title, BOOK_URL@ + href))
            }
        },
    }
}

/// The chapters the anchors name, in order.
pub open spec fn toc_entries(anchors: Seq<(Option<Seq<char>>, Seq<Seq<char>>)>) -> Seq<(Seq<char>, Seq<char>)>
    decreases anchors.len(),
{
    if anchors.len() == 0 {
        Seq::empty()
    } else {
        let rest = toc_entries(anchors.drop_last());
        match toc_entry(anchors.last()) {
            Some(e) => rest.push(e),
            None => rest,
        }
    }
}

/// The chapters of the table of contents page `html`.
pub open spec fn toc_chapters(html: Seq<char>) -> Seq<(Seq<char>, Seq<char>)> {
    toc_entries(html_anchors(html, ".chapter-item a"@, "href"@))
}

pub open spec fn chapter_entries(v: Seq<BookChapter>) -> Seq<(Seq<char>, Seq<char>)> {
    v.map_values(|c: BookChapter| (c.title@, c.url@))
}

fn toc_entry_exec(a: &Anchor) -> (r: Option<BookChapter>)
    ensures
        match r {
            Some(c) => toc_entry(anchor_view(*a)) == Some((c.title@, c.url@)) && c.content is None,
            None => toc_entry(anchor_view(*a)) is None,
        },
{
    match &a.href {
        None => None,
        Some(href) => {
            let text = join_strings(&a.text, " ");
            let title = trim_str(text.as_str());
            if starts_with_str(href.as_str(), "#") || title.as_str().is_empty() {
                return None;
            }
            let url = if starts_with_str(href.as_str(), "http") {
                owned(href.as_str())
            } else {
                let mut u = owned(BOOK_URL);
                push_str(&mut u, href.as_str());
                u
            };
            Some(BookChapter { title, url, content: None })
        },
    }
}

/// The chapters listed by the book's table of contents page, in order, without
/// content; an error when the page lists none.
pub fn parse_toc(html: &str) -> (r: Result<Vec<BookChapter>, String>)
    ensures
        match r {
            Ok(v) => chapter_entries(v@) == toc_chapters(html@) && v@.len() > 0 && forall|i: int|
                0 <= i < v@.len() ==> (#[trigger] v@[i]).content is None,
            Err(m) => toc_chapters(html@).len() == 0 && m@ == "Failed to parse Table of Contents from Rust Book"@,
        },
{
    let anchors = select_anchors(html, ".chapter-item a", "href");
    let ghost av = anchors@.map_values(|a: Anchor| anchor_view(a));
    let mut chapters: Vec<BookChapter> = Vec::new();
    let mut i: usize = 0;
    while i < anchors.len()
        invariant
            i <= anchors.len(),
            av == anchors@.map_values(|a: Anchor| anchor_view(a)),
            chapter_entries(chapters@) == toc_entries(av.take(i as int)),
            forall|k: int| 0 <= k < chapters@.len() ==> (#[trigger] chapters@[k]).content is None,
        decreases anchors.len() - i,
    {
        assert(av.take(i + 1).drop_last() =~= av.take(i as int));
        assert(av.take(i + 1).last() == anchor_view(anchors@[i as int]));
        match toc_entry_exec(&anchors[i]) {
            Some(c) => {
                chapters.push(c);
                assert(chapter_entries(chapters@) =~= toc_entries(av.take(i as int)).push(
                    (c.title@, c.url@),
                ));
            },
            None => {},
        }
        i = i + 1;
    }
    assert(av.take(anchors.len() as int) =~= av);
    if chapters.len() == 0 {
        return Err(owned("Failed to parse Table of Contents from Rust Book"));
    }
    Ok(chapters)
}

/// The position of the chapter a query names without fuzziness: the first whose title
/// equals the query, ignoring case; else the first whose title contains it, ignoring
/// case; else none.
pub open spec fn names_concept(titles: Seq<Seq<char>>, q: Seq<char>, i: int) -> bool {
    let lq = lowercase(q);
    0 <= i < titles.len() && if exists|j: int| 0 <= j < titles.len() && lowercase(#[trigger] titles[j]) == lq {
        lowercase(titles[i]) == lq && forall|j: int| 0 <= j < i ==> lowercase(#[trigger] titles[j]) != lq
    } else {
        contains(lowercase(titles[i]), lq) && forall|j: int|
            0 <= j < i ==> !contains(lowercase(#[trigger] titles[j]), lq)
    }
}

pub open spec fn chapter_titles(v: Seq<BookChapter>) -> Seq<Seq<char>> {
    v.map_values(|c: BookChapter| c.title@)
}

/// The chapter a query names by title, ignoring case: an equal title first, then one
/// that contains the query. `None` when no title does either; then only a fuzzy match
/// can still find one.
pub fn find_concept(chapters: &Vec<BookChapter>, query: &str) -> (r: Option<usize>)
    ensures
        match r {
            Some(i) => names_concept(chapter_titles(chapters@), query@, i as int),
            None => forall|j: int|
                0 <= j < chapters@.len() ==> !contains(lowercase(#[trigger] chapter_titles(chapters@)[j]), lowercase(query@)),
        },
{
    let ghost titles = chapter_titles(chapters@);
    let lq = to_lower(query);
    let mut i: usize = 0;
    while i < chapters.len()
        invariant
            i <= chapters.len(),
            titles == chapter_titles(chapters@),
            lq@ == lowercase(query@),
            forall|j: int| 0 <= j < i ==> lowercase(#[trigger] titles[j]) != lq@,
        decreases chapters.len() - i,
    {
        let lt = to_lower(chapters[i].title.as_str());
        assert(titles[i as int] == chapters@[i as int].title@);
        if str_eq(lt.as_str(), lq.as_str()) {
            return Some(i);
        }
        i = i + 1;
    }
    assert(!exists|j: int| 0 <= j < titles.len() && lowercase(#[trigger] titles[j]) == lq@);
    let mut k: usize = 0;
    while k < chapters.len()
        invariant
            k <= chapters.len(),
            titles == chapter_titles(chapters@),
            lq@ == lowercase(query@),
            !exists|j: int| 0 <= j < titles.len() && lowercase(#[trigger] titles[j]) == lq@,
            forall|j: int| 0 <= j < k ==> !contains(lowercase(#[trigger] titles[j]), lq@),
        decreases chapters.len() - k,
    {
        let lt = to_lower(chapters[k].title.as_str());
        assert(titles[k as int] == chapters@[k as int].title@);
        if contains_str(lt.as_str(), lq.as_str()) {
            return Some(k);
        }
        k = k + 1;
    }
    None
}

/// The Markdown of a chapter page's rendered `main` element; an error when the page has
/// none or it could not be rendered.
pub fn chapter_markdown(main: &MainContent) -> (r: Result<String, String>)
    ensures
        match main {
            MainContent::Markdown(md) => r matches Ok(s) && s@ == md@,
            MainContent::Missing => r matches Err(e) && e@ == "Could not find <main> content in chapter page"@,
            MainContent::Unrenderable => r matches Err(e) && e@ == unrenderable_message(),
        },
{
    match main {
        MainContent::Markdown(md) => Ok(owned(md.as_str())),
        MainContent::Missing => Err(owned("Could not find <main> content in chapter page")),
        MainContent::Unrenderable => Err(owned("Could not convert the page content to Markdown")),
    }
}

} // verus!
