use vstd::prelude::*;
use crate::text::{
    decimal, join, join_strings, owned, push_decimal, push_str, replace_char,
    replace_char_str, str_eq, take_bytes, take_bytes_str, trim, trim_str, utf8_len,
    utf8_len_capped, views,
};

verus! {

/// The link of an item row: its text pieces and its classes.
#[derive(Debug)]
pub struct ItemLink {
    pub text: Vec<String>,
    pub classes: Vec<String>,
}

/// One row of an item table: its first name link and the text pieces of its first
/// description, when present.
#[derive(Debug)]
pub struct ItemRow {
    pub link: Option<ItemLink>,
    pub desc: Option<Vec<String>>,
}

pub open spec fn link_view(l: ItemLink) -> (Seq<Seq<char>>, Seq<Seq<char>>) {
    (views(l.text@), views(l.classes@))
}

pub open spec fn row_view(r: ItemRow) -> (Option<(Seq<Seq<char>>, Seq<Seq<char>>)>, Option<Seq<Seq<char>>>) {
    (
        match r.link {
            Some(l) => Some(link_view(l)),
            None => None,
        },
        match r.desc {
            Some(d) => Some(views(d@)),
            None => None,
        },
    )
}

/// The rows that `row_selector` matches in `html`, each with the first match of
/// `name_selector` and of `desc_selector` inside it.
pub uninterp spec fn html_item_rows(html: Seq<char>, row_selector: Seq<char>, name_selector: Seq<char>, desc_selector: Seq<char>) -> Seq<(Option<(Seq<Seq<char>>, Seq<Seq<char>>)>, Option<Seq<Seq<char>>>)>;

/// The elements that `selector` matches in `html`, with their text pieces and classes.
pub uninterp spec fn html_links(html: Seq<char>, selector: Seq<char>) -> Seq<(Seq<Seq<char>>, Seq<Seq<char>>)>;

/// Trusted: with `scraper`, parses `html`, and for each element that `row_selector`
/// matches (in document order) takes the first `name_selector` match inside it (its
/// `text()` pieces and its `classes()`) and the first `desc_selector` match (its `text()`
/// pieces). The result is named, as a function of the arguments alone; the selectors
/// are this library's fixed, valid ones.
#[verifier::external_body]
fn select_item_rows(html: &str, row_selector: &str, name_selector: &str, desc_selector: &str) -> (r: Vec<ItemRow>)
    ensures
        r@.map_values(|x: ItemRow| row_view(x)) == html_item_rows(html@, row_selector@, name_selector@, desc_selector@),
{
    let doc = scraper::Html::parse_document(html);
    let (Ok(rows), Ok(names), Ok(descs)) = (scraper::Selector::parse(row_selector), scraper::Selector::parse(name_selector), scraper::Selector::parse(desc_selector)) else { return Vec::new() };
    doc.select(&rows).map(|row| ItemRow {
        link: row.select(&names).next().map(|l| ItemLink { text: l.text().map(String::from).collect(), classes: l.value().classes().map(String::from).collect() }),
        desc: row.select(&descs).next().map(|d| d.text().map(String::from).collect()),
    }).collect()
}

/// Trusted: with `scraper`, the elements of `html` that `selector` matches, in document
/// order, with their `text()` pieces and `classes()`; named as a function of the arguments.
#[verifier::external_body]
fn select_links(html: &str, selector: &str) -> (r: Vec<ItemLink>)
    ensures
        r@.map_values(|x: ItemLink| link_view(x)) == html_links(html@, selector@),
{
    let doc = scraper::Html::parse_document(html);
    let Ok(sel) = scraper::Selector::parse(selector) else { return Vec::new() };
    doc.select(&sel).map(|l| ItemLink { text: l.text().map(String::from).collect(), classes: l.value().classes().map(String::from).collect() }).collect()
}

/// The item rows of a rustdoc module page.
pub open spec fn row_selector() -> Seq<char> {
    ".item-table .item-row, .item-table li, table.item-table tr"@
}

pub open spec fn name_selector() -> Seq<char> {
    ".item-name > a, .item-left > a, td > a.mod, td > a.struct, td > a.enum, td > a.trait, td > a.fn, td > a.macro, td > a.type, td > a.constant"@
}

pub open spec fn desc_selector() -> Seq<char> {
    ".desc, .item-right, .docblock-short"@
}

pub open spec fn fallback_selector() -> Seq<char> {
    "a.mod, a.struct, a.enum, a.trait, a.fn, a.macro"@
}

/// The class names that decide an item's category, in priority order.
pub open spec fn class_names() -> Seq<Seq<char>> {
    seq!["mod"@, "struct"@, "enum"@, "trait"@, "fn"@, "macro"@, "type"@, "constant"@]
}

/// The category headings; the last one, `Other`, takes what no class decides.
pub open spec fn category_names() -> Seq<Seq<char>> {
    seq![
        "Modules"@,
        "Structs"@,
        "Enums"@,
        "Traits"@,
        "Functions"@,
        "Macros"@,
        "Types"@,
        "Constants"@,
        "Other"@,
    ]
}

/// The category of an element with these classes: the first of the first `n` class
/// names it has, else `Other` (8).
pub open spec fn category_of(classes: Seq<Seq<char>>, n: nat) -> nat
    decreases n,
{
    if n == 0 {
        8
    } else {
        let earlier = category_of(classes, (n - 1) as nat);
        if earlier < 8 {
            earlier
        } else if classes.contains(class_names()[n - 1]) {
            (n - 1) as nat
        } else {
            8
        }
    }
}

/// A row's description, trimmed and on one line.
pub open spec fn clean_desc(desc: Option<Seq<Seq<char>>>) -> Seq<char> {
    replace_char(
        trim(
            match desc {
                Some(p) => join(p, " "@),
                None => Seq::empty(),
            },
        ),
        '\n',
        ' ',
    )
}

/// A description as shown: cut after 97 bytes with `...` when longer than 100 bytes.
pub open spec fn shown_desc(d: Seq<char>) -> Seq<char> {
    if utf8_len(d) > 100 {
        take_bytes(d, 97) + "..."@
    } else {
        d
    }
}

/// What a table row contributes: its category, name and shown description; nothing
/// when it has no link or the link's text is blank.
pub open spec fn row_entry(row: (Option<(Seq<Seq<char>>, Seq<Seq<char>>)>, Option<Seq<Seq<char>>>)) -> Option<(nat, Seq<char>, Seq<char>)> {
    match row.0 {
        Some(link) => {
            let name = trim(join(link.0, Seq::empty()));
            if name.len() == 0 {
                None
            } else {
                Some((category_of(link.1, 8), name, shown_desc(clean_desc(row.1))))
            }
        },
        None => None,
    }
}

/// What a link of the fallback scan contributes (without a description).
pub open spec fn link_entry(link: (Seq<Seq<char>>, Seq<Seq<char>>)) -> Option<(nat, Seq<char>, Seq<char>)> {
    let name = trim(join(link.0, " "@));
    if name.len() == 0 {
        None
    } else {
        Some((category_of(link.1, 6), name, Seq::empty()))
    }
}

/// The items of category `c`, in order.
pub open spec fn items_in(entries: Seq<Option<(nat, Seq<char>, Seq<char>)>>, c: nat) -> Seq<(Seq<char>, Seq<char>)>
    decreases entries.len(),
{
    if entries.len() == 0 {
        Seq::empty()
    } else {
        let rest = items_in(entries.drop_last(), c);
        match entries.last() {
            Some(e) => if e.0 == c {
                rest.push((e.1, e.2))
            } else {
                rest
            },
            None => rest,
        }
    }
}

/// The number of entries that contribute.
pub open spec fn count_items(entries: Seq<Option<(nat, Seq<char>, Seq<char>)>>) -> nat
    decreases entries.len(),
{
    if entries.len() == 0 {
        0
    } else {
        count_items(entries.drop_last()) + if entries.last() is Some {
            1nat
        } else {
            0nat
        }
    }
}

pub open spec fn item_line(item: (Seq<char>, Seq<char>)) -> Seq<char> {
    if item.1.len() == 0 {
        "- **"@ + item.0 + "**\n"@
    } else {
        "- **"@ + item.0 + "**: "@ + item.1 + "\n"@
    }
}

pub open spec fn item_lines(items: Seq<(Seq<char>, Seq<char>)>) -> Seq<char>
    decreases items.len(),
{
    if items.len() == 0 {
        Seq::empty()
    } else {
        item_lines(items.drop_last()) + item_line(items.last())
    }
}

pub open spec fn min_nat(a: nat, b: nat) -> nat {
    if a <= b {
        a
    } else {
        b
    }
}

/// How many of a category's `n` items its section lists: all of them, or at most `limit`.
pub open spec fn listed(n: nat, limit: Option<usize>) -> nat {
    match limit {
        Some(l) => min_nat(n, l as nat),
        None => n,
    }
}

/// One category's section: nothing for an empty category; else its heading, the items
/// that `limit` lets it list and, when it has more, how many more.
pub open spec fn category_section(name: Seq<char>, items: Seq<(Seq<char>, Seq<char>)>, limit: Option<usize>) -> Seq<char> {
    if items.len() == 0 {
        Seq::empty()
    } else {
        let count = listed(items.len(), limit);
        "## "@ + name + "\n"@ + item_lines(items.take(count as int)) + (if items.len() > count {
            "*... and "@ + decimal((items.len() - count) as nat) + " more ...*\n"@
        } else {
            Seq::empty()
        }) + "\n"@
    }
}

/// The sections of the first `k` categories, in order.
pub open spec fn render_sections(entries: Seq<Option<(nat, Seq<char>, Seq<char>)>>, k: nat, limit: Option<usize>) -> Seq<char>
    decreases k,
{
    if k == 0 {
        Seq::empty()
    } else {
        render_sections(entries, (k - 1) as nat, limit) + category_section(
            category_names()[k - 1],
            items_in(entries, (k - 1) as nat),
            limit,
        )
    }
}

/// The number of items the sections of the first `k` categories list.
pub open spec fn listed_total(entries: Seq<Option<(nat, Seq<char>, Seq<char>)>>, k: nat, limit: Option<usize>) -> nat
    decreases k,
{
    if k == 0 {
        0
    } else {
        listed_total(entries, (k - 1) as nat, limit) + listed(items_in(entries, (k - 1) as nat).len(), limit)
    }
}

/// The number of items in the first `k` categories.
pub open spec fn category_total(entries: Seq<Option<(nat, Seq<char>, Seq<char>)>>, k: nat) -> nat
    decreases k,
{
    if k == 0 {
        0
    } else {
        category_total(entries, (k - 1) as nat) + items_in(entries, (k - 1) as nat).len()
    }
}

/// The API overview of a crate from its entries: a header with the number of items found
/// and listed, then a section per category, each listing at most `limit` items.
pub open spec fn spec_overview(crate_name: Seq<char>, version: Seq<char>, url: Seq<char>, entries: Seq<Option<(nat, Seq<char>, Seq<char>)>>, limit: Option<usize>) -> Seq<char> {
    let total = count_items(entries);
    if total == 0 {
        "No modules or items found at "@ + url
            + ". The documentation might use a non-standard layout."@
    } else {
        "# API Overview for "@ + crate_name + " "@ + version + "\n\n"@ + "*Found "@ + decimal(
            total,
        ) + " items. Showing top "@ + decimal(listed_total(entries, 9, limit)) + ".*\n\n"@
            + render_sections(entries, 9, limit)
    }
}

/// The entries a page yields: its table rows, or when none contributes, the fallback links.
pub open spec fn page_entries(html: Seq<char>) -> Seq<Option<(nat, Seq<char>, Seq<char>)>> {
    let rows = html_item_rows(html, row_selector(), name_selector(), desc_selector()).map_values(
        |r: (Option<(Seq<Seq<char>>, Seq<Seq<char>>)>, Option<Seq<Seq<char>>>)| row_entry(r),
    );
    if count_items(rows) > 0 {
        rows
    } else {
        html_links(html, fallback_selector()).map_values(
            |l: (Seq<Seq<char>>, Seq<Seq<char>>)| link_entry(l),
        )
    }
}


pub open spec fn entry_view(e: Option<(usize, String, String)>) -> Option<(nat, Seq<char>, Seq<char>)> {
    match e {
        Some(x) => Some((x.0 as nat, x.1@, x.2@)),
        None => None,
    }
}

pub open spec fn entry_views(es: Seq<Option<(usize, String, String)>>) -> Seq<Option<(nat, Seq<char>, Seq<char>)>> {
    es.map_values(|e: Option<(usize, String, String)>| entry_view(e))
}

fn has_class(classes: &Vec<String>, name: &str) -> (r: bool)
    ensures
        r == views(classes@).contains(name@),
{
    let mut i: usize = 0;
    while i < classes.len()
        invariant
            i <= classes.len(),
            forall|j: int| 0 <= j < i ==> (#[trigger] classes@[j])@ != name@,
        decreases classes.len() - i,
    {
        if str_eq(classes[i].as_str(), name) {
            assert(views(classes@)[i as int] == name@);
            return true;
        }
        i = i + 1;
    }
    assert forall|j: int| 0 <= j < views(classes@).len() implies views(classes@)[j] != name@ by {
        assert(views(classes@)[j] == classes@[j]@);
    }
    false
}

fn category_of_exec(classes: &Vec<String>, n: usize) -> (r: usize)
    requires
        n <= 8,
    ensures
        r == category_of(views(classes@), n as nat),
        r <= 8,
{
    let names = ["mod", "struct", "enum", "trait", "fn", "macro", "type", "constant"];
    proof {
        reveal_strlit("mod");
        reveal_strlit("struct");
        reveal_strlit("enum");
        reveal_strlit("trait");
        reveal_strlit("fn");
        reveal_strlit("macro");
        reveal_strlit("type");
        reveal_strlit("constant");
    }
    assert(names@.map_values(|x: &str| x@) =~= class_names());
    let mut k: usize = 0;
    while k < n
        invariant
            k <= n <= 8,
            names@.map_values(|x: &str| x@) == class_names(),
            category_of(views(classes@), k as nat) == 8,
        decreases n - k,
    {
        assert(names[k as int]@ == class_names()[k as int]);
        if has_class(classes, names[k]) {
            assert(category_of(views(classes@), (k + 1) as nat) == k);
            proof {
                lemma_category_stays(views(classes@), (k + 1) as nat, n as nat);
            }
            return k;
        }
        k = k + 1;
    }
    8
}

proof fn lemma_category_stays(classes: Seq<Seq<char>>, a: nat, b: nat)
    requires
        a <= b,
        category_of(classes, a) < 8,
    ensures
        category_of(classes, b) == category_of(classes, a),
    decreases b - a,
{
    if a < b {
        lemma_category_stays(classes, a, (b - 1) as nat);
    }
}

/// A row's entry.
fn row_entry_exec(row: &ItemRow) -> (r: Option<(usize, String, String)>)
    ensures
        entry_view(r) == row_entry(row_view(*row)),
{
    let link = match &row.link {
        Some(l) => l,
        None => return None,
    };
    let joined = join_strings(&link.text, "");
    proof {
        reveal_strlit("");
        assert(""@ =~= Seq::<char>::empty());
    }
    let name = trim_str(joined.as_str());
    if name.as_str().is_empty() {
        return None;
    }
    let raw = match &row.desc {
        Some(p) => join_strings(p, " "),
        None => String::new(),
    };
    let trimmed = trim_str(raw.as_str());
    let clean = replace_char_str(trimmed.as_str(), '\n', ' ');
    let n = utf8_len_capped(clean.as_str(), 101);
    let shown = if n > 100 {
        let mut h = take_bytes_str(clean.as_str(), 97);
        push_str(&mut h, "...");
        h
    } else {
        clean
    };
    let cat = category_of_exec(&link.classes, 8);
    Some((cat, name, shown))
}

/// A fallback link's entry.
fn link_entry_exec(link: &ItemLink) -> (r: Option<(usize, String, String)>)
    ensures
        entry_view(r) == link_entry(link_view(*link)),
{
    let joined = join_strings(&link.text, " ");
    let name = trim_str(joined.as_str());
    if name.as_str().is_empty() {
        return None;
    }
    let cat = category_of_exec(&link.classes, 6);
    Some((cat, name, String::new()))
}

/// The items of category `c`, in order.
fn items_of(entries: &Vec<Option<(usize, String, String)>>, c: usize) -> (r: Vec<(String, String)>)
    ensures
        r@.map_values(|x: (String, String)| (x.0@, x.1@)) == items_in(entry_views(entries@), c as nat),
{
    let ghost ev = entry_views(entries@);
    let mut r: Vec<(String, String)> = Vec::new();
    let mut i: usize = 0;
    assert(ev.take(0) =~= Seq::<Option<(nat, Seq<char>, Seq<char>)>>::empty());
    while i < entries.len()
        invariant
            i <= entries.len(),
            ev == entry_views(entries@),
            r@.map_values(|x: (String, String)| (x.0@, x.1@)) == items_in(ev.take(i as int), c as nat),
        decreases entries.len() - i,
    {
        assert(ev.take(i + 1).drop_last() =~= ev.take(i as int));
        assert(ev.take(i + 1).last() == entry_view(entries@[i as int]));
        let ghost before = r@;
        match &entries[i] {
            Some(e) => {
                if e.0 == c {
                    r.push((e.1.clone(), e.2.clone()));
                    assert(r@.map_values(|x: (String, String)| (x.0@, x.1@)) =~= before.map_values(
                        |x: (String, String)| (x.0@, x.1@),
                    ).push((e.1@, e.2@)));
                }
            },
            None => {},
        }
        i = i + 1;
    }
    assert(ev.take(entries.len() as int) =~= ev);
    r
}

fn count_entries(entries: &Vec<Option<(usize, String, String)>>) -> (n: usize)
    ensures
        n == count_items(entry_views(entries@)),
{
    let ghost ev = entry_views(entries@);
    let mut n: usize = 0;
    let mut i: usize = 0;
    assert(ev.take(0) =~= Seq::<Option<(nat, Seq<char>, Seq<char>)>>::empty());
    while i < entries.len()
        invariant
            i <= entries.len(),
            ev == entry_views(entries@),
            n == count_items(ev.take(i as int)),
            n <= i,
        decreases entries.len() - i,
    {
        assert(ev.take(i + 1).drop_last() =~= ev.take(i as int));
        assert(ev.take(i + 1).last() == entry_view(entries@[i as int]));
        if entries[i].is_some() {
            n = n + 1;
        }
        i = i + 1;
    }
    assert(ev.take(entries.len() as int) =~= ev);
    n
}

fn push_item_lines(out: &mut String, items: &Vec<(String, String)>, count: usize)
    requires
        count <= items.len(),
    ensures
        final(out)@ == old(out)@ + item_lines(items@.map_values(|x: (String, String)| (x.0@, x.1@)).take(count as int)),
{
    let ghost iv = items@.map_values(|x: (String, String)| (x.0@, x.1@));
    let mut i: usize = 0;
    assert(iv.take(0) =~= Seq::<(Seq<char>, Seq<char>)>::empty());
    while i < count
        invariant
            i <= count <= items.len(),
            iv == items@.map_values(|x: (String, String)| (x.0@, x.1@)),
            out@ == old(out)@ + item_lines(iv.take(i as int)),
        decreases count - i,
    {
        let it = &items[i];
        push_str(out, "- **");
        push_str(out, it.0.as_str());
        if it.1.as_str().is_empty() {
            push_str(out, "**\n");
        } else {
            push_str(out, "**: ");
            push_str(out, it.1.as_str());
            push_str(out, "\n");
        }
        assert(iv.take(i + 1).drop_last() =~= iv.take(i as int));
        assert(iv.take(i + 1).last() == (it.0@, it.1@));
        assert(out@ =~= old(out)@ + item_lines(iv.take(i + 1)));
        i = i + 1;
    }
}

/// Appends one category's section; returns how many items it lists.
fn push_category_section(out: &mut String, name: &str, items: &Vec<(String, String)>, limit: Option<usize>) -> (count: usize)
    ensures
        final(out)@ == old(out)@ + category_section(name@, items@.map_values(|x: (String, String)| (x.0@, x.1@)), limit),
        count == listed(items.len() as nat, limit),
{
    let ghost iv = items@.map_values(|x: (String, String)| (x.0@, x.1@));
    let count = match limit {
        Some(l) => if items.len() <= l { items.len() } else { l },
        None => items.len(),
    };
    if items.len() == 0 {
        assert(out@ =~= old(out)@ + Seq::<char>::empty());
        return count;
    }
    push_str(out, "## ");
    push_str(out, name);
    push_str(out, "\n");
    push_item_lines(out, items, count);
    if items.len() > count {
        push_str(out, "*... and ");
        push_decimal(out, (items.len() - count) as u64);
        push_str(out, " more ...*\n");
    }
    push_str(out, "\n");
    assert(out@ =~= old(out)@ + category_section(name@, iv, limit));
    count
}

/// Adding one entry adds it to the count of the first `k` categories when its category
/// is one of them.
proof fn lemma_category_total_step(e: Seq<Option<(nat, Seq<char>, Seq<char>)>>, k: nat)
    requires
        e.len() > 0,
    ensures
        category_total(e, k) == category_total(e.drop_last(), k) + if e.last() matches Some(x) && x.0 < k {
            1nat
        } else {
            0nat
        },
    decreases k,
{
    if k > 0 {
        lemma_category_total_step(e, (k - 1) as nat);
    }
}

/// The categories never hold more items than there are entries.
proof fn lemma_category_total_bound(e: Seq<Option<(nat, Seq<char>, Seq<char>)>>, k: nat)
    ensures
        category_total(e, k) <= count_items(e),
    decreases e.len(),
{
    if e.len() == 0 {
        lemma_category_total_empty(e, k);
    } else {
        lemma_category_total_step(e, k);
        lemma_category_total_bound(e.drop_last(), k);
    }
}

proof fn lemma_category_total_empty(e: Seq<Option<(nat, Seq<char>, Seq<char>)>>, k: nat)
    requires
        e.len() == 0,
    ensures
        category_total(e, k) == 0,
    decreases k,
{
    if k > 0 {
        lemma_category_total_empty(e, (k - 1) as nat);
    }
}

/// No section lists more items than its category has.
proof fn lemma_listed_bound(e: Seq<Option<(nat, Seq<char>, Seq<char>)>>, k: nat, limit: Option<usize>)
    ensures
        listed_total(e, k, limit) <= category_total(e, k),
    decreases k,
{
    if k > 0 {
        lemma_listed_bound(e, (k - 1) as nat, limit);
    }
}

/// Renders the overview from a page's entries.
pub fn render_overview(crate_name: &str, version: &str, url: &str, entries: &Vec<Option<(usize, String, String)>>, limit: Option<usize>) -> (r: String)
    ensures
        r@ == spec_overview(crate_name@, version@, url@, entry_views(entries@), limit),
{
    let total = count_entries(entries);
    if total == 0 {
        let mut r = owned("No modules or items found at ");
        push_str(&mut r, url);
        push_str(&mut r, ". The documentation might use a non-standard layout.");
        return r;
    }
    let ghost ev = entry_views(entries@);
    let names = ["Modules", "Structs", "Enums", "Traits", "Functions", "Macros", "Types", "Constants", "Other"];
    proof {
        reveal_strlit("Modules");
        reveal_strlit("Structs");
        reveal_strlit("Enums");
        reveal_strlit("Traits");
        reveal_strlit("Functions");
        reveal_strlit("Macros");
        reveal_strlit("Types");
        reveal_strlit("Constants");
        reveal_strlit("Other");
    }
    assert(names@.map_values(|x: &str| x@) =~= category_names());
    let mut body = String::new();
    let mut shown: usize = 0;
    let mut c: usize = 0;
    while c < 9
        invariant
            c <= 9,
            names@.map_values(|x: &str| x@) == category_names(),
            ev == entry_views(entries@),
            total == count_items(ev),
            body@ == render_sections(ev, c as nat, limit),
            shown == listed_total(ev, c as nat, limit),
        decreases 9 - c,
    {
        let items = items_of(entries, c);
        assert(category_names()[c as int] == names[c as int]@);
        let n = push_category_section(&mut body, names[c], &items, limit);
        proof {
            lemma_listed_bound(ev, (c + 1) as nat, limit);
            lemma_category_total_bound(ev, (c + 1) as nat);
            assert(items@.map_values(|x: (String, String)| (x.0@, x.1@)).len() == items.len());
        }
        shown = shown + n;
        c = c + 1;
    }
    let mut out = owned("# API Overview for ");
    push_str(&mut out, crate_name);
    push_str(&mut out, " ");
    push_str(&mut out, version);
    push_str(&mut out, "\n\n");
    push_str(&mut out, "*Found ");
    push_decimal(&mut out, total as u64);
    push_str(&mut out, " items. Showing top ");
    push_decimal(&mut out, shown as u64);
    push_str(&mut out, ".*\n\n");
    push_str(&mut out, body.as_str());
    out
}

/// The API overview of a crate's documentation page: its items by category, each
/// section listing at most `limit` items (all when `limit` is `None`); a description
/// over 100 bytes is cut at the last character boundary within 97 bytes and marked `...`.
pub fn crate_modules_overview(html: &str, crate_name: &str, version: &str, url: &str, limit: Option<usize>) -> (r: String)
    ensures
        r@ == spec_overview(crate_name@, version@, url@, page_entries(html@), limit),
{
    let rs = ".item-table .item-row, .item-table li, table.item-table tr";
    let ns = ".item-name > a, .item-left > a, td > a.mod, td > a.struct, td > a.enum, td > a.trait, td > a.fn, td > a.macro, td > a.type, td > a.constant";
    let ds = ".desc, .item-right, .docblock-short";
    proof {
        reveal_strlit(".item-table .item-row, .item-table li, table.item-table tr");
    }
    assert(rs@ == row_selector());
    assert(ns@ == name_selector());
    assert(ds@ == desc_selector());
    let rows = select_item_rows(html, rs, ns, ds);
    let ghost rv = rows@.map_values(|x: ItemRow| row_view(x));
    let mut entries: Vec<Option<(usize, String, String)>> = Vec::new();
    let mut i: usize = 0;
    while i < rows.len()
        invariant
            i <= rows.len(),
            rv == rows@.map_values(|x: ItemRow| row_view(x)),
            rv == html_item_rows(html@, row_selector(), name_selector(), desc_selector()),
            entry_views(entries@) == rv.take(i as int).map_values(
                |r: (Option<(Seq<Seq<char>>, Seq<Seq<char>>)>, Option<Seq<Seq<char>>>)| row_entry(r),
            ),
        decreases rows.len() - i,
    {
        assert(rv[i as int] == row_view(rows@[i as int]));
        let e = row_entry_exec(&rows[i]);
        let ghost before = entry_views(entries@);
        entries.push(e);
        assert(entry_views(entries@) =~= before.push(entry_view(e)));
        assert(rv.take(i + 1) =~= rv.take(i as int).push(rv[i as int]));
        assert(rv.take(i + 1).map_values(
            |r: (Option<(Seq<Seq<char>>, Seq<Seq<char>>)>, Option<Seq<Seq<char>>>)| row_entry(r),
        ) =~= rv.take(i as int).map_values(
            |r: (Option<(Seq<Seq<char>>, Seq<Seq<char>>)>, Option<Seq<Seq<char>>>)| row_entry(r),
        ).push(row_entry(rv[i as int])));
        i = i + 1;
    }
    assert(rv.take(rows.len() as int) =~= rv);
    if count_entries(&entries) > 0 {
        return render_overview(crate_name, version, url, &entries, limit);
    }
    let links = select_links(html, "a.mod, a.struct, a.enum, a.trait, a.fn, a.macro");
    let ghost lv = links@.map_values(|x: ItemLink| link_view(x));
    let mut fallback: Vec<Option<(usize, String, String)>> = Vec::new();
    let mut k: usize = 0;
    while k < links.len()
        invariant
            k <= links.len(),
            lv == links@.map_values(|x: ItemLink| link_view(x)),
            entry_views(fallback@) == lv.take(k as int).map_values(
                |l: (Seq<Seq<char>>, Seq<Seq<char>>)| link_entry(l),
            ),
        decreases links.len() - k,
    {
        let e = link_entry_exec(&links[k]);
        let ghost before = entry_views(fallback@);
        fallback.push(e);
        assert(lv[k as int] == link_view(links@[k as int]));
        assert(entry_views(fallback@) =~= before.push(entry_view(e)));
        assert(lv.take(k + 1).map_values(|l: (Seq<Seq<char>>, Seq<Seq<char>>)| link_entry(l))
            =~= lv.take(k as int).map_values(|l: (Seq<Seq<char>>, Seq<Seq<char>>)| link_entry(l)).push(
            link_entry(lv[k as int]),
        ));
        k = k + 1;
    }
    assert(lv.take(links.len() as int) =~= lv);
    render_overview(crate_name, version, url, &fallback, limit)
}

/// The category that the first `n` class names give: the first of them that the classes
/// hold, `Other` (8) when they hold none.
proof fn lemma_category_is_first_class(classes: Seq<Seq<char>>, n: nat)
    requires
        n <= 8,
    ensures
        category_of(classes, n) <= 8,
        category_of(classes, n) < 8 ==> category_of(classes, n) < n && classes.contains(
            class_names()[category_of(classes, n) as int],
        ),
        forall|k: int| 0 <= k < category_of(classes, n) && k < n ==> !classes.contains(#[trigger] class_names()[k]),
    decreases n,
{
    if n > 0 {
        lemma_category_is_first_class(classes, (n - 1) as nat);
    }
}

/// An item-table row is filed under the first of the eight classes `mod`, `struct`,
/// `enum`, `trait`, `fn`, `macro`, `type`, `constant` that its link has, and under
/// `Other` only when it has none of them: a type alias under `Types`, a constant under
/// `Constants`.
pub proof fn lemma_row_category(row: (Option<(Seq<Seq<char>>, Seq<Seq<char>>)>, Option<Seq<Seq<char>>>))
    requires
        row_entry(row) is Some,
    ensures
        ({
            let c = (row_entry(row)->0).0;
            let classes = (row.0->0).1;
            &&& c <= 8
            &&& c < 8 ==> classes.contains(class_names()[c as int])
            &&& forall|k: int| 0 <= k < c && k < 8 ==> !classes.contains(#[trigger] class_names()[k])
            &&& (classes.contains("type"@) && !classes.contains("mod"@) && !classes.contains("struct"@)
                && !classes.contains("enum"@) && !classes.contains("trait"@) && !classes.contains("fn"@)
                && !classes.contains("macro"@)) ==> category_names()[c as int] == "Types"@
            &&& (classes.contains("constant"@) && !classes.contains("mod"@) && !classes.contains("struct"@)
                && !classes.contains("enum"@) && !classes.contains("trait"@) && !classes.contains("fn"@)
                && !classes.contains("macro"@) && !classes.contains("type"@)) ==> category_names()[c as int]
                == "Constants"@
        }),
{
    let classes = (row.0->0).1;
    let c = (row_entry(row)->0).0;
    lemma_category_is_first_class(classes, 8);
    assert(c == category_of(classes, 8));
    let names = class_names();
    if classes.contains("type"@) && !classes.contains("mod"@) && !classes.contains("struct"@)
        && !classes.contains("enum"@) && !classes.contains("trait"@) && !classes.contains("fn"@)
        && !classes.contains("macro"@) {
        assert(names[6] == "type"@);
        if c > 6 {
            assert(!classes.contains(names[6]));
        }
        assert(c != 0 && c != 1 && c != 2 && c != 3 && c != 4 && c != 5) by {
            assert(names[0] == "mod"@);
            assert(names[1] == "struct"@);
            assert(names[2] == "enum"@);
            assert(names[3] == "trait"@);
            assert(names[4] == "fn"@);
            assert(names[5] == "macro"@);
        }
        assert(c == 6);
    }
    if classes.contains("constant"@) && !classes.contains("mod"@) && !classes.contains("struct"@)
        && !classes.contains("enum"@) && !classes.contains("trait"@) && !classes.contains("fn"@)
        && !classes.contains("macro"@) && !classes.contains("type"@) {
        assert(names[7] == "constant"@);
        if c > 7 {
            assert(!classes.contains(names[7]));
        }
        assert(c != 0 && c != 1 && c != 2 && c != 3 && c != 4 && c != 5 && c != 6) by {
            assert(names[0] == "mod"@);
            assert(names[1] == "struct"@);
            assert(names[2] == "enum"@);
            assert(names[3] == "trait"@);
            assert(names[4] == "fn"@);
            assert(names[5] == "macro"@);
            assert(names[6] == "type"@);
        }
        assert(c == 7);
    }
}

} // verus!
