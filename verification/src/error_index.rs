use vstd::prelude::*;
use crate::docs_parser::{unrenderable_message, MainContent};
use crate::text::{owned, push_str, trim, trim_str, utf8_len, utf8_len_capped};

verus! {

/// Where the Rust compiler's error codes are explained.
pub const ERROR_INDEX_BASE_URL: &'static str = "https://doc.rust-lang.org/error_codes/";

/// What `str::to_uppercase` makes of a string.
pub uninterp spec fn uppercase(s: Seq<char>) -> Seq<char>;

/// Trusted: `str::to_uppercase`; named, as a function of the string alone.
#[verifier::external_body]
fn to_upper(s: &str) -> (r: String)
    ensures
        r@ == uppercase(s@),
{
    s.to_uppercase()
}

/// An error code as it is looked up: trimmed and upper-cased.
pub open spec fn spec_normalize_code(code: Seq<char>) -> Seq<char> {
    uppercase(trim(code))
}

/// A code of the accepted form: it starts with `E` and is at least three bytes long.
pub open spec fn code_well_formed(c: Seq<char>) -> bool {
    c.len() > 0 && c[0] == 'E' && utf8_len(c) >= 3
}

/// An error code as it is looked up: trimmed and upper-cased.
pub fn normalize_error_code(code: &str) -> (r: String)
    ensures
        r@ == spec_normalize_code(code@),
{
    let t = trim_str(code);
    to_upper(t.as_str())
}

/// The page that explains an error code; the refusal of a code that, trimmed and
/// upper-cased, does not start with `E` or is shorter than three bytes.
pub fn error_code_url(code: &str) -> (r: Result<String, String>)
    ensures
        match r {
            Ok(u) => code_well_formed(spec_normalize_code(code@)) && u@ == ERROR_INDEX_BASE_URL@
                + spec_normalize_code(code@) + ".html"@,
            Err(m) => !code_well_formed(spec_normalize_code(code@)) && m@
                == "Invalid error code format. Expected format like 'E0382'"@,
        },
{
    let c = normalize_error_code(code);
    let cs = c.as_str();
    let ok = if cs.unicode_len() == 0 {
        false
    } else {
        cs.get_char(0) == 'E' && utf8_len_capped(cs, 3) >= 3
    };
    if !ok {
        return Err(owned("Invalid error code format. Expected format like 'E0382'"));
    }
    let mut u = owned(ERROR_INDEX_BASE_URL);
    push_str(&mut u, cs);
    push_str(&mut u, ".html");
    Ok(u)
}

/// The message for a code whose page the server did not serve.
pub fn missing_code_message(code: &str, status: &str) -> (r: String)
    ensures
        r@ == "Error code '"@ + code@ + "' not found (Status: "@ + status@ + ")"@,
{
    let mut r = owned("Error code '");
    push_str(&mut r, code);
    push_str(&mut r, "' not found (Status: ");
    push_str(&mut r, status);
    push_str(&mut r, ")");
    r
}

/// The explanation of error code `code` from the rendered `main` element of its page:
/// the Markdown under a heading; an error when the page has no `main` element or it
/// could not be rendered.
pub fn error_explanation(code: &str, main: &MainContent) -> (r: Result<String, String>)
    ensures
        match main {
            MainContent::Markdown(md) => r matches Ok(s) && s@ == "# Error Code "@ + code@ + "\n\n"@ + md@,
            MainContent::Missing => r matches Err(e) && e@ == "Could not find <main> content for error code "@ + code@,
            MainContent::Unrenderable => r matches Err(e) && e@ == unrenderable_message(),
        },
{
    match main {
        MainContent::Markdown(md) => {
            let mut r = owned("# Error Code ");
            push_str(&mut r, code);
            push_str(&mut r, "\n\n");
            push_str(&mut r, md.as_str());
            Ok(r)
        },
        MainContent::Missing => {
            let mut e = owned("Could not find <main> content for error code ");
            push_str(&mut e, code);
            Err(e)
        },
        MainContent::Unrenderable => Err(owned("Could not convert the page content to Markdown")),
    }
}

} // verus!
