use vstd::prelude::*;
use crate::cargo_tools::{ends_with_str, has_suffix};
use crate::text::{contains, contains_str};

verus! {

/// A name the dashboard serves from the cache directory: one that cannot leave it,
/// holding neither `..` nor a path separator.
pub open spec fn safe_cache_name(name: Seq<char>) -> bool {
    !contains(name, ".."@) && !contains(name, "/"@) && !contains(name, "\\"@)
}

/// Whether the dashboard may serve the cache file called `name`.
pub fn is_safe_cache_name(name: &str) -> (r: bool)
    ensures
        r == safe_cache_name(name@),
{
    !contains_str(name, "..") && !contains_str(name, "/") && !contains_str(name, "\\")
}

/// Whether the dashboard lists the file called `name` as a cache file: a `.json` file.
pub fn is_cache_listing(name: &str) -> (r: bool)
    ensures
        r == has_suffix(name@, ".json"@),
{
    ends_with_str(name, ".json")
}

} // verus!
