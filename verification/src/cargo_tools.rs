use vstd::prelude::*;
use crate::text::{split_char_str, split_all, contains, contains_str, has_prefix, is_blank, join, join_strings, last_index_of, owned, push_str, replace_char, replace_char_str, starts_with_str, str_eq, string_of_range, to_chars, trim, trim_str, views};

verus! {

// ---------------------------------------------------------------------------
// Paths
// ---------------------------------------------------------------------------

/// A piece between slashes that `Path::components` keeps: not empty and not `.`.
pub open spec fn keep_segment(x: Seq<char>) -> bool {
    x.len() > 0 && x != "."@
}

/// The components of a path as `Path::components` yields them on a Unix system,
/// each as its string: `/` for a leading root, then every non-empty piece between
/// slashes except `.`.
pub open spec fn path_components(s: Seq<char>) -> Seq<Seq<char>> {
    (if s.len() > 0 && s[0] == '/' {
        seq!["/"@]
    } else {
        Seq::empty()
    }) + split_all(s, '/').filter(|x: Seq<char>| keep_segment(x))
}

/// `Path::file_stem` of a single file name.
pub open spec fn file_stem_of_name(x: Seq<char>) -> Seq<char> {
    if x == ".."@ {
        x
    } else {
        match last_index_of(x, '.') {
            Some(p) => if p == 0 {
                x
            } else {
                x.take(p)
            },
            None => x,
        }
    }
}

/// `Path::file_name`: the last component when it is a plain name.
pub open spec fn file_name(s: Seq<char>) -> Option<Seq<char>> {
    let c = path_components(s);
    if c.len() == 0 || c.last() == "/"@ || c.last() == ".."@ {
        None
    } else {
        Some(c.last())
    }
}

/// `Path::file_stem(..).unwrap_or_default()` of a whole path.
pub open spec fn path_stem(s: Seq<char>) -> Seq<char> {
    match file_name(s) {
        Some(n) => file_stem_of_name(n),
        None => Seq::empty(),
    }
}

/// What one path component adds to the module path: nothing for `.`, `..` and `src`;
/// for the final component its stem, unless that is `mod`, `lib` or `main`.
pub open spec fn module_piece(c: Seq<char>, last: Seq<char>) -> Option<Seq<char>> {
    if c == "."@ || c == ".."@ || c == "src"@ {
        None
    } else if c == last {
        let stem = if c == "/"@ {
            Seq::empty()
        } else {
            file_stem_of_name(c)
        };
        if stem == "mod"@ || stem == "lib"@ || stem == "main"@ {
            None
        } else {
            Some(stem)
        }
    } else {
        Some(c)
    }
}

/// The module path pieces of a list of components whose final one is `last`.
pub open spec fn module_pieces(comps: Seq<Seq<char>>, last: Seq<char>) -> Seq<Seq<char>>
    decreases comps.len(),
{
    if comps.len() == 0 {
        Seq::empty()
    } else {
        let rest = module_pieces(comps.drop_last(), last);
        match module_piece(comps.last(), last) {
            Some(p) => rest.push(p),
            None => rest,
        }
    }
}

/// The module path of a source file: its components, without `src`, the file's
/// extension and the `mod`/`lib`/`main` file names, joined with `::`.
pub open spec fn spec_file_module(path: Seq<char>) -> Seq<char> {
    let comps = path_components(path);
    join(module_pieces(comps, comps.last()), "::"@)
}

/// The components of a path (see `path_components`).
pub fn components_of(path: &str) -> (r: Vec<String>)
    ensures
        views(r@) == path_components(path@),
{
    let v = to_chars(path);
    let mut out: Vec<String> = Vec::new();
    if v.len() > 0 && v[0] == '/' {
        out.push(owned("/"));
    }
    let ghost head = views(out@);
    let pieces = split_char_str(path, '/');
    let ghost pv = views(pieces@);
    let ghost pred = |x: Seq<char>| keep_segment(x);
    let mut i: usize = 0;
    proof {
        reveal_with_fuel(Seq::<Seq<char>>::filter, 1);
        assert(pv.take(0) =~= Seq::<Seq<char>>::empty());
        assert(views(out@) =~= head + pv.take(0).filter(pred));
    }
    while i < pieces.len()
        invariant
            i <= pieces.len(),
            pv == views(pieces@),
            pred == (|x: Seq<char>| keep_segment(x)),
            views(out@) == head + pv.take(i as int).filter(pred),
        decreases pieces.len() - i,
    {
        proof {
            reveal_with_fuel(Seq::<Seq<char>>::filter, 1);
            assert(pv.take(i + 1).drop_last() =~= pv.take(i as int));
            assert(pv.take(i + 1).last() == pv[i as int]);
        }
        let keep = !is_empty_string(&pieces[i]) && !str_eq(pieces[i].as_str(), ".");
        assert(pieces@[i as int]@ == pv[i as int]);
        assert(keep == (pv[i as int].len() > 0 && pv[i as int] != "."@));
        assert(keep == keep_segment(pv[i as int]));
        assert(keep == pred(pv[i as int]));
        let ghost f = pv.take(i as int).filter(pred);
        if keep {
            let ghost before = views(out@);
            out.push(pieces[i].clone());
            assert(views(out@) =~= before.push(pv[i as int]));
            assert(pv.take(i + 1).filter(pred) == f.push(pv[i as int]));
            assert(views(out@) =~= head + pv.take(i + 1).filter(pred));
        } else {
            assert(pv.take(i + 1).filter(pred) == f);
        }
        i = i + 1;
    }
    assert(pv.take(pieces.len() as int) =~= pv);
    out
}

/// `Path::file_stem` of a single file name.
pub fn file_stem_of(name: &str) -> (r: String)
    ensures
        r@ == file_stem_of_name(name@),
{
    if str_eq(name, "..") {
        return owned(name);
    }
    let v = to_chars(name);
    let mut i = v.len();
    assert(v@.take(i as int) =~= v@);
    while i > 0 && v[i - 1] != '.'
        invariant
            i <= v.len(),
            v@ == name@,
            last_index_of(v@, '.') == last_index_of(v@.take(i as int), '.'),
        decreases i,
    {
        assert(v@.take(i as int).drop_last() =~= v@.take(i - 1));
        i = i - 1;
    }
    if i <= 1 {
        if i == 1 {
            assert(v@.take(1).last() == '.');
        } else {
            assert(v@.take(0) =~= Seq::<char>::empty());
        }
        return owned(name);
    }
    assert(v@.take(i as int).last() == '.');
    let r = string_of_range(&v, 0, i - 1);
    assert(v@.subrange(0, i - 1) =~= v@.take(i - 1));
    r
}

/// `Path::new(path).file_stem().unwrap_or_default()`.
pub fn path_stem_of(path: &str) -> (r: String)
    ensures
        r@ == path_stem(path@),
{
    let comps = components_of(path);
    let n = comps.len();
    if n == 0 {
        return String::new();
    }
    let last = &comps[n - 1];
    assert(views(comps@).last() == last@);
    if str_eq(last.as_str(), "/") || str_eq(last.as_str(), "..") {
        return String::new();
    }
    file_stem_of(last.as_str())
}

fn module_piece_exec(c: &String, last: &String) -> (r: Option<String>)
    ensures
        match r {
            Some(p) => module_piece(c@, last@) == Some(p@),
            None => module_piece(c@, last@) is None,
        },
{
    if str_eq(c.as_str(), ".") || str_eq(c.as_str(), "..") || str_eq(c.as_str(), "src") {
        return None;
    }
    if *c == *last {
        let stem = if str_eq(c.as_str(), "/") {
            String::new()
        } else {
            file_stem_of(c.as_str())
        };
        if str_eq(stem.as_str(), "mod") || str_eq(stem.as_str(), "lib") || str_eq(
            stem.as_str(),
            "main",
        ) {
            None
        } else {
            Some(stem)
        }
    } else {
        Some(c.clone())
    }
}

/// Converts a source file path to the module path that `cargo expand` takes.
pub fn convert_file_to_module(path: &str) -> (r: Result<String, String>)
    ensures
        r matches Ok(m) && m@ == spec_file_module(path@),
{
    let comps = components_of(path);
    let ghost cv = views(comps@);
    let mut pieces: Vec<String> = Vec::new();
    if comps.len() == 0 {
        assert(module_pieces(cv, cv.last()) =~= Seq::<Seq<char>>::empty());
        assert(views(pieces@) =~= Seq::<Seq<char>>::empty());
        return Ok(join_strings(&pieces, "::"));
    }
    let last = &comps[comps.len() - 1];
    assert(last@ == cv.last());
    let mut i: usize = 0;
    assert(cv.take(0) =~= Seq::<Seq<char>>::empty());
    assert(views(pieces@) =~= module_pieces(cv.take(0), cv.last()));
    while i < comps.len()
        invariant
            i <= comps.len(),
            cv == views(comps@),
            last@ == cv.last(),
            views(pieces@) == module_pieces(cv.take(i as int), cv.last()),
        decreases comps.len() - i,
    {
        assert(cv.take(i + 1).drop_last() =~= cv.take(i as int));
        assert(cv.take(i + 1).last() == comps@[i as int]@);
        match module_piece_exec(&comps[i], last) {
            Some(p) => {
                let ghost before = views(pieces@);
                pieces.push(p);
                assert(views(pieces@) =~= before.push(p@));
            },
            None => {},
        }
        i = i + 1;
    }
    assert(cv.take(comps.len() as int) =~= cv);
    Ok(join_strings(&pieces, "::"))
}

// ---------------------------------------------------------------------------
// Cargo command lines and their output
// ---------------------------------------------------------------------------

/// The arguments of `cargo <command> <args>`, with `--color never` appended for every
/// command but `fmt`, which does not take it.
pub open spec fn spec_cargo_args(command: Seq<char>, args: Seq<Seq<char>>) -> Seq<Seq<char>> {
    seq![command] + args + if command == "fmt"@ {
        Seq::empty()
    } else {
        seq!["--color"@, "never"@]
    }
}

/// The arguments handed to `cargo` for a command.
pub fn cargo_command_args(command: &str, args: &Vec<String>) -> (r: Vec<String>)
    ensures
        views(r@) == spec_cargo_args(command@, views(args@)),
{
    let mut r: Vec<String> = Vec::new();
    r.push(owned(command));
    let mut i: usize = 0;
    while i < args.len()
        invariant
            i <= args.len(),
            views(r@) == seq![command@] + views(args@).take(i as int),
        decreases args.len() - i,
    {
        let ghost before = views(r@);
        r.push(args[i].clone());
        assert(views(r@) =~= before.push(args@[i as int]@));
        assert(views(args@).take(i + 1) =~= views(args@).take(i as int).push(args@[i as int]@));
        i = i + 1;
    }
    assert(views(args@).take(args.len() as int) =~= views(args@));
    if !str_eq(command, "fmt") {
        let ghost before = views(r@);
        r.push(owned("--color"));
        r.push(owned("never"));
        assert(views(r@) =~= before + seq!["--color"@, "never"@]);
    } else {
        assert(views(r@) =~= views(r@) + Seq::<Seq<char>>::empty());
    }
    r
}

/// What a cargo run reports, before trimming.
pub open spec fn spec_cargo_report(success: bool, stdout: Seq<char>, stderr: Seq<char>) -> Seq<char> {
    if success {
        if trim(stdout).len() == 0 {
            if trim(stderr).len() == 0 {
                "Command executed successfully (no output)."@
            } else {
                stderr
            }
        } else {
            stdout + "\n"@ + stderr
        }
    } else {
        "Command failed:\n"@ + stdout + "\n"@ + stderr
    }
}

/// The text a cargo run is answered with: its output, or the failure with its output,
/// or a note that a successful run printed nothing; trimmed.
pub fn combine_cargo_output(success: bool, stdout: &str, stderr: &str) -> (r: String)
    ensures
        r@ == trim(spec_cargo_report(success, stdout@, stderr@)),
{
    let mut combined = String::new();
    if success {
        if is_blank(stdout) {
            if is_blank(stderr) {
                push_str(&mut combined, "Command executed successfully (no output).");
            } else {
                push_str(&mut combined, stderr);
            }
        } else {
            push_str(&mut combined, stdout);
            push_str(&mut combined, "\n");
            push_str(&mut combined, stderr);
        }
    } else {
        push_str(&mut combined, "Command failed:\n");
        push_str(&mut combined, stdout);
        push_str(&mut combined, "\n");
        push_str(&mut combined, stderr);
    }
    assert(combined@ =~= spec_cargo_report(success, stdout@, stderr@));
    trim_str(combined.as_str())
}

/// The message for a cargo subcommand that is not installed.
pub open spec fn spec_missing_tool_message(tool: Seq<char>) -> Seq<char> {
    "cargo-"@ + tool + " is not installed. Please install it with `cargo install cargo-"@ + tool
        + "`."@
}

/// The error given when `cargo <tool> --version` fails: the subcommand is missing.
pub fn missing_tool_message(tool: &str) -> (r: String)
    ensures
        r@ == spec_missing_tool_message(tool@),
{
    let mut r = String::new();
    push_str(&mut r, "cargo-");
    push_str(&mut r, tool);
    push_str(&mut r, " is not installed. Please install it with `cargo install cargo-");
    push_str(&mut r, tool);
    push_str(&mut r, "`.");
    r
}

/// The target that `cargo expand` is given for a path that names a module.
pub open spec fn spec_expand_target(path: Seq<char>, item: Option<Seq<char>>) -> Seq<char> {
    let mod_path = if has_suffix(path, ".rs"@) {
        spec_file_module(path)
    } else {
        path
    };
    match item {
        Some(i) => if mod_path.len() == 0 {
            i
        } else {
            mod_path + "::"@ + i
        },
        None => mod_path,
    }
}

/// `s` ends with `p`.
pub open spec fn has_suffix(s: Seq<char>, p: Seq<char>) -> bool {
    p.len() <= s.len() && s.skip(s.len() - p.len()) == p
}

/// The optional item as a one-element or empty list.
pub open spec fn item_args(item: Option<Seq<char>>) -> Seq<Seq<char>> {
    match item {
        Some(i) => seq![i],
        None => Seq::empty(),
    }
}

/// The arguments of `cargo expand` for a path and an optional item: an example or a
/// test target by the file's stem, or else a module path built from the file path.
pub open spec fn spec_expand_args(path: Seq<char>, item: Option<Seq<char>>) -> Seq<Seq<char>> {
    let norm = replace_char(path, '\\', '/');
    let middle = if has_prefix(norm, "examples/"@) {
        seq!["--example"@, path_stem(path)] + item_args(item)
    } else if has_prefix(norm, "tests/"@) {
        seq!["--test"@, path_stem(path)] + item_args(item)
    } else {
        let target = spec_expand_target(path, item);
        if target.len() == 0 {
            Seq::empty()
        } else {
            seq![target]
        }
    };
    seq!["expand"@] + middle + seq!["--color"@, "never"@]
}

pub(crate) fn ends_with_str(s: &str, p: &str) -> (r: bool)
    ensures
        r == has_suffix(s@, p@),
{
    let v = to_chars(s);
    let pv = to_chars(p);
    if pv.len() > v.len() {
        return false;
    }
    let tail = string_of_range(&v, v.len() - pv.len(), v.len());
    assert(v@.subrange(v.len() - pv.len(), v.len() as int) =~= v@.skip(v.len() - pv.len()));
    str_eq(tail.as_str(), p)
}

/// The arguments for `cargo expand`.
pub fn expand_args(path: &str, item: &Option<String>) -> (r: Vec<String>)
    ensures
        views(r@) == spec_expand_args(
            path@,
            match item {
                Some(i) => Some(i@),
                None => None,
            },
        ),
{
    let ghost iv = match item {
        Some(i) => Some(i@),
        None => None::<Seq<char>>,
    };
    let mut args: Vec<String> = Vec::new();
    args.push(owned("expand"));
    let norm = replace_char_str(path, '\\', '/');
    let ghost before = views(args@);
    if starts_with_str(norm.as_str(), "examples/") || starts_with_str(norm.as_str(), "tests/") {
        let flag = if starts_with_str(norm.as_str(), "examples/") {
            owned("--example")
        } else {
            owned("--test")
        };
        args.push(flag);
        args.push(path_stem_of(path));
        if let Some(i) = item {
            args.push(i.clone());
        }
    } else {
        let mod_path = if ends_with_str(path, ".rs") {
            match convert_file_to_module(path) {
                Ok(m) => m,
                Err(_) => String::new(),
            }
        } else {
            owned(path)
        };
        let target = match item {
            Some(i) => if is_empty_string(&mod_path) {
                i.clone()
            } else {
                let mut t = mod_path;
                push_str(&mut t, "::");
                push_str(&mut t, i.as_str());
                t
            },
            None => mod_path,
        };
        assert(target@ == spec_expand_target(path@, iv));
        if !is_empty_string(&target) {
            args.push(target);
        }
    }
    args.push(owned("--color"));
    args.push(owned("never"));
    assert(views(args@) =~= spec_expand_args(path@, iv));
    args
}

fn is_empty_string(s: &String) -> (r: bool)
    ensures
        r == (s@.len() == 0),
{
    s.as_str().is_empty()
}

/// What `cargo expand` is answered with: its output on success; otherwise a hint to
/// install it when the subcommand is missing, or its error output.
pub open spec fn spec_expand_outcome(success: bool, stdout: Seq<char>, stderr: Seq<char>) -> Result<Seq<char>, Seq<char>> {
    if !success {
        if contains(stderr, "no such command: `expand`"@) {
            Err("`cargo expand` is not installed. Please install it via: `cargo install cargo-expand`"@)
        } else {
            Err("cargo expand failed: "@ + stderr)
        }
    } else {
        Ok(stdout)
    }
}

pub fn expand_outcome(success: bool, stdout: &str, stderr: &str) -> (r: Result<String, String>)
    ensures
        match r {
            Ok(s) => spec_expand_outcome(success, stdout@, stderr@) == Ok::<Seq<char>, Seq<char>>(s@),
            Err(e) => spec_expand_outcome(success, stdout@, stderr@) == Err::<Seq<char>, Seq<char>>(e@),
        },
{
    if !success {
        if contains_str(stderr, "no such command: `expand`") {
            return Err(
                owned(
                    "`cargo expand` is not installed. Please install it via: `cargo install cargo-expand`",
                ),
            );
        }
        let mut e = owned("cargo expand failed: ");
        push_str(&mut e, stderr);
        return Err(e);
    }
    Ok(owned(stdout))
}

} // verus!
