use vstd::prelude::*;
use crate::text::{decimal, owned, push_decimal, push_str, str_eq, views};
use syn::{parse_file, FnArg::Typed, Item, ReturnType, Type, Visibility::Public};
use self::TypeShape::{Complex, Path, Reference};

verus! {

/// What the analysis of a project finds.
#[derive(Debug, Clone)]
pub struct ProjectContext {
    pub overview: ProjectOverview,
    /// Each analysed source file, by path; no path occurs twice.
    pub modules: Vec<(String, ModuleInfo)>,
    pub dependencies: Vec<DependencyInfo>,
    pub hotspots: Vec<Hotspot>,
}

#[derive(Debug, Clone)]
pub struct ProjectOverview {
    pub total_files: usize,
    pub total_lines: usize,
    pub architecture_type: ArchitectureType,
}

/// The kind of package a project is.
#[derive(Debug, Clone, Copy, PartialEq, Eq, Structural)]
pub enum ArchitectureType {
    Binary,
    Library,
    Workspace,
    Mixed,
    Unknown,
}

/// What one source file defines at its top level.
#[derive(Debug, Clone)]
pub struct ModuleInfo {
    pub path: String,
    /// The number of functions and structs.
    pub complexity: u32,
    pub functions: Vec<FunctionInfo>,
    pub structs: Vec<StructInfo>,
}

#[derive(Debug, Clone)]
pub struct FunctionInfo {
    pub name: String,
    /// `pub` or `private`.
    pub visibility: String,
    pub is_async: bool,
    pub lines: usize,
    /// Each parameter's type, shortened; `self` for a receiver.
    pub args: Vec<String>,
    /// The return type, shortened; `()` when there is none.
    pub return_type: String,
}

#[derive(Debug, Clone)]
pub struct StructInfo {
    pub name: String,
    /// `pub` or `private`.
    pub visibility: String,
    pub fields: usize,
}

#[derive(Debug, Clone)]
pub struct DependencyInfo {
    pub name: String,
    pub version: String,
    pub features: Vec<String>,
}

/// A file that may need attention, with how much.
#[derive(Debug, Clone)]
pub struct Hotspot {
    pub path: String,
    pub score: u32,
    pub reason: String,
}

/// The shape of a type, as far as the analysis tells types apart.
#[derive(Debug, Clone)]
pub enum TypeShape {
    /// A path type, with the name of its last segment when it has one.
    Path(Option<String>),
    Reference,
    Complex,
}

/// A top-level item of a source file, as far as the analysis reads it: a function (name,
/// whether it is public, whether it is async, its return type when one is written, and
/// each parameter's type, `None` for a `self` receiver), a struct (name, whether it is
/// public, number of fields), or anything else.
#[derive(Debug, Clone)]
pub enum SourceItem {
    Function(String, bool, bool, Option<TypeShape>, Vec<Option<TypeShape>>),
    Struct(String, bool, usize),
    Other,
}

pub enum TypeShapeView {
    Path(Option<Seq<char>>),
    Reference,
    Complex,
}

pub enum SourceItemView {
    Function {
        name: Seq<char>,
        public: bool,
        is_async: bool,
        output: Option<TypeShapeView>,
        inputs: Seq<Option<TypeShapeView>>,
    },
    Struct { name: Seq<char>, public: bool, fields: usize },
    Other,
}

pub open spec fn shape_view(t: TypeShape) -> TypeShapeView {
    match t {
        TypeShape::Path(n) => TypeShapeView::Path(
            match n {
                Some(s) => Some(s@),
                None => None,
            },
        ),
        TypeShape::Reference => TypeShapeView::Reference,
        TypeShape::Complex => TypeShapeView::Complex,
    }
}

pub open spec fn opt_shape_view(t: Option<TypeShape>) -> Option<TypeShapeView> {
    match t {
        Some(s) => Some(shape_view(s)),
        None => None,
    }
}

pub open spec fn item_view(i: SourceItem) -> SourceItemView {
    match i {
        SourceItem::Function(name, public, is_async, output, inputs) => SourceItemView::Function {
            name: name@,
            public,
            is_async,
            output: opt_shape_view(output),
            inputs: inputs@.map_values(|a: Option<TypeShape>| opt_shape_view(a)),
        },
        SourceItem::Struct(name, public, fields) => SourceItemView::Struct { name: name@, public, fields },
        SourceItem::Other => SourceItemView::Other,
    }
}

/// What the analysis reads of a top-level item apart from the types in a signature: a
/// function (name, whether it is public, whether it is async), a struct (name, whether
/// it is public, number of fields), or anything else.
#[derive(Debug, Clone)]
pub enum ItemHead {
    Function(String, bool, bool),
    Struct(String, bool, usize),
    Other,
}

pub enum ItemHeadView {
    Function(Seq<char>, bool, bool),
    Struct(Seq<char>, bool, usize),
    Other,
}

pub open spec fn head_view(h: ItemHead) -> ItemHeadView {
    match h {
        ItemHead::Function(name, public, is_async) => ItemHeadView::Function(name@, public, is_async),
        ItemHead::Struct(name, public, fields) => ItemHeadView::Struct(name@, public, fields),
        ItemHead::Other => ItemHeadView::Other,
    }
}

pub open spec fn heads_view(v: Option<Vec<ItemHead>>) -> Option<Seq<ItemHeadView>> {
    match v {
        Some(heads) => Some(heads@.map_values(|h: ItemHead| head_view(h))),
        None => None,
    }
}

/// The types in a function's signature: its return type when one is written, and each
/// parameter's type, `None` for a `self` receiver.
pub open spec fn signature_view(s: (Option<TypeShape>, Vec<Option<TypeShape>>)) -> (Option<TypeShapeView>, Seq<Option<TypeShapeView>>) {
    (opt_shape_view(s.0), s.1@.map_values(|a: Option<TypeShape>| opt_shape_view(a)))
}

pub open spec fn opt_signature_view(s: Option<(Option<TypeShape>, Vec<Option<TypeShape>>)>) -> Option<(Option<TypeShapeView>, Seq<Option<TypeShapeView>>)> {
    match s {
        Some(x) => Some(signature_view(x)),
        None => None,
    }
}

pub open spec fn signatures_view(v: Option<Vec<Option<(Option<TypeShape>, Vec<Option<TypeShape>>)>>>) -> Option<Seq<Option<(Option<TypeShapeView>, Seq<Option<TypeShapeView>>)>>> {
    match v {
        Some(sigs) => Some(sigs@.map_values(|x: Option<(Option<TypeShape>, Vec<Option<TypeShape>>)>| opt_signature_view(x))),
        None => None,
    }
}

/// The top-level items that `syn::parse_file` finds in a Rust source file, read apart
/// from the types in signatures; `None` when the file does not parse.
pub uninterp spec fn rust_item_heads(content: Seq<char>) -> Option<Seq<ItemHeadView>>;

/// For each top-level item that `syn::parse_file` finds in a Rust source file, the
/// types in its signature when it is a function; `None` when the file does not parse.
pub uninterp spec fn rust_signature_shapes(content: Seq<char>) -> Option<Seq<Option<(Option<TypeShapeView>, Seq<Option<TypeShapeView>>)>>>;

/// Trusted: `syn::parse_file`, with each top-level item read into an `ItemHead`; named,
/// as a function of the file's text alone.
#[verifier::external_body]
fn parse_item_heads(content: &str) -> (r: Option<Vec<ItemHead>>)
    ensures
        heads_view(r) == rust_item_heads(content@),
{
    Some(parse_file(content).ok()?.items.iter().map(|i| match i {
        Item::Fn(f) => ItemHead::Function(f.sig.ident.to_string(), matches!(f.vis, Public(_)), f.sig.asyncness.is_some()),
        Item::Struct(s) => ItemHead::Struct(s.ident.to_string(), matches!(s.vis, Public(_)), s.fields.len()),
        _ => ItemHead::Other,
    }).collect())
}

/// Trusted: `syn::parse_file` again, with the types in each function's signature read
/// into `TypeShape`s (`None` for items that are not functions); named, as a function of
/// the file's text alone.
#[verifier::external_body]
fn parse_signature_shapes(content: &str) -> (r: Option<Vec<Option<(Option<TypeShape>, Vec<Option<TypeShape>>)>>>)
    ensures
        signatures_view(r) == rust_signature_shapes(content@),
{
    let ty = |t: &Type| match t { Type::Path(p) => Path(p.path.segments.last().map(|s| s.ident.to_string())), Type::Reference(_) => Reference, _ => Complex };
    Some(parse_file(content).ok()?.items.iter().map(|i| match i {
        Item::Fn(f) => Some((match &f.sig.output { ReturnType::Type(_, t) => Some(ty(t)), _ => None },
            f.sig.inputs.iter().map(|a| match a { Typed(p) => Some(ty(&p.ty)), _ => None }).collect())),
        _ => None,
    }).collect())
}

/// The items of a file from its heads and its signature shapes, position by position:
/// each function takes the shapes at its position (none when there are none there).
pub open spec fn source_items(heads: Seq<ItemHeadView>, shapes: Seq<Option<(Option<TypeShapeView>, Seq<Option<TypeShapeView>>)>>) -> Seq<SourceItemView> {
    Seq::new(heads.len(), |i: int| source_item(heads[i], if i < shapes.len() { shapes[i] } else { None }))
}

pub open spec fn source_item(head: ItemHeadView, shapes: Option<(Option<TypeShapeView>, Seq<Option<TypeShapeView>>)>) -> SourceItemView {
    match head {
        ItemHeadView::Function(name, public, is_async) => SourceItemView::Function {
            name,
            public,
            is_async,
            output: match shapes {
                Some(s) => s.0,
                None => None,
            },
            inputs: match shapes {
                Some(s) => s.1,
                None => Seq::empty(),
            },
        },
        ItemHeadView::Struct(name, public, fields) => SourceItemView::Struct { name, public, fields },
        ItemHeadView::Other => SourceItemView::Other,
    }
}

/// The top-level items of a Rust source file as the analysis reads them; `None` when the
/// file does not parse.
pub open spec fn rust_source_items(content: Seq<char>) -> Option<Seq<SourceItemView>> {
    match rust_item_heads(content) {
        Some(heads) => Some(
            source_items(
                heads,
                match rust_signature_shapes(content) {
                    Some(s) => s,
                    None => Seq::empty(),
                },
            ),
        ),
        None => None,
    }
}

fn copy_shape(t: &TypeShape) -> (r: TypeShape)
    ensures
        shape_view(r) == shape_view(*t),
{
    match t {
        TypeShape::Path(Some(n)) => TypeShape::Path(Some(owned(n.as_str()))),
        TypeShape::Path(None) => TypeShape::Path(None),
        TypeShape::Reference => TypeShape::Reference,
        TypeShape::Complex => TypeShape::Complex,
    }
}

fn copy_opt_shape(t: &Option<TypeShape>) -> (r: Option<TypeShape>)
    ensures
        opt_shape_view(r) == opt_shape_view(*t),
{
    match t {
        Some(s) => Some(copy_shape(s)),
        None => None,
    }
}

fn copy_shapes(v: &Vec<Option<TypeShape>>) -> (r: Vec<Option<TypeShape>>)
    ensures
        r@.map_values(|a: Option<TypeShape>| opt_shape_view(a)) == v@.map_values(|a: Option<TypeShape>| opt_shape_view(a)),
{
    let ghost vv = v@.map_values(|a: Option<TypeShape>| opt_shape_view(a));
    let mut r: Vec<Option<TypeShape>> = Vec::new();
    let mut k: usize = 0;
    while k < v.len()
        invariant
            k <= v.len(),
            vv == v@.map_values(|a: Option<TypeShape>| opt_shape_view(a)),
            r@.map_values(|a: Option<TypeShape>| opt_shape_view(a)) == vv.take(k as int),
        decreases v.len() - k,
    {
        let a = copy_opt_shape(&v[k]);
        let ghost before = r@.map_values(|a: Option<TypeShape>| opt_shape_view(a));
        r.push(a);
        assert(r@.map_values(|a: Option<TypeShape>| opt_shape_view(a)) =~= before.push(opt_shape_view(a)));
        assert(vv.take(k + 1) =~= vv.take(k as int).push(vv[k as int]));
        k = k + 1;
    }
    assert(vv.take(v.len() as int) =~= vv);
    r
}

/// The item at one position, from its head and the signature shapes read there.
fn source_item_exec(head: &ItemHead, shapes: &Option<(Option<TypeShape>, Vec<Option<TypeShape>>)>) -> (r: SourceItem)
    ensures
        item_view(r) == source_item(head_view(*head), opt_signature_view(*shapes)),
{
    match head {
        ItemHead::Function(name, public, is_async) => {
            let (output, inputs) = match shapes {
                Some(s) => (copy_opt_shape(&s.0), copy_shapes(&s.1)),
                None => (None, Vec::new()),
            };
            assert(inputs@.map_values(|a: Option<TypeShape>| opt_shape_view(a)) =~= match opt_signature_view(*shapes) {
                Some(s) => s.1,
                None => Seq::<Option<TypeShapeView>>::empty(),
            });
            SourceItem::Function(owned(name.as_str()), *public, *is_async, output, inputs)
        },
        ItemHead::Struct(name, public, fields) => SourceItem::Struct(owned(name.as_str()), *public, *fields),
        ItemHead::Other => SourceItem::Other,
    }
}

/// The items of a file from its heads and its signature shapes, position by position.
fn read_items(heads: &Vec<ItemHead>, shapes: &Vec<Option<(Option<TypeShape>, Vec<Option<TypeShape>>)>>) -> (r: Vec<SourceItem>)
    ensures
        r@.map_values(|i: SourceItem| item_view(i)) == source_items(
            heads@.map_values(|h: ItemHead| head_view(h)),
            shapes@.map_values(|x: Option<(Option<TypeShape>, Vec<Option<TypeShape>>)>| opt_signature_view(x)),
        ),
{
    let ghost hv = heads@.map_values(|h: ItemHead| head_view(h));
    let ghost sv = shapes@.map_values(|x: Option<(Option<TypeShape>, Vec<Option<TypeShape>>)>| opt_signature_view(x));
    let ghost target = source_items(hv, sv);
    let none: Option<(Option<TypeShape>, Vec<Option<TypeShape>>)> = None;
    let mut r: Vec<SourceItem> = Vec::new();
    let mut i: usize = 0;
    while i < heads.len()
        invariant
            i <= heads.len(),
            none is None,
            hv == heads@.map_values(|h: ItemHead| head_view(h)),
            sv == shapes@.map_values(|x: Option<(Option<TypeShape>, Vec<Option<TypeShape>>)>| opt_signature_view(x)),
            target == source_items(hv, sv),
            r@.map_values(|i: SourceItem| item_view(i)) == target.take(i as int),
        decreases heads.len() - i,
    {
        let sh = if i < shapes.len() { &shapes[i] } else { &none };
        let item = source_item_exec(&heads[i], sh);
        let ghost before = r@.map_values(|i: SourceItem| item_view(i));
        r.push(item);
        assert(r@.map_values(|i: SourceItem| item_view(i)) =~= before.push(item_view(item)));
        assert(target.take(i + 1) =~= target.take(i as int).push(target[i as int]));
        i = i + 1;
    }
    assert(target.take(heads.len() as int) =~= target);
    r
}

/// How a type is shown: the last segment of a path (`?` when it has none), `&T` for a
/// reference, `Complex` for anything else.
pub open spec fn type_text(t: TypeShapeView) -> Seq<char> {
    match t {
        TypeShapeView::Path(Some(n)) => n,
        TypeShapeView::Path(None) => "?"@,
        TypeShapeView::Reference => "&T"@,
        TypeShapeView::Complex => "Complex"@,
    }
}

/// How a parameter is shown: `self` for a receiver, else its type.
pub open spec fn arg_text(a: Option<TypeShapeView>) -> Seq<char> {
    match a {
        Some(t) => type_text(t),
        None => "self"@,
    }
}

pub open spec fn visibility_text(public: bool) -> Seq<char> {
    if public {
        "pub"@
    } else {
        "private"@
    }
}

/// A function as the analysis reports it: name, visibility, asyncness, parameters and
/// return type.
pub open spec fn function_entry(item: SourceItemView) -> Option<(Seq<char>, Seq<char>, bool, Seq<Seq<char>>, Seq<char>)> {
    match item {
        SourceItemView::Function { name, public, is_async, output, inputs } => Some(
            (
                name,
                visibility_text(public),
                is_async,
                inputs.map_values(|a: Option<TypeShapeView>| arg_text(a)),
                match output {
                    Some(t) => type_text(t),
                    None => "()"@,
                },
            ),
        ),
        _ => None,
    }
}

/// A struct as the analysis reports it: name, visibility and number of fields.
pub open spec fn struct_entry(item: SourceItemView) -> Option<(Seq<char>, Seq<char>, usize)> {
    match item {
        SourceItemView::Struct { name, public, fields } => Some((name, visibility_text(public), fields)),
        _ => None,
    }
}

pub open spec fn function_entries(items: Seq<SourceItemView>) -> Seq<(Seq<char>, Seq<char>, bool, Seq<Seq<char>>, Seq<char>)>
    decreases items.len(),
{
    if items.len() == 0 {
        Seq::empty()
    } else {
        let rest = function_entries(items.drop_last());
        match function_entry(items.last()) {
            Some(e) => rest.push(e),
            None => rest,
        }
    }
}

pub open spec fn struct_entries(items: Seq<SourceItemView>) -> Seq<(Seq<char>, Seq<char>, usize)>
    decreases items.len(),
{
    if items.len() == 0 {
        Seq::empty()
    } else {
        let rest = struct_entries(items.drop_last());
        match struct_entry(items.last()) {
            Some(e) => rest.push(e),
            None => rest,
        }
    }
}

pub open spec fn function_view(f: FunctionInfo) -> (Seq<char>, Seq<char>, bool, Seq<Seq<char>>, Seq<char>) {
    (f.name@, f.visibility@, f.is_async, views(f.args@), f.return_type@)
}

pub open spec fn struct_view(s: StructInfo) -> (Seq<char>, Seq<char>, usize) {
    (s.name@, s.visibility@, s.fields)
}

/// `m` is what the analysis reports for a file at `path` with these items: its
/// functions and structs in order, none of its functions measured, and one unit of
/// complexity for each.
pub open spec fn describes_module(m: ModuleInfo, path: Seq<char>, items: Seq<SourceItemView>) -> bool {
    &&& m.path@ == path
    &&& m.functions@.map_values(|f: FunctionInfo| function_view(f)) == function_entries(items)
    &&& m.structs@.map_values(|s: StructInfo| struct_view(s)) == struct_entries(items)
    &&& forall|i: int| 0 <= i < m.functions@.len() ==> (#[trigger] m.functions@[i]).lines == 0
    &&& m.complexity == function_entries(items).len() + struct_entries(items).len()
}

fn type_text_exec(t: &TypeShape) -> (r: String)
    ensures
        r@ == type_text(shape_view(*t)),
{
    match t {
        TypeShape::Path(Some(n)) => owned(n.as_str()),
        TypeShape::Path(None) => owned("?"),
        TypeShape::Reference => owned("&T"),
        TypeShape::Complex => owned("Complex"),
    }
}

fn visibility_exec(public: bool) -> (r: String)
    ensures
        r@ == visibility_text(public),
{
    if public {
        owned("pub")
    } else {
        owned("private")
    }
}

fn function_info(name: &String, public: bool, is_async: bool, output: &Option<TypeShape>, inputs: &Vec<Option<TypeShape>>) -> (r: FunctionInfo)
    ensures
        function_view(r) == function_entry(
            SourceItemView::Function {
                name: name@,
                public,
                is_async,
                output: opt_shape_view(*output),
                inputs: inputs@.map_values(|a: Option<TypeShape>| opt_shape_view(a)),
            },
        ).unwrap(),
        r.lines == 0,
{
    let ghost iv = inputs@.map_values(|a: Option<TypeShape>| opt_shape_view(a));
    let mut args: Vec<String> = Vec::new();
    let mut i: usize = 0;
    while i < inputs.len()
        invariant
            i <= inputs.len(),
            iv == inputs@.map_values(|a: Option<TypeShape>| opt_shape_view(a)),
            views(args@) == iv.take(i as int).map_values(|a: Option<TypeShapeView>| arg_text(a)),
        decreases inputs.len() - i,
    {
        let a = match &inputs[i] {
            Some(t) => type_text_exec(t),
            None => owned("self"),
        };
        assert(iv[i as int] == opt_shape_view(inputs@[i as int]));
        assert(a@ == arg_text(iv[i as int]));
        let ghost before = views(args@);
        args.push(a);
        assert(views(args@) =~= before.push(a@));
        assert(iv.take(i + 1) =~= iv.take(i as int).push(iv[i as int]));
        assert(views(args@) =~= iv.take(i + 1).map_values(|a: Option<TypeShapeView>| arg_text(a)));
        i = i + 1;
    }
    assert(iv.take(inputs.len() as int) =~= iv);
    let return_type = match output {
        Some(t) => type_text_exec(t),
        None => owned("()"),
    };
    FunctionInfo { name: owned(name.as_str()), visibility: visibility_exec(public), is_async, lines: 0, args, return_type }
}

/// What a file at `path` with these top-level items defines: its functions and its
/// structs, in order, and its complexity, one for each of them.
pub fn analyze_items(items: &Vec<SourceItem>, path: String) -> (r: ModuleInfo)
    requires
        items@.len() <= u32::MAX,
    ensures
        describes_module(r, path@, items@.map_values(|i: SourceItem| item_view(i))),
{
    let ghost iv = items@.map_values(|i: SourceItem| item_view(i));
    let mut functions: Vec<FunctionInfo> = Vec::new();
    let mut structs: Vec<StructInfo> = Vec::new();
    let mut complexity: u32 = 0;
    let mut i: usize = 0;
    while i < items.len()
        invariant
            i <= items.len(),
            items@.len() <= u32::MAX,
            iv == items@.map_values(|i: SourceItem| item_view(i)),
            functions@.map_values(|f: FunctionInfo| function_view(f)) == function_entries(iv.take(i as int)),
            structs@.map_values(|s: StructInfo| struct_view(s)) == struct_entries(iv.take(i as int)),
            forall|k: int| 0 <= k < functions@.len() ==> (#[trigger] functions@[k]).lines == 0,
            complexity == function_entries(iv.take(i as int)).len() + struct_entries(iv.take(i as int)).len(),
            complexity <= i,
        decreases items.len() - i,
    {
        assert(iv.take(i + 1).drop_last() =~= iv.take(i as int));
        assert(iv.take(i + 1).last() == item_view(items@[i as int]));
        match &items[i] {
            SourceItem::Function(name, public, is_async, output, inputs) => {
                let f = function_info(name, *public, *is_async, output, inputs);
                functions.push(f);
                complexity = complexity + 1;
                assert(functions@.map_values(|f: FunctionInfo| function_view(f)) =~= function_entries(
                    iv.take(i as int),
                ).push(function_view(f)));
            },
            SourceItem::Struct(name, public, fields) => {
                let s = StructInfo { name: owned(name.as_str()), visibility: visibility_exec(*public), fields: *fields };
                structs.push(s);
                complexity = complexity + 1;
                assert(structs@.map_values(|s: StructInfo| struct_view(s)) =~= struct_entries(iv.take(i as int)).push(
                    struct_view(s),
                ));
            },
            SourceItem::Other => {},
        }
        i = i + 1;
    }
    assert(iv.take(items.len() as int) =~= iv);
    ModuleInfo { path, complexity, functions, structs }
}

/// A file the analysis reads: one whose name has the extension `rs` (a name of more
/// than the extension, ending in `.rs`).
pub open spec fn is_rust_path(p: Seq<char>) -> bool {
    p.len() >= 4 && p.skip(p.len() - 3) == ".rs"@ && p[p.len() - 4] != '/'
}

/// Whether the analysis reads the file at `path`.
pub fn is_rust_source(path: &str) -> (r: bool)
    ensures
        r == is_rust_path(path@),
{
    let n = path.unicode_len();
    if n < 4 {
        return false;
    }
    let r = path.get_char(n - 3) == '.' && path.get_char(n - 2) == 'r' && path.get_char(n - 1) == 's'
        && path.get_char(n - 4) != '/';
    proof {
        reveal_strlit(".rs");
        if r {
            assert(path@.skip(n - 3) =~= ".rs"@);
        } else if path@.skip(n - 3) == ".rs"@ {
            assert(path@.skip(n - 3)[0] == path@[n - 3]);
            assert(path@.skip(n - 3)[1] == path@[n - 2]);
            assert(path@.skip(n - 3)[2] == path@[n - 1]);
        }
    }
    r
}

/// The number of `\n` in `s`.
pub open spec fn newline_count(s: Seq<char>) -> nat
    decreases s.len(),
{
    if s.len() == 0 {
        0
    } else {
        newline_count(s.drop_last()) + if s.last() == '\n' {
            1nat
        } else {
            0nat
        }
    }
}

/// The number of lines of `s`, as `str::lines` counts them: a last line need not end
/// with a newline, and an empty text has none.
pub open spec fn line_count(s: Seq<char>) -> nat {
    if s.len() == 0 {
        0
    } else if s.last() == '\n' {
        newline_count(s)
    } else {
        newline_count(s) + 1
    }
}

proof fn lemma_newline_count_bound(s: Seq<char>)
    ensures
        newline_count(s) <= s.len(),
    decreases s.len(),
{
    if s.len() > 0 {
        lemma_newline_count_bound(s.drop_last());
    }
}

/// The number of lines of a text.
pub fn count_lines(s: &str) -> (r: usize)
    ensures
        r == line_count(s@),
        r <= s@.len(),
{
    let n = s.unicode_len();
    let mut count: usize = 0;
    let mut i: usize = 0;
    while i < n
        invariant
            i <= n,
            n == s@.len(),
            count == newline_count(s@.take(i as int)),
            count <= i,
        decreases n - i,
    {
        assert(s@.take(i + 1).drop_last() =~= s@.take(i as int));
        if s.get_char(i) == '\n' {
            count = count + 1;
        }
        i = i + 1;
    }
    assert(s@.take(n as int) =~= s@);
    if n > 0 && s.get_char(n - 1) != '\n' {
        proof {
            lemma_newline_count_bound(s@.drop_last());
        }
        count = count + 1;
    }
    count
}

/// A file is a hotspot when it is long or defines many functions.
pub open spec fn is_hot(lines: nat, functions: nat) -> bool {
    lines > 300 || functions > 20
}

/// A parsed file is a hotspot exactly when it has more than 300 lines or defines more
/// than 20 functions: many functions make a hotspot whatever the line count, and many
/// lines whatever the function count.
pub proof fn lemma_hotspot_thresholds(lines: nat, functions: nat)
    ensures
        functions > 20 ==> is_hot(lines, functions),
        lines > 300 ==> is_hot(lines, functions),
        lines <= 300 && functions <= 20 ==> !is_hot(lines, functions),
{
}

pub open spec fn hotspot_view(h: Hotspot) -> (Seq<char>, u32, Seq<char>) {
    (h.path@, h.score, h.reason@)
}

pub open spec fn hotspot_views(v: Seq<Hotspot>) -> Seq<(Seq<char>, u32, Seq<char>)> {
    v.map_values(|h: Hotspot| hotspot_view(h))
}

/// The hotspot a file at `path` with this many lines and functions makes: scored a
/// tenth of its lines.
pub open spec fn spec_hotspot(path: Seq<char>, lines: nat, functions: nat) -> (Seq<char>, u32, Seq<char>) {
    (
        path,
        (lines / 10) as u32,
        "Large file ("@ + decimal(lines) + " lines, "@ + decimal(functions) + " functions)"@,
    )
}

/// The position of `path` among the modules, or their number when it has none.
pub open spec fn module_index(mods: Seq<(String, ModuleInfo)>, path: Seq<char>) -> int
    decreases mods.len(),
{
    if mods.len() == 0 {
        0
    } else if mods[0].0@ == path {
        0
    } else {
        1 + module_index(mods.drop_first(), path)
    }
}

proof fn lemma_module_index(mods: Seq<(String, ModuleInfo)>, path: Seq<char>)
    ensures
        0 <= module_index(mods, path) <= mods.len(),
        module_index(mods, path) < mods.len() ==> mods[module_index(mods, path)].0@ == path,
        forall|j: int| 0 <= j < module_index(mods, path) ==> (#[trigger] mods[j]).0@ != path,
    decreases mods.len(),
{
    if mods.len() > 0 && mods[0].0@ != path {
        lemma_module_index(mods.drop_first(), path);
        assert forall|j: int| 0 <= j < module_index(mods, path) implies (#[trigger] mods[j]).0@ != path by {
            if j > 0 {
                assert(mods[j] == mods.drop_first()[j - 1]);
            }
        }
    }
}

/// No path names two modules.
pub open spec fn paths_distinct(mods: Seq<(String, ModuleInfo)>) -> bool {
    forall|i: int, j: int| 0 <= i < j < mods.len() ==> (#[trigger] mods[i]).0@ != (#[trigger] mods[j]).0@
}

/// `new` is `old` with the module of `path` set: replaced where `old` has one, added at
/// the end where it has none.
pub open spec fn module_set(old: Seq<(String, ModuleInfo)>, new: Seq<(String, ModuleInfo)>, path: Seq<char>) -> bool {
    let i = module_index(old, path);
    &&& new.len() == if i < old.len() {
        old.len()
    } else {
        old.len() + 1
    }
    &&& new[i].0@ == path
    &&& forall|j: int| 0 <= j < old.len() && j != i ==> new[j] == old[j]
}

/// The running totals of a project's analysis, file by file.
pub struct ProjectScan {
    pub total_files: usize,
    pub total_lines: usize,
    pub modules: Vec<(String, ModuleInfo)>,
    pub hotspots: Vec<Hotspot>,
}

impl ProjectScan {
    /// Nothing scanned yet.
    pub fn new() -> (r: ProjectScan)
        ensures
            r.total_files == 0,
            r.total_lines == 0,
            r.modules@.len() == 0,
            r.hotspots@.len() == 0,
    {
        ProjectScan { total_files: 0, total_lines: 0, modules: Vec::new(), hotspots: Vec::new() }
    }

    /// Counts a Rust file at `path` with its text, or `None` when it could not be read.
    /// A file that was read adds its lines; one that also parses is recorded as the
    /// module of its path (replacing an earlier one) and, when it is long or defines
    /// many functions, as a hotspot. A parsed file with more top-level items than a
    /// complexity can count is not recorded.
    pub fn add_file(&mut self, path: String, content: Option<String>)
        requires
            old(self).total_files < usize::MAX,
            content matches Some(c) ==> old(self).total_lines + line_count(c@) <= usize::MAX,
            paths_distinct(old(self).modules@),
        ensures
            final(self).total_files == old(self).total_files + 1,
            paths_distinct(final(self).modules@),
            match content {
                None => {
                    &&& final(self).total_lines == old(self).total_lines
                    &&& final(self).modules@ == old(self).modules@
                    &&& final(self).hotspots@ == old(self).hotspots@
                },
                Some(c) => {
                    &&& final(self).total_lines == old(self).total_lines + line_count(c@)
                    &&& match rust_source_items(c@) {
                        Some(items) if items.len() <= u32::MAX => {
                            let m = module_index(old(self).modules@, path@);
                            &&& module_set(old(self).modules@, final(self).modules@, path@)
                            &&& describes_module(final(self).modules@[m].1, path@, items)
                            &&& (line_count(c@) > 300 || function_entries(items).len() > 20) ==> hotspot_views(
                                final(self).hotspots@,
                            ) == hotspot_views(old(self).hotspots@).push(
                                (path@, (line_count(c@) / 10) as u32, "Large file ("@ + decimal(line_count(c@))
                                    + " lines, "@ + decimal(function_entries(items).len()) + " functions)"@),
                            )
                            &&& (line_count(c@) <= 300 && function_entries(items).len() <= 20) ==> hotspot_views(
                                final(self).hotspots@,
                            ) == hotspot_views(old(self).hotspots@)
                            &&& hotspot_views(final(self).hotspots@) == if is_hot(
                                line_count(c@),
                                function_entries(items).len(),
                            ) {
                                hotspot_views(old(self).hotspots@).push(
                                    spec_hotspot(path@, line_count(c@), function_entries(items).len()),
                                )
                            } else {
                                hotspot_views(old(self).hotspots@)
                            }
                        },
                        _ => final(self).modules@ == old(self).modules@ && final(self).hotspots@ == old(self).hotspots@,
                    }
                },
            },
    {
        self.total_files = self.total_files + 1;
        let text = match content {
            Some(t) => t,
            None => return,
        };
        let lines = count_lines(text.as_str());
        self.total_lines = self.total_lines + lines;
        let heads = match parse_item_heads(text.as_str()) {
            Some(heads) => heads,
            None => return,
        };
        if heads.len() > 4294967295 {
            return;
        }
        let shapes = match parse_signature_shapes(text.as_str()) {
            Some(shapes) => shapes,
            None => Vec::new(),
        };
        let items = read_items(&heads, &shapes);
        let ghost iv = items@.map_values(|i: SourceItem| item_view(i));
        proof {
            let sv = shapes@.map_values(|x: Option<(Option<TypeShape>, Vec<Option<TypeShape>>)>| opt_signature_view(x));
            assert(sv =~= match rust_signature_shapes(text@) {
                Some(s) => s,
                None => Seq::empty(),
            });
            assert(iv == rust_source_items(text@).unwrap());
            assert(items@.len() == iv.len());
        }
        let module = analyze_items(&items, owned(path.as_str()));
        let nf = module.functions.len();
        if lines > 300 || nf > 20 {
            let mut reason = owned("Large file (");
            push_decimal(&mut reason, lines as u64);
            push_str(&mut reason, " lines, ");
            push_decimal(&mut reason, nf as u64);
            push_str(&mut reason, " functions)");
            let ghost before = hotspot_views(self.hotspots@);
            let h = Hotspot { path: owned(path.as_str()), score: (lines / 10) as u32, reason };
            self.hotspots.push(h);
            assert(hotspot_views(self.hotspots@) =~= before.push(hotspot_view(h)));
        }
        self.put_module(path, module);
    }

    fn put_module(&mut self, path: String, module: ModuleInfo)
        requires
            paths_distinct(old(self).modules@),
        ensures
            paths_distinct(final(self).modules@),
            module_set(old(self).modules@, final(self).modules@, path@),
            final(self).modules@[module_index(old(self).modules@, path@)].1 == module,
            final(self).total_files == old(self).total_files,
            final(self).total_lines == old(self).total_lines,
            final(self).hotspots@ == old(self).hotspots@,
    {
        proof {
            lemma_module_index(self.modules@, path@);
        }
        let ghost old_mods = self.modules@;
        let ghost old_self = *self;
        let mut i: usize = 0;
        while i < self.modules.len()
            invariant
                i <= self.modules.len(),
                *self == old_self,
                old_self == *old(self),
                old_self.modules@ == old_mods,
                paths_distinct(old_mods),
                0 <= module_index(old_mods, path@) <= old_mods.len(),
                module_index(old_mods, path@) < old_mods.len() ==> old_mods[module_index(old_mods, path@)].0@ == path@,
                forall|j: int| 0 <= j < module_index(old_mods, path@) ==> (#[trigger] old_mods[j]).0@ != path@,
                forall|j: int| 0 <= j < i ==> (#[trigger] old_mods[j]).0@ != path@,
            decreases self.modules.len() - i,
        {
            if str_eq(self.modules[i].0.as_str(), path.as_str()) {
                assert(module_index(old_mods, path@) == i) by {
                    if module_index(old_mods, path@) < i {
                        assert(old_mods[module_index(old_mods, path@)].0@ == path@);
                    }
                }
                self.modules.set(i, (path, module));
                assert forall|a: int, b: int| 0 <= a < b < self.modules@.len() implies (
                #[trigger] self.modules@[a]).0@ != (#[trigger] self.modules@[b]).0@ by {
                    assert(old_mods[a].0@ != old_mods[b].0@);
                }
                return;
            }
            i = i + 1;
        }
        assert(module_index(old_mods, path@) == old_mods.len()) by {
            if module_index(old_mods, path@) < old_mods.len() {
                assert(old_mods[module_index(old_mods, path@)].0@ == path@);
            }
        }
        self.modules.push((path, module));
    }
}

/// The kind of package: a binary when it has `src/main.rs`, else a library when it has
/// `src/lib.rs`, else unknown.
pub fn architecture(has_main: bool, has_lib: bool) -> (r: ArchitectureType)
    ensures
        r == if has_main {
            ArchitectureType::Binary
        } else if has_lib {
            ArchitectureType::Library
        } else {
            ArchitectureType::Unknown
        },
{
    if has_main {
        ArchitectureType::Binary
    } else if has_lib {
        ArchitectureType::Library
    } else {
        ArchitectureType::Unknown
    }
}

/// Highest score first.
pub open spec fn by_score_desc(s: Seq<(Seq<char>, u32, Seq<char>)>) -> bool {
    forall|i: int, j: int| 0 <= i < j < s.len() ==> (#[trigger] s[i]).1 >= (#[trigger] s[j]).1
}

/// The hotspots of `s` with score `k`, in the order `s` has them.
pub open spec fn with_score(s: Seq<(Seq<char>, u32, Seq<char>)>, k: u32) -> Seq<(Seq<char>, u32, Seq<char>)>
    decreases s.len(),
{
    if s.len() == 0 {
        s
    } else {
        let rest = with_score(s.drop_last(), k);
        if s.last().1 == k {
            rest.push(s.last())
        } else {
            rest
        }
    }
}

/// `r` ranks `s`: as many hotspots, the highest score first, and for every score the
/// hotspots that have it in the order that `s` has them.
pub open spec fn ranks(r: Seq<(Seq<char>, u32, Seq<char>)>, s: Seq<(Seq<char>, u32, Seq<char>)>) -> bool {
    &&& r.len() == s.len()
    &&& by_score_desc(r)
    &&& forall|k: u32| #[trigger] with_score(r, k) == with_score(s, k)
}

proof fn lemma_with_score_add(a: Seq<(Seq<char>, u32, Seq<char>)>, b: Seq<(Seq<char>, u32, Seq<char>)>, k: u32)
    ensures
        with_score(a + b, k) == with_score(a, k) + with_score(b, k),
    decreases b.len(),
{
    if b.len() == 0 {
        assert(a + b =~= a);
        assert(with_score(a, k) + with_score(b, k) =~= with_score(a, k));
    } else {
        lemma_with_score_add(a, b.drop_last(), k);
        assert((a + b).drop_last() =~= a + b.drop_last());
        assert((a + b).last() == b.last());
        if b.last().1 == k {
            assert(with_score(a, k) + with_score(b.drop_last(), k).push(b.last()) =~= (with_score(a, k)
                + with_score(b.drop_last(), k)).push(b.last()));
        }
    }
}

proof fn lemma_with_score_none(b: Seq<(Seq<char>, u32, Seq<char>)>, k: u32)
    requires
        forall|i: int| 0 <= i < b.len() ==> (#[trigger] b[i]).1 != k,
    ensures
        with_score(b, k) == Seq::<(Seq<char>, u32, Seq<char>)>::empty(),
    decreases b.len(),
{
    if b.len() > 0 {
        lemma_with_score_none(b.drop_last(), k);
        assert(b.last() == b[b.len() - 1]);
    }
}

/// Inserting `x` after every hotspot that scores at least as much and before every one
/// that scores less puts it last among those of its score.
proof fn lemma_with_score_insert(o: Seq<(Seq<char>, u32, Seq<char>)>, p: int, x: (Seq<char>, u32, Seq<char>), k: u32)
    requires
        0 <= p <= o.len(),
        forall|i: int| 0 <= i < p ==> (#[trigger] o[i]).1 >= x.1,
        forall|i: int| p <= i < o.len() ==> (#[trigger] o[i]).1 < x.1,
    ensures
        with_score(o.insert(p, x), k) == if x.1 == k {
            with_score(o, k).push(x)
        } else {
            with_score(o, k)
        },
{
    let a = o.take(p);
    let b = o.skip(p);
    assert(o.insert(p, x) =~= a + seq![x] + b);
    assert(o =~= a + b);
    lemma_with_score_add(a + seq![x], b, k);
    lemma_with_score_add(a, seq![x], k);
    lemma_with_score_add(a, b, k);
    assert(seq![x].drop_last() =~= Seq::<(Seq<char>, u32, Seq<char>)>::empty());
    assert(seq![x].last() == x);
    assert(with_score(seq![x].drop_last(), k) =~= Seq::<(Seq<char>, u32, Seq<char>)>::empty());
    if x.1 == k {
        assert forall|i: int| 0 <= i < b.len() implies (#[trigger] b[i]).1 != k by {
            assert(b[i] == o[p + i]);
        }
        lemma_with_score_none(b, k);
        assert(with_score(seq![x], k) =~= seq![x]);
        assert(with_score(a, k) + seq![x] + Seq::<(Seq<char>, u32, Seq<char>)>::empty() =~= (with_score(a, k)
            + Seq::<(Seq<char>, u32, Seq<char>)>::empty()).push(x));
    } else {
        assert(with_score(seq![x], k) =~= Seq::<(Seq<char>, u32, Seq<char>)>::empty());
        assert(with_score(a, k) + Seq::<(Seq<char>, u32, Seq<char>)>::empty() =~= with_score(a, k));
    }
}

fn dup_hotspot(h: &Hotspot) -> (r: Hotspot)
    ensures
        hotspot_view(r) == hotspot_view(*h),
{
    Hotspot { path: owned(h.path.as_str()), score: h.score, reason: owned(h.reason.as_str()) }
}

/// The hotspots ranked: the highest score first, and those of equal score in the order
/// given.
pub fn rank_hotspots(hs: &Vec<Hotspot>) -> (r: Vec<Hotspot>)
    ensures
        ranks(hotspot_views(r@), hotspot_views(hs@)),
{
    let ghost sv = hotspot_views(hs@);
    let mut out: Vec<Hotspot> = Vec::new();
    let mut i: usize = 0;
    while i < hs.len()
        invariant
            i <= hs.len(),
            sv == hotspot_views(hs@),
            out@.len() == i,
            by_score_desc(hotspot_views(out@)),
            forall|k: u32| #[trigger] with_score(hotspot_views(out@), k) == with_score(
                sv.take(i as int),
                k,
            ),
        decreases hs.len() - i,
    {
        let x = dup_hotspot(&hs[i]);
        let ghost ov = hotspot_views(out@);
        let ghost xv = hotspot_view(x);
        let mut p: usize = 0;
        while p < out.len() && out[p].score >= x.score
            invariant
                p <= out.len(),
                ov == hotspot_views(out@),
                forall|j: int| 0 <= j < p ==> (#[trigger] ov[j]).1 >= xv.1,
                xv == hotspot_view(x),
            decreases out.len() - p,
        {
            assert(ov[p as int] == hotspot_view(out@[p as int]));
            p = p + 1;
        }
        assert forall|j: int| p <= j < ov.len() implies (#[trigger] ov[j]).1 < xv.1 by {
            assert(ov[p as int] == hotspot_view(out@[p as int]));
            if j > p {
                assert(ov[p as int].1 >= ov[j].1);
            }
        }
        out.insert(p, x);
        let ghost nv = hotspot_views(out@);
        assert(nv =~= ov.insert(p as int, xv));
        proof {
            ov.insert_ensures(p as int, xv);
        }
        assert forall|a: int, b: int| 0 <= a < b < nv.len() implies (#[trigger] nv[a]).1 >= (#[trigger] nv[b]).1 by {
            if b < p {
                assert(nv[a] == ov[a] && nv[b] == ov[b]);
            } else if b == p {
                assert(nv[a] == ov[a]);
            } else if a < p {
                assert(nv[a] == ov[a] && nv[b] == ov[b - 1]);
            } else if a == p {
                assert(nv[b] == ov[b - 1]);
            } else {
                assert(nv[a] == ov[a - 1] && nv[b] == ov[b - 1]);
            }
        }
        assert(sv.take(i + 1).drop_last() =~= sv.take(i as int));
        assert(sv.take(i + 1).last() == xv);
        assert forall|k: u32| #[trigger] with_score(nv, k) == with_score(sv.take(i + 1), k) by {
            lemma_with_score_insert(ov, p as int, xv, k);
        }
        i = i + 1;
    }
    assert(sv.take(hs.len() as int) =~= sv);
    out
}

pub open spec fn entries_view(v: Option<Vec<(String, Option<String>)>>) -> Option<Seq<(Seq<char>, Option<Seq<char>>)>> {
    match v {
        Some(es) => Some(
            es@.map_values(
                |e: (String, Option<String>)|
                    (
                        e.0@,
                        match e.1 {
                            Some(s) => Some(s@),
                            None => None,
                        },
                    ),
            ),
        ),
        None => None,
    }
}

/// The entries of table `table` of TOML document `text`, with each value's text when
/// it is a string; `None` when the document does not parse or has no such table.
pub uninterp spec fn toml_table_entries(text: Seq<char>, table: Seq<char>) -> Option<Seq<(Seq<char>, Option<Seq<char>>)>>;

/// Trusted: parses `text` as a `toml::Table` and gives the entries of its table `table`
/// in the order `toml` iterates them, each with `Value::as_str`; named, as a function
/// of the two arguments.
#[verifier::external_body]
fn manifest_table(text: &str, table: &str) -> (r: Option<Vec<(String, Option<String>)>>)
    ensures
        entries_view(r) == toml_table_entries(text@, table@),
{
    let doc = text.parse::<toml::Table>().ok()?;
    Some(doc.get(table)?.as_table()?.iter().map(|(k, v)| (k.clone(), v.as_str().map(String::from))).collect())
}

pub open spec fn dependency_view(d: DependencyInfo) -> (Seq<char>, Seq<char>) {
    (d.name@, d.version@)
}

/// The dependencies a manifest declares, each with its version requirement when that is
/// a plain string and `*` otherwise.
pub open spec fn spec_dependencies(manifest: Option<Seq<char>>) -> Seq<(Seq<char>, Seq<char>)> {
    match manifest {
        None => Seq::empty(),
        Some(t) => match toml_table_entries(t, "dependencies"@) {
            None => Seq::empty(),
            Some(es) => es.map_values(
                |e: (Seq<char>, Option<Seq<char>>)|
                    (
                        e.0,
                        match e.1 {
                            Some(v) => v,
                            None => "*"@,
                        },
                    ),
            ),
        },
    }
}

/// The dependencies declared by a project's manifest (`None` when it has none that
/// could be read), without their features.
pub fn manifest_dependencies(manifest: Option<String>) -> (r: Vec<DependencyInfo>)
    ensures
        r@.map_values(|d: DependencyInfo| dependency_view(d)) == spec_dependencies(
            match manifest {
                Some(t) => Some(t@),
                None => None,
            },
        ),
        forall|i: int| 0 <= i < r@.len() ==> (#[trigger] r@[i]).features@.len() == 0,
{
    let mut r: Vec<DependencyInfo> = Vec::new();
    let text = match manifest {
        Some(t) => t,
        None => {
            assert(r@.map_values(|d: DependencyInfo| dependency_view(d)) =~= Seq::<(Seq<char>, Seq<char>)>::empty());
            return r;
        },
    };
    let entries = match manifest_table(text.as_str(), "dependencies") {
        Some(es) => es,
        None => {
            assert(r@.map_values(|d: DependencyInfo| dependency_view(d)) =~= Seq::<(Seq<char>, Seq<char>)>::empty());
            return r;
        },
    };
    let ghost ev = entries_view(Some(entries)).unwrap();
    let ghost target = spec_dependencies(Some(text@));
    let mut i: usize = 0;
    while i < entries.len()
        invariant
            i <= entries.len(),
            ev == entries_view(Some(entries)).unwrap(),
            target == ev.map_values(
                |e: (Seq<char>, Option<Seq<char>>)|
                    (
                        e.0,
                        match e.1 {
                            Some(v) => v,
                            None => "*"@,
                        },
                    ),
            ),
            r@.map_values(|d: DependencyInfo| dependency_view(d)) == target.take(i as int),
            forall|k: int| 0 <= k < r@.len() ==> (#[trigger] r@[k]).features@.len() == 0,
        decreases entries.len() - i,
    {
        let version = match &entries[i].1 {
            Some(v) => owned(v.as_str()),
            None => owned("*"),
        };
        let d = DependencyInfo { name: owned(entries[i].0.as_str()), version, features: Vec::new() };
        let ghost before = r@.map_values(|d: DependencyInfo| dependency_view(d));
        r.push(d);
        assert(ev[i as int].0 == entries@[i as int].0@);
        assert(r@.map_values(|d: DependencyInfo| dependency_view(d)) =~= before.push(dependency_view(d)));
        assert(target.take(i + 1) =~= target.take(i as int).push(target[i as int]));
        i = i + 1;
    }
    assert(target.take(entries.len() as int) =~= target);
    r
}

impl ProjectScan {
    /// The project's context from the totals: the dependencies and the kind of package
    /// given, and at most ten hotspots, ranked.
    pub fn finish(self, dependencies: Vec<DependencyInfo>, architecture_type: ArchitectureType) -> (r: ProjectContext)
        requires
            paths_distinct(self.modules@),
        ensures
            paths_distinct(r.modules@),
            r.overview.total_files == self.total_files,
            r.overview.total_lines == self.total_lines,
            r.overview.architecture_type == architecture_type,
            r.modules == self.modules,
            r.dependencies == dependencies,
            exists|ranked: Seq<(Seq<char>, u32, Seq<char>)>|
                #[trigger] ranks(ranked, hotspot_views(self.hotspots@))
                    && hotspot_views(r.hotspots@) == ranked.take(
                    if ranked.len() <= 10 {
                        ranked.len() as int
                    } else {
                        10
                    },
                ),
    {
        let mut hotspots = rank_hotspots(&self.hotspots);
        let ghost ranked = hotspot_views(hotspots@);
        hotspots.truncate(10);
        assert(hotspot_views(hotspots@) =~= ranked.take(
            if ranked.len() <= 10 {
                ranked.len() as int
            } else {
                10
            },
        ));
        ProjectContext {
            overview: ProjectOverview { total_files: self.total_files, total_lines: self.total_lines, architecture_type },
            modules: self.modules,
            dependencies,
            hotspots,
        }
    }
}

/// Analyses the project rooted at a directory.
pub struct ProjectAnalyzer {
    root_path: String,
}

impl ProjectAnalyzer {
    pub closed spec fn root(&self) -> Seq<char> {
        self.root_path@
    }

    pub fn new(root_path: String) -> (r: Self)
        ensures
            r.root() == root_path@,
    {
        Self { root_path }
    }

    /// The directory the analysis starts from.
    pub fn root_path(&self) -> (r: &str)
        ensures
            r@ == self.root(),
    {
        self.root_path.as_str()
    }
}

/// How a kind of package is named in the report.
pub open spec fn architecture_name(a: ArchitectureType) -> Seq<char> {
    match a {
        ArchitectureType::Binary => "Binary"@,
        ArchitectureType::Library => "Library"@,
        ArchitectureType::Workspace => "Workspace"@,
        ArchitectureType::Mixed => "Mixed"@,
        ArchitectureType::Unknown => "Unknown"@,
    }
}

fn architecture_name_exec(a: ArchitectureType) -> (r: &'static str)
    ensures
        r@ == architecture_name(a),
{
    match a {
        ArchitectureType::Binary => "Binary",
        ArchitectureType::Library => "Library",
        ArchitectureType::Workspace => "Workspace",
        ArchitectureType::Mixed => "Mixed",
        ArchitectureType::Unknown => "Unknown",
    }
}

pub open spec fn dependency_lines(deps: Seq<DependencyInfo>) -> Seq<char>
    decreases deps.len(),
{
    if deps.len() == 0 {
        Seq::empty()
    } else {
        dependency_lines(deps.drop_last()) + "- **"@ + deps.last().name@ + "** ("@ + deps.last().version@ + ")\n"@
    }
}

/// One indented line per (name, visibility).
pub open spec fn named_lines(entries: Seq<(Seq<char>, Seq<char>)>) -> Seq<char>
    decreases entries.len(),
{
    if entries.len() == 0 {
        Seq::empty()
    } else {
        named_lines(entries.drop_last()) + "  - "@ + entries.last().0 + " ("@ + entries.last().1 + ")\n"@
    }
}

pub open spec fn struct_names(v: Seq<StructInfo>) -> Seq<(Seq<char>, Seq<char>)> {
    v.map_values(|s: StructInfo| (s.name@, s.visibility@))
}

pub open spec fn function_names(v: Seq<FunctionInfo>) -> Seq<(Seq<char>, Seq<char>)> {
    v.map_values(|f: FunctionInfo| (f.name@, f.visibility@))
}

/// The report's section on one module.
pub open spec fn module_section(name: Seq<char>, m: ModuleInfo) -> Seq<char> {
    "### "@ + name + "\n"@ + "- **Path**: "@ + m.path@ + "\n"@ + "- **Complexity**: "@ + decimal(m.complexity as nat) + "\n"@
        + (if m.structs@.len() > 0 {
        "- **Structs**:\n"@ + named_lines(struct_names(m.structs@))
    } else {
        Seq::empty()
    }) + (if m.functions@.len() > 0 {
        "- **Functions**:\n"@ + named_lines(function_names(m.functions@))
    } else {
        Seq::empty()
    }) + "\n"@
}

pub open spec fn module_sections(mods: Seq<(String, ModuleInfo)>) -> Seq<char>
    decreases mods.len(),
{
    if mods.len() == 0 {
        Seq::empty()
    } else {
        module_sections(mods.drop_last()) + module_section(mods.last().0@, mods.last().1)
    }
}

pub open spec fn hotspot_lines(hs: Seq<Hotspot>) -> Seq<char>
    decreases hs.len(),
{
    if hs.len() == 0 {
        Seq::empty()
    } else {
        hotspot_lines(hs.drop_last()) + "- **"@ + hs.last().path@ + "** (Score: "@ + decimal(hs.last().score as nat)
            + ")\n"@ + "  - Reason: "@ + hs.last().reason@ + "\n"@
    }
}

/// The Markdown report of a project's context.
pub open spec fn context_markdown(c: ProjectContext) -> Seq<char> {
    "# Project Context Analysis\n\n"@ + "## Overview\n"@ + "- **Total Files**: "@ + decimal(c.overview.total_files as nat)
        + "\n"@ + "- **Total Lines**: "@ + decimal(c.overview.total_lines as nat) + "\n"@ + "- **Architecture**: "@
        + architecture_name(c.overview.architecture_type) + "\n\n"@ + "## Dependencies\n"@ + dependency_lines(
        c.dependencies@,
    ) + "\n"@ + "## Modules\n"@ + module_sections(c.modules@) + "## Hotspots\n"@ + hotspot_lines(c.hotspots@)
}

fn push_struct_lines(out: &mut String, v: &Vec<StructInfo>)
    ensures
        final(out)@ == old(out)@ + named_lines(struct_names(v@)),
{
    let ghost ev = struct_names(v@);
    let mut i: usize = 0;
    while i < v.len()
        invariant
            i <= v.len(),
            ev == struct_names(v@),
            out@ == old(out)@ + named_lines(ev.take(i as int)),
        decreases v.len() - i,
    {
        assert(ev.take(i + 1).drop_last() =~= ev.take(i as int));
        assert(ev.take(i + 1).last() == (v@[i as int].name@, v@[i as int].visibility@));
        push_str(out, "  - ");
        push_str(out, v[i].name.as_str());
        push_str(out, " (");
        push_str(out, v[i].visibility.as_str());
        push_str(out, ")\n");
        assert(out@ =~= old(out)@ + named_lines(ev.take(i + 1)));
        i = i + 1;
    }
    assert(ev.take(v.len() as int) =~= ev);
}

fn push_function_lines(out: &mut String, v: &Vec<FunctionInfo>)
    ensures
        final(out)@ == old(out)@ + named_lines(function_names(v@)),
{
    let ghost ev = function_names(v@);
    let mut i: usize = 0;
    while i < v.len()
        invariant
            i <= v.len(),
            ev == function_names(v@),
            out@ == old(out)@ + named_lines(ev.take(i as int)),
        decreases v.len() - i,
    {
        assert(ev.take(i + 1).drop_last() =~= ev.take(i as int));
        assert(ev.take(i + 1).last() == (v@[i as int].name@, v@[i as int].visibility@));
        push_str(out, "  - ");
        push_str(out, v[i].name.as_str());
        push_str(out, " (");
        push_str(out, v[i].visibility.as_str());
        push_str(out, ")\n");
        assert(out@ =~= old(out)@ + named_lines(ev.take(i + 1)));
        i = i + 1;
    }
    assert(ev.take(v.len() as int) =~= ev);
}

fn push_module_section(out: &mut String, name: &str, m: &ModuleInfo)
    ensures
        final(out)@ == old(out)@ + module_section(name@, *m),
{
    push_str(out, "### ");
    push_str(out, name);
    push_str(out, "\n");
    push_str(out, "- **Path**: ");
    push_str(out, m.path.as_str());
    push_str(out, "\n");
    push_str(out, "- **Complexity**: ");
    push_decimal(out, m.complexity as u64);
    push_str(out, "\n");
    if m.structs.len() > 0 {
        push_str(out, "- **Structs**:\n");
        push_struct_lines(out, &m.structs);
    }
    if m.functions.len() > 0 {
        push_str(out, "- **Functions**:\n");
        push_function_lines(out, &m.functions);
    }
    push_str(out, "\n");
    assert(out@ =~= old(out)@ + module_section(name@, *m));
}

/// The Markdown report of a project's context: its overview, its dependencies, each of
/// its modules with its structs and functions, and its hotspots.
pub fn format_context_as_markdown(context: &ProjectContext) -> (r: String)
    ensures
        r@ == context_markdown(*context),
{
    let mut md = owned("# Project Context Analysis\n\n");
    push_str(&mut md, "## Overview\n");
    push_str(&mut md, "- **Total Files**: ");
    push_decimal(&mut md, context.overview.total_files as u64);
    push_str(&mut md, "\n");
    push_str(&mut md, "- **Total Lines**: ");
    push_decimal(&mut md, context.overview.total_lines as u64);
    push_str(&mut md, "\n");
    push_str(&mut md, "- **Architecture**: ");
    push_str(&mut md, architecture_name_exec(context.overview.architecture_type));
    push_str(&mut md, "\n\n");
    push_str(&mut md, "## Dependencies\n");
    let ghost head = md@;
    let deps = &context.dependencies;
    let mut i: usize = 0;
    while i < deps.len()
        invariant
            i <= deps.len(),
            md@ == head + dependency_lines(deps@.take(i as int)),
        decreases deps.len() - i,
    {
        assert(deps@.take(i + 1).drop_last() =~= deps@.take(i as int));
        push_str(&mut md, "- **");
        push_str(&mut md, deps[i].name.as_str());
        push_str(&mut md, "** (");
        push_str(&mut md, deps[i].version.as_str());
        push_str(&mut md, ")\n");
        assert(md@ =~= head + dependency_lines(deps@.take(i + 1)));
        i = i + 1;
    }
    assert(deps@.take(deps.len() as int) =~= deps@);
    push_str(&mut md, "\n");
    push_str(&mut md, "## Modules\n");
    let ghost head2 = md@;
    let mods = &context.modules;
    let mut j: usize = 0;
    while j < mods.len()
        invariant
            j <= mods.len(),
            md@ == head2 + module_sections(mods@.take(j as int)),
        decreases mods.len() - j,
    {
        assert(mods@.take(j + 1).drop_last() =~= mods@.take(j as int));
        push_module_section(&mut md, mods[j].0.as_str(), &mods[j].1);
        assert(md@ =~= head2 + module_sections(mods@.take(j + 1)));
        j = j + 1;
    }
    assert(mods@.take(mods.len() as int) =~= mods@);
    push_str(&mut md, "## Hotspots\n");
    let ghost head3 = md@;
    let hs = &context.hotspots;
    let mut k: usize = 0;
    while k < hs.len()
        invariant
            k <= hs.len(),
            md@ == head3 + hotspot_lines(hs@.take(k as int)),
        decreases hs.len() - k,
    {
        assert(hs@.take(k + 1).drop_last() =~= hs@.take(k as int));
        push_str(&mut md, "- **");
        push_str(&mut md, hs[k].path.as_str());
        push_str(&mut md, "** (Score: ");
        push_decimal(&mut md, hs[k].score as u64);
        push_str(&mut md, ")\n");
        push_str(&mut md, "  - Reason: ");
        push_str(&mut md, hs[k].reason.as_str());
        push_str(&mut md, "\n");
        assert(md@ =~= head3 + hotspot_lines(hs@.take(k + 1)));
        k = k + 1;
    }
    assert(hs@.take(hs.len() as int) =~= hs@);
    assert(md@ =~= context_markdown(*context));
    md
}

} // verus!
