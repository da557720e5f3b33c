//! Declarations, type aliases and imports as they stand in parsed files.

use vstd::prelude::*;
use vstd::string::*;
use crate::model::{TypeRef, TypePath, FieldRef, RefView, refs_view, UseTree, Item, SourceFile};
use crate::names::{Name, is_primitive, is_primitive_type, copy_name, normalized, same_name, str_eq, append_segments};

verus! {

/// Whether a path is a single built-in name, which gives no edge.
pub open spec fn primitive_path(p: Name) -> bool {
    p.len() == 1 && is_primitive(p[0])
}

/// The types that `t` mentions, in the order written: a path itself (unless
/// it is built in) and then its type arguments; the element of a reference,
/// slice, array or pointer; each element of a tuple; any other type as its
/// text, unless that is empty or built in.
pub open spec fn type_deps(t: TypeRef) -> Seq<RefView>
    decreases t, 0int,
{
    match t {
        TypeRef::Path(p) => path_deps(p),
        TypeRef::Reference(inner) => type_deps(*inner),
        TypeRef::Slice(inner) => type_deps(*inner),
        TypeRef::Array(inner) => type_deps(*inner),
        TypeRef::Pointer(inner) => type_deps(*inner),
        TypeRef::Tuple(elems) => list_deps(elems@),
        TypeRef::Other(text) => if text@.len() == 0 || is_primitive(text@) {
            Seq::empty()
        } else {
            seq![RefView::Verbatim(text@)]
        },
    }
}

/// The types that a path mentions: itself, unless built in, then those of
/// its type arguments.
pub open spec fn path_deps(p: TypePath) -> Seq<RefView>
    decreases p, 0int,
{
    let own = if primitive_path(p.segments.deep_view()) {
        Seq::empty()
    } else {
        seq![RefView::Named(p.segments.deep_view())]
    };
    own + list_deps(p.args@)
}

/// The types that a list of types mentions, one type after the other.
pub open spec fn list_deps(ts: Seq<TypeRef>) -> Seq<RefView>
    decreases ts, 0int,
{
    if ts.len() == 0 {
        Seq::empty()
    } else {
        list_deps(ts.drop_last()) + type_deps(ts.last())
    }
}


/// Appends `more` to `deps`, keeping the views in step.
fn append_refs(deps: &mut Vec<FieldRef>, more: Vec<FieldRef>)
    ensures
        refs_view(final(deps)@) == refs_view(old(deps)@) + refs_view(more@),
{
    let mut more = more;
    let ghost a = deps@;
    let ghost b = more@;
    deps.append(&mut more);
    assert(refs_view(deps@) =~= refs_view(a) + refs_view(b));
}

/// The types that `ty` mentions, as [`type_deps`] states.
pub fn extract_type_dependencies(ty: &TypeRef) -> (r: Vec<FieldRef>)
    ensures
        refs_view(r@) == type_deps(*ty),
    decreases ty,
{
    match ty {
        TypeRef::Path(p) => extract_path_dependencies(p),
        TypeRef::Reference(inner) => extract_type_dependencies(inner),
        TypeRef::Slice(inner) => extract_type_dependencies(inner),
        TypeRef::Array(inner) => extract_type_dependencies(inner),
        TypeRef::Pointer(inner) => extract_type_dependencies(inner),
        TypeRef::Tuple(elems) => extract_list_dependencies(elems),
        TypeRef::Other(text) => {
            let mut deps: Vec<FieldRef> = Vec::new();
            if text.as_str().unicode_len() != 0 && !is_primitive_type(text.as_str()) {
                deps.push(FieldRef::Verbatim(text.clone()));
            }
            assert(refs_view(deps@) =~= type_deps(*ty));
            deps
        },
    }
}

/// The types that a path mentions, as [`path_deps`] states.
pub fn extract_path_dependencies(path: &TypePath) -> (r: Vec<FieldRef>)
    ensures
        refs_view(r@) == path_deps(*path),
    decreases path,
{
    let mut deps: Vec<FieldRef> = Vec::new();
    let own = path.segments.len() == 1 && is_primitive_type(path.segments[0].as_str());
    if !own {
        deps.push(FieldRef::Named(copy_name(&path.segments)));
    }
    assert(refs_view(deps@) =~= if primitive_path(path.segments.deep_view()) {
        Seq::<RefView>::empty()
    } else {
        seq![RefView::Named(path.segments.deep_view())]
    });
    let more = extract_list_dependencies(&path.args);
    append_refs(&mut deps, more);
    deps
}

/// The types that a list of types mentions, as [`list_deps`] states.
pub fn extract_list_dependencies(ts: &Vec<TypeRef>) -> (r: Vec<FieldRef>)
    ensures
        refs_view(r@) == list_deps(ts@),
    decreases ts,
{
    let mut deps: Vec<FieldRef> = Vec::new();
    let mut i: usize = 0;
    while i < ts.len()
        invariant
            i <= ts.len(),
            refs_view(deps@) == list_deps(ts@.subrange(0, i as int)),
        decreases ts.len() - i,
    {
        assert(ts@.subrange(0, i + 1).drop_last() =~= ts@.subrange(0, i as int));
        proof {
            vstd::std_specs::vec::axiom_vec_index_decreases(*ts, i as int);
        }
        let more = extract_type_dependencies(&ts[i]);
        append_refs(&mut deps, more);
        i += 1;
    }
    assert(ts@.subrange(0, ts.len() as int) =~= ts@);
    deps
}


/// A struct as extraction records it.
pub ghost struct StructView {
    /// The module path and the struct's own name.
    pub name: Name,
    /// The types its fields mention, unresolved.
    pub field_types: Seq<RefView>,
    /// The module it is declared in.
    pub in_module: Name,
}

/// A type alias as extraction records it.
pub ghost struct AliasView {
    pub name: Name,
    /// The first type that the alias's target mentions, unresolved.
    pub target: RefView,
    pub in_module: Name,
}

/// An import binding: `local_name`, visible in `in_module`, stands for
/// `full_path`.
pub ghost struct ImportView {
    pub full_path: Name,
    pub local_name: Seq<char>,
    pub in_module: Name,
}

/// What extraction gathers, each list in the order found.
#[verifier::ext_equal]
pub ghost struct Decls {
    pub structs: Seq<StructView>,
    pub aliases: Seq<AliasView>,
    pub imports: Seq<ImportView>,
}

/// Nothing gathered.
pub open spec fn no_decls() -> Decls {
    Decls { structs: Seq::empty(), aliases: Seq::empty(), imports: Seq::empty() }
}

/// `a`'s declarations followed by `b`'s.
pub open spec fn concat_decls(a: Decls, b: Decls) -> Decls {
    Decls {
        structs: a.structs + b.structs,
        aliases: a.aliases + b.aliases,
        imports: a.imports + b.imports,
    }
}

/// The bindings that a `use` tree makes in module `m`, under the path
/// `prefix` already read. Each origin is taken out of its relative form.
/// A glob makes none.
pub open spec fn tree_imports(t: UseTree, prefix: Name, m: Name) -> Seq<ImportView>
    decreases t, 0int,
{
    match t {
        UseTree::Path { ident, tree } => tree_imports(*tree, prefix.push(ident@), m),
        UseTree::Name(id) => seq![
            ImportView {
                full_path: normalized(prefix.push(id@), m),
                local_name: id@,
                in_module: m,
            },
        ],
        UseTree::Rename { ident, rename } => seq![
            ImportView {
                full_path: normalized(prefix.push(ident@), m),
                local_name: rename@,
                in_module: m,
            },
        ],
        UseTree::Glob => Seq::empty(),
        UseTree::Group(ts) => group_imports(ts@, prefix, m),
    }
}

/// The bindings of the trees of a group, one tree after the other.
pub open spec fn group_imports(ts: Seq<UseTree>, prefix: Name, m: Name) -> Seq<ImportView>
    decreases ts, 0int,
{
    if ts.len() == 0 {
        Seq::empty()
    } else {
        group_imports(ts.drop_last(), prefix, m) + tree_imports(ts.last(), prefix, m)
    }
}

/// The bindings of the `use` items among `items`, in order.
pub open spec fn use_imports(items: Seq<Item>, m: Name) -> Seq<ImportView>
    decreases items.len(),
{
    if items.len() == 0 {
        Seq::empty()
    } else {
        use_imports(items.drop_last(), m) + match items.last() {
            Item::Use(t) => tree_imports(t, Seq::empty(), m),
            _ => Seq::empty(),
        }
    }
}

/// `Self` in a field of the struct `full` stands for `full`.
pub open spec fn self_substituted(ds: Seq<RefView>, full: Name) -> Seq<RefView> {
    ds.map_values(
        |d: RefView|
            if d == RefView::Named(seq!["Self"@]) {
                RefView::Named(full)
            } else {
                d
            },
    )
}

/// The index of the first file of `tree` at `path`.
pub open spec fn first_file(tree: Seq<SourceFile>, path: Name) -> Option<int>
    decreases tree.len(),
{
    if tree.len() == 0 {
        None
    } else {
        match first_file(tree.drop_last(), path) {
            Some(k) => Some(k),
            None => if tree.last().path.deep_view() == path {
                Some(tree.len() - 1)
            } else {
                None
            },
        }
    }
}

/// The file that holds the module `name` declared as `mod name;` in the
/// directory `base`: `base/name.rs`, else `base/name/mod.rs`, else none.
pub open spec fn module_file(tree: Seq<SourceFile>, base: Name, name: Seq<char>) -> Option<int> {
    match first_file(tree, base.push(name + ".rs"@)) {
        Some(k) => Some(k),
        None => first_file(tree, base.push(name).push("mod.rs"@)),
    }
}

/// The length of the longest file path of `tree`.
pub open spec fn max_path_len(tree: Seq<SourceFile>) -> nat
    decreases tree.len(),
{
    if tree.len() == 0 {
        0
    } else {
        let rest = max_path_len(tree.drop_last());
        if tree.last().path.len() > rest {
            tree.last().path.len() as nat
        } else {
            rest
        }
    }
}

/// How many more directory levels a file of `tree` can lie below a
/// directory `b` levels deep.
pub open spec fn room(tree: Seq<SourceFile>, b: nat) -> nat {
    if max_path_len(tree) + 1 > b {
        (max_path_len(tree) + 1 - b) as nat
    } else {
        0
    }
}

/// A file that `first_file` finds is at that path, and its path is no
/// longer than the longest.
pub proof fn lemma_first_file(tree: Seq<SourceFile>, path: Name)
    ensures
        match first_file(tree, path) {
            Some(k) => 0 <= k < tree.len() && tree[k].path.deep_view() == path && path.len()
                <= max_path_len(tree),
            None => true,
        },
    decreases tree.len(),
{
    if tree.len() > 0 {
        lemma_first_file(tree.drop_last(), path);
        assert(tree.last().path.deep_view().len() == tree.last().path.len());
    }
}

/// A module file found under `base` lies at least one level below it.
pub proof fn lemma_module_file_room(tree: Seq<SourceFile>, base: Name, name: Seq<char>, b: nat)
    requires
        b == base.len(),
        module_file(tree, base, name) is Some,
    ensures
        room(tree, b + 1) < room(tree, b),
        0 <= module_file(tree, base, name)->0 < tree.len(),
{
    lemma_first_file(tree, base.push(name + ".rs"@));
    lemma_first_file(tree, base.push(name).push("mod.rs"@));
}

/// What the items of one list yield in module `m`, with `root` the directory
/// of the file they stand in: first the bindings of their `use` items, then,
/// item by item, the structs, aliases and everything of their modules.
pub open spec fn items_decls(tree: Seq<SourceFile>, items: Seq<Item>, root: Name, m: Name) -> Decls
    decreases room(tree, root.len() + m.len()), items, 1int,
{
    concat_decls(
        Decls { structs: Seq::empty(), aliases: Seq::empty(), imports: use_imports(items, m) },
        body_decls(tree, items, root, m),
    )
}

/// The structs, aliases and module contents of `items`, one item after the
/// other.
pub open spec fn body_decls(tree: Seq<SourceFile>, items: Seq<Item>, root: Name, m: Name) -> Decls
    decreases room(tree, root.len() + m.len()), items, 0int,
{
    if items.len() == 0 {
        no_decls()
    } else {
        concat_decls(
            body_decls(tree, items.drop_last(), root, m),
            item_decls(tree, items.last(), root, m),
        )
    }
}

/// What one item yields in module `m`. A struct is named by the module path
/// and its own name; an alias whose target mentions no type is left out; an
/// inline module yields its items under the longer module path, and a module
/// declared as `mod name;` those of its file, or nothing where there is none.
pub open spec fn item_decls(tree: Seq<SourceFile>, item: Item, root: Name, m: Name) -> Decls
    decreases room(tree, root.len() + m.len()), item, 0int,
{
    match item {
        Item::Struct { name, fields } => {
            let full = m.push(name@);
            Decls {
                structs: seq![
                    StructView {
                        name: full,
                        field_types: self_substituted(list_deps(fields@), full),
                        in_module: m,
                    },
                ],
                aliases: Seq::empty(),
                imports: Seq::empty(),
            }
        },
        Item::Alias { name, target } => {
            let ds = type_deps(target);
            if ds.len() > 0 {
                Decls {
                    structs: Seq::empty(),
                    aliases: seq![AliasView { name: m.push(name@), target: ds[0], in_module: m }],
                    imports: Seq::empty(),
                }
            } else {
                no_decls()
            }
        },
        Item::Module { name, content } => match content {
            Some(inner) => items_decls(tree, inner@, root, m.push(name@)),
            None => match module_file(tree, root + m, name@) {
                Some(k) => {
                    proof {
                        lemma_module_file_room(tree, root + m, name@, root.len() + m.len());
                    }
                    items_decls(tree, tree[k].items@, root, m.push(name@))
                },
                None => no_decls(),
            },
        },
        _ => no_decls(),
    }
}


/// A struct found in a file.
pub struct StructInfo {
    pub name: Vec<String>,
    pub field_types: Vec<FieldRef>,
    pub in_module: Vec<String>,
}

impl View for StructInfo {
    type V = StructView;

    open spec fn view(&self) -> StructView {
        StructView {
            name: self.name.deep_view(),
            field_types: refs_view(self.field_types@),
            in_module: self.in_module.deep_view(),
        }
    }
}

/// A type alias found in a file.
pub struct TypeAlias {
    pub name: Vec<String>,
    pub target_type: FieldRef,
    pub in_module: Vec<String>,
}

impl View for TypeAlias {
    type V = AliasView;

    open spec fn view(&self) -> AliasView {
        AliasView {
            name: self.name.deep_view(),
            target: self.target_type@,
            in_module: self.in_module.deep_view(),
        }
    }
}

/// An import binding found in a file.
pub struct ImportInfo {
    pub full_path: Vec<String>,
    pub local_name: String,
    pub in_module: Vec<String>,
}

impl View for ImportInfo {
    type V = ImportView;

    open spec fn view(&self) -> ImportView {
        ImportView {
            full_path: self.full_path.deep_view(),
            local_name: self.local_name@,
            in_module: self.in_module.deep_view(),
        }
    }
}

/// Where extraction stands: the module being read, the directory of the file
/// it was declared in, and what has been gathered so far.
pub struct ParseContext {
    pub current_module_path: Vec<String>,
    pub structs: Vec<StructInfo>,
    pub type_aliases: Vec<TypeAlias>,
    pub imports: Vec<ImportInfo>,
    pub root_dir: Vec<String>,
}

impl ParseContext {
    /// What the context has gathered.
    pub open spec fn decls(&self) -> Decls {
        Decls {
            structs: self.structs@.map_values(|s: StructInfo| s@),
            aliases: self.type_aliases@.map_values(|a: TypeAlias| a@),
            imports: self.imports@.map_values(|i: ImportInfo| i@),
        }
    }

    /// An empty context at the crate root, in the root directory.
    pub fn new() -> (r: Self)
        ensures
            r.decls() == no_decls(),
            r.current_module_path@.len() == 0,
            r.root_dir@.len() == 0,
    {
        let r = ParseContext {
            current_module_path: Vec::new(),
            structs: Vec::new(),
            type_aliases: Vec::new(),
            imports: Vec::new(),
            root_dir: Vec::new(),
        };
        assert(r.decls() =~= no_decls());
        r
    }

    /// An empty context at the crate root of a file in `root_dir`.
    pub fn with_root_dir(root_dir: Vec<String>) -> (r: Self)
        ensures
            r.decls() == no_decls(),
            r.current_module_path@.len() == 0,
            r.root_dir == root_dir,
    {
        let r = ParseContext {
            current_module_path: Vec::new(),
            structs: Vec::new(),
            type_aliases: Vec::new(),
            imports: Vec::new(),
            root_dir,
        };
        assert(r.decls() =~= no_decls());
        r
    }

    /// An empty context for the module `module_name` inside this one, in the
    /// same directory.
    pub fn with_module(&self, module_name: String) -> (r: Self)
        ensures
            r.decls() == no_decls(),
            r.current_module_path.deep_view() == self.current_module_path.deep_view().push(
                module_name@,
            ),
            r.root_dir.deep_view() == self.root_dir.deep_view(),
    {
        let mut path = copy_name(&self.current_module_path);
        path.push(module_name);
        assert(path.deep_view() =~= self.current_module_path.deep_view().push(module_name@));
        let r = ParseContext {
            current_module_path: path,
            structs: Vec::new(),
            type_aliases: Vec::new(),
            imports: Vec::new(),
            root_dir: copy_name(&self.root_dir),
        };
        assert(r.decls() =~= no_decls());
        r
    }

    /// Moves what `other` gathered to the end of this context's lists.
    pub fn absorb(&mut self, other: ParseContext)
        ensures
            final(self).decls() == concat_decls(old(self).decls(), other.decls()),
            final(self).current_module_path == old(self).current_module_path,
            final(self).root_dir == old(self).root_dir,
    {
        let mut other = other;
        let ghost d = self.decls();
        let ghost e = other.decls();
        self.structs.append(&mut other.structs);
        self.type_aliases.append(&mut other.type_aliases);
        self.imports.append(&mut other.imports);
        assert(self.decls() =~= concat_decls(d, e));
    }
}

/// `concat_decls` is associative.
pub proof fn lemma_concat_assoc(a: Decls, b: Decls, c: Decls)
    ensures
        concat_decls(concat_decls(a, b), c) == concat_decls(a, concat_decls(b, c)),
{
    assert(concat_decls(concat_decls(a, b), c) =~= concat_decls(a, concat_decls(b, c)));
}

/// Records the bindings of the `use` tree `tree`, read under `prefix`, in
/// the context's module, as [`tree_imports`] states.
pub fn process_use_tree(tree: &UseTree, prefix: Vec<String>, context: &mut ParseContext)
    ensures
        final(context).decls() == concat_decls(
            old(context).decls(),
            Decls {
                structs: Seq::empty(),
                aliases: Seq::empty(),
                imports: tree_imports(
                    *tree,
                    prefix.deep_view(),
                    old(context).current_module_path.deep_view(),
                ),
            },
        ),
        final(context).current_module_path == old(context).current_module_path,
        final(context).root_dir == old(context).root_dir,
    decreases tree,
{
    let ghost d = context.decls();
    let ghost m = context.current_module_path.deep_view();
    match tree {
        UseTree::Path { ident, tree: inner } => {
            let mut p = prefix;
            p.push(ident.clone());
            assert(p.deep_view() =~= prefix.deep_view().push(ident@));
            process_use_tree(inner, p, context);
        },
        UseTree::Name(id) => {
            let mut p = prefix;
            p.push(id.clone());
            assert(p.deep_view() =~= prefix.deep_view().push(id@));
            let full = crate::names::normalize_relative_path(&p, &context.current_module_path);
            let module = copy_name(&context.current_module_path);
            context.imports.push(ImportInfo { full_path: full, local_name: id.clone(), in_module: module });
            assert(context.decls() =~= concat_decls(d, Decls {
                structs: Seq::empty(),
                aliases: Seq::empty(),
                imports: tree_imports(*tree, prefix.deep_view(), m),
            }));
        },
        UseTree::Rename { ident, rename } => {
            let mut p = prefix;
            p.push(ident.clone());
            assert(p.deep_view() =~= prefix.deep_view().push(ident@));
            let full = crate::names::normalize_relative_path(&p, &context.current_module_path);
            let module = copy_name(&context.current_module_path);
            context.imports.push(
                ImportInfo { full_path: full, local_name: rename.clone(), in_module: module },
            );
            assert(context.decls() =~= concat_decls(d, Decls {
                structs: Seq::empty(),
                aliases: Seq::empty(),
                imports: tree_imports(*tree, prefix.deep_view(), m),
            }));
        },
        UseTree::Glob => {
            assert(context.decls() =~= concat_decls(d, Decls {
                structs: Seq::empty(),
                aliases: Seq::empty(),
                imports: tree_imports(*tree, prefix.deep_view(), m),
            }));
        },
        UseTree::Group(ts) => {
            process_use_group(ts, prefix, context);
        },
    }
}

/// Records the bindings of the trees of a group, as [`group_imports`] states.
pub fn process_use_group(ts: &Vec<UseTree>, prefix: Vec<String>, context: &mut ParseContext)
    ensures
        final(context).decls() == concat_decls(
            old(context).decls(),
            Decls {
                structs: Seq::empty(),
                aliases: Seq::empty(),
                imports: group_imports(
                    ts@,
                    prefix.deep_view(),
                    old(context).current_module_path.deep_view(),
                ),
            },
        ),
        final(context).current_module_path == old(context).current_module_path,
        final(context).root_dir == old(context).root_dir,
    decreases ts,
{
    let ghost d = context.decls();
    let ghost m = context.current_module_path.deep_view();
    let mut i: usize = 0;
    assert(context.decls() =~= concat_decls(d, Decls {
        structs: Seq::empty(),
        aliases: Seq::empty(),
        imports: group_imports(ts@.subrange(0, 0), prefix.deep_view(), m),
    }));
    while i < ts.len()
        invariant
            i <= ts.len(),
            m == context.current_module_path.deep_view(),
            context.current_module_path == old(context).current_module_path,
            context.root_dir == old(context).root_dir,
            d == old(context).decls(),
            context.decls() == concat_decls(d, Decls {
                structs: Seq::empty(),
                aliases: Seq::empty(),
                imports: group_imports(ts@.subrange(0, i as int), prefix.deep_view(), m),
            }),
        decreases ts.len() - i,
    {
        assert(ts@.subrange(0, i + 1).drop_last() =~= ts@.subrange(0, i as int));
        proof {
            vstd::std_specs::vec::axiom_vec_index_decreases(*ts, i as int);
        }
        process_use_tree(&ts[i], copy_name(&prefix), context);
        assert(context.decls() =~= concat_decls(d, Decls {
            structs: Seq::empty(),
            aliases: Seq::empty(),
            imports: group_imports(ts@.subrange(0, i + 1), prefix.deep_view(), m),
        }));
        i += 1;
    }
    assert(ts@.subrange(0, ts.len() as int) =~= ts@);
}


/// A copy of a field reference.
pub fn copy_ref(f: &FieldRef) -> (r: FieldRef)
    ensures
        r@ == f@,
{
    match f {
        FieldRef::Named(p) => FieldRef::Named(copy_name(p)),
        FieldRef::Verbatim(s) => FieldRef::Verbatim(s.clone()),
    }
}

/// `deps` with each `Self` replaced by `full`, as [`self_substituted`] states.
pub fn substitute_self(deps: &Vec<FieldRef>, full: &Vec<String>) -> (r: Vec<FieldRef>)
    ensures
        refs_view(r@) == self_substituted(refs_view(deps@), full.deep_view()),
{
    let ghost target = self_substituted(refs_view(deps@), full.deep_view());
    let mut out: Vec<FieldRef> = Vec::new();
    let mut i: usize = 0;
    while i < deps.len()
        invariant
            i <= deps.len(),
            target == self_substituted(refs_view(deps@), full.deep_view()),
            refs_view(out@) == target.subrange(0, i as int),
        decreases deps.len() - i,
    {
        let is_self = match &deps[i] {
            FieldRef::Named(p) => {
                if p.len() == 1 && str_eq(p[0].as_str(), "Self") {
                    assert(p.deep_view() =~= seq!["Self"@]);
                    true
                } else {
                    if p.len() == 1 {
                        assert(p.deep_view()[0] != seq!["Self"@][0]);
                    } else {
                        assert(p.deep_view().len() != seq!["Self"@].len());
                    }
                    assert(p.deep_view() != seq!["Self"@]);
                    false
                }
            },
            FieldRef::Verbatim(_) => false,
        };
        assert(is_self == (deps@[i as int]@ == RefView::Named(seq!["Self"@])));
        assert(refs_view(deps@)[i as int] == deps@[i as int]@);
        let ghost prev = out@;
        if is_self {
            out.push(FieldRef::Named(copy_name(full)));
        } else {
            out.push(copy_ref(&deps[i]));
        }
        assert(refs_view(out@) =~= refs_view(prev).push(out@.last()@));
        assert(refs_view(out@) =~= target.subrange(0, i + 1));
        i += 1;
    }
    assert(refs_view(out@) =~= target);
    out
}

/// The index of the first file of `tree` at `path`, as [`first_file`] states.
pub fn find_file(tree: &Vec<SourceFile>, path: &Vec<String>) -> (r: Option<usize>)
    ensures
        match r {
            Some(k) => first_file(tree@, path.deep_view()) == Some(k as int),
            None => first_file(tree@, path.deep_view()) is None,
        },
{
    let mut found: Option<usize> = None;
    let mut i: usize = 0;
    while i < tree.len()
        invariant
            i <= tree.len(),
            match found {
                Some(k) => first_file(tree@.subrange(0, i as int), path.deep_view()) == Some(k as int),
                None => first_file(tree@.subrange(0, i as int), path.deep_view()) is None,
            },
        decreases tree.len() - i,
    {
        assert(tree@.subrange(0, i + 1).drop_last() =~= tree@.subrange(0, i as int));
        if found.is_none() && same_name(&tree[i].path, path) {
            found = Some(i);
        }
        i += 1;
    }
    assert(tree@.subrange(0, tree.len() as int) =~= tree@);
    found
}

/// The file of the module `module_name`, declared as `mod module_name;` in
/// the context's module, as [`module_file`] states: the directory searched is
/// the context's root directory extended by its module path.
pub fn resolve_module_file(module_name: &String, context: &ParseContext, tree: &Vec<SourceFile>)
    -> (r: Option<usize>)
    ensures
        match r {
            Some(k) => module_file(
                tree@,
                context.root_dir.deep_view() + context.current_module_path.deep_view(),
                module_name@,
            ) == Some(k as int),
            None => module_file(
                tree@,
                context.root_dir.deep_view() + context.current_module_path.deep_view(),
                module_name@,
            ) is None,
        },
{
    let ghost base_v = context.root_dir.deep_view() + context.current_module_path.deep_view();
    let mut base = copy_name(&context.root_dir);
    append_segments(&mut base, &context.current_module_path, 0, context.current_module_path.len());
    assert(context.current_module_path.deep_view().subrange(
        0,
        context.current_module_path.len() as int,
    ) =~= context.current_module_path.deep_view());
    assert(base.deep_view() =~= base_v);
    locate_module_file(tree, &base, module_name)
}

/// The file of the module `module_name` declared as `mod module_name;` in
/// the directory `base`, as [`module_file`] states.
pub fn locate_module_file(tree: &Vec<SourceFile>, base: &Vec<String>, module_name: &String) -> (r:
    Option<usize>)
    ensures
        match r {
            Some(k) => module_file(tree@, base.deep_view(), module_name@) == Some(k as int),
            None => module_file(tree@, base.deep_view(), module_name@) is None,
        },
{
    let ghost base_v = base.deep_view();
    let mut file_path = copy_name(base);
    file_path.push(module_name.clone().concat(".rs"));
    assert(file_path.deep_view() =~= base_v.push(module_name@ + ".rs"@));
    let direct = find_file(tree, &file_path);
    if direct.is_some() {
        return direct;
    }
    let mut mod_path = copy_name(base);
    mod_path.push(module_name.clone());
    mod_path.push(String::from_str("mod.rs"));
    assert(mod_path.deep_view() =~= base_v.push(module_name@).push("mod.rs"@));
    find_file(tree, &mod_path)
}

/// Gathers what `items` yield in the context's module, as [`items_decls`]
/// states, after what the context holds already.
pub fn process_items(tree: &Vec<SourceFile>, items: &Vec<Item>, context: &mut ParseContext)
    ensures
        final(context).decls() == concat_decls(
            old(context).decls(),
            items_decls(
                tree@,
                items@,
                old(context).root_dir.deep_view(),
                old(context).current_module_path.deep_view(),
            ),
        ),
        final(context).current_module_path == old(context).current_module_path,
        final(context).root_dir == old(context).root_dir,
    decreases room(
        tree@,
        old(context).root_dir.deep_view().len() + old(context).current_module_path.deep_view().len(),
    ),
        items,
        1int,
{
    let ghost d = context.decls();
    let ghost root = context.root_dir.deep_view();
    let ghost m = context.current_module_path.deep_view();
    let ghost firsts = Decls {
        structs: Seq::empty(),
        aliases: Seq::empty(),
        imports: use_imports(items@, m),
    };
    let mut i: usize = 0;
    assert(context.decls() =~= concat_decls(d, Decls {
        structs: Seq::empty(),
        aliases: Seq::empty(),
        imports: use_imports(items@.subrange(0, 0), m),
    }));
    while i < items.len()
        invariant
            i <= items.len(),
            m == context.current_module_path.deep_view(),
            root == context.root_dir.deep_view(),
            context.current_module_path == old(context).current_module_path,
            context.root_dir == old(context).root_dir,
            d == old(context).decls(),
            context.decls() == concat_decls(d, Decls {
                structs: Seq::empty(),
                aliases: Seq::empty(),
                imports: use_imports(items@.subrange(0, i as int), m),
            }),
        decreases items.len() - i,
    {
        assert(items@.subrange(0, i + 1).drop_last() =~= items@.subrange(0, i as int));
        match &items[i] {
            Item::Use(t) => {
                let prefix: Vec<String> = Vec::new();
                assert(prefix.deep_view() =~= Seq::<Seq<char>>::empty());
                process_use_tree(t, prefix, context);
            },
            _ => {},
        }
        assert(context.decls() =~= concat_decls(d, Decls {
            structs: Seq::empty(),
            aliases: Seq::empty(),
            imports: use_imports(items@.subrange(0, i + 1), m),
        }));
        i += 1;
    }
    assert(items@.subrange(0, items.len() as int) =~= items@);
    let ghost d1 = context.decls();
    assert(d1 == concat_decls(d, firsts));
    i = 0;
    assert(concat_decls(d1, body_decls(tree@, items@.subrange(0, 0), root, m)) =~= d1);
    while i < items.len()
        invariant
            i <= items.len(),
            m == context.current_module_path.deep_view(),
            root == context.root_dir.deep_view(),
            context.current_module_path == old(context).current_module_path,
            context.root_dir == old(context).root_dir,
            room(tree@, root.len() + m.len()) == room(
                tree@,
                old(context).root_dir.deep_view().len()
                    + old(context).current_module_path.deep_view().len(),
            ),
            context.decls() == concat_decls(d1, body_decls(tree@, items@.subrange(0, i as int), root, m)),
        decreases items.len() - i,
    {
        let ghost sub = items@.subrange(0, i + 1);
        assert(sub.drop_last() =~= items@.subrange(0, i as int));
        assert(sub.last() == items@[i as int]);
        proof {
            vstd::std_specs::vec::axiom_vec_index_decreases(*items, i as int);
        }
        let ghost before = context.decls();
        process_item(tree, &items[i], context);
        proof {
            lemma_concat_assoc(
                d1,
                body_decls(tree@, items@.subrange(0, i as int), root, m),
                item_decls(tree@, items@[i as int], root, m),
            );
        }
        i += 1;
    }
    assert(items@.subrange(0, items.len() as int) =~= items@);
    proof {
        lemma_concat_assoc(d, firsts, body_decls(tree@, items@, root, m));
    }
}

/// Gathers what one item yields in the context's module, as [`item_decls`]
/// states, after what the context holds already.
pub fn process_item(tree: &Vec<SourceFile>, item: &Item, context: &mut ParseContext)
    ensures
        final(context).decls() == concat_decls(
            old(context).decls(),
            item_decls(
                tree@,
                *item,
                old(context).root_dir.deep_view(),
                old(context).current_module_path.deep_view(),
            ),
        ),
        final(context).current_module_path == old(context).current_module_path,
        final(context).root_dir == old(context).root_dir,
    decreases room(
        tree@,
        old(context).root_dir.deep_view().len() + old(context).current_module_path.deep_view().len(),
    ),
        item,
        0int,
{
    let ghost d = context.decls();
    let ghost root = context.root_dir.deep_view();
    let ghost m = context.current_module_path.deep_view();
    match item {
        Item::Struct { name, fields } => {
            let mut full = copy_name(&context.current_module_path);
            full.push(name.clone());
            assert(full.deep_view() =~= m.push(name@));
            let deps = extract_list_dependencies(fields);
            let field_types = substitute_self(&deps, &full);
            let module = copy_name(&context.current_module_path);
            context.structs.push(StructInfo { name: full, field_types, in_module: module });
            assert(context.decls() =~= concat_decls(d, item_decls(tree@, *item, root, m)));
        },
        Item::Alias { name, target } => {
            let mut deps = extract_type_dependencies(target);
            if deps.len() > 0 {
                let mut full = copy_name(&context.current_module_path);
                full.push(name.clone());
                assert(full.deep_view() =~= m.push(name@));
                assert(refs_view(deps@)[0] == deps@[0]@);
                let first = deps.remove(0);
                let module = copy_name(&context.current_module_path);
                context.type_aliases.push(
                    TypeAlias { name: full, target_type: first, in_module: module },
                );
            }
            assert(context.decls() =~= concat_decls(d, item_decls(tree@, *item, root, m)));
        },
        Item::Module { name, content } => {
            match content {
                Some(inner) => {
                    let mut nested = context.with_module(name.clone());
                    process_items(tree, inner, &mut nested);
                    context.absorb(nested);
                },
                None => {
                    let found = resolve_module_file(name, context, tree);
                    match found {
                        Some(k) => {
                            proof {
                                lemma_module_file_room(tree@, root + m, name@, root.len() + m.len());
                            }
                            let mut nested = context.with_module(name.clone());
                            process_items(tree, &tree[k].items, &mut nested);
                            context.absorb(nested);
                        },
                        None => {
                            assert(context.decls() =~= concat_decls(
                                d,
                                item_decls(tree@, *item, root, m),
                            ));
                        },
                    }
                },
            }
        },
        _ => {
            assert(context.decls() =~= concat_decls(d, item_decls(tree@, *item, root, m)));
        },
    }
}


/// The directory of a file: its path without the file's name.
pub open spec fn dir_of(path: Name) -> Name {
    if path.len() == 0 {
        path
    } else {
        path.drop_last()
    }
}

/// A file's name without its `.rs`.
pub open spec fn stem(f: Seq<char>) -> Seq<char> {
    if f.len() >= 3 && f.subrange(f.len() - 3, f.len() as int) == ".rs"@ {
        f.subrange(0, f.len() - 3)
    } else {
        f
    }
}

/// The directory where the modules that a file declares with `mod name;`
/// lie: beside it for `lib.rs`, `main.rs` and `mod.rs`, and in the directory
/// of its own name for any other file.
pub open spec fn child_dir(path: Name) -> Name {
    if path.len() == 0 {
        path
    } else if path.last() == "lib.rs"@ || path.last() == "main.rs"@ || path.last() == "mod.rs"@ {
        dir_of(path)
    } else {
        dir_of(path).push(stem(path.last()))
    }
}

/// Whether a `mod name;` among `items`, or inside their inline modules, with
/// `base` the directory of the modules at this level, names file `k`.
pub open spec fn declares_file(tree: Seq<SourceFile>, items: Seq<Item>, base: Name, k: int) -> bool
    decreases items, 1int,
{
    if items.len() == 0 {
        false
    } else {
        declares_file(tree, items.drop_last(), base, k) || item_declares_file(
            tree,
            items.last(),
            base,
            k,
        )
    }
}

/// [`declares_file`] for one item.
pub open spec fn item_declares_file(tree: Seq<SourceFile>, item: Item, base: Name, k: int) -> bool
    decreases item, 0int,
{
    match item {
        Item::Module { name, content } => match content {
            Some(inner) => declares_file(tree, inner@, base.push(name@), k),
            None => module_file(tree, base, name@) == Some(k),
        },
        _ => false,
    }
}

/// Whether file `k` is a module that some file of the tree declares with
/// `mod name;`, rather than a crate root.
pub open spec fn reached(tree: Seq<SourceFile>, k: int) -> bool {
    exists|j: int|
        0 <= j < tree.len() && declares_file(
            tree,
            tree[j].items@,
            child_dir(tree[j].path.deep_view()),
            k,
        )
}

/// What the first `hi` files of `tree` yield, read one after the other:
/// each crate root from its root module, in its own directory; a file that
/// a `mod name;` declares yields nothing of its own, being read where it is
/// declared.
pub open spec fn files_decls(tree: Seq<SourceFile>, hi: int) -> Decls
    decreases hi,
{
    if hi <= 0 {
        no_decls()
    } else if reached(tree, hi - 1) {
        files_decls(tree, hi - 1)
    } else {
        concat_decls(
            files_decls(tree, hi - 1),
            items_decls(tree, tree[hi - 1].items@, dir_of(tree[hi - 1].path.deep_view()), Seq::empty()),
        )
    }
}

/// What the whole tree yields: every crate root read from its root module,
/// and each module file that a `mod name;` declares read there, under its
/// module path, once per declaration.
pub open spec fn tree_decls(tree: Seq<SourceFile>) -> Decls {
    files_decls(tree, tree.len() as int)
}

/// Gathers what the file `tree[k]` yields, read from its crate root, as
/// [`items_decls`] states.
pub fn process_file(tree: &Vec<SourceFile>, k: usize) -> (r: ParseContext)
    requires
        k < tree.len(),
    ensures
        r.decls() == items_decls(
            tree@,
            tree@[k as int].items@,
            dir_of(tree@[k as int].path.deep_view()),
            Seq::empty(),
        ),
        r.current_module_path@.len() == 0,
{
    let path = &tree[k].path;
    let mut dir: Vec<String> = Vec::new();
    if path.len() > 0 {
        append_segments(&mut dir, path, 0, path.len() - 1);
        assert(dir.deep_view() =~= dir_of(path.deep_view()));
    } else {
        assert(dir.deep_view() =~= dir_of(path.deep_view()));
    }
    let mut context = ParseContext::with_root_dir(dir);
    assert(context.current_module_path.deep_view() =~= Seq::<Seq<char>>::empty());
    process_items(tree, &tree[k].items, &mut context);
    assert(concat_decls(no_decls(), items_decls(
        tree@,
        tree@[k as int].items@,
        dir_of(tree@[k as int].path.deep_view()),
        Seq::empty(),
    )) =~= items_decls(
        tree@,
        tree@[k as int].items@,
        dir_of(tree@[k as int].path.deep_view()),
        Seq::empty(),
    ));
    context
}

/// The directory of the modules that the file at `path` declares, as
/// [`child_dir`] states.
pub fn child_directory(path: &Vec<String>) -> (r: Vec<String>)
    ensures
        r.deep_view() == child_dir(path.deep_view()),
{
    let n = path.len();
    if n == 0 {
        return Vec::new();
    }
    let mut dir: Vec<String> = Vec::new();
    append_segments(&mut dir, path, 0, n - 1);
    assert(dir.deep_view() =~= dir_of(path.deep_view()));
    let last = &path[n - 1];
    assert(path.deep_view().last() == last@);
    if str_eq(last.as_str(), "lib.rs") || str_eq(last.as_str(), "main.rs") || str_eq(
        last.as_str(),
        "mod.rs",
    ) {
        return dir;
    }
    let cs = crate::text::to_chars(last.as_str());
    let m = cs.len();
    let ghost f = last@;
    proof {
        reveal_strlit(".rs");
    }
    if m >= 3 && cs[m - 3] == '.' && cs[m - 2] == 'r' && cs[m - 1] == 's' {
        assert(f.subrange(f.len() - 3, f.len() as int) =~= ".rs"@);
        dir.push(String::from_str(last.as_str().substring_char(0, m - 3)));
    } else {
        if m >= 3 {
            assert(f.subrange(f.len() - 3, f.len() as int)[0] == f[m - 3]);
            assert(f.subrange(f.len() - 3, f.len() as int)[1] == f[m - 2]);
            assert(f.subrange(f.len() - 3, f.len() as int)[2] == f[m - 1]);
            assert(f.subrange(f.len() - 3, f.len() as int) != ".rs"@);
        }
        dir.push(last.clone());
    }
    dir
}

/// Whether a `mod name;` among `items` names file `k`, as
/// [`declares_file`] states.
pub fn items_declare_file(tree: &Vec<SourceFile>, items: &Vec<Item>, base: &Vec<String>, k: usize)
    -> (r: bool)
    ensures
        r == declares_file(tree@, items@, base.deep_view(), k as int),
    decreases items, 1int,
{
    let mut found = false;
    let mut i: usize = 0;
    while i < items.len()
        invariant
            i <= items.len(),
            found == declares_file(tree@, items@.subrange(0, i as int), base.deep_view(), k as int),
        decreases items.len() - i,
    {
        assert(items@.subrange(0, i + 1).drop_last() =~= items@.subrange(0, i as int));
        assert(items@.subrange(0, i + 1).last() == items@[i as int]);
        proof {
            vstd::std_specs::vec::axiom_vec_index_decreases(*items, i as int);
        }
        let here = item_declares_file_exec(tree, &items[i], base, k);
        found = found || here;
        i += 1;
    }
    assert(items@.subrange(0, items.len() as int) =~= items@);
    found
}

/// Whether the item is, or holds, a `mod name;` that names file `k`, as
/// [`item_declares_file`] states.
pub fn item_declares_file_exec(tree: &Vec<SourceFile>, item: &Item, base: &Vec<String>, k: usize)
    -> (r: bool)
    ensures
        r == item_declares_file(tree@, *item, base.deep_view(), k as int),
    decreases item, 0int,
{
    match item {
        Item::Module { name, content } => match content {
            Some(inner) => {
                let mut nested = copy_name(base);
                nested.push(name.clone());
                assert(nested.deep_view() =~= base.deep_view().push(name@));
                items_declare_file(tree, inner, &nested, k)
            },
            None => match locate_module_file(tree, base, name) {
                Some(j) => j == k,
                None => false,
            },
        },
        _ => false,
    }
}

/// Whether file `k` is a module that some file declares, as [`reached`]
/// states.
pub fn is_reached(tree: &Vec<SourceFile>, k: usize) -> (r: bool)
    ensures
        r == reached(tree@, k as int),
{
    let mut j: usize = 0;
    while j < tree.len()
        invariant
            j <= tree.len(),
            forall|i: int|
                0 <= i < j ==> !declares_file(
                    tree@,
                    tree@[i].items@,
                    child_dir(tree@[i].path.deep_view()),
                    k as int,
                ),
        decreases tree.len() - j,
    {
        let base = child_directory(&tree[j].path);
        if items_declare_file(tree, &tree[j].items, &base, k) {
            return true;
        }
        j += 1;
    }
    false
}

/// Gathers what every file of the tree yields, as [`tree_decls`] states.
pub fn process_directory(tree: &Vec<SourceFile>) -> (r: ParseContext)
    ensures
        r.decls() == tree_decls(tree@),
{
    let mut combined = ParseContext::new();
    let mut k: usize = 0;
    while k < tree.len()
        invariant
            k <= tree.len(),
            combined.decls() == files_decls(tree@, k as int),
        decreases tree.len() - k,
    {
        if !is_reached(tree, k) {
            let one = process_file(tree, k);
            combined.absorb(one);
        }
        k += 1;
    }
    combined
}

} // verus!
