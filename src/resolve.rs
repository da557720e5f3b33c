//! Resolution of the types that fields mention to module-qualified names.
//!
//! Resolution runs once extraction is complete, over everything every file
//! yielded, so a field may name a struct of a file read later.
//!
//! A path with a relative qualifier (`crate::`, `self::`, `super::`) or with
//! two or more segments is absolute once the qualifier is rewritten. A bare
//! name `N` in module `m` resolves, in this order of precedence:
//! to `m::N` where a struct or alias of that name is declared in `m`; else to
//! the origin of the first import of `m` that binds `N`; else to the first
//! import anywhere whose origin ends in `N`; else to `m::N`.

use vstd::prelude::*;
use crate::extract::{Decls, ImportView, AliasView, ParseContext, ImportInfo, TypeAlias, tree_imports};
use crate::model::{FieldRef, RefView, UseTree, refs_view};
use crate::names::{Name, normalized, same_name, copy_name, normalize_relative_path};
use crate::depth::contains_name;

verus! {

/// Whether a struct or an alias named `q` is declared.
pub open spec fn declared(u: Decls, q: Name) -> bool {
    (exists|i: int| 0 <= i < u.structs.len() && u.structs[i].name == q) || (exists|i: int|
        0 <= i < u.aliases.len() && u.aliases[i].name == q)
}

/// The origin of the first import of module `m` that binds `local`.
pub open spec fn import_by_local(imps: Seq<ImportView>, m: Name, local: Seq<char>) -> Option<Name>
    decreases imps.len(),
{
    if imps.len() == 0 {
        None
    } else {
        match import_by_local(imps.drop_last(), m, local) {
            Some(f) => Some(f),
            None => if imps.last().in_module == m && imps.last().local_name == local {
                Some(imps.last().full_path)
            } else {
                None
            },
        }
    }
}

/// The origin of the first import, of any module, whose origin ends in `last`.
pub open spec fn import_by_tail(imps: Seq<ImportView>, last: Seq<char>) -> Option<Name>
    decreases imps.len(),
{
    if imps.len() == 0 {
        None
    } else {
        match import_by_tail(imps.drop_last(), last) {
            Some(f) => Some(f),
            None => if imps.last().full_path.len() > 0 && imps.last().full_path.last() == last {
                Some(imps.last().full_path)
            } else {
                None
            },
        }
    }
}

/// The module-qualified name that the path `p`, written in module `m`,
/// stands for. A bare name, written as one segment, is looked up with the
/// precedence above. A path of two or more segments, a relative qualifier
/// among them, is taken as absolute once that qualifier is rewritten: so
/// `crate::T` is the root's `T` wherever it is written.
pub open spec fn resolved_name(u: Decls, p: Name, m: Name) -> Name {
    if p.len() == 1 {
        let local = m.push(p[0]);
        if declared(u, local) {
            local
        } else {
            match import_by_local(u.imports, m, p[0]) {
                Some(f) => f,
                None => match import_by_tail(u.imports, p[0]) {
                    Some(f) => f,
                    None => local,
                },
            }
        }
    } else {
        normalized(p, m)
    }
}

/// The name a field reference stands for: a path resolved in module `m`, a
/// verbatim type as its text.
pub open spec fn resolved_ref(u: Decls, r: RefView, m: Name) -> Name {
    match r {
        RefView::Named(p) => resolved_name(u, p, m),
        RefView::Verbatim(s) => seq![s],
    }
}

/// The index of the last alias named `n`.
pub open spec fn alias_index(aliases: Seq<AliasView>, n: Name) -> Option<int>
    decreases aliases.len(),
{
    if aliases.len() == 0 {
        None
    } else if aliases.last().name == n {
        Some(aliases.len() - 1)
    } else {
        alias_index(aliases.drop_last(), n)
    }
}

/// Follows aliases from `n`: while `n` names an alias not yet in `seen`, `n`
/// becomes the alias's target, resolved in the alias's own module. A name
/// met twice ends the chain there. `fuel` bounds the steps.
pub open spec fn alias_chain(u: Decls, n: Name, seen: Seq<Name>, fuel: nat) -> Name
    decreases fuel,
{
    if fuel == 0 {
        n
    } else {
        match alias_index(u.aliases, n) {
            None => n,
            Some(k) => if seen.contains(n) {
                n
            } else {
                alias_chain(
                    u,
                    resolved_ref(u, u.aliases[k].target, u.aliases[k].in_module),
                    seen.push(n),
                    (fuel - 1) as nat,
                )
            },
        }
    }
}

/// The final name of a field reference written in module `m`: resolved, then
/// taken through aliases, one step at most per alias.
pub open spec fn resolved_field(u: Decls, r: RefView, m: Name) -> Name {
    alias_chain(u, resolved_ref(u, r, m), Seq::empty(), (u.aliases.len() + 1) as nat)
}


/// Whether a struct or an alias named `q` is declared, as [`declared`] states.
pub fn is_declared(universe: &ParseContext, q: &Vec<String>) -> (r: bool)
    ensures
        r == declared(universe.decls(), q.deep_view()),
{
    let ghost u = universe.decls();
    let mut i: usize = 0;
    while i < universe.structs.len()
        invariant
            u == universe.decls(),
            i <= universe.structs.len(),
            forall|j: int| 0 <= j < i ==> u.structs[j].name != q.deep_view(),
        decreases universe.structs.len() - i,
    {
        if same_name(&universe.structs[i].name, q) {
            assert(u.structs[i as int].name == q.deep_view());
            return true;
        }
        i += 1;
    }
    let mut k: usize = 0;
    while k < universe.type_aliases.len()
        invariant
            u == universe.decls(),
            k <= universe.type_aliases.len(),
            forall|j: int| 0 <= j < u.structs.len() ==> u.structs[j].name != q.deep_view(),
            forall|j: int| 0 <= j < k ==> u.aliases[j].name != q.deep_view(),
        decreases universe.type_aliases.len() - k,
    {
        if same_name(&universe.type_aliases[k].name, q) {
            assert(u.aliases[k as int].name == q.deep_view());
            return true;
        }
        k += 1;
    }
    false
}

/// The first import of module `m` that binds `local`, as
/// [`import_by_local`] states.
pub fn find_import_by_local(imports: &Vec<ImportInfo>, m: &Vec<String>, local: &String) -> (r:
    Option<usize>)
    ensures
        match r {
            Some(i) => i < imports.len() && import_by_local(
                imports@.map_values(|x: ImportInfo| x@),
                m.deep_view(),
                local@,
            ) == Some(imports@[i as int].full_path.deep_view()),
            None => import_by_local(imports@.map_values(|x: ImportInfo| x@), m.deep_view(), local@) is None,
        },
{
    let ghost views = imports@.map_values(|x: ImportInfo| x@);
    let mut i: usize = 0;
    while i < imports.len()
        invariant
            views == imports@.map_values(|x: ImportInfo| x@),
            i <= imports.len(),
            import_by_local(views.subrange(0, i as int), m.deep_view(), local@) is None,
        decreases imports.len() - i,
    {
        assert(views.subrange(0, i + 1).drop_last() =~= views.subrange(0, i as int));
        assert(views.subrange(0, i + 1).last() == imports@[i as int]@);
        if same_name(&imports[i].in_module, m) && imports[i].local_name == *local {
            proof {
                lemma_import_by_local_prefix(views, m.deep_view(), local@, i + 1);
            }
            return Some(i);
        }
        i += 1;
    }
    assert(views.subrange(0, imports.len() as int) =~= views);
    None
}

/// A binding found among the first `k` imports is the first overall.
pub proof fn lemma_import_by_local_prefix(imps: Seq<ImportView>, m: Name, local: Seq<char>, k: int)
    requires
        0 <= k <= imps.len(),
        import_by_local(imps.subrange(0, k), m, local) is Some,
    ensures
        import_by_local(imps, m, local) == import_by_local(imps.subrange(0, k), m, local),
    decreases imps.len() - k,
{
    if k < imps.len() {
        assert(imps.subrange(0, k + 1).drop_last() =~= imps.subrange(0, k));
        lemma_import_by_local_prefix(imps, m, local, k + 1);
    } else {
        assert(imps.subrange(0, k) =~= imps);
    }
}

/// A match by origin found among the first `k` imports is the first overall.
pub proof fn lemma_import_by_tail_prefix(imps: Seq<ImportView>, last: Seq<char>, k: int)
    requires
        0 <= k <= imps.len(),
        import_by_tail(imps.subrange(0, k), last) is Some,
    ensures
        import_by_tail(imps, last) == import_by_tail(imps.subrange(0, k), last),
    decreases imps.len() - k,
{
    if k < imps.len() {
        assert(imps.subrange(0, k + 1).drop_last() =~= imps.subrange(0, k));
        lemma_import_by_tail_prefix(imps, last, k + 1);
    } else {
        assert(imps.subrange(0, k) =~= imps);
    }
}

/// The first import whose origin ends in `last`, as [`import_by_tail`]
/// states.
pub fn find_import_by_tail(imports: &Vec<ImportInfo>, last: &String) -> (r: Option<usize>)
    ensures
        match r {
            Some(i) => i < imports.len() && import_by_tail(
                imports@.map_values(|x: ImportInfo| x@),
                last@,
            ) == Some(imports@[i as int].full_path.deep_view()),
            None => import_by_tail(imports@.map_values(|x: ImportInfo| x@), last@) is None,
        },
{
    let ghost views = imports@.map_values(|x: ImportInfo| x@);
    let mut i: usize = 0;
    while i < imports.len()
        invariant
            views == imports@.map_values(|x: ImportInfo| x@),
            i <= imports.len(),
            import_by_tail(views.subrange(0, i as int), last@) is None,
        decreases imports.len() - i,
    {
        assert(views.subrange(0, i + 1).drop_last() =~= views.subrange(0, i as int));
        assert(views.subrange(0, i + 1).last() == imports@[i as int]@);
        let full = &imports[i].full_path;
        if full.len() > 0 && full[full.len() - 1] == *last {
            assert(full.deep_view().last() == full[full.len() - 1]@);
            proof {
                lemma_import_by_tail_prefix(views, last@, i + 1);
            }
            return Some(i);
        }
        assert(full.len() > 0 ==> full.deep_view().last() == full[full.len() - 1]@);
        i += 1;
    }
    assert(views.subrange(0, imports.len() as int) =~= views);
    None
}

/// The module-qualified name that `path`, written in `module`, stands for,
/// as [`resolved_name`] states.
pub fn resolve_path(path: &Vec<String>, module: &Vec<String>, universe: &ParseContext) -> (r: Vec<
    String,
>)
    ensures
        r.deep_view() == resolved_name(universe.decls(), path.deep_view(), module.deep_view()),
{
    if path.len() == 1 {
        let mut local = copy_name(module);
        local.push(path[0].clone());
        assert(local.deep_view() =~= module.deep_view().push(path.deep_view()[0]));
        if is_declared(universe, &local) {
            return local;
        }
        match find_import_by_local(&universe.imports, module, &path[0]) {
            Some(i) => {
                return copy_name(&universe.imports[i].full_path);
            },
            None => {},
        }
        match find_import_by_tail(&universe.imports, &path[0]) {
            Some(i) => {
                return copy_name(&universe.imports[i].full_path);
            },
            None => {},
        }
        local
    } else {
        normalize_relative_path(path, module)
    }
}

/// The name a field reference stands for, as [`resolved_ref`] states.
pub fn resolve_ref(r: &FieldRef, module: &Vec<String>, universe: &ParseContext) -> (out: Vec<
    String,
>)
    ensures
        out.deep_view() == resolved_ref(universe.decls(), r@, module.deep_view()),
{
    match r {
        FieldRef::Named(p) => resolve_path(p, module, universe),
        FieldRef::Verbatim(s) => {
            let mut out: Vec<String> = Vec::new();
            out.push(s.clone());
            assert(out.deep_view() =~= seq![s@]);
            out
        },
    }
}

/// The index of the last alias named `n`, as [`alias_index`] states.
pub fn find_alias(aliases: &Vec<TypeAlias>, n: &Vec<String>) -> (r: Option<usize>)
    ensures
        match r {
            Some(k) => alias_index(aliases@.map_values(|a: TypeAlias| a@), n.deep_view()) == Some(
                k as int,
            ),
            None => alias_index(aliases@.map_values(|a: TypeAlias| a@), n.deep_view()) is None,
        },
{
    let ghost views = aliases@.map_values(|a: TypeAlias| a@);
    let mut found: Option<usize> = None;
    let mut i: usize = 0;
    while i < aliases.len()
        invariant
            views == aliases@.map_values(|a: TypeAlias| a@),
            i <= aliases.len(),
            match found {
                Some(k) => alias_index(views.subrange(0, i as int), n.deep_view()) == Some(k as int),
                None => alias_index(views.subrange(0, i as int), n.deep_view()) is None,
            },
        decreases aliases.len() - i,
    {
        assert(views.subrange(0, i + 1).drop_last() =~= views.subrange(0, i as int));
        if same_name(&aliases[i].name, n) {
            found = Some(i);
        }
        i += 1;
    }
    assert(views.subrange(0, aliases.len() as int) =~= views);
    found
}

/// An alias that [`alias_index`] finds carries that name.
pub proof fn lemma_alias_index(aliases: Seq<AliasView>, n: Name)
    ensures
        match alias_index(aliases, n) {
            Some(k) => 0 <= k < aliases.len() && aliases[k].name == n,
            None => true,
        },
    decreases aliases.len(),
{
    if aliases.len() > 0 {
        lemma_alias_index(aliases.drop_last(), n);
    }
}

/// `start` taken through aliases, as [`alias_chain`] states with one
/// step at most per alias.
pub fn resolve_alias_chain(start: Vec<String>, universe: &ParseContext) -> (r: Vec<String>)
    ensures
        r.deep_view() == alias_chain(
            universe.decls(),
            start.deep_view(),
            Seq::empty(),
            (universe.type_aliases.len() + 1) as nat,
        ),
{
    let ghost u = universe.decls();
    let ghost goal = alias_chain(
        u,
        start.deep_view(),
        Seq::empty(),
        (universe.type_aliases.len() + 1) as nat,
    );
    let mut current = start;
    let mut seen: Vec<Vec<String>> = Vec::new();
    assert(seen.deep_view() =~= Seq::<Name>::empty());
    let mut left: usize = universe.type_aliases.len();
    let mut done = false;
    while !done
        invariant
            u == universe.decls(),
            u.aliases.len() == universe.type_aliases.len(),
            done ==> current.deep_view() == goal,
            !done ==> alias_chain(u, current.deep_view(), seen.deep_view(), (left + 1) as nat)
                == goal,
        decreases left + (if done {
            0int
        } else {
            1int
        }),
    {
        match find_alias(&universe.type_aliases, &current) {
            None => {
                done = true;
            },
            Some(k) => {
                proof {
                    lemma_alias_index(u.aliases, current.deep_view());
                }
                if contains_name(&seen, &current) {
                    done = true;
                } else {
                    let alias = &universe.type_aliases[k];
                    assert(u.aliases[k as int] == alias@);
                    let next = resolve_ref(&alias.target_type, &alias.in_module, universe);
                    let ghost before = seen.deep_view();
                    seen.push(current);
                    assert(seen.deep_view() =~= before.push(seen@.last().deep_view()));
                    current = next;
                    if left == 0 {
                        assert(alias_chain(u, current.deep_view(), seen.deep_view(), 0) == current.deep_view());
                        done = true;
                    } else {
                        left = left - 1;
                    }
                }
            },
        }
    }
    current
}

/// The final names of the field references of a struct declared in
/// `module`, in order, as [`resolved_field`] states of each.
pub fn resolve_type_aliases(
    field_types: &Vec<FieldRef>,
    module: &Vec<String>,
    universe: &ParseContext,
) -> (r: Vec<Vec<String>>)
    ensures
        r.deep_view() == refs_view(field_types@).map_values(
            |f: RefView| resolved_field(universe.decls(), f, module.deep_view()),
        ),
{
    let ghost u = universe.decls();
    let ghost want = refs_view(field_types@).map_values(
        |f: RefView| resolved_field(u, f, module.deep_view()),
    );
    let mut out: Vec<Vec<String>> = Vec::new();
    let mut i: usize = 0;
    while i < field_types.len()
        invariant
            u == universe.decls(),
            want == refs_view(field_types@).map_values(
                |f: RefView| resolved_field(u, f, module.deep_view()),
            ),
            i <= field_types.len(),
            out.deep_view() == want.subrange(0, i as int),
        decreases field_types.len() - i,
    {
        let first = resolve_ref(&field_types[i], module, universe);
        let last = resolve_alias_chain(first, universe);
        let ghost before = out.deep_view();
        let ghost lv = last.deep_view();
        assert(lv == resolved_field(u, field_types@[i as int]@, module.deep_view()));
        out.push(last);
        assert(out.deep_view() =~= before.push(lv));
        assert(refs_view(field_types@)[i as int] == field_types@[i as int]@);
        assert(out.deep_view() =~= want.subrange(0, i + 1));
        i += 1;
    }
    assert(want.subrange(0, field_types.len() as int) =~= want);
    out
}


/// A field whose type is the alias `x` of module `m`, aliasing a type that
/// resolves to `y`, which is no alias, has the final name `y`.
pub proof fn lemma_alias_field_resolves(u: Decls, m: Name, x: Seq<char>, y: Name)
    requires
        alias_index(u.aliases, m.push(x)) is Some,
        resolved_ref(
            u,
            u.aliases[alias_index(u.aliases, m.push(x))->0].target,
            u.aliases[alias_index(u.aliases, m.push(x))->0].in_module,
        ) == y,
        alias_index(u.aliases, y) is None,
    ensures
        resolved_field(u, RefView::Named(seq![x]), m) == y,
{
    let k = alias_index(u.aliases, m.push(x))->0;
    lemma_alias_index(u.aliases, m.push(x));
    assert(declared(u, m.push(x)));
    assert(seq![x][0] == x);
    assert(resolved_ref(u, RefView::Named(seq![x]), m) == m.push(x));
    let fuel = (u.aliases.len() + 1) as nat;
    assert(alias_chain(u, m.push(x), Seq::empty(), fuel) == alias_chain(
        u,
        y,
        Seq::<Name>::empty().push(m.push(x)),
        (fuel - 1) as nat,
    ));
}

/// `use a::b::inner as local;` in module `m` binds `local` to `a::b::inner`,
/// where `a` is no relative qualifier.
pub proof fn lemma_rename_binding(t: UseTree, m: Name)
    requires
        t matches UseTree::Path { ident: a, tree: t1 } && *t1 matches UseTree::Path {
            ident: b,
            tree: t2,
        } && *t2 matches UseTree::Rename { .. },
        t->Path_ident@ != "crate"@,
        t->Path_ident@ != "self"@,
        t->Path_ident@ != "super"@,
    ensures
        tree_imports(t, Seq::empty(), m) == seq![
            ImportView {
                full_path: seq![
                    t->Path_ident@,
                    t->Path_tree->Path_ident@,
                    t->Path_tree->Path_tree->Rename_ident@,
                ],
                local_name: t->Path_tree->Path_tree->Rename_rename@,
                in_module: m,
            },
        ],
{
    let p = seq![
        t->Path_ident@,
        t->Path_tree->Path_ident@,
        t->Path_tree->Path_tree->Rename_ident@,
    ];
    let t1 = *t->Path_tree;
    let t2 = *t1->Path_tree;
    let p1 = Seq::<Seq<char>>::empty().push(t->Path_ident@);
    let p2 = p1.push(t1->Path_ident@);
    assert(p2.push(t2->Rename_ident@) =~= p);
    assert(tree_imports(t, Seq::empty(), m) == tree_imports(t1, p1, m));
    assert(tree_imports(t1, p1, m) == tree_imports(t2, p2, m));
    assert(p[0] == t->Path_ident@);
    assert(normalized(p, m) == p);
}

/// A field of type `local`, written in module `m` whose first binding of
/// `local` is an import of `origin`, resolves to `origin` where `m` declares
/// nothing named `local`.
pub proof fn lemma_renamed_import_resolves(u: Decls, m: Name, local: Seq<char>, origin: Name)
    requires
        import_by_local(u.imports, m, local) == Some(origin),
        !declared(u, m.push(local)),
    ensures
        resolved_name(u, seq![local], m) == origin,
{
    assert(seq![local][0] == local);
}


/// A path that begins with `crate::` names that path from the crate root,
/// whatever module it is written in.
pub proof fn lemma_crate_path_resolves(u: Decls, p: Name, m: Name)
    requires
        p.len() >= 2,
        p[0] == "crate"@,
    ensures
        resolved_name(u, p, m) == p.drop_first(),
{
}

/// A path that begins with `super::`, written in a module one level below
/// the root, names that path from the crate root.
pub proof fn lemma_super_path_resolves(u: Decls, p: Name, m: Name)
    requires
        p.len() >= 2,
        p[0] == "super"@,
        m.len() == 1,
    ensures
        resolved_name(u, p, m) == p.drop_first(),
{
    reveal_strlit("crate");
    reveal_strlit("self");
    reveal_strlit("super");
    assert("crate"@ != "super"@) by {
        assert("crate"@[0] != "super"@[0]);
    }
    assert("self"@ != "super"@) by {
        assert("self"@[1] != "super"@[1]);
    }
}

} // verus!
