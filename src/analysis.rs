//! The whole analysis: extraction, resolution, the graph, and its depths.

use vstd::prelude::*;
use crate::depth::{
    Graph, last_entry, depth, edges, find_entry, calculate_max_struct_depth, keys, unvisited,
    leads_to, lemma_last_entry_key, lemma_one_deeper,
};
use crate::extract::{
    Decls, StructView, ParseContext, process_directory, tree_decls, body_decls, items_decls,
    files_decls, item_decls, reached,
};
use crate::model::{RefView, SourceFile, Item};
use crate::names::{Name, copy_name};
use crate::resolve::{
    resolved_field, resolve_type_aliases, resolved_name, declared, resolved_ref, alias_index,
    lemma_alias_field_resolves,
};

verus! {

/// The resolved names of the fields of the struct `s`.
pub open spec fn struct_edges(u: Decls, s: StructView) -> Seq<Name> {
    s.field_types.map_values(|f: RefView| resolved_field(u, f, s.in_module))
}

/// `g` with the entry `e` added; an entry of the same name is replaced in
/// its place.
pub open spec fn insert_entry(g: Graph, e: (Name, Seq<Name>)) -> Graph {
    match last_entry(g, e.0) {
        Some(j) => g.update(j, e),
        None => g.push(e),
    }
}

/// The graph of the first `hi` structs of `u`, one entry per struct name,
/// the later declaration of a name holding.
pub open spec fn graph_upto(u: Decls, hi: int) -> Graph
    decreases hi,
{
    if hi <= 0 {
        Seq::empty()
    } else {
        insert_entry(
            graph_upto(u, hi - 1),
            (u.structs[hi - 1].name, struct_edges(u, u.structs[hi - 1])),
        )
    }
}

/// The composition graph of everything gathered in `u`.
pub open spec fn graph_of(u: Decls) -> Graph {
    graph_upto(u, u.structs.len() as int)
}

/// The greatest depth among the first `hi` entries of `g`; 0 for none.
pub open spec fn max_depth_upto(g: Graph, hi: int) -> nat
    decreases hi,
{
    if hi <= 0 {
        0
    } else {
        let rest = max_depth_upto(g, hi - 1);
        let here = depth(g, g[hi - 1].0);
        if here > rest {
            here
        } else {
            rest
        }
    }
}

/// The greatest depth of any struct of `g`; 0 where `g` is empty.
pub open spec fn global_max(g: Graph) -> nat {
    max_depth_upto(g, g.len() as int)
}

/// Builds the composition graph of everything `universe` has gathered, as
/// [`graph_of`] states.
pub fn build_struct_map(universe: &ParseContext) -> (r: Vec<(Vec<String>, Vec<Vec<String>>)>)
    ensures
        r.deep_view() == graph_of(universe.decls()),
{
    let ghost u = universe.decls();
    let mut g: Vec<(Vec<String>, Vec<Vec<String>>)> = Vec::new();
    let mut i: usize = 0;
    assert(g.deep_view() =~= graph_upto(u, 0));
    while i < universe.structs.len()
        invariant
            u == universe.decls(),
            i <= universe.structs.len(),
            g.deep_view() == graph_upto(u, i as int),
        decreases universe.structs.len() - i,
    {
        let s = &universe.structs[i];
        assert(u.structs[i as int] == s@);
        let edges = resolve_type_aliases(&s.field_types, &s.in_module, universe);
        let name = copy_name(&s.name);
        let ghost e = (s@.name, struct_edges(u, s@));
        assert(edges.deep_view() =~= struct_edges(u, s@));
        let ghost before = g.deep_view();
        match find_entry(&g, &name) {
            Some(j) => {
                proof {
                    crate::depth::lemma_last_entry_key(before, e.0);
                }
                g.set(j, (name, edges));
                assert(g.deep_view() =~= before.update(j as int, e));
            },
            None => {
                g.push((name, edges));
                assert(g.deep_view() =~= before.push(e));
            },
        }
        i += 1;
    }
    g
}

/// The greatest depth of any struct of the graph, as [`global_max`] states;
/// 0 for a graph of `usize::MAX` entries, whose depths `usize` may not hold.
pub fn max_global_depth(struct_map: &Vec<(Vec<String>, Vec<Vec<String>>)>) -> (r: usize)
    ensures
        struct_map.len() < usize::MAX ==> r == global_max(struct_map.deep_view()),
{
    let ghost g = struct_map.deep_view();
    if struct_map.len() == usize::MAX {
        return 0;
    }
    proof {
        let ks = g.map_values(|e: (Name, Seq<Name>)| e.0);
        ks.lemma_cardinality_of_set();
        assert(keys(g).difference(Set::empty()) =~= keys(g));
    }
    let mut best: usize = 0;
    let mut i: usize = 0;
    while i < struct_map.len()
        invariant
            g == struct_map.deep_view(),
            struct_map.len() < usize::MAX,
            1 + unvisited(g, Set::empty()) <= usize::MAX,
            i <= struct_map.len(),
            best == max_depth_upto(g, i as int),
        decreases struct_map.len() - i,
    {
        let mut visited: Vec<Vec<String>> = Vec::new();
        assert(visited.deep_view().to_set() =~= Set::<Name>::empty());
        let d = calculate_max_struct_depth(struct_map, &struct_map[i].0, &mut visited, 1);
        if d > best {
            best = d;
        }
        i += 1;
    }
    best
}

/// The depth of each struct of the graph, in the graph's order, as [`depth`]
/// states; empty for a graph of `usize::MAX` entries.
pub fn node_depths(struct_map: &Vec<(Vec<String>, Vec<Vec<String>>)>) -> (r: Vec<usize>)
    ensures
        struct_map.len() < usize::MAX ==> r.len() == struct_map.len(),
        forall|i: int|
            0 <= i < r.len() ==> r[i] == depth(struct_map.deep_view(), struct_map.deep_view()[i].0),
{
    let ghost g = struct_map.deep_view();
    let mut out: Vec<usize> = Vec::new();
    if struct_map.len() == usize::MAX {
        return out;
    }
    proof {
        let ks = g.map_values(|e: (Name, Seq<Name>)| e.0);
        ks.lemma_cardinality_of_set();
        assert(keys(g).difference(Set::empty()) =~= keys(g));
    }
    let mut i: usize = 0;
    while i < struct_map.len()
        invariant
            g == struct_map.deep_view(),
            1 + unvisited(g, Set::empty()) <= usize::MAX,
            i <= struct_map.len(),
            out.len() == i,
            forall|j: int| 0 <= j < i ==> out[j] == depth(g, g[j].0),
        decreases struct_map.len() - i,
    {
        let mut visited: Vec<Vec<String>> = Vec::new();
        assert(visited.deep_view().to_set() =~= Set::<Name>::empty());
        let d = calculate_max_struct_depth(struct_map, &struct_map[i].0, &mut visited, 1);
        out.push(d);
        i += 1;
    }
    out
}

/// Analyses a source tree: the greatest composition depth, and the graph
/// with each struct's resolved field types.
pub fn analyze_struct_depth(tree: &Vec<SourceFile>) -> (r: (
    usize,
    Vec<(Vec<String>, Vec<Vec<String>>)>,
))
    ensures
        r.1.deep_view() == graph_of(tree_decls(tree@)),
        r.1.len() < usize::MAX ==> r.0 == global_max(graph_of(tree_decls(tree@))),
{
    let context = process_directory(tree);
    let struct_map = build_struct_map(&context);
    let max = max_global_depth(&struct_map);
    (max, struct_map)
}


/// A struct among `items` is gathered under the module path and its name.
pub proof fn lemma_body_has_struct(
    tree: Seq<SourceFile>,
    items: Seq<Item>,
    root: Name,
    m: Name,
    j: int,
)
    requires
        0 <= j < items.len(),
        items[j] is Struct,
    ensures
        exists|i: int|
            0 <= i < body_decls(tree, items, root, m).structs.len() && body_decls(
                tree,
                items,
                root,
                m,
            ).structs[i].name == m.push(items[j]->Struct_name@),
    decreases items.len(),
{
    let init = body_decls(tree, items.drop_last(), root, m);
    let last = item_decls(tree, items.last(), root, m);
    let all = body_decls(tree, items, root, m);
    if j == items.len() - 1 {
        assert(all.structs[init.structs.len() as int] == last.structs[0]);
    } else {
        lemma_body_has_struct(tree, items.drop_last(), root, m, j);
        let i = choose|i: int|
            0 <= i < init.structs.len() && init.structs[i].name == m.push(
                items.drop_last()[j]->Struct_name@,
            );
        assert(all.structs[i] == init.structs[i]);
    }
}

/// A struct at the top of one file of the tree is gathered under its name.
pub proof fn lemma_files_have_struct(tree: Seq<SourceFile>, hi: int, k: int, j: int)
    requires
        0 <= k < hi <= tree.len(),
        0 <= j < tree[k].items@.len(),
        tree[k].items@[j] is Struct,
        !reached(tree, k),
    ensures
        exists|i: int|
            0 <= i < files_decls(tree, hi).structs.len() && files_decls(tree, hi).structs[i].name
                == seq![tree[k].items@[j]->Struct_name@],
    decreases hi,
{
    let before = files_decls(tree, hi - 1);
    let all = files_decls(tree, hi);
    let n = seq![tree[k].items@[j]->Struct_name@];
    assert(Seq::<Seq<char>>::empty().push(tree[k].items@[j]->Struct_name@) =~= n);
    if k == hi - 1 {
        let root = crate::extract::dir_of(tree[k].path.deep_view());
        lemma_body_has_struct(tree, tree[k].items@, root, Seq::empty(), j);
        let body = body_decls(tree, tree[k].items@, root, Seq::empty());
        let i = choose|i: int| 0 <= i < body.structs.len() && body.structs[i].name == n;
        let file = items_decls(tree, tree[k].items@, root, Seq::empty());
        assert(file.structs[i] == body.structs[i]);
        assert(all.structs[before.structs.len() + i] == file.structs[i]);
    } else {
        lemma_files_have_struct(tree, hi - 1, k, j);
        let i = choose|i: int| 0 <= i < before.structs.len() && before.structs[i].name == n;
        if !reached(tree, hi - 1) {
            assert(all.structs[i] == before.structs[i]);
        }
    }
}

/// A field at the crate root of any file that names a struct declared at the
/// top of a crate-root file of the tree resolves to that struct, wherever the
/// two files stand in the tree.
pub proof fn lemma_cross_file_resolution(tree: Seq<SourceFile>, k: int, j: int)
    requires
        0 <= k < tree.len(),
        0 <= j < tree[k].items@.len(),
        tree[k].items@[j] is Struct,
        !reached(tree, k),
    ensures
        resolved_name(
            tree_decls(tree),
            seq![tree[k].items@[j]->Struct_name@],
            Seq::empty(),
        ) == seq![tree[k].items@[j]->Struct_name@],
{
    let b = tree[k].items@[j]->Struct_name@;
    lemma_files_have_struct(tree, tree.len() as int, k, j);
    assert(Seq::<Seq<char>>::empty().push(b) =~= seq![b]);
    assert(declared(tree_decls(tree), Seq::<Seq<char>>::empty().push(b)));
    assert(seq![b][0] == b);
}


/// Replacing the last entry of a name leaves every name's last entry where
/// it was.
pub proof fn lemma_last_entry_update(g: Graph, j: int, e: (Name, Seq<Name>), n: Name)
    requires
        last_entry(g, e.0) == Some(j),
    ensures
        last_entry(g.update(j, e), n) == (if n == e.0 {
            Some(j)
        } else {
            last_entry(g, n)
        }),
    decreases g.len(),
{
    lemma_last_entry_key(g, e.0);
    let h = g.update(j, e);
    assert(h.last() == if j == g.len() - 1 {
        e
    } else {
        g.last()
    });
    if j == g.len() - 1 {
        assert(h.drop_last() =~= g.drop_last());
    } else {
        assert(h.drop_last() =~= g.drop_last().update(j, e));
        if g.last().0 != n {
            lemma_last_entry_update(g.drop_last(), j, e, n);
        }
    }
}

/// In the graph of the first `hi` structs, a struct that no later one of
/// them redeclares has its own entry, with its resolved field types.
pub proof fn lemma_graph_entry(u: Decls, hi: int, k: int)
    requires
        0 <= k < hi <= u.structs.len(),
        forall|j: int| k < j < hi ==> u.structs[j].name != u.structs[k].name,
    ensures
        keys(graph_upto(u, hi)).contains(u.structs[k].name),
        edges(graph_upto(u, hi), u.structs[k].name) == struct_edges(u, u.structs[k]),
    decreases hi,
{
    let g = graph_upto(u, hi - 1);
    let e = (u.structs[hi - 1].name, struct_edges(u, u.structs[hi - 1]));
    let n = u.structs[k].name;
    if k < hi - 1 {
        lemma_graph_entry(u, hi - 1, k);
        lemma_last_entry_key(g, n);
    }
    match last_entry(g, e.0) {
        Some(j) => {
            lemma_last_entry_update(g, j, e, n);
            lemma_last_entry_key(g, e.0);
        },
        None => {
            assert(g.push(e).drop_last() =~= g);
        },
    }
    lemma_last_entry_key(graph_upto(u, hi), n);
}

/// A struct of module `m` whose only field is of the alias type `x`, which
/// resolves to the struct `y`, is one deeper than `y`, where no chain from
/// `y` leads back to the struct and no later declaration redeclares it.
pub proof fn lemma_alias_struct_depth(u: Decls, k: int, x: Seq<char>, y: Name)
    requires
        0 <= k < u.structs.len(),
        forall|j: int| k < j < u.structs.len() ==> u.structs[j].name != u.structs[k].name,
        u.structs[k].field_types == seq![RefView::Named(seq![x])],
        alias_index(u.aliases, u.structs[k].in_module.push(x)) is Some,
        resolved_ref(
            u,
            u.aliases[alias_index(u.aliases, u.structs[k].in_module.push(x))->0].target,
            u.aliases[alias_index(u.aliases, u.structs[k].in_module.push(x))->0].in_module,
        ) == y,
        alias_index(u.aliases, y) is None,
        keys(graph_of(u)).contains(y),
        y != u.structs[k].name,
        !leads_to(graph_of(u), y, u.structs[k].name),
    ensures
        depth(graph_of(u), u.structs[k].name) == depth(graph_of(u), y) + 1,
{
    let s = u.structs[k];
    lemma_graph_entry(u, u.structs.len() as int, k);
    lemma_alias_field_resolves(u, s.in_module, x, y);
    assert(struct_edges(u, s) =~= seq![y]);
    lemma_one_deeper(graph_of(u), s.name, y);
}

} // verus!
