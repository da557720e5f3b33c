//! Trait hierarchies: which traits each type implements, and how deep the
//! chains of supertraits above them run.

use vstd::prelude::*;
use vstd::string::*;
use crate::text::{
    trim, trim_end_char, starts_with, find, split, trim_chars, trim_end_matches, begins_with,
    find_chars, find_char, split_chars, to_chars, lemma_find, string_of,
};

verus! {

/// Trait names and their supertraits, one entry per trait.
pub type TraitGraph = Seq<(Seq<char>, Seq<Seq<char>>)>;

/// A trait declaration.
pub struct TraitInfo {
    pub name: String,
    pub supertraits: Vec<String>,
}

/// `impl trait_name for implementor`.
pub struct ImplInfo {
    pub implementor: String,
    pub trait_name: String,
}

/// The traits of a graph.
pub open spec fn trait_keys(g: TraitGraph) -> Set<Seq<char>> {
    g.map_values(|e: (Seq<char>, Seq<Seq<char>>)| e.0).to_set()
}

/// The index of the entry of `g` for `t`, the last where there are several.
pub open spec fn trait_entry(g: TraitGraph, t: Seq<char>) -> Option<int>
    decreases g.len(),
{
    if g.len() == 0 {
        None
    } else if g.last().0 == t {
        Some(g.len() - 1)
    } else {
        trait_entry(g.drop_last(), t)
    }
}

/// The supertraits of `t`; none where `t` is not in the graph.
pub open spec fn supers(g: TraitGraph, t: Seq<char>) -> Seq<Seq<char>> {
    match trait_entry(g, t) {
        Some(i) => g[i].1,
        None => Seq::empty(),
    }
}

/// How many traits of `g` lie outside `visited`.
pub open spec fn traits_left(g: TraitGraph, visited: Set<Seq<char>>) -> int {
    trait_keys(g).difference(visited).len() as int
}

/// Visiting a trait not yet visited leaves one fewer to visit.
pub proof fn lemma_traits_left_shrinks(g: TraitGraph, visited: Set<Seq<char>>, t: Seq<char>)
    requires
        trait_keys(g).contains(t),
        !visited.contains(t),
    ensures
        traits_left(g, visited.insert(t)) == traits_left(g, visited) - 1,
        traits_left(g, visited) >= 1,
{
    let ks = g.map_values(|e: (Seq<char>, Seq<Seq<char>>)| e.0);
    ks.lemma_cardinality_of_set();
    vstd::seq_lib::seq_to_set_is_finite(ks);
    assert(trait_keys(g).difference(visited.insert(t)) =~= trait_keys(g).difference(
        visited,
    ).remove(t));
}

/// The number of traits on the longest chain of supertraits from `t`, `t`
/// included, that repeats none of them nor enters `visited`: 0 for a trait
/// in `visited`, 1 for a trait the graph does not list.
pub open spec fn trait_depth(g: TraitGraph, t: Seq<char>, visited: Set<Seq<char>>) -> nat
    decreases traits_left(g, visited), 0int, 0int,
{
    if visited.contains(t) {
        0
    } else if trait_keys(g).contains(t) {
        proof {
            lemma_traits_left_shrinks(g, visited, t);
        }
        1 + deepest(g, supers(g, t), visited.insert(t))
    } else {
        1
    }
}

/// The greatest [`trait_depth`] among the traits `ts`; 0 for none.
pub open spec fn deepest(g: TraitGraph, ts: Seq<Seq<char>>, visited: Set<Seq<char>>) -> nat
    decreases traits_left(g, visited), 1int, ts.len(),
{
    if ts.len() == 0 {
        0
    } else {
        let rest = deepest(g, ts.drop_last(), visited);
        let here = trait_depth(g, ts.last(), visited);
        if here > rest {
            here
        } else {
            rest
        }
    }
}

/// A depth never exceeds the traits left to visit, plus one.
pub proof fn lemma_trait_depth_bound(g: TraitGraph, t: Seq<char>, visited: Set<Seq<char>>)
    ensures
        trait_depth(g, t, visited) <= traits_left(g, visited) + 1,
        traits_left(g, visited) >= 0,
    decreases traits_left(g, visited), 0int, 0int,
{
    if !visited.contains(t) && trait_keys(g).contains(t) {
        lemma_traits_left_shrinks(g, visited, t);
        lemma_deepest_bound(g, supers(g, t), visited.insert(t));
    }
}

/// [`lemma_trait_depth_bound`] for a list of traits.
pub proof fn lemma_deepest_bound(g: TraitGraph, ts: Seq<Seq<char>>, visited: Set<Seq<char>>)
    ensures
        deepest(g, ts, visited) <= traits_left(g, visited) + 1,
    decreases traits_left(g, visited), 1int, ts.len(),
{
    if ts.len() > 0 {
        lemma_deepest_bound(g, ts.drop_last(), visited);
        lemma_trait_depth_bound(g, ts.last(), visited);
    }
}

/// The index of the last entry named `t`, as [`trait_entry`] states.
pub fn find_trait(g: &Vec<(String, Vec<String>)>, t: &String) -> (r: Option<usize>)
    ensures
        match r {
            Some(i) => trait_entry(g.deep_view(), t@) == Some(i as int),
            None => trait_entry(g.deep_view(), t@) is None,
        },
{
    let ghost gv = g.deep_view();
    let mut found: Option<usize> = None;
    let mut i: usize = 0;
    while i < g.len()
        invariant
            gv == g.deep_view(),
            i <= g.len(),
            match found {
                Some(k) => trait_entry(gv.subrange(0, i as int), t@) == Some(k as int),
                None => trait_entry(gv.subrange(0, i as int), t@) is None,
            },
        decreases g.len() - i,
    {
        assert(gv.subrange(0, i + 1).drop_last() =~= gv.subrange(0, i as int));
        if g[i].0 == *t {
            found = Some(i);
        }
        i += 1;
    }
    assert(gv.subrange(0, g.len() as int) =~= gv);
    found
}

/// The entry that [`trait_entry`] finds is one of the graph's, and a trait
/// is in the graph exactly when it finds one.
pub proof fn lemma_trait_entry(g: TraitGraph, t: Seq<char>)
    ensures
        trait_keys(g).contains(t) <==> trait_entry(g, t) is Some,
        match trait_entry(g, t) {
            Some(i) => 0 <= i < g.len() && g[i].0 == t,
            None => true,
        },
    decreases g.len(),
{
    if g.len() > 0 {
        lemma_trait_entry(g.drop_last(), t);
        let ks = g.map_values(|e: (Seq<char>, Seq<Seq<char>>)| e.0);
        let ks1 = g.drop_last().map_values(|e: (Seq<char>, Seq<Seq<char>>)| e.0);
        assert(ks1 =~= ks.drop_last());
        if g.last().0 == t {
            assert(ks[g.len() - 1] == t);
        } else if trait_keys(g).contains(t) {
            let j = choose|j: int| 0 <= j < ks.len() && ks[j] == t;
            assert(j != g.len() - 1);
            assert(ks1[j] == t);
        }
    }
}

/// Whether `x` is among the strings of `v`.
pub fn contains_string(v: &Vec<String>, x: &String) -> (r: bool)
    ensures
        r == v.deep_view().contains(x@),
{
    let mut i: usize = 0;
    while i < v.len()
        invariant
            i <= v.len(),
            forall|j: int| 0 <= j < i ==> v.deep_view()[j] != x@,
        decreases v.len() - i,
    {
        if v[i] == *x {
            assert(v.deep_view()[i as int] == x@);
            return true;
        }
        i += 1;
    }
    false
}


/// `g` with `t`'s entry set to `supertraits`, in place where `t` is listed.
pub open spec fn put_trait(g: TraitGraph, t: Seq<char>, supertraits: Seq<Seq<char>>) -> TraitGraph {
    match trait_entry(g, t) {
        Some(j) => g.update(j, (t, supertraits)),
        None => g.push((t, supertraits)),
    }
}

/// `m` with `tr` added to the traits of the type `ty`, once.
pub open spec fn put_impl(m: TraitGraph, ty: Seq<char>, tr: Seq<char>) -> TraitGraph {
    match trait_entry(m, ty) {
        Some(j) => if m[j].1.contains(tr) {
            m
        } else {
            m.update(j, (ty, m[j].1.push(tr)))
        },
        None => m.push((ty, seq![tr])),
    }
}

/// The graph after the first `hi` of `traits` are put in it.
pub open spec fn put_traits(g: TraitGraph, traits: Seq<TraitInfo>, hi: int) -> TraitGraph
    decreases hi,
{
    if hi <= 0 {
        g
    } else {
        put_trait(
            put_traits(g, traits, hi - 1),
            traits[hi - 1].name@,
            traits[hi - 1].supertraits.deep_view(),
        )
    }
}

/// The implementations after the first `hi` of `impls` are added.
pub open spec fn put_impls(m: TraitGraph, impls: Seq<ImplInfo>, hi: int) -> TraitGraph
    decreases hi,
{
    if hi <= 0 {
        m
    } else {
        put_impl(put_impls(m, impls, hi - 1), impls[hi - 1].implementor@, impls[hi - 1].trait_name@)
    }
}

/// The traits that type `ty` implements.
pub open spec fn impl_traits(m: TraitGraph, ty: Seq<char>) -> Seq<Seq<char>> {
    supers(m, ty)
}

/// The greatest trait depth of the first `hi` types of `m`.
pub open spec fn deepest_type(g: TraitGraph, m: TraitGraph, hi: int) -> nat
    decreases hi,
{
    if hi <= 0 {
        0
    } else {
        let rest = deepest_type(g, m, hi - 1);
        let here = deepest(g, impl_traits(m, m[hi - 1].0), Set::empty());
        if here > rest {
            here
        } else {
            rest
        }
    }
}

/// The traits and implementations of one file.
pub struct FileAnalyzer {
    pub traits: Vec<TraitInfo>,
    pub impls: Vec<ImplInfo>,
}

impl FileAnalyzer {
    /// An analyzer that has read nothing.
    pub fn new() -> (r: Self)
        ensures
            r.traits@.len() == 0,
            r.impls@.len() == 0,
    {
        FileAnalyzer { traits: Vec::new(), impls: Vec::new() }
    }
}

/// The figures of a [`TraitAnalyzer`].
pub struct AnalysisSummary {
    pub max_depth: usize,
    pub trait_count: usize,
    pub impl_count: usize,
}

/// Traits and implementations gathered from any number of files.
pub struct TraitAnalyzer {
    /// Each trait with its supertraits.
    pub trait_graph: Vec<(String, Vec<String>)>,
    /// Each implementing type with the traits it implements, each once.
    pub impl_map: Vec<(String, Vec<String>)>,
}

impl TraitAnalyzer {
    /// An analyzer that holds nothing.
    pub fn new() -> (r: Self)
        ensures
            r.trait_graph@.len() == 0,
            r.impl_map@.len() == 0,
    {
        TraitAnalyzer { trait_graph: Vec::new(), impl_map: Vec::new() }
    }

    /// Adds the traits and then the implementations of one file: a trait
    /// listed before gets the new supertraits.
    pub fn add_file_analysis(&mut self, file_analyzer: &FileAnalyzer)
        ensures
            final(self).trait_graph.deep_view() == put_traits(
                old(self).trait_graph.deep_view(),
                file_analyzer.traits@,
                file_analyzer.traits@.len() as int,
            ),
            final(self).impl_map.deep_view() == put_impls(
                old(self).impl_map.deep_view(),
                file_analyzer.impls@,
                file_analyzer.impls@.len() as int,
            ),
    {
        let ghost g0 = self.trait_graph.deep_view();
        let ghost m0 = self.impl_map.deep_view();
        let mut i: usize = 0;
        while i < file_analyzer.traits.len()
            invariant
                i <= file_analyzer.traits.len(),
                self.trait_graph.deep_view() == put_traits(g0, file_analyzer.traits@, i as int),
                self.impl_map.deep_view() == m0,
            decreases file_analyzer.traits.len() - i,
        {
            let t = &file_analyzer.traits[i];
            let ghost before = self.trait_graph.deep_view();
            let mut sup: Vec<String> = Vec::new();
            let mut k: usize = 0;
            while k < t.supertraits.len()
                invariant
                    k <= t.supertraits.len(),
                    sup.deep_view() == t.supertraits.deep_view().subrange(0, k as int),
                decreases t.supertraits.len() - k,
            {
                let ghost prev = sup.deep_view();
                sup.push(t.supertraits[k].clone());
                assert(sup.deep_view() =~= prev.push(t.supertraits[k as int]@));
                assert(sup.deep_view() =~= t.supertraits.deep_view().subrange(0, k + 1));
                k += 1;
            }
            assert(t.supertraits.deep_view().subrange(0, k as int) =~= t.supertraits.deep_view());
            let ghost e = (t.name@, t.supertraits.deep_view());
            match find_trait(&self.trait_graph, &t.name) {
                Some(j) => {
                    proof {
                        lemma_trait_entry(before, t.name@);
                    }
                    self.trait_graph.set(j, (t.name.clone(), sup));
                    assert(self.trait_graph.deep_view() =~= before.update(j as int, e));
                },
                None => {
                    self.trait_graph.push((t.name.clone(), sup));
                    assert(self.trait_graph.deep_view() =~= before.push(e));
                },
            }
            i += 1;
        }
        let mut i: usize = 0;
        while i < file_analyzer.impls.len()
            invariant
                i <= file_analyzer.impls.len(),
                self.trait_graph.deep_view() == put_traits(
                    g0,
                    file_analyzer.traits@,
                    file_analyzer.traits@.len() as int,
                ),
                self.impl_map.deep_view() == put_impls(m0, file_analyzer.impls@, i as int),
            decreases file_analyzer.impls.len() - i,
        {
            let imp = &file_analyzer.impls[i];
            let ghost before = self.impl_map.deep_view();
            match find_trait(&self.impl_map, &imp.implementor) {
                Some(j) => {
                    proof {
                        lemma_trait_entry(before, imp.implementor@);
                    }
                    if !contains_string(&self.impl_map[j].1, &imp.trait_name) {
                        let mut entry = (String::new(), Vec::new());
                        std::mem::swap(&mut entry, &mut self.impl_map[j]);
                        let mut traits = entry.1;
                        let ghost old_traits = traits.deep_view();
                        traits.push(imp.trait_name.clone());
                        assert(traits.deep_view() =~= old_traits.push(imp.trait_name@));
                        self.impl_map.set(j, (entry.0, traits));
                        assert(self.impl_map.deep_view() =~= before.update(
                            j as int,
                            (imp.implementor@, before[j as int].1.push(imp.trait_name@)),
                        ));
                    }
                },
                None => {
                    let mut traits: Vec<String> = Vec::new();
                    traits.push(imp.trait_name.clone());
                    assert(traits.deep_view() =~= seq![imp.trait_name@]);
                    self.impl_map.push((imp.implementor.clone(), traits));
                    assert(self.impl_map.deep_view() =~= before.push(
                        (imp.implementor@, seq![imp.trait_name@]),
                    ));
                },
            }
            i += 1;
        }
    }

    /// The greatest depth of the supertrait chains from the traits that
    /// `type_name` implements, as [`deepest`] states; 0 where it implements
    /// none, and 0 for a graph of `usize::MAX` traits.
    pub fn calculate_max_depth(&self, ty: &String) -> (r: usize)
        ensures
            self.trait_graph.len() < usize::MAX ==> r == deepest(
                self.trait_graph.deep_view(),
                impl_traits(self.impl_map.deep_view(), ty@),
                Set::empty(),
            ),
    {
        if self.trait_graph.len() == usize::MAX {
            return 0;
        }
        let ghost g = self.trait_graph.deep_view();
        let ghost m = self.impl_map.deep_view();
        let mut visited: Vec<String> = Vec::new();
        assert(visited.deep_view().to_set() =~= Set::<Seq<char>>::empty());
        let mut max_depth: usize = 0;
        match find_trait(&self.impl_map, ty) {
            None => {
                return 0;
            },
            Some(j) => {
                proof {
                    lemma_trait_entry(m, ty@);
                }
                let traits = &self.impl_map[j].1;
                let mut i: usize = 0;
                while i < traits.len()
                    invariant
                        g == self.trait_graph.deep_view(),
                        self.trait_graph.len() < usize::MAX,
                        traits.deep_view() == impl_traits(m, ty@),
                        visited.deep_view().len() == 0,
                        i <= traits.len(),
                        max_depth == deepest(g, traits.deep_view().subrange(0, i as int), Set::empty()),
                    decreases traits.len() - i,
                {
                    assert(traits.deep_view().subrange(0, i + 1).drop_last() =~= traits.deep_view().subrange(0, i as int));
                    assert(visited.deep_view().to_set() =~= Set::<Seq<char>>::empty());
                    let depth = self.dfs_trait_depth(&traits[i], &mut visited);
                    if depth > max_depth {
                        max_depth = depth;
                    }
                    i += 1;
                }
                assert(traits.deep_view().subrange(0, traits.len() as int) =~= traits.deep_view());
            },
        }
        max_depth
    }

    /// The depth of the supertrait chain from `trait_name`, the traits on
    /// `visited` excluded, as [`trait_depth`] states. `visited` is as it was
    /// when the call returns.
    pub fn dfs_trait_depth(&self, trait_name: &String, visited: &mut Vec<String>) -> (r: usize)
        requires
            self.trait_graph.len() < usize::MAX,
        ensures
            r == trait_depth(
                self.trait_graph.deep_view(),
                trait_name@,
                old(visited).deep_view().to_set(),
            ),
            final(visited).deep_view() == old(visited).deep_view(),
        decreases traits_left(self.trait_graph.deep_view(), old(visited).deep_view().to_set()),
    {
        let ghost g = self.trait_graph.deep_view();
        let ghost v0 = visited.deep_view();
        if contains_string(visited, trait_name) {
            return 0;
        }
        proof {
            lemma_trait_entry(g, trait_name@);
        }
        let idx = find_trait(&self.trait_graph, trait_name);
        let i = match idx {
            None => {
                return 1;
            },
            Some(i) => i,
        };
        let ghost vset = v0.to_set().insert(trait_name@);
        proof {
            lemma_traits_left_shrinks(g, v0.to_set(), trait_name@);
            let ks = g.map_values(|e: (Seq<char>, Seq<Seq<char>>)| e.0);
            ks.lemma_cardinality_of_set();
            vstd::seq_lib::seq_to_set_is_finite(ks);
            vstd::set_lib::lemma_len_subset(trait_keys(g).difference(v0.to_set()), trait_keys(g));
            lemma_deepest_bound(g, supers(g, trait_name@), vset);
        }
        visited.push(trait_name.clone());
        assert(visited.deep_view() =~= v0.push(trait_name@));
        proof {
            v0.lemma_push_to_set_commute(trait_name@);
        }
        let supertraits = &self.trait_graph[i].1;
        let mut max_depth: usize = 0;
        let mut k: usize = 0;
        while k < supertraits.len()
            invariant
                g == self.trait_graph.deep_view(),
                self.trait_graph.len() < usize::MAX,
                supertraits.deep_view() == supers(g, trait_name@),
                visited.deep_view() == v0.push(trait_name@),
                visited.deep_view().to_set() == vset,
                traits_left(g, vset) < traits_left(g, v0.to_set()),
                v0 == old(visited).deep_view(),
                deepest(g, supers(g, trait_name@), vset) < usize::MAX,
                k <= supertraits.len(),
                max_depth == deepest(g, supertraits.deep_view().subrange(0, k as int), vset),
            decreases supertraits.len() - k,
        {
            assert(supertraits.deep_view().subrange(0, k + 1).drop_last() =~= supertraits.deep_view().subrange(0, k as int));
            let depth = self.dfs_trait_depth(&supertraits[k], visited);
            assert(visited.deep_view().to_set() =~= vset);
            if depth > max_depth {
                max_depth = depth;
            }
            k += 1;
        }
        assert(supertraits.deep_view().subrange(0, supertraits.len() as int) =~= supertraits.deep_view());
        let ghost before = visited@;
        visited.pop();
        assert forall|j: int| 0 <= j < v0.len() implies visited.deep_view()[j] == v0[j] by {
            assert(visited@.len() == v0.len());
            assert(visited@[j] == before[j]);
            assert(v0.push(trait_name@)[j] == v0[j]);
        }
        assert(visited.deep_view() =~= v0);
        max_depth + 1
    }

    /// The greatest trait depth of any implementing type, and the numbers of
    /// traits and of implementing types.
    pub fn get_summary(&self) -> (r: AnalysisSummary)
        ensures
            self.trait_graph.len() < usize::MAX ==> r.max_depth == deepest_type(
                self.trait_graph.deep_view(),
                self.impl_map.deep_view(),
                self.impl_map.len() as int,
            ),
            r.trait_count == self.trait_graph.len(),
            r.impl_count == self.impl_map.len(),
    {
        let ghost g = self.trait_graph.deep_view();
        let ghost m = self.impl_map.deep_view();
        let mut max_depth: usize = 0;
        let mut i: usize = 0;
        while i < self.impl_map.len()
            invariant
                g == self.trait_graph.deep_view(),
                m == self.impl_map.deep_view(),
                i <= self.impl_map.len(),
                self.trait_graph.len() < usize::MAX ==> max_depth == deepest_type(g, m, i as int),
            decreases self.impl_map.len() - i,
        {
            let depth = self.calculate_max_depth(&self.impl_map[i].0);
            if depth > max_depth {
                max_depth = depth;
            }
            i += 1;
        }
        AnalysisSummary {
            max_depth,
            trait_count: self.trait_graph.len(),
            impl_count: self.impl_map.len(),
        }
    }
}


/// A name with white space, and `{` or `}` at its end, taken away.
pub open spec fn clean(s: Seq<char>) -> Seq<char> {
    trim(trim_end_char(trim_end_char(trim(s), '{'), '}'))
}

/// The cleaned pieces, the empty ones left out.
pub open spec fn clean_pieces(ps: Seq<Seq<char>>) -> Seq<Seq<char>>
    decreases ps.len(),
{
    if ps.len() == 0 {
        Seq::empty()
    } else {
        let rest = clean_pieces(ps.drop_last());
        if clean(ps.last()).len() > 0 {
            rest.push(clean(ps.last()))
        } else {
            rest
        }
    }
}

/// Whether a line begins a trait declaration, with any visibility and
/// `unsafe`.
pub open spec fn is_trait_start(line: Seq<char>) -> bool {
    let t = trim(line);
    starts_with(t, "trait "@) || starts_with(t, "pub trait "@) || starts_with(
        t,
        "pub(crate) trait "@,
    ) || starts_with(t, "pub(super) trait "@) || starts_with(t, "pub(self) trait "@) || (
    starts_with(t, "pub(in "@) && find(t, ") trait "@) is Some) || starts_with(
        t,
        "unsafe trait "@,
    ) || starts_with(t, "pub unsafe trait "@) || starts_with(t, "pub(crate) unsafe trait "@)
        || starts_with(t, "pub(super) unsafe trait "@)
}

/// Whether a line begins an `impl` block.
pub open spec fn is_impl_start(line: Seq<char>) -> bool {
    let t = trim(line);
    starts_with(t, "impl "@) || starts_with(t, "unsafe impl "@)
}

/// A line after its visibility and `unsafe`, where it then reads `trait `.
pub open spec fn after_trait_keyword(line: Seq<char>) -> Option<Seq<char>> {
    let c0 = trim(line);
    let c1 = if starts_with(c0, "pub("@) {
        match find(c0, seq![')']) {
            Some(e) => trim(c0.subrange(e + 1, c0.len() as int)),
            None => c0,
        }
    } else if starts_with(c0, "pub "@) {
        c0.subrange(4, c0.len() as int)
    } else {
        c0
    };
    let c2 = if starts_with(c1, "unsafe "@) {
        c1.subrange(7, c1.len() as int)
    } else {
        c1
    };
    if starts_with(c2, "trait "@) {
        Some(c2.subrange(6, c2.len() as int))
    } else {
        None
    }
}

/// The trait that a declaration line declares: its name, which ends at the
/// first `:` or `{`, and the supertraits listed with `+` between the `:` and
/// the `{`. Where the first `{` comes before the first `:`, the trait has no
/// supertraits. `None` where the line declares no trait or no name.
pub open spec fn trait_of_line(line: Seq<char>) -> Option<(Seq<char>, Seq<Seq<char>>)> {
    match after_trait_keyword(line) {
        None => None,
        Some(c) => {
            let colon = find(c, seq![':']);
            let brace = find(c, seq!['{']);
            let name_end = match colon {
                Some(a) => match brace {
                    Some(b) => if a < b {
                        a
                    } else {
                        b
                    },
                    None => a,
                },
                None => match brace {
                    Some(b) => b,
                    None => c.len() as int,
                },
            };
            let name = trim(c.subrange(0, name_end));
            if name.len() == 0 {
                None
            } else {
                let part_end = match brace {
                    Some(b) => b,
                    None => c.len() as int,
                };
                let sup = match colon {
                    Some(a) => if a < part_end {
                        clean_pieces(split(c.subrange(a + 1, part_end), '+'))
                    } else {
                        Seq::empty()
                    },
                    None => Seq::empty(),
                };
                Some((clean(name), sup))
            }
        },
    }
}

/// The trait and the type of an `impl Trait for Type` line; `None` where the
/// line has no ` for ` or either side is empty.
pub open spec fn impl_of_line(line: Seq<char>) -> Option<(Seq<char>, Seq<char>)> {
    let c0 = trim(line);
    let c1 = if starts_with(c0, "unsafe "@) {
        c0.subrange(7, c0.len() as int)
    } else {
        c0
    };
    if !starts_with(c1, "impl "@) {
        None
    } else {
        let c = c1.subrange(5, c1.len() as int);
        match find(c, " for "@) {
            Some(i) => {
                let tr = clean(trim(c.subrange(0, i)));
                let ty = clean(trim(c.subrange(i + 5, c.len() as int)));
                if tr.len() > 0 && ty.len() > 0 {
                    Some((tr, ty))
                } else {
                    None
                }
            },
            None => None,
        }
    }
}

/// A trait as a pair of its name and supertraits.
pub open spec fn trait_view(t: TraitInfo) -> (Seq<char>, Seq<Seq<char>>) {
    (t.name@, t.supertraits.deep_view())
}

/// An implementation as a pair of its trait and its type.
pub open spec fn impl_view(i: ImplInfo) -> (Seq<char>, Seq<char>) {
    (i.trait_name@, i.implementor@)
}

/// What reading one line adds: a trait where it declares one, else an
/// implementation where it has one.
pub open spec fn line_effect(
    traits: Seq<(Seq<char>, Seq<Seq<char>>)>,
    impls: Seq<(Seq<char>, Seq<char>)>,
    line: Seq<char>,
) -> (Seq<(Seq<char>, Seq<Seq<char>>)>, Seq<(Seq<char>, Seq<char>)>) {
    if is_trait_start(line) {
        match trait_of_line(line) {
            Some(t) => (traits.push(t), impls),
            None => (traits, impls),
        }
    } else if is_impl_start(line) {
        match impl_of_line(line) {
            Some(i) => (traits, impls.push(i)),
            None => (traits, impls),
        }
    } else {
        (traits, impls)
    }
}

/// `s` with white space and trailing `{` and `}` taken away, as [`clean`]
/// states.
pub fn clean_chars(s: &Vec<char>) -> (r: Vec<char>)
    ensures
        r@ == clean(s@),
{
    let a = trim_chars(s);
    let b = trim_end_matches(&a, '{');
    let c = trim_end_matches(&b, '}');
    trim_chars(&c)
}

/// Whether `line` begins a trait declaration, as [`is_trait_start`] states.
pub fn is_trait_start_chars(line: &Vec<char>) -> (r: bool)
    ensures
        r == is_trait_start(line@),
{
    let t = trim_chars(line);
    let close = to_chars(") trait ");
    begins_with(&t, "trait ") || begins_with(&t, "pub trait ") || begins_with(
        &t,
        "pub(crate) trait ",
    ) || begins_with(&t, "pub(super) trait ") || begins_with(&t, "pub(self) trait ") || (
    begins_with(&t, "pub(in ") && find_chars(&t, &close).is_some()) || begins_with(
        &t,
        "unsafe trait ",
    ) || begins_with(&t, "pub unsafe trait ") || begins_with(&t, "pub(crate) unsafe trait ")
        || begins_with(&t, "pub(super) unsafe trait ")
}

/// Whether `line` begins an `impl` block, as [`is_impl_start`] states.
pub fn is_impl_start_chars(line: &Vec<char>) -> (r: bool)
    ensures
        r == is_impl_start(line@),
{
    let t = trim_chars(line);
    begins_with(&t, "impl ") || begins_with(&t, "unsafe impl ")
}

/// The cleaned, non-empty pieces of `ps`, as [`clean_pieces`] states.
fn clean_all(ps: &Vec<Vec<char>>) -> (r: Vec<String>)
    ensures
        r.deep_view() == clean_pieces(ps.deep_view()),
{
    let mut out: Vec<String> = Vec::new();
    let mut i: usize = 0;
    while i < ps.len()
        invariant
            i <= ps.len(),
            out.deep_view() == clean_pieces(ps.deep_view().subrange(0, i as int)),
        decreases ps.len() - i,
    {
        assert(ps.deep_view().subrange(0, i + 1).drop_last() =~= ps.deep_view().subrange(0, i as int));
        assert(ps.deep_view()[i as int] =~= ps[i as int]@);
        let c = clean_chars(&ps[i]);
        if c.len() > 0 {
            let ghost before = out.deep_view();
            out.push(string_of(&c));
            assert(out.deep_view() =~= before.push(c@));
        }
        i += 1;
    }
    assert(ps.deep_view().subrange(0, ps.len() as int) =~= ps.deep_view());
    out
}

/// `line` after its visibility and `unsafe`, where it then reads `trait `,
/// as [`after_trait_keyword`] states.
fn strip_trait_keyword(line: &Vec<char>) -> (r: Option<Vec<char>>)
    ensures
        match r {
            Some(c) => after_trait_keyword(line@) == Some(c@),
            None => after_trait_keyword(line@) is None,
        },
{
    let c0 = trim_chars(line);
    let c1 = if begins_with(&c0, "pub(") {
        match find_char(&c0, ')') {
            Some(e) => {
                proof {
                    lemma_find(c0@, seq![')']);
                }
                assert(crate::text::occurs_at(c0@, seq![')'], e as int));
                let n = c0.len();
                let rest = crate::text::slice(&c0, e + 1, n);
                trim_chars(&rest)
            },
            None => c0,
        }
    } else if begins_with(&c0, "pub ") {
        proof {
            reveal_strlit("pub ");
        }
        crate::text::slice(&c0, 4, c0.len())
    } else {
        c0
    };
    let c2 = if begins_with(&c1, "unsafe ") {
        proof {
            reveal_strlit("unsafe ");
        }
        crate::text::slice(&c1, 7, c1.len())
    } else {
        c1
    };
    if begins_with(&c2, "trait ") {
        proof {
            reveal_strlit("trait ");
        }
        Some(crate::text::slice(&c2, 6, c2.len()))
    } else {
        None
    }
}

/// The name and supertraits of the trait that `line` declares, as
/// [`trait_of_line`] states.
pub fn parse_trait_chars(line: &Vec<char>) -> (r: Option<TraitInfo>)
    ensures
        match r {
            Some(t) => trait_of_line(line@) == Some(trait_view(t)),
            None => trait_of_line(line@) is None,
        },
{
    let c = match strip_trait_keyword(line) {
        None => {
            return None;
        },
        Some(c) => c,
    };
    proof {
        lemma_find(c@, seq![':']);
        lemma_find(c@, seq!['{']);
    }
    let colon = find_char(&c, ':');
    let brace = find_char(&c, '{');
    let name_end: usize = match colon {
        Some(a) => match brace {
            Some(b) => if a < b {
                a
            } else {
                b
            },
            None => a,
        },
        None => match brace {
            Some(b) => b,
            None => c.len(),
        },
    };
    let raw = crate::text::slice(&c, 0, name_end);
    let name = trim_chars(&raw);
    if name.len() == 0 {
        return None;
    }
    let part_end: usize = match brace {
        Some(b) => b,
        None => c.len(),
    };
    let supertraits = match colon {
        Some(a) => if a < part_end {
            let part = crate::text::slice(&c, a + 1, part_end);
            let pieces = split_chars(&part, '+');
            clean_all(&pieces)
        } else {
            let v: Vec<String> = Vec::new();
            assert(v.deep_view() =~= Seq::<Seq<char>>::empty());
            v
        },
        None => {
            let v: Vec<String> = Vec::new();
            assert(v.deep_view() =~= Seq::<Seq<char>>::empty());
            v
        },
    };
    let cleaned = clean_chars(&name);
    Some(TraitInfo { name: string_of(&cleaned), supertraits })
}

/// The trait and type of an `impl Trait for Type` line, as
/// [`impl_of_line`] states.
pub fn parse_impl_chars(line: &Vec<char>) -> (r: Option<ImplInfo>)
    ensures
        match r {
            Some(i) => impl_of_line(line@) == Some(impl_view(i)),
            None => impl_of_line(line@) is None,
        },
{
    let c0 = trim_chars(line);
    let c1 = if begins_with(&c0, "unsafe ") {
        proof {
            reveal_strlit("unsafe ");
        }
        crate::text::slice(&c0, 7, c0.len())
    } else {
        c0
    };
    if !begins_with(&c1, "impl ") {
        return None;
    }
    proof {
        reveal_strlit("impl ");
    }
    let c = crate::text::slice(&c1, 5, c1.len());
    let sep = to_chars(" for ");
    proof {
        reveal_strlit(" for ");
        lemma_find(c@, sep@);
    }
    match find_chars(&c, &sep) {
        Some(i) => {
            let left = crate::text::slice(&c, 0, i);
            let right = crate::text::slice(&c, i + 5, c.len());
            let tl = trim_chars(&left);
            let tr = clean_chars(&tl);
            let yl = trim_chars(&right);
            let ty = clean_chars(&yl);
            if tr.len() > 0 && ty.len() > 0 {
                Some(ImplInfo { implementor: string_of(&ty), trait_name: string_of(&tr) })
            } else {
                None
            }
        },
        None => None,
    }
}


/// What a file analyzer has found: its traits and its implementations.
pub open spec fn found(f: FileAnalyzer) -> (
    Seq<(Seq<char>, Seq<Seq<char>>)>,
    Seq<(Seq<char>, Seq<char>)>,
) {
    (f.traits@.map_values(|t: TraitInfo| trait_view(t)), f.impls@.map_values(|i: ImplInfo| impl_view(i)))
}

/// Where reading a file stands: the line read so far, whether a declaration
/// spreading over several lines is being gathered and what of it, and what
/// has been found.
pub ghost struct ScanState {
    pub line: Seq<char>,
    pub multi: bool,
    pub buf: Seq<char>,
    pub traits: Seq<(Seq<char>, Seq<Seq<char>>)>,
    pub impls: Seq<(Seq<char>, Seq<char>)>,
}

/// Whether a declaration line is still open: it has no `{` and does not end
/// in `;`.
pub open spec fn still_open(t: Seq<char>) -> bool {
    find(t, seq!['{']) is None && !(t.len() > 0 && t.last() == ';')
}

/// One character read. A line break ends the line and reads it, or, in a
/// declaration over several lines, stands as a space in it. A `{` ends such
/// a declaration, which is then read. After the character, a line that
/// begins a trait or an `impl` and is still open starts such a declaration.
pub open spec fn scan_step(st: ScanState, ch: char) -> ScanState {
    let s1 = if ch == '\n' || ch == '\r' {
        if !st.multi {
            let (t, i) = line_effect(st.traits, st.impls, trim(st.line));
            ScanState { line: Seq::empty(), traits: t, impls: i, ..st }
        } else {
            ScanState { buf: st.buf.push(' '), ..st }
        }
    } else if ch == '{' {
        if st.multi {
            let (t, i) = line_effect(st.traits, st.impls, trim(st.buf.push('{')));
            ScanState {
                line: st.line.push('{'),
                multi: false,
                buf: Seq::empty(),
                traits: t,
                impls: i,
            }
        } else {
            ScanState { line: st.line.push('{'), ..st }
        }
    } else if ch == '}' {
        ScanState { line: st.line.push('}'), ..st }
    } else {
        ScanState {
            line: st.line.push(ch),
            buf: if st.multi {
                st.buf.push(ch)
            } else {
                st.buf
            },
            ..st
        }
    };
    if !s1.multi && (is_trait_start(s1.line) || is_impl_start(s1.line)) && still_open(
        trim(s1.line),
    ) {
        ScanState { multi: true, buf: s1.line, line: Seq::empty(), ..s1 }
    } else {
        s1
    }
}

/// The state after the first `i` characters of `s`.
pub open spec fn scan_upto(init: ScanState, s: Seq<char>, i: int) -> ScanState
    decreases i,
{
    if i <= 0 {
        init
    } else {
        scan_step(scan_upto(init, s, i - 1), s[i - 1])
    }
}

/// What reading the whole of `s` finds after `traits` and `impls`: a last
/// line without a line break is read too; an unfinished declaration over
/// several lines is not.
pub open spec fn scan_content(
    traits: Seq<(Seq<char>, Seq<Seq<char>>)>,
    impls: Seq<(Seq<char>, Seq<char>)>,
    s: Seq<char>,
) -> (Seq<(Seq<char>, Seq<Seq<char>>)>, Seq<(Seq<char>, Seq<char>)>) {
    let init = ScanState {
        line: Seq::empty(),
        multi: false,
        buf: Seq::empty(),
        traits,
        impls,
    };
    let st = scan_upto(init, s, s.len() as int);
    if trim(st.line).len() > 0 {
        line_effect(st.traits, st.impls, trim(st.line))
    } else {
        (st.traits, st.impls)
    }
}

impl FileAnalyzer {
    /// Reads `content` whole, as [`scan_content`] states.
    pub fn parse_content(&mut self, content: &str)
        ensures
            found(*final(self)) == scan_content(found(*old(self)).0, found(*old(self)).1, content@),
    {
        let chars = to_chars(content);
        let ghost init = ScanState {
            line: Seq::empty(),
            multi: false,
            buf: Seq::empty(),
            traits: found(*self).0,
            impls: found(*self).1,
        };
        let mut current_line: Vec<char> = Vec::new();
        let mut in_multiline_declaration = false;
        let mut declaration_buffer: Vec<char> = Vec::new();
        let mut i: usize = 0;
        while i < chars.len()
            invariant
                chars@ == content@,
                i <= chars.len(),
                scan_upto(init, chars@, i as int) == (ScanState {
                    line: current_line@,
                    multi: in_multiline_declaration,
                    buf: declaration_buffer@,
                    traits: found(*self).0,
                    impls: found(*self).1,
                }),
            decreases chars.len() - i,
        {
            let ch = chars[i];
            if ch == '\n' || ch == '\r' {
                if !in_multiline_declaration {
                    let t = trim_chars(&current_line);
                    self.process_line_chars(&t);
                    current_line = Vec::new();
                } else {
                    declaration_buffer.push(' ');
                }
            } else if ch == '{' {
                current_line.push(ch);
                if in_multiline_declaration {
                    declaration_buffer.push(ch);
                    let t = trim_chars(&declaration_buffer);
                    self.process_line_chars(&t);
                    declaration_buffer = Vec::new();
                    in_multiline_declaration = false;
                }
            } else if ch == '}' {
                current_line.push(ch);
            } else {
                current_line.push(ch);
                if in_multiline_declaration {
                    declaration_buffer.push(ch);
                }
            }
            if !in_multiline_declaration && (is_trait_start_chars(&current_line)
                || is_impl_start_chars(&current_line)) {
                let trimmed = trim_chars(&current_line);
                proof {
                    lemma_find(trimmed@, seq!['{']);
                }
                let has_brace = find_char(&trimmed, '{').is_some();
                let ends_semi = trimmed.len() > 0 && trimmed[trimmed.len() - 1] == ';';
                if !has_brace && !ends_semi {
                    in_multiline_declaration = true;
                    declaration_buffer = current_line;
                    current_line = Vec::new();
                }
            }
            assert(current_line@ == scan_upto(init, chars@, i + 1).line);
            i += 1;
        }
        let t = trim_chars(&current_line);
        if t.len() > 0 {
            self.process_line_chars(&t);
        }
    }

    /// Reads one line, as [`line_effect`] states.
    pub fn process_line_chars(&mut self, line: &Vec<char>)
        ensures
            found(*final(self)) == line_effect(found(*old(self)).0, found(*old(self)).1, line@),
    {
        let ghost before = found(*self);
        if is_trait_start_chars(line) {
            match parse_trait_chars(line) {
                Some(t) => {
                    let ghost tv = trait_view(t);
                    self.traits.push(t);
                    assert(found(*self).0 =~= before.0.push(tv));
                    assert(found(*self).1 =~= before.1);
                },
                None => {},
            }
        } else if is_impl_start_chars(line) {
            match parse_impl_chars(line) {
                Some(imp) => {
                    let ghost iv = impl_view(imp);
                    self.impls.push(imp);
                    assert(found(*self).1 =~= before.1.push(iv));
                    assert(found(*self).0 =~= before.0);
                },
                None => {},
            }
        }
    }

    /// Reads one line, as [`line_effect`] states.
    pub fn process_line(&mut self, line: &str)
        ensures
            found(*final(self)) == line_effect(found(*old(self)).0, found(*old(self)).1, line@),
    {
        let chars = to_chars(line);
        self.process_line_chars(&chars);
    }

    /// Whether `line` begins a trait declaration, as [`is_trait_start`]
    /// states.
    pub fn is_trait_declaration_start(&self, line: &str) -> (r: bool)
        ensures
            r == is_trait_start(line@),
    {
        is_trait_start_chars(&to_chars(line))
    }

    /// Whether `line` begins an `impl` block, as [`is_impl_start`] states.
    pub fn is_impl_declaration_start(&self, line: &str) -> (r: bool)
        ensures
            r == is_impl_start(line@),
    {
        is_impl_start_chars(&to_chars(line))
    }

    /// The trait that `line` declares, as [`trait_of_line`] states.
    pub fn parse_trait_declaration(&self, line: &str) -> (r: Option<TraitInfo>)
        ensures
            match r {
                Some(t) => trait_of_line(line@) == Some(trait_view(t)),
                None => trait_of_line(line@) is None,
            },
    {
        parse_trait_chars(&to_chars(line))
    }

    /// The trait and type of an `impl Trait for Type` line, as
    /// [`impl_of_line`] states.
    pub fn parse_impl_declaration(&self, line: &str) -> (r: Option<ImplInfo>)
        ensures
            match r {
                Some(i) => impl_of_line(line@) == Some(impl_view(i)),
                None => impl_of_line(line@) is None,
            },
    {
        parse_impl_chars(&to_chars(line))
    }

    /// `identifier` without white space, and `{` or `}` at its end, as
    /// [`clean`] states.
    pub fn clean_identifier(&self, identifier: &str) -> (r: String)
        ensures
            r@ == clean(identifier@),
    {
        string_of(&clean_chars(&to_chars(identifier)))
    }
}

} // verus!
