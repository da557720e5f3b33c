//! The composition graph and the depth of each struct in it.
//!
//! A graph lists, for each struct, its module-qualified name and the resolved
//! names of its field types. Where a name is listed twice, the later entry
//! holds. A field type that names no struct of the graph adds nothing.

use vstd::prelude::*;
use crate::names::{Name, same_name, copy_name};

verus! {

/// A graph in the form the depth rules speak of.
pub type Graph = Seq<(Name, Seq<Name>)>;

/// The structs that a graph holds.
pub open spec fn keys(g: Graph) -> Set<Name> {
    g.map_values(|e: (Name, Seq<Name>)| e.0).to_set()
}

/// The index of the last entry of `g` for the struct `n`.
pub open spec fn last_entry(g: Graph, n: Name) -> Option<int>
    decreases g.len(),
{
    if g.len() == 0 {
        None
    } else if g.last().0 == n {
        Some(g.len() - 1)
    } else {
        last_entry(g.drop_last(), n)
    }
}

/// The field types of the struct `n`: empty where `n` is no struct of `g`.
pub open spec fn edges(g: Graph, n: Name) -> Seq<Name> {
    match last_entry(g, n) {
        Some(i) => g[i].1,
        None => Seq::empty(),
    }
}

/// How many structs of `g` lie outside `visited`.
pub open spec fn unvisited(g: Graph, visited: Set<Name>) -> int {
    keys(g).difference(visited).len() as int
}

/// Visiting a struct not yet visited leaves one fewer to visit.
pub proof fn lemma_unvisited_shrinks(g: Graph, visited: Set<Name>, n: Name)
    requires
        keys(g).contains(n),
        !visited.contains(n),
    ensures
        unvisited(g, visited.insert(n)) == unvisited(g, visited) - 1,
        unvisited(g, visited) >= 1,
{
    let ks = g.map_values(|e: (Name, Seq<Name>)| e.0);
    ks.lemma_cardinality_of_set();
    vstd::seq_lib::seq_to_set_is_finite(ks);
    assert(keys(g).difference(visited.insert(n)) =~= keys(g).difference(visited).remove(n));
}

/// The length of the longest chain of composition edges from `n`, the
/// structs in `visited` excluded, that repeats no struct before its last step.
/// An edge back onto a struct of the chain (or of `visited`) still counts as
/// one step, and the chain ends there.
pub open spec fn chain_len(g: Graph, n: Name, visited: Set<Name>) -> nat
    decreases unvisited(g, visited), 0int, 0int,
{
    if keys(g).contains(n) && !visited.contains(n) {
        proof {
            lemma_unvisited_shrinks(g, visited, n);
        }
        longest_step(g, edges(g, n), visited.insert(n))
    } else {
        0
    }
}

/// The longest chain that starts with a step to one of the structs among
/// `cs`; 0 where `cs` names no struct of `g`.
pub open spec fn longest_step(g: Graph, cs: Seq<Name>, visited: Set<Name>) -> nat
    decreases unvisited(g, visited), 1int, cs.len(),
{
    if cs.len() == 0 {
        0
    } else {
        let rest = longest_step(g, cs.drop_last(), visited);
        if keys(g).contains(cs.last()) {
            let here = 1 + chain_len(g, cs.last(), visited);
            if here > rest {
                here
            } else {
                rest
            }
        } else {
            rest
        }
    }
}

/// The composition depth of `n`: the struct itself counts 1, and each step of
/// its longest chain 1 more.
pub open spec fn depth(g: Graph, n: Name) -> nat {
    1 + chain_len(g, n, Set::empty())
}

/// The index of the last entry for `name`, as [`last_entry`] states.
pub fn find_entry(struct_map: &Vec<(Vec<String>, Vec<Vec<String>>)>, name: &Vec<String>) -> (r:
    Option<usize>)
    ensures
        match r {
            Some(i) => last_entry(struct_map.deep_view(), name.deep_view()) == Some(i as int),
            None => last_entry(struct_map.deep_view(), name.deep_view()) is None,
        },
{
    let ghost g = struct_map.deep_view();
    let ghost n = name.deep_view();
    let mut found: Option<usize> = None;
    let mut i: usize = 0;
    while i < struct_map.len()
        invariant
            g == struct_map.deep_view(),
            n == name.deep_view(),
            i <= struct_map.len(),
            match found {
                Some(k) => last_entry(g.subrange(0, i as int), n) == Some(k as int),
                None => last_entry(g.subrange(0, i as int), n) is None,
            },
        decreases struct_map.len() - i,
    {
        assert(g.subrange(0, i + 1).drop_last() =~= g.subrange(0, i as int));
        if same_name(&struct_map[i].0, name) {
            found = Some(i);
        }
        i += 1;
    }
    assert(g.subrange(0, struct_map.len() as int) =~= g);
    found
}

/// Whether `name` is a struct of the graph.
pub proof fn lemma_last_entry_key(g: Graph, n: Name)
    ensures
        keys(g).contains(n) <==> last_entry(g, n) is Some,
        match last_entry(g, n) {
            Some(i) => 0 <= i < g.len() && g[i].0 == n,
            None => true,
        },
    decreases g.len(),
{
    if g.len() > 0 {
        lemma_last_entry_key(g.drop_last(), n);
        let ks = g.map_values(|e: (Name, Seq<Name>)| e.0);
        let ks1 = g.drop_last().map_values(|e: (Name, Seq<Name>)| e.0);
        assert(ks1 =~= ks.drop_last());
        if g.last().0 == n {
            assert(ks[g.len() - 1] == n);
        } else if keys(g).contains(n) {
            let j = choose|j: int| 0 <= j < ks.len() && ks[j] == n;
            assert(j != g.len() - 1);
            assert(ks1[j] == n);
        }
    }
}

/// Whether the set view of a stack contains `x`.
pub fn contains_name(stack: &Vec<Vec<String>>, x: &Vec<String>) -> (r: bool)
    ensures
        r == stack.deep_view().contains(x.deep_view()),
{
    let mut i: usize = 0;
    while i < stack.len()
        invariant
            i <= stack.len(),
            forall|j: int| 0 <= j < i ==> stack.deep_view()[j] != x.deep_view(),
        decreases stack.len() - i,
    {
        if same_name(&stack[i], x) {
            assert(stack.deep_view()[i as int] == x.deep_view());
            return true;
        }
        i += 1;
    }
    false
}

/// The depth that a chain reaches from `struct_name` when `curr_depth` structs
/// stand before it, the structs on `visited` excluded. `visited` is as it was
/// when the call returns.
pub fn calculate_max_struct_depth(
    struct_map: &Vec<(Vec<String>, Vec<Vec<String>>)>,
    struct_name: &Vec<String>,
    visited: &mut Vec<Vec<String>>,
    curr_depth: usize,
) -> (r: usize)
    requires
        curr_depth + unvisited(struct_map.deep_view(), old(visited).deep_view().to_set())
            <= usize::MAX,
    ensures
        r == curr_depth + chain_len(
            struct_map.deep_view(),
            struct_name.deep_view(),
            old(visited).deep_view().to_set(),
        ),
        final(visited).deep_view() == old(visited).deep_view(),
    decreases unvisited(struct_map.deep_view(), old(visited).deep_view().to_set()),
{
    let ghost g = struct_map.deep_view();
    let ghost n = struct_name.deep_view();
    let ghost v0 = visited.deep_view();
    if contains_name(visited, struct_name) {
        return curr_depth;
    }
    proof {
        lemma_last_entry_key(g, n);
    }
    let idx = find_entry(struct_map, struct_name);
    let i = match idx {
        None => {
            return curr_depth;
        },
        Some(i) => i,
    };
    let ghost vset = v0.to_set().insert(n);
    proof {
        lemma_unvisited_shrinks(g, v0.to_set(), n);
    }
    visited.push(copy_name(struct_name));
    assert(visited.deep_view() =~= v0.push(n));
    proof {
        v0.lemma_push_to_set_commute(n);
    }
    let fields = &struct_map[i].1;
    assert(fields.deep_view() == edges(g, n));
    let mut max_depth = curr_depth;
    let mut k: usize = 0;
    while k < fields.len()
        invariant
            g == struct_map.deep_view(),
            fields.deep_view() == edges(g, n),
            visited.deep_view() == v0.push(n),
            visited.deep_view().to_set() == vset,
            curr_depth + 1 + unvisited(g, vset) <= usize::MAX,
            unvisited(g, vset) < unvisited(g, v0.to_set()),
            v0 == old(visited).deep_view(),
            k <= fields.len(),
            max_depth == curr_depth + longest_step(g, fields.deep_view().subrange(0, k as int), vset),
        decreases fields.len() - k,
    {
        let ghost cs = fields.deep_view().subrange(0, k + 1);
        assert(cs.drop_last() =~= fields.deep_view().subrange(0, k as int));
        assert(cs.last() == fields[k as int].deep_view());
        proof {
            lemma_last_entry_key(g, fields[k as int].deep_view());
        }
        if find_entry(struct_map, &fields[k]).is_some() {
            let d = calculate_max_struct_depth(struct_map, &fields[k], visited, curr_depth + 1);
            assert(visited.deep_view().to_set() =~= vset);
            if d > max_depth {
                max_depth = d;
            }
        }
        k += 1;
    }
    assert(fields.deep_view().subrange(0, fields.len() as int) =~= fields.deep_view());
    let ghost before = visited@;
    visited.pop();
    assert forall|j: int| 0 <= j < v0.len() implies visited.deep_view()[j] == v0[j] by {
        assert(visited@.len() == v0.len());
        assert(visited@[j] == before[j]);
        assert(v0.push(n)[j] == v0[j]);
    }
    assert(visited.deep_view() =~= v0);
    max_depth
}


/// A list of field types that names no struct adds no step.
pub proof fn lemma_no_struct_no_step(g: Graph, cs: Seq<Name>, visited: Set<Name>)
    requires
        forall|i: int| 0 <= i < cs.len() ==> !keys(g).contains(#[trigger] cs[i]),
    ensures
        longest_step(g, cs, visited) == 0,
    decreases cs.len(),
{
    if cs.len() > 0 {
        assert(!keys(g).contains(cs[cs.len() - 1]));
        lemma_no_struct_no_step(g, cs.drop_last(), visited);
    }
}

/// From a struct none of whose field types names a struct, no chain takes a
/// step, whatever has been visited.
pub proof fn lemma_leaf_chain(g: Graph, n: Name, visited: Set<Name>)
    requires
        forall|i: int| 0 <= i < edges(g, n).len() ==> !keys(g).contains(#[trigger] edges(g, n)[i]),
    ensures
        chain_len(g, n, visited) == 0,
{
    if keys(g).contains(n) && !visited.contains(n) {
        lemma_no_struct_no_step(g, edges(g, n), visited.insert(n));
    }
}

/// A struct none of whose field types names a struct has depth 1.
pub proof fn lemma_leaf_depth(g: Graph, n: Name)
    requires
        forall|i: int| 0 <= i < edges(g, n).len() ==> !keys(g).contains(#[trigger] edges(g, n)[i]),
    ensures
        depth(g, n) == 1,
{
    lemma_leaf_chain(g, n, Set::empty());
}

/// A chain takes no more steps than there are structs left to visit.
pub proof fn lemma_chain_len_bound(g: Graph, n: Name, visited: Set<Name>)
    ensures
        chain_len(g, n, visited) <= unvisited(g, visited),
    decreases unvisited(g, visited), 0int, 0int,
{
    if keys(g).contains(n) && !visited.contains(n) {
        lemma_unvisited_shrinks(g, visited, n);
        lemma_longest_step_bound(g, edges(g, n), visited.insert(n));
    }
}

/// [`lemma_chain_len_bound`] for the steps from a list of field types.
pub proof fn lemma_longest_step_bound(g: Graph, cs: Seq<Name>, visited: Set<Name>)
    ensures
        longest_step(g, cs, visited) <= unvisited(g, visited) + 1,
    decreases unvisited(g, visited), 1int, cs.len(),
{
    if cs.len() > 0 {
        lemma_longest_step_bound(g, cs.drop_last(), visited);
        lemma_chain_len_bound(g, cs.last(), visited);
    }
}

/// Every depth is finite and bounded, cycles included: at least 1 and at
/// most one more than the number of entries of the graph.
pub proof fn lemma_depth_bounded(g: Graph, n: Name)
    ensures
        1 <= depth(g, n) <= g.len() + 1,
{
    lemma_chain_len_bound(g, n, Set::empty());
    let ks = g.map_values(|e: (Name, Seq<Name>)| e.0);
    ks.lemma_cardinality_of_set();
    assert(keys(g).difference(Set::empty()) =~= keys(g));
}

/// Where every struct among `cs` is `n`, already visited, the longest step is
/// 1 if `n` is among `cs` and 0 if not.
pub proof fn lemma_steps_onto_visited(g: Graph, cs: Seq<Name>, visited: Set<Name>, n: Name)
    requires
        keys(g).contains(n),
        visited.contains(n),
        forall|i: int| 0 <= i < cs.len() && keys(g).contains(#[trigger] cs[i]) ==> cs[i] == n,
    ensures
        longest_step(g, cs, visited) == (if cs.contains(n) {
            1nat
        } else {
            0nat
        }),
    decreases cs.len(),
{
    if cs.len() > 0 {
        let init = cs.drop_last();
        assert forall|i: int| 0 <= i < init.len() && keys(g).contains(#[trigger] init[i]) implies init[i]
            == n by {
            assert(init[i] == cs[i]);
        }
        lemma_steps_onto_visited(g, init, visited, n);
        assert(chain_len(g, n, visited) == 0);
        assert(cs.last() == cs[cs.len() - 1]);
        assert(keys(g).contains(cs.last()) ==> cs[cs.len() - 1] == n);
        if cs.contains(n) && !init.contains(n) {
            let j = choose|j: int| 0 <= j < cs.len() && cs[j] == n;
            if j < init.len() {
                assert(init[j] == n);
            }
        }
        if init.contains(n) {
            let j = choose|j: int| 0 <= j < init.len() && init[j] == n;
            assert(cs[j] == n);
        }
        if cs.last() == n {
            assert(cs[cs.len() - 1] == n);
        }
    }
}

/// A struct whose only struct-typed fields name itself has depth 2: the cycle
/// is cut after one step.
pub proof fn lemma_self_reference_depth(g: Graph, n: Name)
    requires
        keys(g).contains(n),
        edges(g, n).contains(n),
        forall|i: int|
            0 <= i < edges(g, n).len() && keys(g).contains(#[trigger] edges(g, n)[i]) ==> edges(
                g,
                n,
            )[i] == n,
    ensures
        depth(g, n) == 2,
{
    lemma_steps_onto_visited(g, edges(g, n), Set::empty().insert(n), n);
}

/// A chain of four structs, each with a single field of the next and the last
/// with none, gives the first depth 4.
pub proof fn lemma_chain_depth(g: Graph, a: Name, b: Name, c: Name, d: Name)
    requires
        keys(g).contains(a),
        keys(g).contains(b),
        keys(g).contains(c),
        keys(g).contains(d),
        a != b,
        a != c,
        a != d,
        b != c,
        b != d,
        c != d,
        edges(g, a) == seq![b],
        edges(g, b) == seq![c],
        edges(g, c) == seq![d],
        edges(g, d) == Seq::<Name>::empty(),
    ensures
        depth(g, a) == 4,
{
    let v1 = Set::empty().insert(a);
    let v2 = v1.insert(b);
    let v3 = v2.insert(c);
    let v4 = v3.insert(d);
    assert(chain_len(g, d, v3) == longest_step(g, Seq::empty(), v4));
    assert(seq![d].drop_last() =~= Seq::<Name>::empty());
    assert(seq![c].drop_last() =~= Seq::<Name>::empty());
    assert(seq![b].drop_last() =~= Seq::<Name>::empty());
    assert(chain_len(g, d, v3) == 0);
    assert(seq![d].last() == d);
    assert(seq![c].last() == c);
    assert(seq![b].last() == b);
    assert(longest_step(g, Seq::empty(), v3) == 0);
    assert(longest_step(g, Seq::empty(), v2) == 0);
    assert(longest_step(g, Seq::empty(), v1) == 0);
    assert(longest_step(g, seq![d], v3) == 1);
    assert(chain_len(g, c, v2) == 1);
    assert(longest_step(g, seq![c], v2) == 2);
    assert(chain_len(g, b, v1) == 2);
    assert(longest_step(g, seq![b], v1) == 3);
    assert(chain_len(g, a, Set::empty()) == 3);
}

/// Where `a` holds `b` and `c`, both of which hold `d`, and `d` holds no
/// struct, `a` has depth 3: the shared `d` is counted once on each path.
pub proof fn lemma_diamond_depth(g: Graph, a: Name, b: Name, c: Name, d: Name)
    requires
        keys(g).contains(a),
        keys(g).contains(b),
        keys(g).contains(c),
        keys(g).contains(d),
        a != b,
        a != c,
        a != d,
        b != c,
        b != d,
        c != d,
        edges(g, a) == seq![b, c],
        edges(g, b) == seq![d],
        edges(g, c) == seq![d],
        edges(g, d) == Seq::<Name>::empty(),
    ensures
        depth(g, a) == 3,
{
    let v1 = Set::empty().insert(a);
    let vb = v1.insert(b);
    let vc = v1.insert(c);
    assert(seq![d].drop_last() =~= Seq::<Name>::empty());
    assert(seq![b].drop_last() =~= Seq::<Name>::empty());
    assert(seq![b, c].drop_last() =~= seq![b]);
    assert(chain_len(g, d, vb) == longest_step(g, Seq::empty(), vb.insert(d)));
    assert(chain_len(g, d, vc) == longest_step(g, Seq::empty(), vc.insert(d)));
    assert(seq![d].last() == d);
    assert(seq![b].last() == b);
    assert(seq![b, c].last() == c);
    assert(longest_step(g, Seq::empty(), vb) == 0);
    assert(longest_step(g, Seq::empty(), vc) == 0);
    assert(longest_step(g, Seq::empty(), v1) == 0);
    assert(longest_step(g, seq![d], vb) == 1);
    assert(longest_step(g, seq![d], vc) == 1);
    assert(chain_len(g, b, v1) == 1);
    assert(chain_len(g, c, v1) == 1);
    assert(longest_step(g, seq![b], v1) == 2);
    assert(longest_step(g, seq![b, c], v1) == 2);
    assert(chain_len(g, a, Set::empty()) == 2);
}


/// Whether a chain of one or more composition edges leads from `a` to `b`.
pub open spec fn leads_to(g: Graph, a: Name, b: Name) -> bool {
    exists|p: Seq<Name>| is_chain(g, p) && p.len() >= 2 && p[0] == a && p.last() == b
}

/// Whether each name of `p` after the first is a field type of the one
/// before it.
pub open spec fn is_chain(g: Graph, p: Seq<Name>) -> bool {
    forall|i: int| 0 <= i < p.len() - 1 ==> #[trigger] edges(g, p[i]).contains(p[i + 1])
}

/// Where no chain leads from `n` to `x`, none leads from a field type of `n`
/// either, and no field type of `n` is `x`.
pub proof fn lemma_unreached_child(g: Graph, n: Name, c: Name, x: Name)
    requires
        !leads_to(g, n, x),
        edges(g, n).contains(c),
    ensures
        c != x,
        !leads_to(g, c, x),
{
    let two = seq![n, c];
    assert(is_chain(g, two)) by {
        assert forall|i: int| 0 <= i < two.len() - 1 implies #[trigger] edges(g, two[i]).contains(
            two[i + 1],
        ) by {
            assert(i == 0);
        }
    }
    assert(two.last() == c);
    if leads_to(g, c, x) {
        let p = choose|p: Seq<Name>| is_chain(g, p) && p.len() >= 2 && p[0] == c && p.last() == x;
        let q = seq![n] + p;
        assert forall|i: int| 0 <= i < q.len() - 1 implies #[trigger] edges(g, q[i]).contains(
            q[i + 1],
        ) by {
            if i > 0 {
                assert(q[i] == p[i - 1]);
                assert(q[i + 1] == p[i]);
                assert(edges(g, p[i - 1]).contains(p[(i - 1) + 1]));
            }
        }
        assert(q.last() == x);
        assert(is_chain(g, q));
    }
}

/// Marking visited a struct that no chain from `n` reaches leaves the
/// chain's length from `n` as it was.
pub proof fn lemma_chain_ignores_unreached(g: Graph, n: Name, visited: Set<Name>, x: Name)
    requires
        !leads_to(g, n, x),
        n != x,
    ensures
        chain_len(g, n, visited.insert(x)) == chain_len(g, n, visited),
    decreases unvisited(g, visited), 0int, 0int,
{
    if keys(g).contains(n) && !visited.contains(n) {
        lemma_unvisited_shrinks(g, visited, n);
        assert(visited.insert(x).insert(n) =~= visited.insert(n).insert(x));
        lemma_step_ignores_unreached(g, edges(g, n), n, visited.insert(n), x);
    }
}

/// [`lemma_chain_ignores_unreached`] for the steps from the field types
/// `cs` of a struct `n`.
pub proof fn lemma_step_ignores_unreached(
    g: Graph,
    cs: Seq<Name>,
    n: Name,
    visited: Set<Name>,
    x: Name,
)
    requires
        !leads_to(g, n, x),
        cs.len() <= edges(g, n).len(),
        forall|j: int| 0 <= j < cs.len() ==> cs[j] == edges(g, n)[j],
    ensures
        longest_step(g, cs, visited.insert(x)) == longest_step(g, cs, visited),
    decreases unvisited(g, visited), 1int, cs.len(),
{
    if cs.len() > 0 {
        let c = cs.last();
        lemma_step_ignores_unreached(g, cs.drop_last(), n, visited, x);
        assert(c == edges(g, n)[cs.len() - 1]);
        assert(edges(g, n).contains(c));
        lemma_unreached_child(g, n, c, x);
        if keys(g).contains(c) {
            lemma_chain_ignores_unreached(g, c, visited, x);
        }
    }
}

/// A struct whose only struct-typed field is of type `y`, and which no chain
/// from `y` leads back to, is one deeper than `y`.
pub proof fn lemma_one_deeper(g: Graph, s: Name, y: Name)
    requires
        keys(g).contains(s),
        keys(g).contains(y),
        s != y,
        edges(g, s) == seq![y],
        !leads_to(g, y, s),
    ensures
        depth(g, s) == depth(g, y) + 1,
{
    let v = Set::<Name>::empty().insert(s);
    assert(seq![y].drop_last() =~= Seq::<Name>::empty());
    assert(seq![y].last() == y);
    assert(longest_step(g, Seq::empty(), v) == 0);
    lemma_chain_ignores_unreached(g, y, Set::empty(), s);
    assert(longest_step(g, seq![y], v) == 1 + chain_len(g, y, v));
}

} // verus!
