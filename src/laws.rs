//! Properties of the built graph: the degrees of Synthesis and Morph nodes,
//! ingredient matching, shortest paths and repeatable construction.

use vstd::prelude::*;
use crate::build_spec::{
    item_nodes, built_nodes, built_edges, match_edges, ingredient_edges, synthesis_edges,
    synthesis_block, morph_edges, morph_block, first_named, is_first_named, has_named,
    first_synthesis, is_first_synthesis, has_synthesis, synthesis_error, morph_error, morph_check,
    build_error, lemma_first_named,
};
use crate::graph::{degree, endpoint, lemma_degree_add, lemma_degree_zero, is_walk, is_shortest_walk};
use crate::node::{RespiNode, item_node, synthesis_node, node_matches, is_item_named, tag_is};
use crate::records::{NewItem, NewSynthesis, NewMorph};

verus! {

/// When some Item is called `name`, there is a first one.
pub proof fn lemma_first_named_exists(nodes: Seq<RespiNode>, name: Seq<char>, k: int)
    requires
        0 <= k < nodes.len(),
        is_item_named(nodes[k], name),
    ensures
        is_first_named(nodes, name, first_named(nodes, name)),
    decreases k,
{
    if exists|j: int| 0 <= j < k && #[trigger] is_item_named(nodes[j], name) {
        let j = choose|j: int| 0 <= j < k && #[trigger] is_item_named(nodes[j], name);
        lemma_first_named_exists(nodes, name, j);
    } else {
        assert(is_first_named(nodes, name, k));
    }
}

/// When some synthesis produces `name`, there is a first one.
pub proof fn lemma_first_synthesis_exists(syns: Seq<NewSynthesis>, name: Seq<char>, j: int)
    requires
        0 <= j < syns.len(),
        syns[j].name@ == name,
    ensures
        is_first_synthesis(syns, name, first_synthesis(syns, name)),
    decreases j,
{
    if exists|i: int| 0 <= i < j && (#[trigger] syns[i]).name@ == name {
        let i = choose|i: int| 0 <= i < j && (#[trigger] syns[i]).name@ == name;
        lemma_first_synthesis_exists(syns, name, i);
    } else {
        assert(is_first_synthesis(syns, name, j));
    }
}

/// The matching edges into `t` come from nodes below `m`.
proof fn lemma_match_edges_shape(nodes: Seq<RespiNode>, s: Seq<char>, t: usize, m: nat)
    requires
        m <= nodes.len() <= usize::MAX,
    ensures
        forall|k: int| 0 <= k < match_edges(nodes, s, t, m).len()
            ==> (#[trigger] match_edges(nodes, s, t, m)[k]).0 < m && match_edges(nodes, s, t, m)[k].1 == t,
    decreases m,
{
    if m > 0 {
        lemma_match_edges_shape(nodes, s, t, (m - 1) as nat);
        let prev = match_edges(nodes, s, t, (m - 1) as nat);
        let cur = match_edges(nodes, s, t, m);
        assert forall|k: int| 0 <= k < cur.len() implies (#[trigger] cur[k]).0 < m && cur[k].1 == t by {
            if k < prev.len() {
                assert(cur[k] == prev[k]);
            }
        }
    }
}

/// The number of edges out of node `k` among the matching edges for `s`.
proof fn lemma_match_degree(nodes: Seq<RespiNode>, s: Seq<char>, t: usize, m: nat, k: usize)
    requires
        m <= nodes.len() <= usize::MAX,
    ensures
        degree(match_edges(nodes, s, t, m), k, false) == if k < m && node_matches(nodes[k as int], s) {
            1nat
        } else {
            0nat
        },
    decreases m,
{
    if m > 0 {
        lemma_match_degree(nodes, s, t, (m - 1) as nat, k);
        let prev = match_edges(nodes, s, t, (m - 1) as nat);
        if node_matches(nodes[m - 1], s) {
            assert(prev.push(((m - 1) as usize, t)).drop_last() =~= prev);
        }
    }
}

/// Names that a successful build resolves: every synthesis output.
pub proof fn lemma_synthesis_names(nodes: Seq<RespiNode>, syns: Seq<NewSynthesis>, j: nat)
    requires
        j <= syns.len(),
        synthesis_error(nodes, syns, j) is None,
    ensures
        forall|i: int| 0 <= i < j ==> has_named(nodes, (#[trigger] syns[i]).name@),
    decreases j,
{
    if j > 0 {
        lemma_synthesis_names(nodes, syns, (j - 1) as nat);
    }
}

/// Names that a successful build resolves: every morph passes its checks.
pub proof fn lemma_morph_checks(nodes: Seq<RespiNode>, syns: Seq<NewSynthesis>, morphs: Seq<NewMorph>, k: nat)
    requires
        k <= morphs.len(),
        morph_error(nodes, syns, morphs, k) is None,
    ensures
        forall|i: int| 0 <= i < k ==> morph_check(nodes, syns, #[trigger] morphs[i]) is None,
    decreases k,
{
    if k > 0 {
        lemma_morph_checks(nodes, syns, morphs, (k - 1) as nat);
    }
}

/// A resolved name resolves to a node of the list.
pub proof fn lemma_first_named_in(nodes: Seq<RespiNode>, name: Seq<char>)
    requires
        has_named(nodes, name),
    ensures
        0 <= first_named(nodes, name) < nodes.len(),
        is_item_named(nodes[first_named(nodes, name)], name),
{
    let k = choose|k: int| 0 <= k < nodes.len() && #[trigger] is_item_named(nodes[k], name);
    lemma_first_named_exists(nodes, name, k);
}

/// A morph's base resolves to a synthesis of the list.
pub proof fn lemma_first_synthesis_in(syns: Seq<NewSynthesis>, name: Seq<char>)
    requires
        has_synthesis(syns, name),
    ensures
        0 <= first_synthesis(syns, name) < syns.len(),
{
    let j = choose|j: int| 0 <= j < syns.len() && (#[trigger] syns[j]).name@ == name;
    lemma_first_synthesis_exists(syns, name, j);
}

/// The ingredient edges into `t` all come from item nodes.
proof fn lemma_ingredient_shape(nodes: Seq<RespiNode>, ings: Seq<String>, t: usize, m: nat)
    requires
        m <= ings.len(),
        nodes.len() <= usize::MAX,
    ensures
        forall|k: int| 0 <= k < ingredient_edges(nodes, ings, t, m).len()
            ==> (#[trigger] ingredient_edges(nodes, ings, t, m)[k]).0 < nodes.len()
            && ingredient_edges(nodes, ings, t, m)[k].1 == t,
    decreases m,
{
    if m > 0 {
        lemma_ingredient_shape(nodes, ings, t, (m - 1) as nat);
        lemma_match_edges_shape(nodes, ings[m - 1]@, t, nodes.len());
        let a = ingredient_edges(nodes, ings, t, (m - 1) as nat);
        let b = match_edges(nodes, ings[m - 1]@, t, nodes.len());
        let cur = ingredient_edges(nodes, ings, t, m);
        assert(cur == a + b);
        assert forall|k: int| 0 <= k < cur.len() implies (#[trigger] cur[k]).0 < nodes.len() && cur[k].1 == t by {
            if k < a.len() {
                assert(cur[k] == a[k]);
            } else {
                assert(cur[k] == b[k - a.len()]);
            }
        }
    }
}

/// The degree of a three-edge list.
proof fn lemma_degree_three(a: (usize, usize), b: (usize, usize), c: (usize, usize), v: usize, incoming: bool)
    ensures
        degree(seq![a, b, c], v, incoming) == (if endpoint(a, incoming) == v { 1nat } else { 0nat }) + (if endpoint(b, incoming) == v { 1nat } else { 0nat }) + (if endpoint(c, incoming) == v { 1nat } else { 0nat }),
{
    let s3 = seq![a, b, c];
    let s2 = seq![a, b];
    let s1 = seq![a];
    assert(s3.drop_last() =~= s2);
    assert(s2.drop_last() =~= s1);
    assert(s1.drop_last() =~= Seq::<(usize, usize)>::empty());
    assert(degree(Seq::<(usize, usize)>::empty(), v, incoming) == 0);
    assert(degree(s1, v, incoming) == (if endpoint(a, incoming) == v { 1nat } else { 0nat }));
    assert(degree(s2, v, incoming) == degree(s1, v, incoming) + (if endpoint(b, incoming) == v { 1nat } else { 0nat }));
}

/// Each synthesis node is the source of exactly one synthesis edge, and no item
/// node of a later index is.
proof fn lemma_synthesis_out_degree(nodes: Seq<RespiNode>, syns: Seq<NewSynthesis>, j: nat, v: usize)
    requires
        j <= syns.len(),
        nodes.len() + syns.len() <= usize::MAX,
        nodes.len() <= v,
    ensures
        degree(synthesis_edges(nodes, syns, j), v, false) == if v < nodes.len() + j {
            1nat
        } else {
            0nat
        },
    decreases j,
{
    if j > 0 {
        lemma_synthesis_out_degree(nodes, syns, (j - 1) as nat, v);
        let t = (nodes.len() + j - 1) as usize;
        let s = syns[j - 1];
        let head = seq![(t, first_named(nodes, s.name@) as usize)];
        let ing = ingredient_edges(nodes, s.ingredient_seq(), t, s.ingredient_seq().len());
        lemma_degree_add(synthesis_edges(nodes, syns, (j - 1) as nat), synthesis_block(nodes, s, t), v, false);
        lemma_degree_add(head, ing, v, false);
        lemma_ingredient_shape(nodes, s.ingredient_seq(), t, s.ingredient_seq().len());
        lemma_degree_zero(ing, v, false);
        assert(head.drop_last() =~= Seq::<(usize, usize)>::empty());
        assert(degree(Seq::<(usize, usize)>::empty(), v, false) == 0);
    }
}

/// Every synthesis edge ends at an item or a synthesis node.
proof fn lemma_synthesis_targets(nodes: Seq<RespiNode>, syns: Seq<NewSynthesis>, j: nat)
    requires
        j <= syns.len(),
        nodes.len() + syns.len() <= usize::MAX,
        forall|i: int| 0 <= i < j ==> has_named(nodes, (#[trigger] syns[i]).name@),
    ensures
        forall|k: int| 0 <= k < synthesis_edges(nodes, syns, j).len()
            ==> (#[trigger] synthesis_edges(nodes, syns, j)[k]).1 < nodes.len() + j,
    decreases j,
{
    if j > 0 {
        lemma_synthesis_targets(nodes, syns, (j - 1) as nat);
        let t = (nodes.len() + j - 1) as usize;
        let s = syns[j - 1];
        assert(has_named(nodes, s.name@));
        lemma_first_named_in(nodes, s.name@);
        lemma_ingredient_shape(nodes, s.ingredient_seq(), t, s.ingredient_seq().len());
        let a = synthesis_edges(nodes, syns, (j - 1) as nat);
        let head = seq![(t, first_named(nodes, s.name@) as usize)];
        let ing = ingredient_edges(nodes, s.ingredient_seq(), t, s.ingredient_seq().len());
        let cur = synthesis_edges(nodes, syns, j);
        assert(cur == a + (head + ing));
        assert forall|k: int| 0 <= k < cur.len() implies (#[trigger] cur[k]).1 < nodes.len() + j by {
            if k < a.len() {
                assert(cur[k] == a[k]);
            } else if k == a.len() {
                assert(cur[k] == head[0]);
            } else {
                assert(cur[k] == ing[k - a.len() - 1]);
            }
        }
    }
}

/// The synthesis edges hold each synthesis node's edge to its output.
pub proof fn lemma_synthesis_output_edge(nodes: Seq<RespiNode>, syns: Seq<NewSynthesis>, j: nat, i: nat)
    requires
        i < j <= syns.len(),
    ensures
        synthesis_edges(nodes, syns, j).contains(
            ((nodes.len() + i) as usize, first_named(nodes, syns[i as int].name@) as usize),
        ),
    decreases j,
{
    let a = synthesis_edges(nodes, syns, (j - 1) as nat);
    let cur = synthesis_edges(nodes, syns, j);
    if i < j - 1 {
        lemma_synthesis_output_edge(nodes, syns, (j - 1) as nat, i);
        let k = choose|k: int| 0 <= k < a.len() && a[k] == ((nodes.len() + i) as usize, first_named(nodes, syns[i as int].name@) as usize);
        assert(cur[k] == a[k]);
    } else {
        assert(cur[a.len() as int] == ((nodes.len() + i) as usize, first_named(nodes, syns[i as int].name@) as usize));
    }
}

/// A synthesis edge that leaves a synthesis node goes to that synthesis's output.
pub proof fn lemma_synthesis_sources(nodes: Seq<RespiNode>, syns: Seq<NewSynthesis>, j: nat)
    requires
        j <= syns.len(),
        nodes.len() + syns.len() <= usize::MAX,
    ensures
        forall|k: int| 0 <= k < synthesis_edges(nodes, syns, j).len() && (#[trigger] synthesis_edges(nodes, syns, j)[k]).0 >= nodes.len()
            ==> synthesis_edges(nodes, syns, j)[k].0 < nodes.len() + j
            && synthesis_edges(nodes, syns, j)[k].1 == first_named(
                nodes,
                syns[synthesis_edges(nodes, syns, j)[k].0 - nodes.len()].name@,
            ) as usize,
    decreases j,
{
    if j > 0 {
        lemma_synthesis_sources(nodes, syns, (j - 1) as nat);
        let t = (nodes.len() + j - 1) as usize;
        let s = syns[j - 1];
        lemma_ingredient_shape(nodes, s.ingredient_seq(), t, s.ingredient_seq().len());
        let a = synthesis_edges(nodes, syns, (j - 1) as nat);
        let head = seq![(t, first_named(nodes, s.name@) as usize)];
        let ing = ingredient_edges(nodes, s.ingredient_seq(), t, s.ingredient_seq().len());
        let cur = synthesis_edges(nodes, syns, j);
        assert(cur == a + (head + ing));
        assert forall|k: int| 0 <= k < cur.len() && (#[trigger] cur[k]).0 >= nodes.len() implies cur[k].0 < nodes.len() + j
            && cur[k].1 == first_named(nodes, syns[cur[k].0 - nodes.len()].name@) as usize by {
            if k < a.len() {
                assert(cur[k] == a[k]);
            } else if k == a.len() {
                assert(cur[k] == head[0]);
            } else {
                assert(cur[k] == ing[k - a.len() - 1]);
            }
        }
    }
}

/// A morph edge that ends at an item node leaves a Morph node.
pub proof fn lemma_morph_sources(nodes: Seq<RespiNode>, syns: Seq<NewSynthesis>, morphs: Seq<NewMorph>, k: nat)
    requires
        k <= morphs.len(),
        nodes.len() + syns.len() + morphs.len() <= usize::MAX,
    ensures
        forall|e: int| 0 <= e < morph_edges(nodes, syns, morphs, k).len() && (#[trigger] morph_edges(nodes, syns, morphs, k)[e]).1 < nodes.len()
            ==> morph_edges(nodes, syns, morphs, k)[e].0 >= nodes.len() + syns.len(),
    decreases k,
{
    if k > 0 {
        lemma_morph_sources(nodes, syns, morphs, (k - 1) as nat);
        let prev = morph_edges(nodes, syns, morphs, (k - 1) as nat);
        let i = (nodes.len() + syns.len() + k - 1) as usize;
        let block = morph_block(nodes, syns, morphs[k - 1], i);
        let cur = morph_edges(nodes, syns, morphs, k);
        assert(cur == prev + block);
        assert forall|e: int| 0 <= e < cur.len() && (#[trigger] cur[e]).1 < nodes.len() implies cur[e].0 >= nodes.len() + syns.len() by {
            if e < prev.len() {
                assert(cur[e] == prev[e]);
            } else {
                assert(cur[e] == block[e - prev.len()]);
            }
        }
    }
}

/// Among the edges present while morphs are wired, a synthesis node `p` has an
/// edge into the first item called `name` exactly when its synthesis produces `name`.
pub proof fn lemma_synthesis_predecessor(
    nodes: Seq<RespiNode>,
    syns: Seq<NewSynthesis>,
    morphs: Seq<NewMorph>,
    k: nat,
    name: Seq<char>,
    r: int,
    p: usize,
)
    requires
        k <= morphs.len(),
        nodes.len() + syns.len() + morphs.len() <= usize::MAX,
        synthesis_error(nodes, syns, syns.len()) is None,
        is_first_named(nodes, name, r),
        nodes.len() <= p < nodes.len() + syns.len(),
    ensures
        (synthesis_edges(nodes, syns, syns.len()) + morph_edges(nodes, syns, morphs, k)).contains((p, r as usize))
            <==> syns[p - nodes.len()].name@ == name,
{
    let se = synthesis_edges(nodes, syns, syns.len());
    let me = morph_edges(nodes, syns, morphs, k);
    let all = se + me;
    let j = p - nodes.len();
    lemma_synthesis_names(nodes, syns, syns.len());
    assert(has_named(nodes, syns[j].name@));
    lemma_first_named_in(nodes, syns[j].name@);
    lemma_first_named(nodes, name, r);
    if all.contains((p, r as usize)) {
        lemma_synthesis_sources(nodes, syns, syns.len());
        lemma_morph_sources(nodes, syns, morphs, k);
        let e = choose|e: int| 0 <= e < all.len() && all[e] == (p, r as usize);
        if e < se.len() {
            assert(se[e] == all[e]);
        } else {
            assert(me[e - se.len()] == all[e]);
        }
        assert(first_named(nodes, syns[j].name@) == r);
        assert(is_item_named(nodes[r], syns[j].name@));
    }
    if syns[j].name@ == name {
        lemma_synthesis_output_edge(nodes, syns, syns.len(), j as nat);
        let e = choose|e: int| 0 <= e < se.len() && se[e] == (p, r as usize);
        assert(all[e] == se[e]);
    }
}

/// No morph edge leaves synthesis node `nodes.len() + j` when no morph has that
/// synthesis as its base.
proof fn lemma_morph_out_of_synthesis(nodes: Seq<RespiNode>, syns: Seq<NewSynthesis>, morphs: Seq<NewMorph>, k: nat, j: nat)
    requires
        k <= morphs.len(),
        j < syns.len(),
        nodes.len() + syns.len() + morphs.len() <= usize::MAX,
        forall|i: int| 0 <= i < k ==> morph_check(nodes, syns, #[trigger] morphs[i]) is None,
        forall|i: int| 0 <= i < k ==> first_synthesis(syns, (#[trigger] morphs[i]).from_recipe@) != j,
    ensures
        degree(morph_edges(nodes, syns, morphs, k), (nodes.len() + j) as usize, false) == 0,
    decreases k,
{
    if k > 0 {
        lemma_morph_out_of_synthesis(nodes, syns, morphs, (k - 1) as nat, j);
        let mo = morphs[k - 1];
        assert(morph_check(nodes, syns, mo) is None);
        lemma_first_synthesis_in(syns, mo.from_recipe@);
        lemma_first_named_in(nodes, mo.from_requiring@);
        let m = (nodes.len() + syns.len() + k - 1) as usize;
        let v = (nodes.len() + j) as usize;
        lemma_degree_add(morph_edges(nodes, syns, morphs, (k - 1) as nat), morph_block(nodes, syns, mo, m), v, false);
        lemma_degree_three(
            ((nodes.len() + first_synthesis(syns, mo.from_recipe@)) as usize, m),
            (first_named(nodes, mo.from_requiring@) as usize, m),
            (m, first_named(nodes, mo.name@) as usize),
            v,
            false,
        );
    }
}

/// The degrees of Morph node `nodes.len() + syns.len() + m` among the morph edges.
proof fn lemma_morph_degrees(nodes: Seq<RespiNode>, syns: Seq<NewSynthesis>, morphs: Seq<NewMorph>, k: nat, m: nat)
    requires
        k <= morphs.len(),
        m < morphs.len(),
        nodes.len() + syns.len() + morphs.len() <= usize::MAX,
        forall|i: int| 0 <= i < k ==> morph_check(nodes, syns, #[trigger] morphs[i]) is None,
    ensures
        degree(morph_edges(nodes, syns, morphs, k), (nodes.len() + syns.len() + m) as usize, true)
            == if m < k { 2nat } else { 0nat },
        degree(morph_edges(nodes, syns, morphs, k), (nodes.len() + syns.len() + m) as usize, false)
            == if m < k { 1nat } else { 0nat },
    decreases k,
{
    if k > 0 {
        lemma_morph_degrees(nodes, syns, morphs, (k - 1) as nat, m);
        let mo = morphs[k - 1];
        assert(morph_check(nodes, syns, mo) is None);
        lemma_first_synthesis_in(syns, mo.from_recipe@);
        lemma_first_named_in(nodes, mo.from_requiring@);
        lemma_first_named_in(nodes, mo.name@);
        let i = (nodes.len() + syns.len() + k - 1) as usize;
        let v = (nodes.len() + syns.len() + m) as usize;
        let prev = morph_edges(nodes, syns, morphs, (k - 1) as nat);
        let block = morph_block(nodes, syns, mo, i);
        lemma_degree_add(prev, block, v, true);
        lemma_degree_add(prev, block, v, false);
        let a = ((nodes.len() + first_synthesis(syns, mo.from_recipe@)) as usize, i);
        let b = (first_named(nodes, mo.from_requiring@) as usize, i);
        let c = (i, first_named(nodes, mo.name@) as usize);
        lemma_degree_three(a, b, c, v, true);
        lemma_degree_three(a, b, c, v, false);
    }
}

/// Each synthesis node has exactly one outgoing edge, to the item it was declared
/// to produce, unless a morph has it as its base synthesis (then it also has the
/// edge to that Morph node).
pub proof fn law_synthesis_out_degree(items: Seq<NewItem>, syns: Seq<NewSynthesis>, morphs: Seq<NewMorph>, j: nat)
    requires
        build_error(items, syns, morphs) is None,
        items.len() + syns.len() + morphs.len() <= usize::MAX,
        j < syns.len(),
        forall|i: int| 0 <= i < morphs.len() ==> first_synthesis(syns, (#[trigger] morphs[i]).from_recipe@) != j,
    ensures
        built_nodes(items, syns, morphs)[items.len() + j as int] is Synthesis,
        degree(built_edges(items, syns, morphs), (items.len() + j) as usize, false) == 1,
        built_edges(items, syns, morphs).contains(
            ((items.len() + j) as usize, first_named(item_nodes(items), syns[j as int].name@) as usize),
        ),
        is_item_named(
            built_nodes(items, syns, morphs)[first_named(item_nodes(items), syns[j as int].name@)],
            syns[j as int].name@,
        ),
{
    let nodes = item_nodes(items);
    assert(nodes.len() == items.len());
    let se = synthesis_edges(nodes, syns, syns.len());
    let me = morph_edges(nodes, syns, morphs, morphs.len());
    let v = (items.len() + j) as usize;
    lemma_synthesis_names(nodes, syns, syns.len());
    lemma_morph_checks(nodes, syns, morphs, morphs.len());
    lemma_synthesis_out_degree(nodes, syns, syns.len(), v);
    lemma_morph_out_of_synthesis(nodes, syns, morphs, morphs.len(), j);
    lemma_degree_add(se, me, v, false);
    lemma_synthesis_output_edge(nodes, syns, syns.len(), j);
    let e = (v, first_named(nodes, syns[j as int].name@) as usize);
    let k = choose|k: int| 0 <= k < se.len() && se[k] == e;
    assert((se + me)[k] == e);
    assert(has_named(nodes, syns[j as int].name@));
    lemma_first_named_in(nodes, syns[j as int].name@);
    let all = built_nodes(items, syns, morphs);
    assert(all[items.len() + j as int] == synthesis_node(syns[j as int]));
    assert(all[first_named(nodes, syns[j as int].name@)] == nodes[first_named(nodes, syns[j as int].name@)]);
}

/// Each Morph node has exactly two incoming edges, one from its base Synthesis
/// node and one from its required Item node, and exactly one outgoing edge.
pub proof fn law_morph_degrees(items: Seq<NewItem>, syns: Seq<NewSynthesis>, morphs: Seq<NewMorph>, m: nat)
    requires
        build_error(items, syns, morphs) is None,
        items.len() + syns.len() + morphs.len() <= usize::MAX,
        m < morphs.len(),
    ensures
        ({
            let nodes = built_nodes(items, syns, morphs);
            let edges = built_edges(items, syns, morphs);
            let v = (items.len() + syns.len() + m) as usize;
            let a = (items.len() + first_synthesis(syns, morphs[m as int].from_recipe@)) as usize;
            let b = first_named(item_nodes(items), morphs[m as int].from_requiring@) as usize;
            &&& nodes[v as int] is Morph
            &&& degree(edges, v, true) == 2
            &&& degree(edges, v, false) == 1
            &&& edges.contains((a, v))
            &&& edges.contains((b, v))
            &&& nodes[a as int] is Synthesis
            &&& nodes[b as int] is Item
        }),
{
    let nodes = item_nodes(items);
    assert(nodes.len() == items.len());
    let se = synthesis_edges(nodes, syns, syns.len());
    let me = morph_edges(nodes, syns, morphs, morphs.len());
    let v = (items.len() + syns.len() + m) as usize;
    lemma_synthesis_names(nodes, syns, syns.len());
    lemma_morph_checks(nodes, syns, morphs, morphs.len());
    lemma_synthesis_out_degree(nodes, syns, syns.len(), v);
    lemma_synthesis_targets(nodes, syns, syns.len());
    lemma_degree_zero(se, v, true);
    lemma_morph_degrees(nodes, syns, morphs, morphs.len(), m);
    lemma_degree_add(se, me, v, true);
    lemma_degree_add(se, me, v, false);
    let mo = morphs[m as int];
    assert(morph_check(nodes, syns, mo) is None);
    lemma_first_synthesis_in(syns, mo.from_recipe@);
    lemma_first_named_in(nodes, mo.from_requiring@);
    lemma_morph_block_in(nodes, syns, morphs, morphs.len(), m);
    let all = built_nodes(items, syns, morphs);
    let fs = first_synthesis(syns, mo.from_recipe@);
    assert(all[items.len() + fs] == synthesis_node(syns[fs]));
    let b = first_named(nodes, mo.from_requiring@);
    assert(all[b] == nodes[b]);
    assert(all[v as int] == RespiNode::Morph);
}

/// The morph edges hold the two incoming edges of each Morph node.
proof fn lemma_morph_block_in(nodes: Seq<RespiNode>, syns: Seq<NewSynthesis>, morphs: Seq<NewMorph>, k: nat, m: nat)
    requires
        m < k <= morphs.len(),
    ensures
        ({
            let edges = synthesis_edges(nodes, syns, syns.len()) + morph_edges(nodes, syns, morphs, k);
            let v = (nodes.len() + syns.len() + m) as usize;
            &&& edges.contains(((nodes.len() + first_synthesis(syns, morphs[m as int].from_recipe@)) as usize, v))
            &&& edges.contains((first_named(nodes, morphs[m as int].from_requiring@) as usize, v))
        }),
    decreases k,
{
    let se = synthesis_edges(nodes, syns, syns.len());
    let prev = morph_edges(nodes, syns, morphs, (k - 1) as nat);
    let cur = morph_edges(nodes, syns, morphs, k);
    let v = (nodes.len() + syns.len() + m) as usize;
    let a = ((nodes.len() + first_synthesis(syns, morphs[m as int].from_recipe@)) as usize, v);
    let b = (first_named(nodes, morphs[m as int].from_requiring@) as usize, v);
    if m < k - 1 {
        lemma_morph_block_in(nodes, syns, morphs, (k - 1) as nat, m);
        let ia = choose|i: int| 0 <= i < (se + prev).len() && (se + prev)[i] == a;
        let ib = choose|i: int| 0 <= i < (se + prev).len() && (se + prev)[i] == b;
        assert((se + cur)[ia] == (se + prev)[ia]);
        assert((se + cur)[ib] == (se + prev)[ib]);
    } else {
        let base = (se.len() + prev.len()) as int;
        assert((se + cur)[base] == a);
        assert((se + cur)[base + 1] == b);
    }
}

/// A specifier that equals an item's name, or any one of its four category tags,
/// matches that item exactly once: the ingredient scan adds exactly one edge
/// from it.
pub proof fn law_specifier_matches_once(items: Seq<NewItem>, s: Seq<char>, t: usize, k: usize)
    requires
        k < items.len() <= usize::MAX,
        items[k as int].name@ == s || tag_is(items[k as int].category1, s) || tag_is(
            items[k as int].category2,
            s,
        ) || tag_is(items[k as int].category3, s) || tag_is(items[k as int].category4, s),
    ensures
        node_matches(item_node(items[k as int]), s),
        degree(match_edges(item_nodes(items), s, t, items.len()), k, false) == 1,
{
    lemma_match_degree(item_nodes(items), s, t, items.len(), k);
}

/// A shortest walk from a node to itself is that node alone.
pub proof fn law_path_to_self(edges: Seq<(usize, usize)>, p: Seq<usize>, a: usize)
    requires
        is_shortest_walk(edges, p, a, a),
    ensures
        p == seq![a],
{
    assert(is_walk(edges, seq![a], a, a));
    assert(p =~= seq![a]);
}

/// Building twice from the same records gives the same nodes (so the same
/// labels) and the same edges (so the same reachability between any two items).
pub proof fn law_build_deterministic(
    items: Seq<NewItem>,
    syns: Seq<NewSynthesis>,
    morphs: Seq<NewMorph>,
    nodes1: Seq<RespiNode>,
    edges1: Seq<(usize, usize)>,
    nodes2: Seq<RespiNode>,
    edges2: Seq<(usize, usize)>,
)
    requires
        nodes1 == built_nodes(items, syns, morphs),
        edges1 == built_edges(items, syns, morphs),
        nodes2 == built_nodes(items, syns, morphs),
        edges2 == built_edges(items, syns, morphs),
    ensures
        nodes1 == nodes2,
        nodes1.to_multiset() == nodes2.to_multiset(),
        forall|q: Seq<usize>, a: usize, b: usize| is_walk(edges1, q, a, b) <==> is_walk(edges2, q, a, b),
{
}

} // verus!
