//! Building the crafting graph and querying shortest crafting paths in it.

use vstd::prelude::*;
use crate::build_spec::{
    RespiError, has_named, is_first_named, first_named, has_synthesis, item_nodes,
    built_nodes, built_edges, match_edges, ingredient_edges, synthesis_edges, morph_edges,
    synthesis_error, morph_error, build_error, lemma_first_named, lemma_first_synthesis,
    lemma_synthesis_error_stays, lemma_morph_error_stays,
};
use crate::laws::lemma_synthesis_predecessor;
use crate::graph::{
    CraftGraph, graph_nodes, graph_edges, graph_empty, graph_node_count, graph_add_node,
    graph_add_edge, graph_node, graph_astar, graph_incoming, is_walk, is_shortest_walk, edges_in_bounds, lemma_walk_in_bounds,
};
use crate::node::{RespiNode, item_node, synthesis_node, is_item_named, label_of};
use crate::records::{NewItem, NewSynthesis, NewMorph};

verus! {

/// The outcome of a shortest-path query between two item names.
#[derive(Clone, Debug, PartialEq, Eq)]
pub enum PathOutcome {
    /// No item has the start name.
    UnknownStart,
    /// No item has the goal name.
    UnknownGoal,
    /// Both items exist but the goal cannot be reached from the start.
    NoPath,
    /// The labels of the nodes along a shortest path, start and goal included.
    Found(Vec<String>),
}

/// The labels of the nodes at the indices `p`.
pub open spec fn labels_of(nodes: Seq<RespiNode>, p: Seq<usize>) -> Seq<Seq<char>> {
    p.map_values(|i: usize| label_of(nodes[i as int]))
}

/// `ls` are the labels along some shortest walk from `s` to `t`.
pub open spec fn labels_of_shortest(nodes: Seq<RespiNode>, edges: Seq<(usize, usize)>, s: usize, t: usize, ls: Seq<String>) -> bool {
    exists|p: Seq<usize>| #[trigger] is_shortest_walk(edges, p, s, t) && texts(ls) == labels_of(nodes, p)
}

/// `r` is the right outcome of a search from node `s` to node `t`: the labels
/// along a shortest walk when there is a walk, and `NoPath` when there is none.
pub open spec fn search_result(nodes: Seq<RespiNode>, edges: Seq<(usize, usize)>, s: usize, t: usize, r: PathOutcome) -> bool {
    match r {
        PathOutcome::Found(ls) => labels_of_shortest(nodes, edges, s, t, ls@),
        PathOutcome::NoPath => forall|q: Seq<usize>| !is_walk(edges, q, s, t),
        _ => false,
    }
}

/// The text of each string.
pub open spec fn texts(ls: Seq<String>) -> Seq<Seq<char>> {
    ls.map_values(|s: String| s@)
}

/// The labels joined by the separator, with none after the last.
pub open spec fn joined(ls: Seq<Seq<char>>, sep: Seq<char>) -> Seq<char>
    decreases ls.len(),
{
    if ls.len() == 0 {
        Seq::empty()
    } else if ls.len() == 1 {
        ls[0]
    } else {
        joined(ls.drop_last(), sep) + sep + ls.last()
    }
}

/// Renders a path as its labels joined by " -> ".
pub fn render(labels: &Vec<String>) -> (r: String)
    ensures
        r@ == joined(texts(labels@), " -> "@),
{
    proof {
        reveal_strlit(" -> ");
    }
    let mut r = String::new();
    let mut k: usize = 0;
    while k < labels.len()
        invariant
            k <= labels@.len(),
            r@ == joined(texts(labels@.subrange(0, k as int)), " -> "@),
        decreases labels@.len() - k,
    {
        let ghost done = texts(labels@.subrange(0, k as int));
        let ghost next = texts(labels@.subrange(0, k + 1));
        assert(next.drop_last() =~= done);
        if k > 0 {
            r.append(" -> ");
        }
        r.append(labels[k].as_str());
        assert(r@ =~= joined(next, " -> "@));
        k += 1;
    }
    assert(labels@.subrange(0, labels@.len() as int) =~= labels@);
    r
}

/// The crafting graph built from a dataset; read-only once built.
pub struct Respi {
    graph: CraftGraph,
}

/// The first of the first `limit` nodes of `g` that is an Item called `name`.
fn find_named(g: &CraftGraph, name: &String, limit: usize) -> (r: Option<usize>)
    requires
        limit <= graph_nodes(*g).len(),
    ensures
        match r {
            Some(k) => is_first_named(graph_nodes(*g).subrange(0, limit as int), name@, k as int),
            None => !has_named(graph_nodes(*g).subrange(0, limit as int), name@),
        },
{
    let ghost nodes = graph_nodes(*g).subrange(0, limit as int);
    let mut k: usize = 0;
    while k < limit
        invariant
            k <= limit <= graph_nodes(*g).len(),
            nodes == graph_nodes(*g).subrange(0, limit as int),
            forall|j: int| 0 <= j < k ==> !#[trigger] is_item_named(nodes[j], name@),
        decreases limit - k,
    {
        if graph_node(g, k).is_named(name) {
            return Some(k);
        }
        k += 1;
    }
    None
}

/// The lowest of the indices `preds` whose node is a Synthesis node.
fn lowest_synthesis(g: &CraftGraph, preds: &Vec<usize>) -> (r: Option<usize>)
    requires
        forall|i: int| 0 <= i < preds@.len() ==> preds@[i] < graph_nodes(*g).len(),
    ensures
        match r {
            Some(b) => {
                &&& preds@.contains(b)
                &&& graph_nodes(*g)[b as int] is Synthesis
                &&& forall|i: int| 0 <= i < preds@.len() && graph_nodes(*g)[#[trigger] preds@[i] as int] is Synthesis ==> b <= preds@[i]
            },
            None => forall|i: int| 0 <= i < preds@.len() ==> !(graph_nodes(*g)[#[trigger] preds@[i] as int] is Synthesis),
        },
{
    let mut best: Option<usize> = None;
    let mut q: usize = 0;
    while q < preds.len()
        invariant
            q <= preds@.len(),
            forall|i: int| 0 <= i < preds@.len() ==> preds@[i] < graph_nodes(*g).len(),
            match best {
                Some(b) => {
                    &&& preds@.contains(b)
                    &&& graph_nodes(*g)[b as int] is Synthesis
                    &&& forall|i: int| 0 <= i < q && graph_nodes(*g)[#[trigger] preds@[i] as int] is Synthesis ==> b <= preds@[i]
                },
                None => forall|i: int| 0 <= i < q ==> !(graph_nodes(*g)[#[trigger] preds@[i] as int] is Synthesis),
            },
        decreases preds@.len() - q,
    {
        let p = preds[q];
        if graph_node(g, p).is_synthesis() {
            best = match best {
                Some(b) => if b <= p {
                    Some(b)
                } else {
                    Some(p)
                },
                None => Some(p),
            };
        }
        q += 1;
    }
    best
}

impl Respi {
    /// The nodes of the graph, in index order.
    pub closed spec fn nodes(&self) -> Seq<RespiNode> {
        graph_nodes(self.graph)
    }

    /// The edges of the graph as (source, target) pairs, in insertion order.
    pub closed spec fn edges(&self) -> Seq<(usize, usize)> {
        graph_edges(self.graph)
    }

    /// Every edge joins two nodes of the graph.
    pub closed spec fn wf(&self) -> bool {
        edges_in_bounds(graph_nodes(self.graph).len(), graph_edges(self.graph))
    }

    /// The first Item node called `name`, if there is one.
    pub fn find_item(&self, name: &String) -> (r: Option<usize>)
        ensures
            match r {
                Some(k) => is_first_named(self.nodes(), name@, k as int),
                None => !has_named(self.nodes(), name@),
            },
    {
        let n = graph_node_count(&self.graph);
        assert(graph_nodes(self.graph).subrange(0, n as int) =~= graph_nodes(self.graph));
        find_named(&self.graph, name, n)
    }

    /// A shortest walk from node `start` to node `goal` along the edges'
    /// direction, or `None` when `goal` cannot be reached.
    pub fn find_path(&self, start: usize, goal: usize) -> (r: Option<Vec<usize>>)
        requires
            self.wf(),
            start < self.nodes().len(),
            goal < self.nodes().len(),
        ensures
            match r {
                Some(p) => {
                    &&& is_shortest_walk(self.edges(), p@, start, goal)
                    &&& forall|k: int| 0 <= k < p@.len() ==> p@[k] < self.nodes().len()
                },
                None => forall|q: Seq<usize>| !is_walk(self.edges(), q, start, goal),
            },
    {
        let r = graph_astar(&self.graph, start, goal);
        proof {
            if let Some(p) = &r {
                assert forall|k: int| 0 <= k < p@.len() implies p@[k] < self.nodes().len() by {
                    lemma_walk_in_bounds(self.edges(), self.nodes().len(), p@, start, goal, k);
                }
            }
        }
        r
    }

    /// The labels of the nodes at the indices of `path`.
    pub fn labels(&self, path: &Vec<usize>) -> (r: Vec<String>)
        requires
            forall|k: int| 0 <= k < path@.len() ==> path@[k] < self.nodes().len(),
        ensures
            texts(r@) == labels_of(self.nodes(), path@),
    {
        let mut r: Vec<String> = Vec::new();
        let mut k: usize = 0;
        while k < path.len()
            invariant
                k <= path@.len(),
                r@.len() == k,
                forall|i: int| 0 <= i < path@.len() ==> path@[i] < graph_nodes(self.graph).len(),
                texts(r@) == labels_of(graph_nodes(self.graph), path@.subrange(0, k as int)),
            decreases path@.len() - k,
        {
            let ghost prev = r@;
            let l = graph_node(&self.graph, path[k]).label();
            r.push(l);
            proof {
                let nodes = graph_nodes(self.graph);
                let done = path@.subrange(0, k as int);
                let next = path@.subrange(0, k + 1);
                assert forall|i: int| 0 <= i < k + 1 implies texts(r@)[i] == labels_of(nodes, next)[i] by {
                    assert(next[i] == path@[i]);
                    if i < k {
                        assert(done[i] == path@[i]);
                        assert(r@[i] == prev[i]);
                        assert(texts(prev)[i] == labels_of(nodes, done)[i]);
                    }
                }
                assert(texts(r@) =~= labels_of(nodes, next));
            }
            k += 1;
        }
        assert(path@.subrange(0, path@.len() as int) =~= path@);
        r
    }

    /// The labels along a shortest path from the item `start_name` to the item
    /// `goal_name`, each name resolving to the first item of that name.
    pub fn shortest_path(&self, start_name: &String, goal_name: &String) -> (r: PathOutcome)
        requires
            self.wf(),
        ensures
            !has_named(self.nodes(), start_name@) ==> r is UnknownStart,
            has_named(self.nodes(), start_name@) && !has_named(self.nodes(), goal_name@)
                ==> r is UnknownGoal,
            has_named(self.nodes(), start_name@) && has_named(self.nodes(), goal_name@) ==> search_result(
                self.nodes(),
                self.edges(),
                first_named(self.nodes(), start_name@) as usize,
                first_named(self.nodes(), goal_name@) as usize,
                r,
            ),
    {
        let start = match self.find_item(start_name) {
            Some(k) => k,
            None => {
                return PathOutcome::UnknownStart;
            },
        };
        let goal = match self.find_item(goal_name) {
            Some(k) => k,
            None => {
                return PathOutcome::UnknownGoal;
            },
        };
        proof {
            lemma_first_named(self.nodes(), start_name@, start as int);
            lemma_first_named(self.nodes(), goal_name@, goal as int);
        }
        match self.find_path(start, goal) {
            Some(p) => {
                let ls = self.labels(&p);
                assert(is_shortest_walk(self.edges(), p@, start, goal) && texts(ls@) == labels_of(
                    self.nodes(),
                    p@,
                ));
                let r = PathOutcome::Found(ls);
                assert(search_result(self.nodes(), self.edges(), start, goal, r));
                r
            },
            None => PathOutcome::NoPath,
        }
    }

    /// Builds the graph from the item, synthesis and morph records.
    ///
    /// Each item becomes an Item node, each synthesis a Synthesis node with an
    /// edge to the item it produces and an edge from every item that one of its
    /// specifiers matches, and each morph a Morph node with edges from its base
    /// synthesis and its required item and an edge to the item it produces.
    /// A name resolves to the first item of that name; a morph's base synthesis
    /// is the lowest-indexed Synthesis predecessor of its base item, that is the
    /// first synthesis record that produces it. Any name that cannot
    /// be resolved fails the whole construction.
    pub fn init(items: &Vec<NewItem>, syntheses: &Vec<NewSynthesis>, morphs: &Vec<NewMorph>) -> (r: Result<Respi, RespiError>)
        requires
            items@.len() + syntheses@.len() + morphs@.len() <= usize::MAX,
        ensures
            match r {
                Ok(g) => {
                    &&& g.wf()
                    &&& build_error(items@, syntheses@, morphs@) is None
                    &&& g.nodes() == built_nodes(items@, syntheses@, morphs@)
                    &&& g.edges() == built_edges(items@, syntheses@, morphs@)
                },
                Err(e) => build_error(items@, syntheses@, morphs@) == Some(e),
            },
    {
        let ghost inodes = item_nodes(items@);
        let ghost syns = syntheses@;
        let mut graph = graph_empty();
        let n_items = items.len();

        let mut i: usize = 0;
        while i < n_items
            invariant
                n_items == items@.len(),
                i <= n_items,
                inodes == item_nodes(items@),
                graph_nodes(graph).len() == i,
                forall|k: int| 0 <= k < i ==> graph_nodes(graph)[k] == item_node(items@[k]),
                graph_edges(graph) == Seq::<(usize, usize)>::empty(),
            decreases n_items - i,
        {
            graph_add_node(&mut graph, RespiNode::from_item(&items[i]));
            i += 1;
        }
        assert(graph_nodes(graph) =~= inodes);

        let n_syn = syntheses.len();
        let mut j: usize = 0;
        while j < n_syn
            invariant
                n_items == items@.len(),
                n_syn == syns.len(),
                syns == syntheses@,
                inodes == item_nodes(items@),
                inodes.len() == n_items,
                n_items + n_syn + morphs@.len() <= usize::MAX,
                j <= n_syn,
                graph_nodes(graph).len() == n_items + j,
                graph_nodes(graph).subrange(0, n_items as int) == inodes,
                forall|k: int| 0 <= k < j ==> graph_nodes(graph)[n_items + k] == synthesis_node(#[trigger] syns[k]),
                graph_edges(graph) == synthesis_edges(inodes, syns, j as nat),
                edges_in_bounds(graph_nodes(graph).len(), graph_edges(graph)),
                synthesis_error(inodes, syns, j as nat) is None,
            decreases n_syn - j,
        {
            let syn = &syntheses[j];
            let t = graph_add_node(&mut graph, RespiNode::from_synthesis(syn));
            assert(graph_nodes(graph).subrange(0, n_items as int) =~= inodes);
            let out = match find_named(&graph, &syn.name, n_items) {
                Some(out) => out,
                None => {
                    proof {
                        lemma_synthesis_error_stays(inodes, syns, (j + 1) as nat, n_syn as nat);
                    }
                    return Err(RespiError::UnknownItem(syn.name.clone()));
                },
            };
            proof {
                lemma_first_named(inodes, syn.name@, out as int);
            }
            graph_add_edge(&mut graph, t, out, 0);
            let ghost head = graph_edges(graph);
            let ghost gn = graph_nodes(graph);
            let ings = syn.ingredients();
            let mut m: usize = 0;
            while m < ings.len()
                invariant
                    n_items == inodes.len(),
                    graph_nodes(graph) == gn,
                    n_items <= graph_nodes(graph).len(),
                    t < graph_nodes(graph).len(),
                    graph_nodes(graph).subrange(0, n_items as int) == inodes,
                    m <= ings@.len(),
                    graph_edges(graph) == head + ingredient_edges(inodes, ings@, t, m as nat),
                    edges_in_bounds(graph_nodes(graph).len(), graph_edges(graph)),
                decreases ings@.len() - m,
            {
                let ghost before = graph_edges(graph);
                let mut k: usize = 0;
                while k < n_items
                    invariant
                        n_items == inodes.len(),
                        graph_nodes(graph) == gn,
                        n_items <= graph_nodes(graph).len(),
                        t < graph_nodes(graph).len(),
                        graph_nodes(graph).subrange(0, n_items as int) == inodes,
                        k <= n_items,
                        m < ings@.len(),
                        graph_edges(graph) == before + match_edges(inodes, ings@[m as int]@, t, k as nat),
                        edges_in_bounds(graph_nodes(graph).len(), graph_edges(graph)),
                    decreases n_items - k,
                {
                    assert(graph_nodes(graph)[k as int] == inodes[k as int]);
                    let hit = graph_node(&graph, k).matches_specifier(&ings[m]);
                    if hit {
                        graph_add_edge(&mut graph, k, t, 0);
                    }
                    assert(graph_edges(graph) =~= before + match_edges(inodes, ings@[m as int]@, t, (k + 1) as nat));
                    k += 1;
                }
                assert(graph_edges(graph) =~= head + ingredient_edges(inodes, ings@, t, (m + 1) as nat));
                m += 1;
            }
            assert(graph_edges(graph) =~= synthesis_edges(inodes, syns, (j + 1) as nat));
            j += 1;
        }
        assert(graph_nodes(graph) =~= inodes + syns.map_values(|s: NewSynthesis| synthesis_node(s)));
        assert forall|k: int| 0 <= k < n_items implies graph_nodes(graph)[k] == item_node(#[trigger] items@[k]) by {
            assert(graph_nodes(graph)[k] == inodes[k]);
        }
        let ghost synth_done = graph_edges(graph);
        let ghost mid = graph_nodes(graph);
        let n_morph = morphs.len();
        let mut m: usize = 0;
        while m < n_morph
            invariant
                n_items == items@.len(),
                n_syn == syns.len(),
                n_morph == morphs@.len(),
                syns == syntheses@,
                inodes == item_nodes(items@),
                inodes.len() == n_items,
                n_items + n_syn + n_morph <= usize::MAX,
                m <= n_morph,
                synthesis_error(inodes, syns, n_syn as nat) is None,
                synth_done == synthesis_edges(inodes, syns, n_syn as nat),
                mid.len() == n_items + n_syn,
                mid.subrange(0, n_items as int) == inodes,
                forall|k: int| 0 <= k < n_syn ==> mid[n_items + k] == synthesis_node(#[trigger] syns[k]),
                forall|k: int| 0 <= k < n_items ==> mid[k] == item_node(#[trigger] items@[k]),
                graph_nodes(graph).len() == n_items + n_syn + m,
                graph_nodes(graph).subrange(0, (n_items + n_syn) as int) == mid,
                forall|k: int| n_items + n_syn <= k < n_items + n_syn + m ==> graph_nodes(graph)[k] == RespiNode::Morph,
                graph_edges(graph) == synth_done + morph_edges(inodes, syns, morphs@, m as nat),
                edges_in_bounds(graph_nodes(graph).len(), graph_edges(graph)),
                morph_error(inodes, syns, morphs@, m as nat) is None,
            decreases n_morph - m,
        {
            let mo = &morphs[m];
            assert(graph_nodes(graph).subrange(0, n_items as int) =~= inodes);
            proof {
                if morph_error(inodes, syns, morphs@, (m + 1) as nat) is Some {
                    lemma_morph_error_stays(inodes, syns, morphs@, (m + 1) as nat, n_morph as nat);
                }
            }
            let result = match find_named(&graph, &mo.name, n_items) {
                Some(k) => k,
                None => {
                    return Err(RespiError::UnknownItem(mo.name.clone()));
                },
            };
            let required = match find_named(&graph, &mo.from_requiring, n_items) {
                Some(k) => k,
                None => {
                    return Err(RespiError::UnknownItem(mo.from_requiring.clone()));
                },
            };
            let recipe_item = match find_named(&graph, &mo.from_recipe, n_items) {
                Some(k) => k,
                None => {
                    return Err(RespiError::UnknownItem(mo.from_recipe.clone()));
                },
            };
            proof {
                lemma_first_named(inodes, mo.from_recipe@, recipe_item as int);
                lemma_first_named(inodes, mo.name@, result as int);
                lemma_first_named(inodes, mo.from_requiring@, required as int);
            }
            let preds = graph_incoming(&graph, recipe_item);
            proof {
                assert forall|i: int| 0 <= i < preds@.len() implies preds@[i] < graph_nodes(graph).len() by {
                    assert(preds@.contains(preds@[i]));
                    let e = choose|e: int| 0 <= e < graph_edges(graph).len() && graph_edges(graph)[e] == (preds@[i], recipe_item);
                    assert(graph_edges(graph)[e].0 < graph_nodes(graph).len());
                }
            }
            let base = match lowest_synthesis(&graph, &preds) {
                Some(b) => b,
                None => {
                    proof {
                        if has_synthesis(syns, mo.from_recipe@) {
                            let j = choose|j: int| 0 <= j < syns.len() && (#[trigger] syns[j]).name@ == mo.from_recipe@;
                            let p = (n_items + j) as usize;
                            lemma_synthesis_predecessor(inodes, syns, morphs@, m as nat, mo.from_recipe@, recipe_item as int, p);
                            assert(preds@.contains(p));
                            let i = choose|i: int| 0 <= i < preds@.len() && preds@[i] == p;
                            assert(graph_nodes(graph)[p as int] == mid[p as int]);
                            assert(graph_nodes(graph)[p as int] == synthesis_node(syns[j]));
                        }
                    }
                    return Err(RespiError::NoBaseSynthesis(mo.from_recipe.clone()));
                },
            };
            proof {
                let nodes_now = graph_nodes(graph);
                assert(preds@.contains(base));
                if base < n_items {
                    assert(nodes_now[base as int] == inodes[base as int]);
                } else if base >= n_items + n_syn {
                    assert(nodes_now[base as int] == RespiNode::Morph);
                }
                lemma_synthesis_predecessor(inodes, syns, morphs@, m as nat, mo.from_recipe@, recipe_item as int, base);
                let jb = base - n_items;
                assert forall|j: int| 0 <= j < jb implies (#[trigger] syns[j]).name@ != mo.from_recipe@ by {
                    if syns[j].name@ == mo.from_recipe@ {
                        let p = (n_items + j) as usize;
                        lemma_synthesis_predecessor(inodes, syns, morphs@, m as nat, mo.from_recipe@, recipe_item as int, p);
                        assert(preds@.contains(p));
                        let i = choose|i: int| 0 <= i < preds@.len() && preds@[i] == p;
                        assert(nodes_now[p as int] == mid[p as int]);
                        assert(nodes_now[p as int] == synthesis_node(syns[j]));
                    }
                }
                lemma_first_synthesis(syns, mo.from_recipe@, jb);
            }
            let morph_index = graph_add_node(&mut graph, RespiNode::Morph);
            graph_add_edge(&mut graph, base, morph_index, 0);
            graph_add_edge(&mut graph, required, morph_index, 0);
            graph_add_edge(&mut graph, morph_index, result, 0);
            assert(graph_nodes(graph).subrange(0, (n_items + n_syn) as int) =~= mid);
            assert(graph_edges(graph) =~= synth_done + morph_edges(inodes, syns, morphs@, (m + 1) as nat));
            m += 1;
        }
        assert(graph_nodes(graph) =~= built_nodes(items@, syntheses@, morphs@));
        Ok(Respi { graph })
    }
}

} // verus!
