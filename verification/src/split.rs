//! All the ways to split a run of keys into consecutive pieces, given for
//! each start position the pieces (and where they end) that may start
//! there: partial splits are grown one piece at a time, breadth first, and
//! then listed by how many keys they cover, most first.
use vstd::prelude::*;

verus! {

/// A partial split: its pieces so far and how many keys they cover.
pub type SplitNode<T> = (Seq<T>, int);

/// The partial splits one piece longer than `node`: `edges[s]` lists the
/// pieces that start at key `s`, each with its end.
pub open spec fn children<T>(edges: Seq<Seq<(T, int)>>, node: SplitNode<T>) -> Seq<SplitNode<T>> {
    if 0 <= node.1 < edges.len() {
        edges[node.1].map_values(|e: (T, int)| (node.0.push(e.0), e.1))
    } else {
        Seq::empty()
    }
}

/// The children of each node of a level, in order.
pub open spec fn next_level<T>(edges: Seq<Seq<(T, int)>>, level: Seq<SplitNode<T>>) -> Seq<SplitNode<T>> {
    level.map_values(|node: SplitNode<T>| children(edges, node)).flatten()
}

/// The partial splits of `k` pieces, in breadth-first order.
pub open spec fn split_level<T>(edges: Seq<Seq<(T, int)>>, k: nat) -> Seq<SplitNode<T>>
    decreases k,
{
    if k == 0 {
        seq![(Seq::<T>::empty(), 0int)]
    } else {
        next_level(edges, split_level(edges, (k - 1) as nat))
    }
}

/// All partial splits of one to `edges.len()` pieces, level by level.
pub open spec fn split_nodes<T>(edges: Seq<Seq<(T, int)>>) -> Seq<SplitNode<T>> {
    Seq::new(edges.len(), |k: int| split_level(edges, (k + 1) as nat)).flatten()
}

/// Whether a partial split covers `length` keys.
pub open spec fn covers<T>(length: int) -> spec_fn(SplitNode<T>) -> bool {
    |node: SplitNode<T>| node.1 == length
}

/// The pieces of a partial split.
pub open spec fn pieces_of<T>() -> spec_fn(SplitNode<T>) -> Seq<T> {
    |node: SplitNode<T>| node.0
}

/// The partial splits covering `length` keys, in breadth-first order.
pub open spec fn splits_of_length<T>(nodes: Seq<SplitNode<T>>, length: int) -> Seq<Seq<T>> {
    nodes.filter(covers(length)).map_values(pieces_of())
}

/// Every partial split, those covering more keys first, breadth-first among
/// those that cover as many.
pub open spec fn all_splits<T>(edges: Seq<Seq<(T, int)>>) -> Seq<Seq<T>> {
    Seq::new(
        edges.len(),
        |i: int| splits_of_length(split_nodes(edges), edges.len() - i),
    ).flatten()
}

pub open spec fn edge_views<T>(edges: Seq<(T, usize)>) -> Seq<(T, int)> {
    edges.map_values(|e: (T, usize)| (e.0, e.1 as int))
}

pub open spec fn edge_table_views<T>(table: Seq<Vec<(T, usize)>>) -> Seq<Seq<(T, int)>> {
    table.map_values(|v: Vec<(T, usize)>| edge_views(v@))
}

pub open spec fn node_views<T>(nodes: Seq<(Vec<T>, usize)>) -> Seq<SplitNode<T>> {
    nodes.map_values(|n: (Vec<T>, usize)| (n.0@, n.1 as int))
}

pub fn copy_pieces<T: Copy>(s: &Vec<T>) -> (r: Vec<T>)
    ensures
        r@ == s@,
{
    let mut r: Vec<T> = Vec::new();
    let mut i: usize = 0;
    while i < s.len()
        invariant
            0 <= i <= s@.len(),
            r@ == s@.take(i as int),
        decreases s.len() - i,
    {
        r.push(s[i]);
        proof {
            assert(s@.take(i as int + 1) =~= s@.take(i as int).push(s@[i as int]));
        }
        i += 1;
    }
    proof {
        assert(s@.take(i as int) =~= s@);
    }
    r
}

fn next_level_nodes<T: Copy>(edges: &Vec<Vec<(T, usize)>>, level: &Vec<(Vec<T>, usize)>) -> (next: Vec<
    (Vec<T>, usize),
>)
    ensures
        node_views(next@) == next_level(edge_table_views(edges@), node_views(level@)),
{
    let n = edges.len();
    let ghost ev = edge_table_views(edges@);
    let ghost lv = node_views(level@);
    let ghost ch = |node: SplitNode<T>| children(ev, node);
    let mut next: Vec<(Vec<T>, usize)> = Vec::new();
    let mut t: usize = 0;
    while t < level.len()
        invariant
            n == edges@.len(),
            ev == edge_table_views(edges@),
            0 <= t <= level@.len(),
            lv == node_views(level@),
            ch == (|node: SplitNode<T>| children(ev, node)),
            node_views(next@) == lv.take(t as int).map_values(ch).flatten(),
        decreases level.len() - t,
    {
        let node = &level[t];
        let ghost nv = lv[t as int];
        let ghost before = node_views(next@);
        proof {
            assert(lv.take(t as int + 1).map_values(ch) =~= lv.take(t as int).map_values(ch).push(ch(nv)));
            lv.take(t as int).map_values(ch).lemma_flatten_push(ch(nv));
        }
        if node.1 < n {
            let es = &edges[node.1];
            let ghost evs = edge_views(es@);
            let mut u: usize = 0;
            while u < es.len()
                invariant
                    0 <= u <= es@.len(),
                    evs == edge_views(es@),
                    nv == (node.0@, node.1 as int),
                    node_views(next@) == before + evs.take(u as int).map_values(
                        |e: (T, int)| (nv.0.push(e.0), e.1),
                    ),
                decreases es.len() - u,
            {
                let mut pieces = copy_pieces(&node.0);
                pieces.push(es[u].0);
                let item = (pieces, es[u].1);
                proof {
                    assert(node_views(next@.push(item)) =~= node_views(next@).push((item.0@, item.1 as int)));
                    assert(evs.take(u as int + 1) =~= evs.take(u as int).push(evs[u as int]));
                    assert(evs.take(u as int + 1).map_values(|e: (T, int)| (nv.0.push(e.0), e.1))
                        =~= evs.take(u as int).map_values(|e: (T, int)| (nv.0.push(e.0), e.1)).push(
                        (nv.0.push(evs[u as int].0), evs[u as int].1),
                    ));
                }
                next.push(item);
                u += 1;
            }
            proof {
                assert(evs.take(u as int) =~= evs);
                assert(ev[nv.1] == evs);
                assert(node_views(next@) =~= before + ch(nv));
            }
        } else {
            proof {
                assert(ch(nv) =~= Seq::<SplitNode<T>>::empty());
                assert(node_views(next@) =~= before + ch(nv));
            }
        }
        t += 1;
    }
    proof {
        assert(lv.take(t as int) =~= lv);
    }
    next
}

/// Every split that the edge table allows (see `all_splits`).
pub fn all_splits_of<T: Copy>(edges: &Vec<Vec<(T, usize)>>) -> (splits: Vec<Vec<T>>)
    ensures
        splits@.map_values(|s: Vec<T>| s@) == all_splits(edge_table_views(edges@)),
{
    let n = edges.len();
    let ghost ev = edge_table_views(edges@);
    let ghost levels = Seq::new(n as nat, |k: int| split_level(ev, (k + 1) as nat));
    let mut level: Vec<(Vec<T>, usize)> = Vec::new();
    level.push((Vec::new(), 0));
    proof {
        assert(node_views(level@) =~= split_level(ev, 0));
    }
    let mut all: Vec<(Vec<T>, usize)> = Vec::new();
    let mut k: usize = 0;
    while k < n
        invariant
            n == edges@.len(),
            ev == edge_table_views(edges@),
            0 <= k <= n,
            levels == Seq::new(n as nat, |k: int| split_level(ev, (k + 1) as nat)),
            node_views(level@) == split_level(ev, k as nat),
            node_views(all@) == levels.take(k as int).flatten(),
        decreases n - k,
    {
        let next = next_level_nodes(edges, &level);
        proof {
            assert(node_views(next@) == split_level(ev, (k + 1) as nat));
            assert(levels.take(k as int + 1) =~= levels.take(k as int).push(levels[k as int]));
            levels.take(k as int).lemma_flatten_push(levels[k as int]);
        }
        let mut t: usize = 0;
        let ghost before = node_views(all@);
        while t < next.len()
            invariant
                0 <= t <= next@.len(),
                node_views(all@) == before + node_views(next@).take(t as int),
            decreases next.len() - t,
        {
            let pieces = copy_pieces(&next[t].0);
            let item = (pieces, next[t].1);
            proof {
                assert(node_views(all@.push(item)) =~= node_views(all@).push((item.0@, item.1 as int)));
                assert(node_views(next@).take(t as int + 1) =~= node_views(next@).take(t as int).push(
                    node_views(next@)[t as int],
                ));
            }
            all.push(item);
            t += 1;
        }
        proof {
            assert(node_views(next@).take(t as int) =~= node_views(next@));
        }
        level = next;
        k += 1;
    }
    proof {
        assert(levels.take(k as int) =~= levels);
    }
    let ghost nodes = split_nodes(ev);
    let ghost groups = Seq::new(n as nat, |i: int| splits_of_length(nodes, n - i));
    let mut splits: Vec<Vec<T>> = Vec::new();
    let mut i: usize = 0;
    while i < n
        invariant
            n == ev.len(),
            0 <= i <= n,
            nodes == split_nodes(ev),
            node_views(all@) == nodes,
            groups == Seq::new(n as nat, |i: int| splits_of_length(nodes, n - i)),
            splits@.map_values(|s: Vec<T>| s@) == groups.take(i as int).flatten(),
        decreases n - i,
    {
        let length = n - i;
        let ghost keep = covers::<T>(length as int);
        let ghost before = splits@.map_values(|s: Vec<T>| s@);
        let mut t: usize = 0;
        while t < all.len()
            invariant
                0 <= t <= all@.len(),
                nodes == node_views(all@),
                keep == covers::<T>(length as int),
                splits@.map_values(|s: Vec<T>| s@) == before + nodes.take(t as int).filter(keep).map_values(
                    pieces_of(),
                ),
            decreases all.len() - t,
        {
            proof {
                assert(nodes.take(t as int + 1) =~= nodes.take(t as int).push(nodes[t as int]));
                nodes.take(t as int).lemma_filter_push(nodes[t as int], keep);
            }
            if all[t].1 == length {
                let pieces = copy_pieces(&all[t].0);
                proof {
                    assert(splits@.push(pieces).map_values(|s: Vec<T>| s@) =~= splits@.map_values(
                        |s: Vec<T>| s@,
                    ).push(pieces@));
                    assert(nodes.take(t as int).filter(keep).push(nodes[t as int]).map_values(pieces_of())
                        =~= nodes.take(t as int).filter(keep).map_values(pieces_of()).push(
                        nodes[t as int].0,
                    ));
                }
                splits.push(pieces);
            }
            t += 1;
        }
        proof {
            assert(nodes.take(t as int) =~= nodes);
            assert(groups[i as int] == splits_of_length(nodes, length as int));
            assert(groups.take(i as int + 1) =~= groups.take(i as int).push(groups[i as int]));
            groups.take(i as int).lemma_flatten_push(groups[i as int]);
        }
        i += 1;
    }
    proof {
        assert(groups.take(i as int) =~= groups);
    }
    splits
}


/// Whether every piece of a partial split satisfies `p`.
pub open spec fn pieces_satisfy<T>(pieces: Seq<T>, p: spec_fn(T) -> bool) -> bool {
    forall|j: int| 0 <= j < pieces.len() ==> p(#[trigger] pieces[j])
}

proof fn lemma_flatten_forall<A>(ss: Seq<Seq<A>>, q: spec_fn(A) -> bool)
    requires
        forall|i: int, j: int| 0 <= i < ss.len() && 0 <= j < ss[i].len() ==> q(#[trigger] ss[i][j]),
    ensures
        forall|k: int| 0 <= k < ss.flatten().len() ==> q(#[trigger] ss.flatten()[k]),
    decreases ss.len(),
{
    if ss.len() > 0 {
        let rest = ss.drop_first();
        assert forall|i: int, j: int| 0 <= i < rest.len() && 0 <= j < rest[i].len() implies q(
            #[trigger] rest[i][j],
        ) by {
            assert(rest[i] == ss[i + 1]);
        }
        lemma_flatten_forall(rest, q);
        let f = ss.first();
        assert(ss.flatten() == f + rest.flatten());
        assert forall|k: int| 0 <= k < ss.flatten().len() implies q(#[trigger] ss.flatten()[k]) by {
            if k < f.len() {
                assert(ss.flatten()[k] == ss[0][k]);
            } else {
                assert(ss.flatten()[k] == rest.flatten()[k - f.len()]);
            }
        }
    }
}

proof fn lemma_level_pieces<T>(edges: Seq<Seq<(T, int)>>, p: spec_fn(T) -> bool, k: nat)
    requires
        forall|s: int, t: int| 0 <= s < edges.len() && 0 <= t < edges[s].len() ==> p((#[trigger] edges[s][t]).0),
    ensures
        forall|i: int|
            0 <= i < split_level(edges, k).len() ==> pieces_satisfy((#[trigger] split_level(edges, k)[i]).0, p),
    decreases k,
{
    if k > 0 {
        lemma_level_pieces(edges, p, (k - 1) as nat);
        let prev = split_level(edges, (k - 1) as nat);
        let ch = |node: SplitNode<T>| children(edges, node);
        let grouped = prev.map_values(ch);
        let q = |node: SplitNode<T>| pieces_satisfy(node.0, p);
        assert forall|i: int, j: int| 0 <= i < grouped.len() && 0 <= j < grouped[i].len() implies q(
            #[trigger] grouped[i][j],
        ) by {
            let node = prev[i];
            assert(grouped[i] == children(edges, node));
            assert(pieces_satisfy(node.0, p));
            let e = edges[node.1][j];
            assert(grouped[i][j] == (node.0.push(e.0), e.1));
            assert(p(e.0));
            assert forall|x: int| 0 <= x < node.0.push(e.0).len() implies p(#[trigger] node.0.push(e.0)[x]) by {
                if x < node.0.len() {
                    assert(node.0.push(e.0)[x] == node.0[x]);
                }
            }
        }
        lemma_flatten_forall(grouped, q);
        assert(split_level(edges, k) == grouped.flatten());
        assert forall|i: int| 0 <= i < split_level(edges, k).len() implies pieces_satisfy(
            (#[trigger] split_level(edges, k)[i]).0,
            p,
        ) by {
            assert(q(grouped.flatten()[i]));
        }
    }
}

/// When every piece that the edges offer satisfies `p`, so does every piece
/// of every split.
pub proof fn lemma_pieces_from_edges<T>(edges: Seq<Seq<(T, int)>>, p: spec_fn(T) -> bool)
    requires
        forall|s: int, t: int| 0 <= s < edges.len() && 0 <= t < edges[s].len() ==> p((#[trigger] edges[s][t]).0),
    ensures
        forall|a: int, b: int|
            0 <= a < all_splits(edges).len() && 0 <= b < all_splits(edges)[a].len() ==> p(
                #[trigger] all_splits(edges)[a][b],
            ),
{
    let n = edges.len();
    let levels = Seq::new(n, |k: int| split_level(edges, (k + 1) as nat));
    let q = |node: SplitNode<T>| pieces_satisfy(node.0, p);
    assert forall|i: int, j: int| 0 <= i < levels.len() && 0 <= j < levels[i].len() implies q(
        #[trigger] levels[i][j],
    ) by {
        lemma_level_pieces(edges, p, (i + 1) as nat);
    }
    lemma_flatten_forall(levels, q);
    let nodes = split_nodes(edges);
    assert(nodes == levels.flatten());
    let groups = Seq::new(n, |i: int| splits_of_length(nodes, n - i));
    let r = |s: Seq<T>| pieces_satisfy(s, p);
    assert forall|i: int, j: int| 0 <= i < groups.len() && 0 <= j < groups[i].len() implies r(
        #[trigger] groups[i][j],
    ) by {
        let kept = nodes.filter(covers(n - i));
        assert(groups[i] == kept.map_values(pieces_of()));
        assert(groups[i][j] == kept[j].0);
        assert(kept.contains(kept[j]));
        nodes.lemma_filter_contains_rev(covers(n - i), kept[j]);
        let x = choose|x: int| 0 <= x < nodes.len() && nodes[x] == kept[j];
        assert(q(levels.flatten()[x]));
    }
    lemma_flatten_forall(groups, r);
    assert forall|a: int, b: int|
        0 <= a < all_splits(edges).len() && 0 <= b < all_splits(edges)[a].len() implies p(
            #[trigger] all_splits(edges)[a][b],
        ) by {
        assert(all_splits(edges) == groups.flatten());
        assert(r(groups.flatten()[a]));
    }
}

} // verus!
