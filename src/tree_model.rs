//! The shape of the column tree as mathematics: which nodes are hashed
//! together, how many nodes each layer has, and what the root of a tree of
//! equal leaves is.

use crate::element::Element;
use vstd::prelude::*;

verus! {

/// A hash function on preimages of any arity; a preimage's length selects
/// the kernel that hashes it.
pub type HashFn = spec_fn(Seq<Element>) -> Element;

/// Number of nodes folded into one node of the next layer: eight while the
/// layer divides evenly into eights, otherwise two.
pub open spec fn fold_arity(n: nat) -> nat {
    if n % 8 == 0 {
        8
    } else {
        2
    }
}

/// Number of nodes in the layer above a layer of `n` nodes.
pub open spec fn next_len(n: nat) -> nat {
    if n % 8 == 0 {
        n / 8
    } else {
        (n + 1) / 2
    }
}

/// Position, within a layer of `n` nodes, of the `j`-th input of group `g`;
/// an odd binary layer repeats its last node.
pub open spec fn group_index(n: nat, g: int, j: int) -> int {
    let k = fold_arity(n) * g + j;
    if k < n {
        k
    } else {
        n - 1
    }
}

/// The preimage of node `g` of the layer above `layer`.
pub open spec fn group(layer: Seq<Element>, g: int) -> Seq<Element> {
    Seq::new(fold_arity(layer.len()), |j: int| layer[group_index(layer.len(), g, j)])
}

/// The layer above `layer`.
pub open spec fn layer_up(h: HashFn, layer: Seq<Element>) -> Seq<Element> {
    Seq::new(next_len(layer.len()), |g: int| h(group(layer, g)))
}

/// `layer` followed by every layer above it, up to a single root.
pub open spec fn layers_from(h: HashFn, layer: Seq<Element>) -> Seq<Element>
    decreases layer.len(),
{
    if layer.len() <= 1 {
        layer
    } else {
        layer + layers_from(h, layer_up(h, layer))
    }
}

/// The tree leaves: one digest per column.
pub open spec fn column_leaves(h: HashFn, columns: Seq<Seq<Element>>) -> Seq<Element> {
    Seq::new(columns.len(), |i: int| h(columns[i]))
}

/// The whole tree over `columns`: leaves first, then each layer, then the
/// root.
pub open spec fn column_tree(h: HashFn, columns: Seq<Seq<Element>>) -> Seq<Element> {
    layers_from(h, column_leaves(h, columns))
}

/// Number of nodes of a tree with `n` leaves, all layers counted.
pub open spec fn tree_size_spec(n: nat) -> nat
    decreases n,
{
    if n <= 1 {
        n
    } else {
        n + tree_size_spec(next_len(n))
    }
}

/// Root of a tree whose layer of `n` nodes holds `e` everywhere.
pub open spec fn uniform_root(h: HashFn, e: Element, n: nat) -> Element
    decreases n,
{
    if n <= 1 {
        e
    } else {
        uniform_root(h, h(Seq::new(fold_arity(n), |j: int| e)), next_len(n))
    }
}

/// Number of layers above a layer of `n` nodes.
pub open spec fn layers_above(n: nat) -> nat
    decreases n,
{
    if n <= 1 {
        0
    } else {
        1 + layers_above(next_len(n))
    }
}

/// Whether `h` gives every recorded digest for its preimage.
pub open spec fn agrees(answers: Seq<(Seq<Element>, Element)>, h: HashFn) -> bool {
    forall|k: int| 0 <= k < answers.len() ==> #[trigger] h(answers[k].0) == answers[k].1
}

/// A hash function that gives every digest of a longer record gives those
/// of its prefix.
pub proof fn lemma_agrees_prefix(
    a: Seq<(Seq<Element>, Element)>,
    extra: Seq<(Seq<Element>, Element)>,
    h: HashFn,
)
    requires
        agrees(a + extra, h),
    ensures
        agrees(a, h),
{
    assert forall|q: int| 0 <= q < a.len() implies #[trigger] h(a[q].0) == a[q].1 by {
        assert((a + extra)[q] == a[q]);
    }
}

pub proof fn lemma_next_len(n: nat)
    ensures
        n >= 2 ==> next_len(n) < n,
        n >= 1 ==> next_len(n) >= 1,
        n == 1 ==> next_len(n) == 1,
        fold_arity(n) == 8 || fold_arity(n) == 2,
        n >= 1 ==> fold_arity(n) * (next_len(n) - 1) < n,
        n <= fold_arity(n) * next_len(n),
{
}

pub proof fn lemma_tree_size_at_least(n: nat)
    ensures
        tree_size_spec(n) >= n,
    decreases n,
{
    if n > 1 {
        lemma_next_len(n);
        lemma_tree_size_at_least(next_len(n));
    }
}

/// The number of nodes of a tree depends only on its number of leaves.
pub proof fn lemma_layers_len(h: HashFn, layer: Seq<Element>)
    ensures
        layers_from(h, layer).len() == tree_size_spec(layer.len()),
    decreases layer.len(),
{
    if layer.len() > 1 {
        lemma_next_len(layer.len());
        lemma_layers_len(h, layer_up(h, layer));
    }
}

/// Above a non-empty layer of equal nodes, the tree ends in the root that
/// folding one node layer by layer gives.
pub proof fn lemma_uniform_layers(h: HashFn, layer: Seq<Element>, e: Element)
    requires
        layer.len() >= 1,
        forall|i: int| 0 <= i < layer.len() ==> layer[i] == e,
    ensures
        layers_from(h, layer).len() >= 1,
        layers_from(h, layer).last() == uniform_root(h, e, layer.len()),
    decreases layer.len(),
{
    lemma_layers_len(h, layer);
    lemma_tree_size_at_least(layer.len());
    if layer.len() > 1 {
        let n = layer.len();
        lemma_next_len(n);
        let up = layer_up(h, layer);
        let c = Seq::new(fold_arity(n), |j: int| e);
        assert forall|g: int| 0 <= g < up.len() implies up[g] == h(c) by {
            assert forall|j: int| 0 <= j < fold_arity(n) implies group(layer, g)[j] == c[j] by {
                assert(0 <= group_index(n, g, j) < n);
            }
            assert(group(layer, g) =~= c);
        }
        lemma_uniform_layers(h, up, h(c));
        lemma_layers_len(h, up);
        let rest = layers_from(h, up);
        assert(layers_from(h, layer) == layer + rest);
        assert((layer + rest).last() == rest.last());
    }
}

/// A tree whose columns are all equal has the root that folding the one
/// column digest layer by layer gives.
pub proof fn lemma_uniform_column_tree(h: HashFn, columns: Seq<Seq<Element>>, c: Seq<Element>)
    requires
        columns.len() >= 1,
        forall|i: int| 0 <= i < columns.len() ==> columns[i] == c,
    ensures
        column_tree(h, columns).last() == uniform_root(h, h(c), columns.len()),
{
    lemma_uniform_layers(h, column_leaves(h, columns), h(c));
}

} // verus!
