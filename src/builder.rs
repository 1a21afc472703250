//! The incremental column/tree builder.
//!
//! The builder never hashes by itself: it says which preimages must be
//! hashed next (`pending_job`) and takes their digests back
//! (`complete_job`). The caller runs the batch hashers, with whatever
//! retrying and waiting that takes, between the two calls.

use crate::element::Element;
use crate::marshal::{all_width, rows_view};
use crate::tree_model::{
    lemma_agrees_prefix, lemma_next_len, lemma_tree_size_at_least, lemma_uniform_column_tree, uniform_root, layers_above, fold_arity,
    agrees, column_leaves, column_tree, group, layer_up, layers_from, next_len, tree_size_spec,
    HashFn,
};
use vstd::prelude::*;

verus! {

/// Number of raw elements in one column.
pub const COLUMN_ARITY: usize = 11;

/// Why the builder refused a call.
#[derive(Clone, Copy, Debug, PartialEq, Eq, Structural)]
pub enum BuildError {
    /// A leaf count of zero, or a batch size of zero.
    InvalidConfiguration,
    /// The tree for this leaf count would not fit in memory indices.
    TooLarge,
    /// Columns came after the final batch.
    Finalized,
    /// Digests were handed in while nothing was waiting to be hashed.
    NoPendingJob,
    /// The number of digests differs from the number of preimages.
    DigestCountMismatch,
}

/// Preimages that must be hashed next, all of one arity.
pub struct HashJob {
    pub arity: usize,
    pub preimages: Vec<Vec<Element>>,
}

/// Every column holds `COLUMN_ARITY` elements.
pub open spec fn all_columns(cols: Seq<Seq<Element>>) -> bool {
    all_width(cols, COLUMN_ARITY as nat)
}

pub open spec fn zip_answers(p: Seq<Seq<Element>>, d: Seq<Element>) -> Seq<(Seq<Element>, Element)> {
    Seq::new(p.len(), |k: int| (p[k], d[k]))
}

pub struct ColumnTreeBuilder {
    leaf_count: usize,
    column_batch: usize,
    tree_batch: usize,
    total: usize,
    pending: Vec<Vec<Element>>,
    leaves: usize,
    tree: Vec<Element>,
    layer_start: usize,
    layer_len: usize,
    finalizing: bool,
    columns: Ghost<Seq<Seq<Element>>>,
    answers: Ghost<Seq<(Seq<Element>, Element)>>,
}

impl ColumnTreeBuilder {
    /// The number of columns the builder was configured for.
    pub closed spec fn leaf_count_spec(self) -> nat {
        self.leaf_count as nat
    }

    /// Every column accepted so far, in order.
    pub closed spec fn columns(self) -> Seq<Seq<Element>> {
        self.columns@
    }

    /// Every digest handed in so far, with its preimage.
    pub closed spec fn answers(self) -> Seq<(Seq<Element>, Element)> {
        self.answers@
    }

    /// Nodes built so far: leaves first, then layer after layer.
    pub closed spec fn tree_view(self) -> Seq<Element> {
        self.tree@
    }

    /// Whether the final batch has been accepted.
    pub closed spec fn is_finalizing(self) -> bool {
        self.finalizing
    }

    spec fn in_tree_phase(self) -> bool {
        self.finalizing && self.pending.len() == 0
    }

    spec fn current_layer(self) -> Seq<Element> {
        self.tree@.subrange(self.layer_start as int, self.layer_start + self.layer_len)
    }

    spec fn built(self) -> nat {
        (self.tree.len() - self.layer_start - self.layer_len) as nat
    }

    /// Whether the root has been built.
    pub closed spec fn is_done(self) -> bool {
        self.in_tree_phase() && self.layer_len <= 1
    }

    /// The preimages that must be hashed next, if any.
    pub closed spec fn job_spec(self) -> Option<Seq<Seq<Element>>> {
        if !self.in_tree_phase() {
            if self.pending.len() >= self.column_batch || self.finalizing {
                let k = if self.pending.len() < self.column_batch {
                    self.pending.len() as int
                } else {
                    self.column_batch as int
                };
                Some(rows_view(self.pending@).take(k))
            } else {
                None
            }
        } else if self.layer_len <= 1 {
            None
        } else {
            let b = self.built() as int;
            let t = next_len(self.layer_len as nat) as int;
            let e = if b + self.tree_batch < t {
                b + self.tree_batch
            } else {
                t
            };
            Some(Seq::new((e - b) as nat, |k: int| group(self.current_layer(), b + k)))
        }
    }

    spec fn shape_ok(self) -> bool {
        &&& 1 <= self.leaf_count
        &&& 1 <= self.column_batch
        &&& 1 <= self.tree_batch
        &&& self.total == tree_size_spec(self.leaf_count as nat)
        &&& self.total + 16 <= usize::MAX
        &&& self.columns@.len() <= self.leaf_count
        &&& all_columns(self.columns@)
        &&& self.leaves <= self.columns@.len()
        &&& rows_view(self.pending@) =~= self.columns@.skip(self.leaves as int)
        &&& (self.finalizing ==> self.columns@.len() == self.leaf_count)
        &&& if self.in_tree_phase() {
            &&& self.layer_start + self.layer_len <= self.tree.len()
            &&& self.layer_start + tree_size_spec(self.layer_len as nat) == self.total
            &&& 1 <= self.layer_len
            &&& (self.layer_len > 1 ==> self.built() < next_len(self.layer_len as nat))
            &&& (self.layer_len <= 1 ==> self.built() == 0)
        } else {
            &&& self.layer_start == 0
            &&& self.layer_len == self.leaves
            &&& self.tree.len() == self.leaves
        }
    }

    spec fn digests_ok(self, h: HashFn) -> bool {
        if self.in_tree_phase() {
            &&& column_tree(h, self.columns@) == self.tree@.subrange(0, self.layer_start as int)
                + layers_from(h, self.current_layer())
            &&& self.tree@.subrange(self.layer_start + self.layer_len, self.tree.len() as int)
                == layer_up(h, self.current_layer()).take(self.built() as int)
        } else {
            self.tree@ == column_leaves(h, self.columns@.take(self.leaves as int))
        }
    }

    /// The builder's invariant.
    pub closed spec fn wf(self) -> bool {
        &&& self.shape_ok()
        &&& forall|h: HashFn| agrees(self.answers@, h) ==> #[trigger] self.digests_ok(h)
    }
}


/// Number of nodes in the layer above a layer of `n` nodes.
pub fn next_layer_len(n: usize) -> (r: usize)
    ensures
        r == next_len(n as nat),
{
    if n % 8 == 0 {
        n / 8
    } else {
        n / 2 + n % 2
    }
}

/// Number of nodes of a tree with `n` leaves, or `None` where that number
/// exceeds `usize::MAX`.
pub fn checked_tree_size(n: usize) -> (r: Option<usize>)
    ensures
        r matches Some(t) ==> t == tree_size_spec(n as nat),
        r is None ==> tree_size_spec(n as nat) > usize::MAX,
{
    let mut acc: usize = 0;
    let mut cur: usize = n;
    while cur > 1
        invariant
            acc + tree_size_spec(cur as nat) == tree_size_spec(n as nat),
        decreases cur,
    {
        proof {
            lemma_next_len(cur as nat);
            lemma_tree_size_at_least(next_len(cur as nat));
        }
        if acc > usize::MAX - cur {
            return None;
        }
        acc = acc + cur;
        cur = next_layer_len(cur);
    }
    if acc > usize::MAX - cur {
        return None;
    }
    Some(acc + cur)
}

fn copy_elements(v: &Vec<Element>) -> (r: Vec<Element>)
    ensures
        r@ == v@,
{
    let mut r: Vec<Element> = Vec::new();
    let mut i: usize = 0;
    while i < v.len()
        invariant
            i <= v.len(),
            r@ == v@.take(i as int),
        decreases v.len() - i,
    {
        r.push(v[i]);
        i += 1;
        assert(r@ =~= v@.take(i as int));
    }
    assert(r@ =~= v@);
    r
}

impl ColumnTreeBuilder {
    /// What adding a batch does: refused once the final batch is in.
    pub open spec fn add_outcome(self) -> Result<(), BuildError> {
        if self.is_finalizing() {
            Err(BuildError::Finalized)
        } else {
            Ok(())
        }
    }

    /// A builder for a tree over `leaf_count` columns that hashes at most
    /// `max_column_batch_size` columns and `max_tree_batch_size` tree nodes
    /// per job.
    pub fn new(leaf_count: usize, max_column_batch_size: usize, max_tree_batch_size: usize) -> (r:
        Result<Self, BuildError>)
        ensures
            r == Err::<Self, BuildError>(BuildError::InvalidConfiguration) <==> (leaf_count == 0
                || max_column_batch_size == 0 || max_tree_batch_size == 0),
            r is Ok <==> (leaf_count >= 1 && max_column_batch_size >= 1 && max_tree_batch_size
                >= 1 && tree_size_spec(leaf_count as nat) + 16 <= usize::MAX),
            r matches Ok(b) ==> {
                &&& b.wf()
                &&& b.leaf_count_spec() == leaf_count
                &&& b.columns() == Seq::<Seq<Element>>::empty()
                &&& b.answers() == Seq::<(Seq<Element>, Element)>::empty()
                &&& !b.is_finalizing()
            },
    {
        if leaf_count == 0 || max_column_batch_size == 0 || max_tree_batch_size == 0 {
            return Err(BuildError::InvalidConfiguration);
        }
        let total = match checked_tree_size(leaf_count) {
            Some(t) => t,
            None => {
                return Err(BuildError::TooLarge);
            },
        };
        if total > usize::MAX - 16 {
            return Err(BuildError::TooLarge);
        }
        let b = ColumnTreeBuilder {
            leaf_count,
            column_batch: max_column_batch_size,
            tree_batch: max_tree_batch_size,
            total,
            pending: Vec::new(),
            leaves: 0,
            tree: Vec::new(),
            layer_start: 0,
            layer_len: 0,
            finalizing: false,
            columns: Ghost(Seq::empty()),
            answers: Ghost(Seq::empty()),
        };
        assert forall|h: HashFn| agrees(b.answers@, h) implies #[trigger] b.digests_ok(h) by {
            assert(b.tree@ =~= column_leaves(h, b.columns@.take(0)));
        }
        Ok(b)
    }

    fn add_batch(&mut self, batch: Vec<Vec<Element>>, last: bool) -> (r: Result<(), BuildError>)
        requires
            old(self).wf(),
            all_columns(rows_view(batch@)),
            old(self).columns().len() + batch@.len() <= old(self).leaf_count_spec(),
            last ==> old(self).columns().len() + batch@.len() == old(self).leaf_count_spec(),
        ensures
            final(self).wf(),
            r == old(self).add_outcome(),
            r is Ok ==> {
                &&& final(self).columns() == old(self).columns() + rows_view(batch@)
                &&& final(self).answers() == old(self).answers()
                &&& final(self).leaf_count_spec() == old(self).leaf_count_spec()
                &&& final(self).is_finalizing() == last
            },
            r is Err ==> *final(self) == *old(self),
    {
        if self.finalizing {
            return Err(BuildError::Finalized);
        }
        let received = self.leaves + self.pending.len();
        assert(received == self.columns@.len()) by {
            assert(rows_view(self.pending@).len() == self.pending@.len());
        }
        let ghost old_self = *self;
        let ghost added = rows_view(batch@);
        let mut batch = batch;
        self.pending.append(&mut batch);
        self.columns = Ghost(self.columns@ + added);
        if last {
            self.finalizing = true;
        }
        proof {
            let cols = self.columns@;
            assert(rows_view(self.pending@) =~= rows_view(old_self.pending@) + added);
            assert(cols.skip(self.leaves as int) =~= old_self.columns@.skip(self.leaves as int)
                + added);
            assert(all_columns(cols)) by {
                assert forall|k: int| 0 <= k < cols.len() implies #[trigger] cols[k].len()
                    == COLUMN_ARITY by {
                    if k < old_self.columns@.len() {
                        assert(cols[k] == old_self.columns@[k]);
                    } else {
                        assert(cols[k] == added[k - old_self.columns@.len()]);
                    }
                }
            }
            assert(cols.take(self.leaves as int) =~= old_self.columns@.take(self.leaves as int));
            if self.in_tree_phase() {
                assert(self.leaves == self.leaf_count) by {
                    assert(rows_view(self.pending@).len() == 0);
                }
                lemma_tree_size_at_least(self.leaf_count as nat);
                lemma_next_len(self.leaf_count as nat);
                assert(cols.take(self.leaves as int) =~= cols);
                assert(self.current_layer() =~= self.tree@);
                assert(self.tree@.subrange(0, 0) =~= Seq::<Element>::empty());
                assert(self.tree@.subrange(self.layer_len as int, self.tree.len() as int)
                    =~= Seq::<Element>::empty());
            }
            assert forall|h: HashFn| agrees(self.answers@, h) implies #[trigger] self.digests_ok(
                h) by {
                assert(old_self.digests_ok(h));
                if self.in_tree_phase() {
                    assert(self.tree@.subrange(0, 0) + layers_from(h, self.current_layer())
                        =~= layers_from(h, self.tree@));
                    assert(layer_up(h, self.current_layer()).take(0) =~= Seq::<Element>::empty());
                }
            }
        }
        Ok(())
    }

    /// Accepts a batch of columns that is not the last. Each column holds
    /// `COLUMN_ARITY` elements, and the columns never exceed the configured
    /// leaf count: both are invariants of the run, not recoverable errors.
    pub fn add_columns(&mut self, columns: Vec<Vec<Element>>) -> (r: Result<(), BuildError>)
        requires
            old(self).wf(),
            all_columns(rows_view(columns@)),
            old(self).columns().len() + columns@.len() <= old(self).leaf_count_spec(),
        ensures
            final(self).wf(),
            r == old(self).add_outcome(),
            r is Ok ==> {
                &&& final(self).columns() == old(self).columns() + rows_view(columns@)
                &&& final(self).answers() == old(self).answers()
                &&& final(self).leaf_count_spec() == old(self).leaf_count_spec()
                &&& !final(self).is_finalizing()
            },
            r is Err ==> *final(self) == *old(self),
    {
        self.add_batch(columns, false)
    }

    /// Accepts the last batch of columns, which brings the column count to
    /// exactly the configured leaf count; the remaining jobs then build the
    /// tree up to its root.
    pub fn add_final_columns(&mut self, columns: Vec<Vec<Element>>) -> (r: Result<(), BuildError>)
        requires
            old(self).wf(),
            all_columns(rows_view(columns@)),
            old(self).columns().len() + columns@.len() == old(self).leaf_count_spec(),
        ensures
            final(self).wf(),
            r == old(self).add_outcome(),
            r is Ok ==> {
                &&& final(self).columns() == old(self).columns() + rows_view(columns@)
                &&& final(self).columns().len() == final(self).leaf_count_spec()
                &&& final(self).answers() == old(self).answers()
                &&& final(self).leaf_count_spec() == old(self).leaf_count_spec()
                &&& final(self).is_finalizing()
            },
            r is Err ==> *final(self) == *old(self),
    {
        self.add_batch(columns, true)
    }

    /// Total number of nodes of the finished tree, leaves and root
    /// included.
    pub fn tree_size(&self) -> (r: usize)
        requires
            self.wf(),
        ensures
            r == tree_size_spec(self.leaf_count_spec()),
    {
        self.total
    }

    /// Number of columns accepted so far.
    pub fn received(&self) -> (r: usize)
        requires
            self.wf(),
        ensures
            r == self.columns().len(),
    {
        proof {
            assert(rows_view(self.pending@).len() == self.pending@.len());
        }
        self.leaves + self.pending.len()
    }

    /// The configured number of columns.
    pub fn leaf_count(&self) -> (r: usize)
        ensures
            r == self.leaf_count_spec(),
    {
        self.leaf_count
    }
}

impl ColumnTreeBuilder {
    fn group_preimage(&self, g: usize) -> (r: Vec<Element>)
        requires
            self.wf(),
            self.in_tree_phase(),
            self.layer_len > 1,
            g < next_len(self.layer_len as nat),
        ensures
            r@ == group(self.current_layer(), g as int),
    {
        let len = self.layer_len;
        let a: usize = if len % 8 == 0 {
            8
        } else {
            2
        };
        let ghost cur = self.current_layer();
        let ghost t = next_len(len as nat);
        proof {
            lemma_next_len(len as nat);
            lemma_tree_size_at_least(len as nat);
            assert(a * g <= a * (t - 1)) by (nonlinear_arith)
                requires
                    g <= t - 1,
                    a >= 0,
            ;
        }
        let mut r: Vec<Element> = Vec::new();
        let mut j: usize = 0;
        while j < a
            invariant
                j <= a,
                len > 1,
                a == 8 || a == 2,
                a == crate::tree_model::fold_arity(len as nat),
                a * g + 8 <= usize::MAX,
                len == self.layer_len,
                cur == self.current_layer(),
                self.layer_start + len <= self.tree.len(),
                r@ == group(cur, g as int).take(j as int),
            decreases a - j,
        {
            let k = a * g + j;
            let idx = if k < len {
                k
            } else {
                len - 1
            };
            r.push(self.tree[self.layer_start + idx]);
            j += 1;
            assert(r@ =~= group(cur, g as int).take(j as int));
        }
        assert(r@ =~= group(cur, g as int));
        r
    }

    /// The preimages to hash next, or `None` while the builder waits for
    /// columns or once the root is built.
    pub fn pending_job(&self) -> (r: Option<HashJob>)
        requires
            self.wf(),
        ensures
            r is Some <==> self.job_spec() is Some,
            r matches Some(j) ==> {
                &&& rows_view(j.preimages@) == self.job_spec().unwrap()
                &&& forall|k: int| 0 <= k < j.preimages.len() ==> #[trigger] j.preimages@[k]@.len()
                    == j.arity
            },
            r is None && self.is_finalizing() ==> self.is_done(),
    {
        if !(self.finalizing && self.pending.len() == 0) {
            if self.pending.len() < self.column_batch && !self.finalizing {
                return None;
            }
            let k = if self.pending.len() < self.column_batch {
                self.pending.len()
            } else {
                self.column_batch
            };
            let ghost want = rows_view(self.pending@).take(k as int);
            let mut pre: Vec<Vec<Element>> = Vec::new();
            let mut i: usize = 0;
            while i < k
                invariant
                    i <= k <= self.pending.len(),
                    self.wf(),
                    want == rows_view(self.pending@).take(k as int),
                    pre.len() == i,
                    rows_view(pre@) == want.take(i as int),
                decreases k - i,
            {
                let c = copy_elements(&self.pending[i]);
                assert(c@ == rows_view(self.pending@)[i as int]);
                pre.push(c);
                i += 1;
                assert(rows_view(pre@)[i - 1] == pre@[i - 1]@);
                assert(rows_view(pre@) =~= want.take(i as int));
            }
            assert(want.take(k as int) =~= want);
            proof {
                assert forall|q: int| 0 <= q < pre.len() implies #[trigger] pre@[q]@.len()
                    == COLUMN_ARITY by {
                    assert(pre@[q]@ == rows_view(pre@)[q]);
                    assert(rows_view(self.pending@)[q] == self.columns@[self.leaves + q]);
                }
            }
            Some(HashJob { arity: COLUMN_ARITY, preimages: pre })
        } else {
            if self.layer_len <= 1 {
                return None;
            }
            let len = self.layer_len;
            let b = self.tree.len() - self.layer_start - len;
            let t = next_layer_len(len);
            let e = if self.tree_batch < t - b {
                b + self.tree_batch
            } else {
                t
            };
            let a: usize = if len % 8 == 0 {
                8
            } else {
                2
            };
            let ghost cur = self.current_layer();
            let mut pre: Vec<Vec<Element>> = Vec::new();
            let mut g: usize = b;
            while g < e
                invariant
                    b <= g <= e <= t,
                    t == next_len(len as nat),
                    len == self.layer_len,
                    self.wf(),
                    self.in_tree_phase(),
                    self.layer_len > 1,
                    cur == self.current_layer(),
                    a == crate::tree_model::fold_arity(len as nat),
                    rows_view(pre@) == Seq::new((g - b) as nat, |k: int| group(cur, b + k)),
                    pre.len() == g - b,
                    forall|q: int| 0 <= q < pre.len() ==> #[trigger] pre@[q]@.len() == a,
                decreases e - g,
            {
                let p = self.group_preimage(g);
                let ghost pre_old = pre@;
                pre.push(p);
                g += 1;
                assert(rows_view(pre@)[g - b - 1] == pre@[g - b - 1]@);
                assert(rows_view(pre@)[g - b - 1] == group(cur, b + (g - b - 1)));
                assert forall|k: int| 0 <= k < g - b - 1 implies rows_view(pre@)[k] == group(
                    cur,
                    b + k,
                ) by {
                    assert(pre@[k] == pre_old[k]);
                    assert(rows_view(pre_old)[k] == group(cur, b + k));
                }
                assert(rows_view(pre@) =~= Seq::new((g - b) as nat, |k: int| group(cur, b + k)));
            }
            Some(HashJob { arity: a, preimages: pre })
        }
    }

    /// Takes the digests of the preimages of `pending_job`, one for each
    /// and in the same order.
    pub fn complete_job(&mut self, digests: Vec<Element>) -> (r: Result<(), BuildError>)
        requires
            old(self).wf(),
        ensures
            final(self).wf(),
            r == Err::<(), BuildError>(BuildError::NoPendingJob) <==> old(self).job_spec() is None,
            r == Err::<(), BuildError>(BuildError::DigestCountMismatch) <==> (old(
                self,
            ).job_spec() is Some && old(self).job_spec().unwrap().len() != digests.len()),
            r is Ok <==> (old(self).job_spec() is Some && old(self).job_spec().unwrap().len()
                == digests@.len()),
            r is Ok ==> {
                &&& final(self).tree_view() == old(self).tree_view() + digests@
                &&& final(self).answers() == old(self).answers() + zip_answers(
                    old(self).job_spec().unwrap(),
                    digests@,
                )
                &&& final(self).columns() == old(self).columns()
                &&& final(self).leaf_count_spec() == old(self).leaf_count_spec()
                &&& final(self).is_finalizing() == old(self).is_finalizing()
            },
            r is Err ==> *final(self) == *old(self),
    {
        if !(self.finalizing && self.pending.len() == 0) {
            self.complete_column_job(digests)
        } else {
            self.complete_tree_job(digests)
        }
    }

    fn complete_column_job(&mut self, digests: Vec<Element>) -> (r: Result<(), BuildError>)
        requires
            old(self).wf(),
            !old(self).in_tree_phase(),
        ensures
            final(self).wf(),
            r == Err::<(), BuildError>(BuildError::NoPendingJob) <==> old(self).job_spec() is None,
            r == Err::<(), BuildError>(BuildError::DigestCountMismatch) <==> (old(
                self,
            ).job_spec() is Some && old(self).job_spec().unwrap().len() != digests.len()),
            r is Ok <==> (old(self).job_spec() is Some && old(self).job_spec().unwrap().len()
                == digests@.len()),
            r is Ok ==> {
                &&& final(self).tree_view() == old(self).tree_view() + digests@
                &&& final(self).answers() == old(self).answers() + zip_answers(
                    old(self).job_spec().unwrap(),
                    digests@,
                )
                &&& final(self).columns() == old(self).columns()
                &&& final(self).leaf_count_spec() == old(self).leaf_count_spec()
                &&& final(self).is_finalizing() == old(self).is_finalizing()
            },
            r is Err ==> *final(self) == *old(self),
    {
        let ghost old_self = *self;
        let ghost job = self.job_spec();
        if self.pending.len() < self.column_batch && !self.finalizing {
            return Err(BuildError::NoPendingJob);
        }
        let k = if self.pending.len() < self.column_batch {
            self.pending.len()
        } else {
            self.column_batch
        };
        if digests.len() != k {
            return Err(BuildError::DigestCountMismatch);
        }
        let ghost pre = job.unwrap();
        let ghost added = zip_answers(pre, digests@);
        let rest = self.pending.split_off(k);
        self.pending = rest;
        let mut digests = digests;
        self.tree.append(&mut digests);
        self.leaves = self.leaves + k;
        self.layer_len = self.leaves;
        self.answers = Ghost(self.answers@ + added);
        proof {
            let cols = self.columns@;
            let old_leaves = old_self.leaves as int;
            assert(rows_view(self.pending@) =~= rows_view(old_self.pending@).skip(k as int));
            assert(cols.skip(self.leaves as int) =~= cols.skip(old_leaves).skip(k as int));
            if self.in_tree_phase() {
                assert(self.leaves == self.leaf_count) by {
                    assert(rows_view(self.pending@).len() == 0);
                }
                lemma_tree_size_at_least(self.leaf_count as nat);
                lemma_next_len(self.leaf_count as nat);
                assert(self.tree@.subrange(self.layer_len as int, self.tree.len() as int)
                    =~= Seq::<Element>::empty());
            }
            assert forall|h: HashFn| agrees(self.answers@, h) implies #[trigger] self.digests_ok(
                h) by {
                lemma_agrees_prefix(old_self.answers@, added, h);
                assert(old_self.digests_ok(h));
                let want = column_leaves(h, cols.take(self.leaves as int));
                assert forall|q: int| 0 <= q < self.tree.len() implies self.tree@[q]
                    == want[q] by {
                    if q >= old_leaves {
                        let z = q - old_leaves;
                        let idx = old_self.answers@.len() + z;
                        assert(self.answers@[idx] == added[z]);
                        assert(h(self.answers@[idx].0) == self.answers@[idx].1);
                        assert(pre[z] == rows_view(old_self.pending@)[z]);
                        assert(rows_view(old_self.pending@)[z] == cols[q]);
                    } else {
                        assert(self.tree@[q] == old_self.tree@[q]);
                    }
                }
                assert(self.tree@ =~= want);
                if self.in_tree_phase() {
                    assert(cols.take(self.leaves as int) =~= cols);
                    assert(self.current_layer() =~= self.tree@);
                    assert(self.tree@.subrange(0, 0) + layers_from(h, self.current_layer())
                        =~= layers_from(h, self.tree@));
                    assert(layer_up(h, self.current_layer()).take(0) =~= Seq::<
                        Element,
                    >::empty());
                }
            }
        }
        Ok(())
    }

    #[verifier::rlimit(30)]
    fn complete_tree_job(&mut self, digests: Vec<Element>) -> (r: Result<(), BuildError>)
        requires
            old(self).wf(),
            old(self).in_tree_phase(),
        ensures
            final(self).wf(),
            r == Err::<(), BuildError>(BuildError::NoPendingJob) <==> old(self).job_spec() is None,
            r == Err::<(), BuildError>(BuildError::DigestCountMismatch) <==> (old(
                self,
            ).job_spec() is Some && old(self).job_spec().unwrap().len() != digests.len()),
            r is Ok <==> (old(self).job_spec() is Some && old(self).job_spec().unwrap().len()
                == digests@.len()),
            r is Ok ==> {
                &&& final(self).tree_view() == old(self).tree_view() + digests@
                &&& final(self).answers() == old(self).answers() + zip_answers(
                    old(self).job_spec().unwrap(),
                    digests@,
                )
                &&& final(self).columns() == old(self).columns()
                &&& final(self).leaf_count_spec() == old(self).leaf_count_spec()
                &&& final(self).is_finalizing() == old(self).is_finalizing()
            },
            r is Err ==> *final(self) == *old(self),
    {
        let ghost old_self = *self;
        let ghost job = self.job_spec();
        if self.layer_len <= 1 {
            return Err(BuildError::NoPendingJob);
        }
        let s = self.layer_start;
        let len = self.layer_len;
        let b = self.tree.len() - s - len;
        let t = next_layer_len(len);
        let e = if self.tree_batch < t - b {
            b + self.tree_batch
        } else {
            t
        };
        if digests.len() != e - b {
            return Err(BuildError::DigestCountMismatch);
        }
        let ghost pre = job.unwrap();
        let ghost added = zip_answers(pre, digests@);
        let ghost cur = old_self.current_layer();
        let mut digests = digests;
        self.tree.append(&mut digests);
        self.answers = Ghost(self.answers@ + added);
        proof {
            lemma_next_len(len as nat);
            assert(self.tree@.subrange(0, (s + len) as int) =~= old_self.tree@.subrange(
                0,
                (s + len) as int,
            ));
            assert(self.current_layer() =~= cur);
        }
        let advance = self.tree.len() - s - len == t;
        if advance {
            self.layer_start = s + len;
            self.layer_len = t;
        }
        proof {
            if advance {
                assert(tree_size_spec(len as nat) == len + tree_size_spec(t as nat));
                assert(self.tree@.subrange(
                    self.layer_start + self.layer_len,
                    self.tree.len() as int,
                ) =~= Seq::<Element>::empty());
            }
            assert forall|h: HashFn| agrees(self.answers@, h) implies #[trigger] self.digests_ok(
                h) by {
                lemma_agrees_prefix(old_self.answers@, added, h);
                assert(old_self.digests_ok(h));
                let up = layer_up(h, cur);
                let nb = self.tree@.subrange((s + len) as int, self.tree.len() as int);
                assert forall|q: int| 0 <= q < nb.len() implies nb[q] == up[q] by {
                    if q >= b {
                        let z = q - b;
                        let idx = old_self.answers@.len() + z;
                        assert(self.answers@[idx] == added[z]);
                        assert(h(self.answers@[idx].0) == self.answers@[idx].1);
                        assert(pre[z] == group(cur, b + z));
                    } else {
                        assert(nb[q] == old_self.tree@.subrange(
                            (s + len) as int,
                            old_self.tree.len() as int,
                        )[q]);
                    }
                }
                assert(nb =~= up.take(e as int));
                if advance {
                    assert(nb =~= up);
                    assert(self.current_layer() =~= up);
                    assert(layers_from(h, cur) == cur + layers_from(h, up));
                    assert(self.tree@.subrange(0, self.layer_start as int) =~= self.tree@.subrange(
                        0,
                        s as int,
                    ) + cur);
                    assert(self.tree@.subrange(0, s as int) =~= old_self.tree@.subrange(
                        0,
                        s as int,
                    ));
                    assert(layer_up(h, self.current_layer()).take(0) =~= Seq::<
                        Element,
                    >::empty());
                } else {
                    assert(self.tree@.subrange(0, s as int) =~= old_self.tree@.subrange(
                        0,
                        s as int,
                    ));
                    assert(self.built() == e);
                }
                assert(self.in_tree_phase());
                assert(column_tree(h, self.columns@) == self.tree@.subrange(
                    0,
                    self.layer_start as int,
                ) + layers_from(h, self.current_layer()));
                assert(self.tree@.subrange(
                    self.layer_start + self.layer_len,
                    self.tree.len() as int,
                ) == layer_up(h, self.current_layer()).take(self.built() as int));
            }
        }
        Ok(())
    }
}

impl ColumnTreeBuilder {
    /// The finished tree, leaves first and root last; `None` until the root
    /// is built.
    pub fn tree(&self) -> (r: Option<Vec<Element>>)
        requires
            self.wf(),
        ensures
            r is Some <==> self.is_done(),
            r matches Some(t) ==> t@ == self.tree_view(),
    {
        if self.finalizing && self.pending.len() == 0 && self.layer_len <= 1 {
            Some(copy_elements(&self.tree))
        } else {
            None
        }
    }

    /// The root of the finished tree; `None` until it is built.
    pub fn root(&self) -> (r: Option<Element>)
        requires
            self.wf(),
        ensures
            r is Some <==> self.is_done(),
            r matches Some(e) ==> self.tree_view().len() >= 1 && e == self.tree_view().last(),
    {
        if self.finalizing && self.pending.len() == 0 && self.layer_len <= 1 {
            Some(self.tree[self.tree.len() - 1])
        } else {
            None
        }
    }

    /// Starts the closed-form root computation for a tree whose columns all
    /// equal `column`.
    pub fn compute_uniform_tree_root(&self, column: Vec<Element>) -> (u: UniformRoot)
        requires
            self.wf(),
            column@.len() == COLUMN_ARITY,
        ensures
            u.wf(),
            u.column() == column@,
            u.leaf_count() == self.leaf_count_spec(),
            u.answers() == Seq::<(Seq<Element>, Element)>::empty(),
            u.steps_left() == 1 + layers_above(self.leaf_count_spec()),
    {
        let u = UniformRoot {
            column,
            element: Element::zero(),
            layer_len: self.leaf_count,
            hashed: false,
            leaves: Ghost(self.leaf_count as nat),
            answers: Ghost(Seq::empty()),
        };
        u
    }
}

/// Once the root is built, the tree is the column tree of the accepted
/// columns under every hash function that gave each digest handed in.
pub proof fn lemma_done_tree(b: ColumnTreeBuilder, h: HashFn)
    requires
        b.wf(),
        b.is_done(),
        agrees(b.answers(), h),
    ensures
        b.tree_view() == column_tree(h, b.columns()),
{
    assert(b.digests_ok(h));
    assert(b.tree@ =~= b.tree@.subrange(0, b.layer_start as int) + b.current_layer());
}

/// A finished tree has as many nodes as `tree_size` says, and it was built
/// over exactly the configured number of columns.
pub proof fn lemma_done_size(b: ColumnTreeBuilder)
    requires
        b.wf(),
        b.is_done(),
    ensures
        b.tree_view().len() == tree_size_spec(b.leaf_count_spec()),
        b.columns().len() == b.leaf_count_spec(),
{
}

/// The nodes built so far never exceed the finished tree's size.
pub proof fn lemma_wf_tree_bound(b: ColumnTreeBuilder)
    requires
        b.wf(),
    ensures
        b.tree_view().len() <= tree_size_spec(b.leaf_count_spec()),
{
    lemma_tree_size_at_least(b.leaf_count as nat);
    if b.in_tree_phase() {
        lemma_next_len(b.layer_len as nat);
        if b.layer_len > 1 {
            lemma_tree_size_at_least(next_len(b.layer_len as nat));
        }
    }
}

/// Every pending job holds at least one preimage, so each accepted
/// completion adds at least one node.
pub proof fn lemma_job_nonempty(b: ColumnTreeBuilder)
    requires
        b.wf(),
        b.job_spec() is Some,
    ensures
        b.job_spec().unwrap().len() >= 1,
{
    if b.in_tree_phase() {
        lemma_next_len(b.layer_len as nat);
    } else {
        assert(rows_view(b.pending@).len() == b.pending@.len());
        if b.finalizing {
            assert(b.pending.len() > 0);
        }
    }
}

/// Once the final batch is in, a builder with no pending job is done: so
/// completing jobs, each of which grows a bounded tree, ends in the root.
pub proof fn lemma_idle_after_final_is_done(b: ColumnTreeBuilder)
    requires
        b.wf(),
        b.is_finalizing(),
        b.job_spec() is None,
    ensures
        b.is_done(),
{
}

/// How the columns were split into batches does not change the tree: two
/// finished builders that accepted the same columns, answered by the same
/// hash function, hold the same tree and so the same root.
pub proof fn lemma_batches_do_not_matter(b1: ColumnTreeBuilder, b2: ColumnTreeBuilder, h: HashFn)
    requires
        b1.wf(),
        b2.wf(),
        b1.is_done(),
        b2.is_done(),
        b1.columns() == b2.columns(),
        agrees(b1.answers(), h),
        agrees(b2.answers(), h),
    ensures
        b1.tree_view() == b2.tree_view(),
{
    lemma_done_tree(b1, h);
    lemma_done_tree(b2, h);
}

/// Closed-form root of a tree whose columns are all equal: hash the column
/// once, then hash copies of that digest once per layer.
pub struct UniformRoot {
    column: Vec<Element>,
    element: Element,
    layer_len: usize,
    hashed: bool,
    leaves: Ghost<nat>,
    answers: Ghost<Seq<(Seq<Element>, Element)>>,
}

impl UniformRoot {
    /// The column every leaf is made of.
    pub closed spec fn column(self) -> Seq<Element> {
        self.column@
    }

    /// Number of leaves of the tree.
    pub closed spec fn leaf_count(self) -> nat {
        self.leaves@
    }

    /// Every digest handed in so far, with its preimage.
    pub closed spec fn answers(self) -> Seq<(Seq<Element>, Element)> {
        self.answers@
    }

    /// Whether the root is known.
    pub closed spec fn is_done(self) -> bool {
        self.hashed && self.layer_len <= 1
    }

    /// Number of digests still to come: the column's, then one per layer.
    pub closed spec fn steps_left(self) -> nat {
        if self.hashed {
            layers_above(self.layer_len as nat)
        } else {
            1 + layers_above(self.layer_len as nat)
        }
    }

    /// The root, once known.
    pub closed spec fn root_spec(self) -> Element {
        self.element
    }

    /// The preimages to hash next: the column, then one group of equal
    /// nodes per layer.
    pub closed spec fn job_spec(self) -> Option<Seq<Seq<Element>>> {
        if !self.hashed {
            Some(seq![self.column@])
        } else if self.layer_len <= 1 {
            None
        } else {
            Some(seq![Seq::new(fold_arity(self.layer_len as nat), |j: int| self.element)])
        }
    }

    /// The invariant.
    pub closed spec fn wf(self) -> bool {
        &&& self.layer_len >= 1
        &&& (!self.hashed ==> self.layer_len == self.leaves@)
        &&& forall|h: HashFn|
            agrees(self.answers@, h) ==> (#[trigger] uniform_root(h, h(self.column@), self.leaves@)
                == if self.hashed {
                uniform_root(h, self.element, self.layer_len as nat)
            } else {
                uniform_root(h, h(self.column@), self.layer_len as nat)
            })
    }

    /// The one preimage to hash next, or `None` once the root is known.
    pub fn pending_job(&self) -> (r: Option<HashJob>)
        requires
            self.wf(),
        ensures
            r is Some <==> self.job_spec() is Some,
            r matches Some(j) ==> {
                &&& rows_view(j.preimages@) == self.job_spec().unwrap()
                &&& forall|k: int| 0 <= k < j.preimages.len() ==> #[trigger] j.preimages@[k]@.len()
                    == j.arity
            },
            r is None <==> self.is_done(),
            r is None <==> self.steps_left() == 0,
    {
        if !self.hashed {
            let c = copy_elements(&self.column);
            let arity = c.len();
            let pre = vec![c];
            assert(rows_view(pre@) =~= seq![self.column@]);
            Some(HashJob { arity, preimages: pre })
        } else if self.layer_len <= 1 {
            None
        } else {
            let a: usize = if self.layer_len % 8 == 0 {
                8
            } else {
                2
            };
            let mut p: Vec<Element> = Vec::new();
            let mut j: usize = 0;
            while j < a
                invariant
                    j <= a,
                    p@ == Seq::new(j as nat, |q: int| self.element),
                decreases a - j,
            {
                p.push(self.element);
                j += 1;
                assert(p@ =~= Seq::new(j as nat, |q: int| self.element));
            }
            let pre = vec![p];
            assert(rows_view(pre@) =~= seq![Seq::new(a as nat, |q: int| self.element)]);
            Some(HashJob { arity: a, preimages: pre })
        }
    }

    /// Takes the one digest of the preimage of `pending_job`.
    pub fn complete_job(&mut self, digests: Vec<Element>) -> (r: Result<(), BuildError>)
        requires
            old(self).wf(),
        ensures
            final(self).wf(),
            r == Err::<(), BuildError>(BuildError::NoPendingJob) <==> old(self).job_spec() is None,
            r == Err::<(), BuildError>(BuildError::DigestCountMismatch) <==> (old(
                self,
            ).job_spec() is Some && digests.len() != 1),
            r is Ok <==> (old(self).job_spec() is Some && digests@.len() == 1),
            r is Ok ==> {
                &&& final(self).answers() == old(self).answers() + zip_answers(
                    old(self).job_spec().unwrap(),
                    digests@,
                )
                &&& final(self).root_spec() == digests@[0]
                &&& final(self).steps_left() + 1 == old(self).steps_left()
            },
            final(self).column() == old(self).column(),
            final(self).leaf_count() == old(self).leaf_count(),
            r is Err ==> *final(self) == *old(self),
    {
        let ghost old_self = *self;
        let ghost job = self.job_spec();
        if self.hashed && self.layer_len <= 1 {
            return Err(BuildError::NoPendingJob);
        }
        if digests.len() != 1 {
            return Err(BuildError::DigestCountMismatch);
        }
        let ghost added = zip_answers(job.unwrap(), digests@);
        self.answers = Ghost(self.answers@ + added);
        let d = digests[0];
        if !self.hashed {
            self.hashed = true;
            self.element = d;
        } else {
            self.element = d;
            self.layer_len = next_layer_len(self.layer_len);
        }
        proof {
            lemma_next_len(old_self.layer_len as nat);
            assert forall|h: HashFn| #[trigger] agrees(self.answers@, h) implies uniform_root(
                h,
                h(self.column@),
                self.leaves@,
            ) == uniform_root(h, self.element, self.layer_len as nat) by {
                lemma_agrees_prefix(old_self.answers@, added, h);
                let idx = old_self.answers@.len() as int;
                assert(self.answers@[idx] == added[0]);
                assert(h(self.answers@[idx].0) == self.answers@[idx].1);
                assert(uniform_root(h, h(old_self.column@), old_self.leaves@) == if old_self.hashed {
                    uniform_root(h, old_self.element, old_self.layer_len as nat)
                } else {
                    uniform_root(h, h(old_self.column@), old_self.layer_len as nat)
                });
                if old_self.hashed {
                    let c = Seq::new(
                        fold_arity(old_self.layer_len as nat),
                        |j: int| old_self.element,
                    );
                    assert(job.unwrap()[0] == c);
                    assert(self.element == h(c));
                    assert(uniform_root(h, old_self.element, old_self.layer_len as nat)
                        == uniform_root(h, h(c), next_len(old_self.layer_len as nat)));
                } else {
                    assert(self.element == h(old_self.column@));
                }
            }
        }
        Ok(())
    }

    /// The root, once known.
    pub fn root(&self) -> (r: Option<Element>)
        requires
            self.wf(),
        ensures
            r is Some <==> self.is_done(),
            r matches Some(e) ==> e == self.root_spec(),
    {
        if self.hashed && self.layer_len <= 1 {
            Some(self.element)
        } else {
            None
        }
    }
}

/// The closed-form root is the root that streaming gives: where every
/// column equals the uniform column, the finished tree ends in the root of
/// the finished closed-form computation, both answered by the same hash
/// function.
pub proof fn lemma_uniform_root_matches_stream(b: ColumnTreeBuilder, u: UniformRoot, h: HashFn)
    requires
        b.wf(),
        b.is_done(),
        u.wf(),
        u.is_done(),
        u.leaf_count() == b.leaf_count_spec(),
        forall|i: int| 0 <= i < b.columns().len() ==> b.columns()[i] == u.column(),
        agrees(b.answers(), h),
        agrees(u.answers(), h),
    ensures
        b.tree_view().len() >= 1,
        u.root_spec() == b.tree_view().last(),
{
    lemma_done_tree(b, h);
    lemma_done_size(b);
    lemma_uniform_column_tree(h, b.columns(), u.column());
    assert(uniform_root(h, h(u.column@), u.leaves@) == uniform_root(
        h,
        u.element,
        u.layer_len as nat,
    ));
}

} // verus!
