//! The batch hasher: one kernel bound to one context and one opaque backend
//! state, with bounded retry of failed calls.
//!
//! Calling the backend, holding the context's lock and waiting between
//! attempts belong to the caller; the hasher decides what is sent, what an
//! outcome means, and whether to try again.

use crate::element::Element;
use crate::marshal::{
    all_in_field, all_width, array_1d_from_element, array_2d_from_elements, array_3d_from_rows,
    as_u64s, flatten, flatten_rows, is_matrix, is_uniform, rows_view, unpack_elements, LimbArray,
};
use vstd::prelude::*;

verus! {

/// Which round constants the hash uses.
#[derive(Clone, Copy, Debug, PartialEq, Eq, Structural)]
pub enum Strength {
    Standard,
    Strengthened,
}

/// The backend kernel for one arity at one strength.
#[derive(Clone, Copy, Debug, PartialEq, Eq, Structural)]
pub enum Kernel {
    Arity2,
    Arity8,
    Arity11,
    Arity2s,
    Arity8s,
    Arity11s,
}

impl Kernel {
    pub open spec fn arity_spec(self) -> nat {
        match self {
            Kernel::Arity2 | Kernel::Arity2s => 2,
            Kernel::Arity8 | Kernel::Arity8s => 8,
            Kernel::Arity11 | Kernel::Arity11s => 11,
        }
    }

    pub open spec fn strength_spec(self) -> Strength {
        match self {
            Kernel::Arity2 | Kernel::Arity8 | Kernel::Arity11 => Strength::Standard,
            _ => Strength::Strengthened,
        }
    }

    /// The kernel for `arity` at `strength`; only arities 2, 8 and 11
    /// have one.
    pub fn select(arity: usize, strength: Strength) -> (r: Kernel)
        requires
            arity == 2 || arity == 8 || arity == 11,
        ensures
            r.arity_spec() == arity,
            r.strength_spec() == strength,
    {
        match strength {
            Strength::Standard => if arity == 2 {
                Kernel::Arity2
            } else if arity == 8 {
                Kernel::Arity8
            } else {
                Kernel::Arity11
            },
            Strength::Strengthened => if arity == 2 {
                Kernel::Arity2s
            } else if arity == 8 {
                Kernel::Arity8s
            } else {
                Kernel::Arity11s
            },
        }
    }

    /// Number of elements in one preimage.
    pub fn arity(&self) -> (r: usize)
        ensures
            r == self.arity_spec(),
    {
        match self {
            Kernel::Arity2 | Kernel::Arity2s => 2,
            Kernel::Arity8 | Kernel::Arity8s => 8,
            Kernel::Arity11 | Kernel::Arity11s => 11,
        }
    }

    pub fn strength(&self) -> (r: Strength)
        ensures
            r == self.strength_spec(),
    {
        match self {
            Kernel::Arity2 | Kernel::Arity8 | Kernel::Arity11 => Strength::Standard,
            _ => Strength::Strengthened,
        }
    }
}

/// One sparse matrix of the partial rounds, as two vectors.
pub struct SparseMatrix {
    pub w_hat: Vec<Element>,
    pub v_rest: Vec<Element>,
}

/// The round constants a kernel is initialised with.
pub struct GPUConstants {
    pub arity_tag: Element,
    pub compressed_round_constants: Vec<Element>,
    pub mds_matrix: Vec<Vec<Element>>,
    pub pre_sparse_matrix: Vec<Vec<Element>>,
    pub sparse_matrixes: Vec<SparseMatrix>,
}

/// Each sparse matrix as one row: `w_hat`, then `v_rest`.
pub open spec fn sparse_rows(m: Seq<SparseMatrix>) -> Seq<Seq<Element>> {
    Seq::new(m.len(), |i: int| m[i].w_hat@ + m[i].v_rest@)
}

impl GPUConstants {
    /// The arity tag as a 4 x 1 array.
    pub fn arity_tag(&self) -> (r: LimbArray)
        ensures
            r.limbs@ == self.arity_tag.limbs@,
            r.dims@ == seq![4usize, 1usize],
    {
        array_1d_from_element(self.arity_tag)
    }

    /// The round keys as an n x 4 array.
    pub fn round_keys(&self) -> (r: LimbArray)
        ensures
            r.limbs@ == flatten(self.compressed_round_constants@),
            r.dims@ == seq![self.compressed_round_constants@.len() as usize, 4usize],
    {
        array_2d_from_elements(&self.compressed_round_constants)
    }

    /// Whether each matrix has a matrix's shape: rows present and all of
    /// one length.
    pub open spec fn well_shaped(&self) -> bool {
        &&& is_matrix(rows_view(self.mds_matrix@))
        &&& is_matrix(rows_view(self.pre_sparse_matrix@))
        &&& is_matrix(sparse_rows(self.sparse_matrixes@))
    }

    /// Tests `well_shaped`.
    pub fn is_well_shaped(&self) -> (r: bool)
        ensures
            r == self.well_shaped(),
    {
        if !is_uniform(&self.mds_matrix) || !is_uniform(&self.pre_sparse_matrix) {
            return false;
        }
        let n = self.sparse_matrixes.len();
        if n == 0 {
            assert(sparse_rows(self.sparse_matrixes@).len() == 0);
            return false;
        }
        let ghost rows = sparse_rows(self.sparse_matrixes@);
        let first = &self.sparse_matrixes[0];
        let w: u128 = first.w_hat.len() as u128 + first.v_rest.len() as u128;
        let mut i: usize = 0;
        while i < n
            invariant
                i <= n,
                n == self.sparse_matrixes@.len(),
                rows == sparse_rows(self.sparse_matrixes@),
                w == rows[0].len(),
                forall|k: int| 0 <= k < i ==> #[trigger] rows[k].len() == w,
            decreases n - i,
        {
            let m = &self.sparse_matrixes[i];
            if m.w_hat.len() as u128 + m.v_rest.len() as u128 != w {
                assert(rows[i as int].len() != w);
                return false;
            }
            i += 1;
        }
        true
    }

    /// The MDS matrix as a rows x columns x 4 array.
    pub fn mds_matrix(&self) -> (r: LimbArray)
        requires
            self.well_shaped(),
        ensures
            r.limbs@ == flatten_rows(rows_view(self.mds_matrix@)),
            r.dims@ == seq![self.mds_matrix@.len() as usize, self.mds_matrix@[0]@.len() as usize, 4usize],
    {
        array_3d_from_rows(&self.mds_matrix)
    }

    /// The matrix applied before the sparse rounds, as a 3-d array.
    pub fn pre_sparse_matrix(&self) -> (r: LimbArray)
        requires
            self.well_shaped(),
        ensures
            r.limbs@ == flatten_rows(rows_view(self.pre_sparse_matrix@)),
            r.dims@ == seq![self.pre_sparse_matrix@.len() as usize, self.pre_sparse_matrix@[0]@.len() as usize, 4usize],
    {
        array_3d_from_rows(&self.pre_sparse_matrix)
    }

    /// The sparse matrices, each as `w_hat` followed by `v_rest`, as a 3-d
    /// array.
    pub fn sparse_matrixes(&self) -> (r: LimbArray)
        requires
            self.well_shaped(),
        ensures
            r.limbs@ == flatten_rows(sparse_rows(self.sparse_matrixes@)),
            r.dims@ == seq![self.sparse_matrixes@.len() as usize, sparse_rows(self.sparse_matrixes@)[0].len() as usize, 4usize],
    {
        let mut rows: Vec<Vec<Element>> = Vec::new();
        let mut i: usize = 0;
        while i < self.sparse_matrixes.len()
            invariant
                i <= self.sparse_matrixes.len(),
                rows.len() == i,
                rows_view(rows@) == sparse_rows(self.sparse_matrixes@).take(i as int),
            decreases self.sparse_matrixes.len() - i,
        {
            let m = &self.sparse_matrixes[i];
            let mut row: Vec<Element> = Vec::new();
            let mut j: usize = 0;
            while j < m.w_hat.len()
                invariant
                    j <= m.w_hat.len(),
                    row@ == m.w_hat@.take(j as int),
                decreases m.w_hat.len() - j,
            {
                row.push(m.w_hat[j]);
                j += 1;
                assert(row@ =~= m.w_hat@.take(j as int));
            }
            let mut j: usize = 0;
            while j < m.v_rest.len()
                invariant
                    j <= m.v_rest.len(),
                    row@ == m.w_hat@ + m.v_rest@.take(j as int),
                decreases m.v_rest.len() - j,
            {
                row.push(m.v_rest[j]);
                j += 1;
                assert(row@ =~= m.w_hat@ + m.v_rest@.take(j as int));
            }
            assert(row@ =~= m.w_hat@ + m.v_rest@);
            let ghost before = rows@;
            rows.push(row);
            i += 1;
            assert forall|k: int| 0 <= k < i implies rows_view(rows@)[k] == sparse_rows(
                self.sparse_matrixes@,
            )[k] by {
                if k < i - 1 {
                    assert(rows@[k] == before[k]);
                    assert(rows_view(before)[k] == sparse_rows(self.sparse_matrixes@)[k]);
                }
            }
            assert(rows_view(rows@) =~= sparse_rows(self.sparse_matrixes@).take(i as int));
        }
        assert(rows_view(rows@) =~= sparse_rows(self.sparse_matrixes@));
        array_3d_from_rows(&rows)
    }
}

/// Why a hash call failed for good.
#[derive(Clone, Copy, Debug, PartialEq, Eq, Structural)]
pub enum HashError {
    /// Every allowed attempt failed; holds the number of attempts allowed.
    ExhaustedRetries(usize),
}

/// What the caller does after reporting an attempt.
pub enum HashStep {
    /// The call succeeded with these digests, one per preimage, in order.
    Done(Vec<Element>),
    /// Wait `RETRY_BACKOFF_SECS` seconds, then attempt the call again.
    Retry,
    /// Give up with this error.
    Failed(HashError),
}

/// Whether the backend's answer is a usable result for `count` preimages.
pub open spec fn usable<S, E>(outcome: Result<(Vec<u64>, S), E>, count: nat) -> bool {
    match outcome {
        Ok((limbs, _)) => limbs@.len() == 4 * count && all_in_field(limbs@),
        Err(_) => false,
    }
}

/// Binds one kernel, one context of the pool and one backend state.
pub struct GPUBatchHasher<S> {
    kernel: Kernel,
    context: usize,
    state: S,
    max_batch_size: usize,
    hash_retry: usize,
    tries_left: usize,
    expected: usize,
}

impl<S> GPUBatchHasher<S> {
    pub closed spec fn kernel_spec(self) -> Kernel {
        self.kernel
    }

    pub closed spec fn state_spec(self) -> S {
        self.state
    }

    /// Pool index of the bound context.
    pub closed spec fn context_spec(self) -> usize {
        self.context
    }

    /// Advised number of preimages per call.
    pub closed spec fn max_batch_size_spec(self) -> usize {
        self.max_batch_size
    }

    /// Attempts allowed per call.
    pub closed spec fn hash_retry_spec(self) -> nat {
        self.hash_retry as nat
    }

    /// Number of preimages of the current call.
    pub closed spec fn expected_spec(self) -> nat {
        self.expected as nat
    }

    /// Attempts left in the current call.
    pub closed spec fn tries_left_spec(self) -> nat {
        self.tries_left as nat
    }

    /// A hasher for `kernel` on context `context` of the pool, holding the
    /// state the backend initialised, advising batches of
    /// `max_batch_size`, and allowing `hash_retry` attempts per call.
    pub fn new(kernel: Kernel, context: usize, state: S, max_batch_size: usize, hash_retry: usize) -> (r: Self)
        ensures
            r.kernel_spec() == kernel,
            r.context_spec() == context,
            r.max_batch_size_spec() == max_batch_size,
            r.state_spec() == state,
            r.hash_retry_spec() == hash_retry,
            r.tries_left_spec() == 0,
    {
        GPUBatchHasher {
            kernel,
            context,
            state,
            max_batch_size,
            hash_retry,
            tries_left: 0,
            expected: 0,
        }
    }

    pub fn kernel(&self) -> (r: Kernel)
        ensures
            r == self.kernel_spec(),
    {
        self.kernel
    }

    /// The pool index of the bound context.
    pub fn context(&self) -> (r: usize)
        ensures
            r == self.context_spec(),
    {
        self.context
    }

    /// The backend state to hand to the next attempt.
    pub fn state(&self) -> (r: &S)
        ensures
            *r == self.state_spec(),
    {
        &self.state
    }

    /// The batch size the backend advises; a hint only.
    pub fn max_batch_size(&self) -> (r: usize)
        ensures
            r == self.max_batch_size_spec(),
    {
        self.max_batch_size
    }

    pub fn hash_retry(&self) -> (r: usize)
        ensures
            r == self.hash_retry_spec(),
    {
        self.hash_retry
    }

    pub fn tries_left(&self) -> (r: usize)
        ensures
            r == self.tries_left_spec(),
    {
        self.tries_left
    }

    /// Starts a call on `preimages`, which must have the kernel's arity:
    /// grants `hash_retry` attempts and returns the flat limbs to send.
    /// Fails at once only where no attempt is allowed at all.
    pub fn begin_hash(&mut self, preimages: &Vec<Vec<Element>>) -> (r: Result<Vec<u64>, HashError>)
        requires
            all_width(rows_view(preimages@), old(self).kernel_spec().arity_spec()),
        ensures
            r is Ok <==> old(self).hash_retry_spec() > 0,
            r is Err ==> r == Err::<Vec<u64>, HashError>(
                HashError::ExhaustedRetries(old(self).hash_retry_spec() as usize),
            ),
            r matches Ok(input) ==> input@ == flatten_rows(rows_view(preimages@)),
            final(self).kernel_spec() == old(self).kernel_spec(),
            final(self).context_spec() == old(self).context_spec(),
            final(self).max_batch_size_spec() == old(self).max_batch_size_spec(),
            final(self).state_spec() == old(self).state_spec(),
            final(self).hash_retry_spec() == old(self).hash_retry_spec(),
            r is Ok ==> final(self).tries_left_spec() == old(self).hash_retry_spec(),
            r is Ok ==> final(self).expected_spec() == preimages@.len(),
            r is Err ==> *final(self) == *old(self),
    {
        if self.hash_retry == 0 {
            return Err(HashError::ExhaustedRetries(self.hash_retry));
        }
        self.tries_left = self.hash_retry;
        self.expected = preimages.len();
        Ok(as_u64s(preimages))
    }

    /// Reports the backend's answer to one attempt of the current call.
    /// A usable answer replaces the state and yields the digests; any other
    /// answer uses up one attempt and keeps the state the attempt started
    /// from.
    pub fn record_attempt<E>(&mut self, outcome: Result<(Vec<u64>, S), E>) -> (r: HashStep)
        requires
            old(self).tries_left_spec() > 0,
        ensures
            final(self).kernel_spec() == old(self).kernel_spec(),
            final(self).context_spec() == old(self).context_spec(),
            final(self).max_batch_size_spec() == old(self).max_batch_size_spec(),
            final(self).hash_retry_spec() == old(self).hash_retry_spec(),
            final(self).expected_spec() == old(self).expected_spec(),
            usable(outcome, old(self).expected_spec()) ==> {
                &&& r matches HashStep::Done(d) && flatten(d@) == outcome->Ok_0.0@ && d@.len()
                    == old(self).expected_spec()
                &&& final(self).state_spec() == outcome->Ok_0.1
                &&& final(self).tries_left_spec() == old(self).tries_left_spec()
            },
            !usable(outcome, old(self).expected_spec()) ==> {
                &&& final(self).state_spec() == old(self).state_spec()
                &&& final(self).tries_left_spec() == old(self).tries_left_spec() - 1
                &&& (r is Retry <==> final(self).tries_left_spec() > 0)
                &&& (!(r is Retry) ==> r == HashStep::Failed(HashError::ExhaustedRetries(old(self).hash_retry_spec() as usize)))
            },
    {
        match outcome {
            Ok((limbs, state)) => {
                if limbs.len() / 4 == self.expected && limbs.len() % 4 == 0 {
                    match unpack_elements(&limbs) {
                        Ok(digests) => {
                            self.state = state;
                            return HashStep::Done(digests);
                        },
                        Err(_) => {},
                    }
                }
            },
            Err(_) => {},
        }
        self.tries_left = self.tries_left - 1;
        if self.tries_left > 0 {
            HashStep::Retry
        } else {
            HashStep::Failed(HashError::ExhaustedRetries(self.hash_retry))
        }
    }
}

} // verus!
