use gpu_tree::builder::{checked_tree_size, next_layer_len};
use gpu_tree::{BuildError, ColumnTreeBuilder, Element, HashJob, UniformRoot, COLUMN_ARITY};

/// A deterministic stand-in for the hash kernels, so that trees can be
/// compared; its digests are always field values.
fn toy_hash(p: &[Element]) -> Element {
    let mut acc: u64 = 0x9e37_79b9 ^ (p.len() as u64);
    for (i, e) in p.iter().enumerate() {
        for l in e.limbs.iter() {
            acc = acc.wrapping_mul(0x100_0000_01b3).wrapping_add(*l ^ (i as u64 + 1));
        }
    }
    Element::from_limbs([acc, 0, 0, 0])
}

fn answer(job: &HashJob) -> Vec<Element> {
    job.preimages.iter().map(|p| toy_hash(p)).collect()
}

fn run_jobs(b: &mut ColumnTreeBuilder) {
    while let Some(job) = b.pending_job() {
        let d = answer(&job);
        b.complete_job(d).unwrap();
    }
}

fn column(seed: u64) -> Vec<Element> {
    (0..COLUMN_ARITY as u64)
        .map(|j| Element::from_limbs([seed * 100 + j, 0, 0, 0]))
        .collect()
}

fn columns(from: u64, n: usize) -> Vec<Vec<Element>> {
    (0..n as u64).map(|i| column(from + i)).collect()
}

/// Builds the tree with the given batch sizes; returns the whole tree.
fn stream(leaves: usize, batches: &[usize], col_batch: usize, tree_batch: usize) -> Vec<Element> {
    let mut b = ColumnTreeBuilder::new(leaves, col_batch, tree_batch).unwrap();
    let mut next: u64 = 0;
    for (k, n) in batches.iter().enumerate() {
        let cols = columns(next, *n);
        next += *n as u64;
        if k + 1 == batches.len() {
            b.add_final_columns(cols).unwrap();
        } else {
            b.add_columns(cols).unwrap();
        }
        run_jobs(&mut b);
    }
    let tree = b.tree().unwrap();
    assert_eq!(b.root().unwrap(), *tree.last().unwrap());
    tree
}

/// The tree computed directly, layer by layer.
fn reference_tree(cols: &[Vec<Element>]) -> Vec<Element> {
    let mut layer: Vec<Element> = cols.iter().map(|c| toy_hash(c)).collect();
    let mut out = layer.clone();
    while layer.len() > 1 {
        let n = layer.len();
        let a = if n % 8 == 0 { 8 } else { 2 };
        let next: Vec<Element> = (0..(n + a - 1) / a)
            .map(|g| {
                let p: Vec<Element> = (0..a).map(|j| layer[usize::min(g * a + j, n - 1)]).collect();
                toy_hash(&p)
            })
            .collect();
        out.extend(next.iter().cloned());
        layer = next;
    }
    out
}

fn uniform(b: &ColumnTreeBuilder, col: Vec<Element>) -> Element {
    let mut u: UniformRoot = b.compute_uniform_tree_root(col);
    while let Some(job) = u.pending_job() {
        assert_eq!(job.preimages.len(), 1);
        let d = answer(&job);
        u.complete_job(d.clone()).unwrap();
        assert_eq!(u.root(), if u.pending_job().is_none() { Some(d[0]) } else { None });
    }
    assert_eq!(u.complete_job(vec![Element::zero()]), Err(BuildError::NoPendingJob));
    u.root().unwrap()
}

#[test]
fn sixteen_zero_leaves_in_two_batches() {
    let zero_col = vec![Element::zero(); COLUMN_ARITY];
    let mut b = ColumnTreeBuilder::new(16, 4, 4).unwrap();
    b.add_columns(vec![zero_col.clone(); 8]).unwrap();
    run_jobs(&mut b);
    b.add_final_columns(vec![zero_col.clone(); 8]).unwrap();
    run_jobs(&mut b);
    let tree = b.tree().unwrap();
    // 16 leaves, folded by eight into 2 nodes, then by two into the root.
    assert_eq!(b.tree_size(), 16 + 2 + 1);
    assert_eq!(tree.len(), b.tree_size());
    assert_eq!(*tree.last().unwrap(), uniform(&b, zero_col));
}

#[test]
fn batching_does_not_change_the_tree() {
    for leaves in [1usize, 2, 3, 7, 8, 16, 24, 37, 64] {
        let whole = stream(leaves, &[leaves], leaves, leaves);
        let cols = columns(0, leaves);
        assert_eq!(whole, reference_tree(&cols));
        let ones = vec![1usize; leaves];
        assert_eq!(stream(leaves, &ones, 1, 1), whole);
        assert_eq!(stream(leaves, &ones, 3, 2), whole);
        if leaves > 2 {
            let split = [leaves / 3, leaves - leaves / 3 - 1, 1];
            assert_eq!(stream(leaves, &split, 2, 5), whole);
        }
        let mut with_empty_final = vec![leaves];
        with_empty_final.push(0);
        assert_eq!(stream(leaves, &with_empty_final, 5, 3), whole);
    }
}

#[test]
fn tree_size_matches_finished_tree() {
    for leaves in [1usize, 2, 3, 5, 8, 9, 16, 31, 64, 100] {
        let b = ColumnTreeBuilder::new(leaves, 4, 4).unwrap();
        let tree = stream(leaves, &[leaves], 4, 4);
        assert_eq!(b.tree_size(), tree.len());
    }
    assert_eq!(checked_tree_size(1), Some(1));
    assert_eq!(checked_tree_size(3), Some(3 + 2 + 1));
    assert_eq!(checked_tree_size(64), Some(64 + 8 + 1));
    assert_eq!(checked_tree_size(usize::MAX), None);
    assert_eq!(next_layer_len(16), 2);
    assert_eq!(next_layer_len(7), 4);
    assert_eq!(next_layer_len(2), 1);
}

#[test]
fn uniform_root_matches_streamed_root() {
    for leaves in [1usize, 2, 5, 8, 12, 16, 64] {
        let c = column(42);
        let mut b = ColumnTreeBuilder::new(leaves, 3, 3).unwrap();
        b.add_final_columns(vec![c.clone(); leaves]).unwrap();
        run_jobs(&mut b);
        assert_eq!(b.root().unwrap(), uniform(&b, c));
    }
}

#[test]
fn columns_are_counted_against_the_leaf_count() {
    let mut b = ColumnTreeBuilder::new(4, 2, 2).unwrap();
    assert_eq!(b.received(), 0);
    b.add_columns(columns(0, 3)).unwrap();
    assert_eq!(b.received(), 3);
    b.add_final_columns(columns(3, 1)).unwrap();
    assert_eq!(b.received(), 4);
    assert_eq!(b.add_columns(Vec::new()), Err(BuildError::Finalized));
    assert_eq!(b.add_final_columns(Vec::new()), Err(BuildError::Finalized));
    run_jobs(&mut b);
    assert!(b.tree().is_some());
    assert_eq!(b.complete_job(vec![Element::zero()]), Err(BuildError::NoPendingJob));
}

#[test]
fn configuration_errors() {
    assert!(matches!(ColumnTreeBuilder::new(0, 1, 1), Err(BuildError::InvalidConfiguration)));
    assert!(matches!(ColumnTreeBuilder::new(4, 0, 1), Err(BuildError::InvalidConfiguration)));
    assert!(matches!(ColumnTreeBuilder::new(4, 1, 0), Err(BuildError::InvalidConfiguration)));
    assert!(matches!(ColumnTreeBuilder::new(usize::MAX, 1, 1), Err(BuildError::TooLarge)));
}

#[test]
fn completed_jobs_extend_the_tree() {
    let mut b = ColumnTreeBuilder::new(16, 8, 8).unwrap();
    b.add_columns(columns(0, 8)).unwrap();
    b.add_final_columns(columns(8, 8)).unwrap();
    let mut before = Vec::new();
    while let Some(job) = b.pending_job() {
        let d = answer(&job);
        b.complete_job(d.clone()).unwrap();
        before.extend(d);
    }
    assert_eq!(b.tree().unwrap(), before);
    assert_eq!(before.len(), 19);
}

#[test]
fn jobs_follow_batch_sizes() {
    let mut b = ColumnTreeBuilder::new(8, 3, 1).unwrap();
    assert!(b.pending_job().is_none());
    assert_eq!(b.complete_job(Vec::new()), Err(BuildError::NoPendingJob));
    b.add_columns(columns(0, 2)).unwrap();
    assert!(b.pending_job().is_none());
    b.add_columns(columns(2, 2)).unwrap();
    let job = b.pending_job().unwrap();
    assert_eq!(job.arity, COLUMN_ARITY);
    assert_eq!(job.preimages.len(), 3);
    assert_eq!(job.preimages[0], column(0));
    assert_eq!(b.complete_job(vec![Element::zero(); 2]), Err(BuildError::DigestCountMismatch));
    b.complete_job(answer(&job)).unwrap();
    assert!(b.pending_job().is_none());
    b.add_final_columns(columns(4, 4)).unwrap();
    run_jobs_checking(&mut b);
    assert!(b.tree().is_some());
}

fn run_jobs_checking(b: &mut ColumnTreeBuilder) {
    let mut saw_tree_job = false;
    while let Some(job) = b.pending_job() {
        if job.arity != COLUMN_ARITY {
            saw_tree_job = true;
            assert_eq!(job.arity, 8);
            assert_eq!(job.preimages.len(), 1);
        }
        b.complete_job(answer(&job)).unwrap();
    }
    assert!(saw_tree_job);
}
