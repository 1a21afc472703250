use fff::{Field, PrimeField};
use gpu_tree::element::{MODULUS_0, MODULUS_1, MODULUS_2, MODULUS_3};
use gpu_tree::hasher::SparseMatrix;
use gpu_tree::marshal::{
    all_of_width, array_1d_from_element, array_2d_from_elements, array_3d_from_rows, as_u64s,
    frs_to_u64s, is_uniform, unpack_elements, MarshalError,
};
use gpu_tree::{
    u64s_into_fr, Element, GPUBatchHasher, GPUConstants, HashError, HashStep, Kernel, Strength,
};
use paired::bls12_381::Fr;

fn el(x: u64) -> Element {
    Element::from_limbs([x, x + 1, x + 2, x + 3])
}

#[test]
fn field_value_round_trip() {
    let one = Element::from_fr(&Fr::one());
    assert_eq!(one.limbs, [1, 0, 0, 0]);
    let e = Element::from_limbs([7, 8, 9, 10]);
    let f = e.to_fr().unwrap();
    assert_eq!(Element::from_fr(&f), e);
    assert_eq!(f.into_repr().0, [7, 8, 9, 10]);
    assert_eq!(Element::zero().limbs, [0, 0, 0, 0]);
}

#[test]
fn limbs_at_or_above_the_modulus_are_refused() {
    let m = [MODULUS_0, MODULUS_1, MODULUS_2, MODULUS_3];
    assert!(u64s_into_fr(&m).is_err());
    assert!(Element::from_limbs(m).to_fr().is_err());
    assert!(u64s_into_fr(&[MODULUS_0 - 1, MODULUS_1, MODULUS_2, MODULUS_3]).is_ok());
    assert!(u64s_into_fr(&[0, 0, 0, u64::MAX]).is_err());
    assert!(u64s_into_fr(&[u64::MAX, u64::MAX, u64::MAX, MODULUS_3 - 1]).is_ok());
}

#[test]
fn batches_are_laid_out_tuple_by_tuple() {
    let v = frs_to_u64s(&vec![el(1), el(10)]);
    assert_eq!(v, vec![1, 2, 3, 4, 10, 11, 12, 13]);
    let flat = as_u64s(&vec![vec![el(1), el(10)], vec![el(20), el(30)]]);
    assert_eq!(flat.len(), 2 * 2 * 4);
    assert_eq!(&flat[8..12], &[20, 21, 22, 23]);
    assert_eq!(&flat[12..16], &[30, 31, 32, 33]);
    assert!(as_u64s(&Vec::new()).is_empty());
}

#[test]
fn output_limbs_become_elements_in_order() {
    let back = unpack_elements(&vec![1, 2, 3, 4, 10, 11, 12, 13]).unwrap();
    assert_eq!(back, vec![el(1), el(10)]);
    assert_eq!(unpack_elements(&vec![1, 2, 3]), Err(MarshalError::WrongSize));
    assert_eq!(
        unpack_elements(&vec![1, 2, 3, 4, MODULUS_0, MODULUS_1, MODULUS_2, MODULUS_3]),
        Err(MarshalError::NotInField)
    );
    assert_eq!(unpack_elements(&Vec::new()), Ok(Vec::new()));
}

#[test]
fn constant_arrays_have_their_shapes() {
    assert!(!is_uniform(&Vec::new()));
    assert!(!is_uniform(&vec![vec![el(1)], vec![el(1), el(2)]]));
    assert!(is_uniform(&vec![vec![el(1), el(3)], vec![el(1), el(2)]]));
    assert!(all_of_width(&vec![vec![el(1); 3]; 2], 3));
    assert!(!all_of_width(&vec![vec![el(1); 3]; 2], 2));
    let a = array_1d_from_element(el(5));
    assert_eq!((a.limbs, a.dims), (vec![5, 6, 7, 8], vec![4, 1]));
    let b = array_2d_from_elements(&vec![el(1), el(2), el(3)]);
    assert_eq!(b.dims, vec![3, 4]);
    let c = array_3d_from_rows(&vec![vec![el(1), el(2)]; 3]);
    assert_eq!(c.dims, vec![3, 2, 4]);
    assert_eq!(c.limbs.len(), 24);

    let mut k = GPUConstants {
        arity_tag: el(1),
        compressed_round_constants: vec![el(2), el(3)],
        mds_matrix: vec![vec![el(4), el(5)], vec![el(6), el(7)]],
        pre_sparse_matrix: vec![vec![el(4)], vec![el(6), el(7)]],
        sparse_matrixes: vec![
            SparseMatrix { w_hat: vec![el(8)], v_rest: vec![el(9)] },
            SparseMatrix { w_hat: vec![el(10), el(11)], v_rest: Vec::new() },
        ],
    };
    assert_eq!(k.arity_tag().limbs, vec![1, 2, 3, 4]);
    assert_eq!(k.round_keys().dims, vec![2, 4]);
    assert!(!k.is_well_shaped());
    k.pre_sparse_matrix = vec![vec![el(4)], vec![el(6)]];
    assert!(k.is_well_shaped());
    assert_eq!(k.mds_matrix().dims, vec![2, 2, 4]);
    assert_eq!(k.pre_sparse_matrix().dims, vec![2, 1, 4]);
    let s = k.sparse_matrixes();
    assert_eq!(s.dims, vec![2, 2, 4]);
    assert_eq!(&s.limbs[0..8], &[8, 9, 10, 11, 9, 10, 11, 12]);
}

#[test]
fn kernels_exist_for_three_arities() {
    for s in [Strength::Standard, Strength::Strengthened] {
        for a in [2usize, 8, 11] {
            let k = Kernel::select(a, s);
            assert_eq!(k.arity(), a);
            assert_eq!(k.strength(), s);
        }
    }
    assert_eq!(Kernel::select(11, Strength::Strengthened), Kernel::Arity11s);
}

fn answer(count: usize, base: u64) -> Vec<u64> {
    (0..count as u64).flat_map(|i| [base + i, 0, 0, 0]).collect()
}

#[test]
fn two_failures_then_success_uses_two_retries() {
    let mut h = GPUBatchHasher::new(Kernel::Arity2, 0, "s0", 100, 3600);
    let pre = vec![vec![el(1), el(2)]; 3];
    let input = h.begin_hash(&pre).unwrap();
    assert_eq!(input.len(), 3 * 2 * 4);
    assert_eq!(h.tries_left(), 3600);
    let failed: Result<(Vec<u64>, &str), ()> = Err(());
    assert!(matches!(h.record_attempt(failed), HashStep::Retry));
    assert!(matches!(h.record_attempt(Err::<(Vec<u64>, &str), ()>(())), HashStep::Retry));
    assert_eq!(*h.state(), "s0");
    match h.record_attempt(Ok::<(Vec<u64>, &str), ()>((answer(3, 7), "s1"))) {
        HashStep::Done(d) => {
            assert_eq!(d, vec![
                Element::from_limbs([7, 0, 0, 0]),
                Element::from_limbs([8, 0, 0, 0]),
                Element::from_limbs([9, 0, 0, 0]),
            ]);
        }
        _ => panic!("the third attempt succeeds"),
    }
    assert_eq!(h.tries_left(), 3600 - 2);
    assert_eq!(*h.state(), "s1");
}

#[test]
fn unusable_answers_are_retried_until_exhausted() {
    let mut h = GPUBatchHasher::new(Kernel::Arity8s, 1, 0u32, 10, 3);
    let pre = vec![vec![el(1); 8]; 2];
    h.begin_hash(&pre).unwrap();
    // Too few limbs, then a value outside the field, then a failed call.
    assert!(matches!(h.record_attempt(Ok::<(Vec<u64>, u32), ()>((answer(1, 0), 5))), HashStep::Retry));
    let mut bad = answer(2, 0);
    bad[7] = u64::MAX;
    assert!(matches!(h.record_attempt(Ok::<(Vec<u64>, u32), ()>((bad, 6))), HashStep::Retry));
    match h.record_attempt(Err::<(Vec<u64>, u32), ()>(())) {
        HashStep::Failed(e) => assert_eq!(e, HashError::ExhaustedRetries(3)),
        _ => panic!("three attempts were allowed"),
    }
    assert_eq!(*h.state(), 0);
}

#[test]
fn calls_are_checked_before_any_attempt() {
    let mut h = GPUBatchHasher::new(Kernel::Arity11, 0, (), 10, 0);
    assert_eq!(h.begin_hash(&vec![vec![el(1); 11]]), Err(HashError::ExhaustedRetries(0)));
    assert_eq!(h.max_batch_size(), 10);
    assert_eq!(h.kernel(), Kernel::Arity11);
}
