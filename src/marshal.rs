//! Conversion between elements and the flat limb arrays that the hash
//! backend reads and writes: one element is four limbs, a batch of tuples
//! is laid out tuple by tuple, element by element, limb by limb.

use crate::element::{below_modulus, u64s_into_fr, Element};
use vstd::prelude::*;

verus! {

/// Why limbs could not be turned into elements, or elements into an array.
#[derive(Clone, Copy, Debug, PartialEq, Eq, Structural)]
pub enum MarshalError {
    /// The number of limbs is not a multiple of four.
    WrongSize,
    /// Four limbs encode a value at or above the field modulus.
    NotInField,
}

/// The limbs of `s`, element after element.
pub open spec fn flatten(s: Seq<Element>) -> Seq<u64>
    decreases s.len(),
{
    if s.len() == 0 {
        Seq::empty()
    } else {
        flatten(s.drop_last()) + s.last().limbs@
    }
}

/// The limbs of `rows`, row after row.
pub open spec fn flatten_rows(rows: Seq<Seq<Element>>) -> Seq<u64>
    decreases rows.len(),
{
    if rows.len() == 0 {
        Seq::empty()
    } else {
        flatten_rows(rows.drop_last()) + flatten(rows.last())
    }
}

/// The elements of each row.
pub open spec fn rows_view(rows: Seq<Vec<Element>>) -> Seq<Seq<Element>> {
    Seq::new(rows.len(), |i: int| rows[i]@)
}

/// Every row holds `w` elements.
pub open spec fn all_width(rows: Seq<Seq<Element>>, w: nat) -> bool {
    forall|i: int| 0 <= i < rows.len() ==> #[trigger] rows[i].len() == w
}

/// At least one row, and all rows of the first row's length: the shape of
/// a matrix.
pub open spec fn is_matrix(rows: Seq<Seq<Element>>) -> bool {
    rows.len() > 0 && all_width(rows, rows[0].len())
}

/// The four limbs of element `i` within `limbs`.
pub open spec fn chunk(limbs: Seq<u64>, i: int) -> Seq<u64> {
    limbs.subrange(4 * i, 4 * i + 4)
}

/// Every group of four limbs encodes a field value.
pub open spec fn all_in_field(limbs: Seq<u64>) -> bool {
    forall|i: int| 0 <= i < limbs.len() / 4 ==> below_modulus(#[trigger] chunk(limbs, i))
}

/// A flat limb array with its shape, outermost dimension first.
pub struct LimbArray {
    pub limbs: Vec<u64>,
    pub dims: Vec<usize>,
}

pub proof fn lemma_flatten_len(s: Seq<Element>)
    ensures
        flatten(s).len() == 4 * s.len(),
    decreases s.len(),
{
    if s.len() > 0 {
        lemma_flatten_len(s.drop_last());
    }
}

pub proof fn lemma_flatten_rows_len(rows: Seq<Seq<Element>>, w: nat)
    requires
        forall|i: int| 0 <= i < rows.len() ==> #[trigger] rows[i].len() == w,
    ensures
        flatten_rows(rows).len() == 4 * w * rows.len(),
    decreases rows.len(),
{
    if rows.len() > 0 {
        lemma_flatten_rows_len(rows.drop_last(), w);
        lemma_flatten_len(rows.last());
        assert(4 * w * rows.len() == 4 * w * (rows.len() - 1) + 4 * w) by (nonlinear_arith);
    }
}

/// The limbs of `frs`, element after element.
pub fn frs_to_u64s(frs: &Vec<Element>) -> (r: Vec<u64>)
    ensures
        r@ == flatten(frs@),
{
    let mut r: Vec<u64> = Vec::new();
    let mut i: usize = 0;
    while i < frs.len()
        invariant
            i <= frs.len(),
            r@ == flatten(frs@.take(i as int)),
        decreases frs.len() - i,
    {
        let e = frs[i];
        r.push(e.limbs[0]);
        r.push(e.limbs[1]);
        r.push(e.limbs[2]);
        r.push(e.limbs[3]);
        i += 1;
        assert(frs@.take(i as int).drop_last() =~= frs@.take(i - 1));
        assert(r@ =~= flatten(frs@.take(i as int)));
    }
    assert(frs@.take(i as int) =~= frs@);
    r
}

/// The limbs of a batch of tuples, tuple after tuple: the layout the hash
/// backend reads.
pub fn as_u64s(preimages: &Vec<Vec<Element>>) -> (r: Vec<u64>)
    ensures
        r@ == flatten_rows(rows_view(preimages@)),
{
    let ghost rows = rows_view(preimages@);
    let mut r: Vec<u64> = Vec::new();
    let mut i: usize = 0;
    while i < preimages.len()
        invariant
            i <= preimages.len(),
            rows == rows_view(preimages@),
            r@ == flatten_rows(rows.take(i as int)),
        decreases preimages.len() - i,
    {
        let mut row = frs_to_u64s(&preimages[i]);
        r.append(&mut row);
        i += 1;
        assert(rows.take(i as int).drop_last() =~= rows.take(i - 1));
        assert(r@ =~= flatten_rows(rows.take(i as int)));
    }
    assert(rows.take(i as int) =~= rows);
    r
}

/// Elements from a flat limb array, four limbs each; fails where the length
/// is not a multiple of four or a group of limbs is not a field value.
pub fn unpack_elements(limbs: &Vec<u64>) -> (r: Result<Vec<Element>, MarshalError>)
    ensures
        r is Ok <==> (limbs@.len() % 4 == 0 && all_in_field(limbs@)),
        r == Err::<Vec<Element>, MarshalError>(MarshalError::WrongSize) <==> limbs@.len() % 4 != 0,
        r == Err::<Vec<Element>, MarshalError>(MarshalError::NotInField) <==> (limbs@.len() % 4
            == 0 && !all_in_field(limbs@)),
        r matches Ok(v) ==> {
            &&& flatten(v@) == limbs@
            &&& v@.len() == limbs@.len() / 4
            &&& forall|i: int| 0 <= i < v@.len() ==> (#[trigger] v@[i]).is_canonical()
        },
{
    if limbs.len() % 4 != 0 {
        return Err(MarshalError::WrongSize);
    }
    let n = limbs.len() / 4;
    let mut v: Vec<Element> = Vec::new();
    let mut i: usize = 0;
    while i < n
        invariant
            i <= n,
            n == limbs@.len() / 4,
            limbs@.len() % 4 == 0,
            v@.len() == i,
            flatten(v@) == limbs@.take(4 * i),
            forall|k: int| 0 <= k < i ==> below_modulus(#[trigger] chunk(limbs@, k)),
            forall|k: int| 0 <= k < i ==> (#[trigger] v@[k]).is_canonical(),
        decreases n - i,
    {
        assert(4 * i + 4 <= limbs.len());
        let arr: [u64; 4] = [limbs[4 * i], limbs[4 * i + 1], limbs[4 * i + 2], limbs[4 * i + 3]];
        proof {
            assert(arr@ =~= chunk(limbs@, i as int));
        }
        let ok = u64s_into_fr(&arr).is_ok();
        if !ok {
            return Err(MarshalError::NotInField);
        }
        let ghost old_v = v@;
        v.push(Element::from_limbs(arr));
        i += 1;
        proof {
            assert(v@.drop_last() =~= old_v);
            assert(limbs@.take(4 * i) =~= limbs@.take(4 * (i - 1)) + chunk(limbs@, i - 1));
        }
    }
    assert(limbs@.take(4 * n) =~= limbs@);
    Ok(v)
}

/// Whether every row of `rows` holds `w` elements.
pub fn all_of_width(rows: &Vec<Vec<Element>>, w: usize) -> (r: bool)
    ensures
        r == all_width(rows_view(rows@), w as nat),
{
    let mut i: usize = 0;
    while i < rows.len()
        invariant
            i <= rows.len(),
            forall|k: int| 0 <= k < i ==> #[trigger] rows@[k]@.len() == w,
        decreases rows.len() - i,
    {
        if rows[i].len() != w {
            assert(rows_view(rows@)[i as int].len() != w);
            return false;
        }
        i += 1;
    }
    assert(all_width(rows_view(rows@), w as nat)) by {
        assert forall|k: int| 0 <= k < rows@.len() implies #[trigger] rows_view(rows@)[k].len()
            == w by {
            assert(rows_view(rows@)[k] == rows@[k]@);
        }
    }
    true
}

/// Whether `rows` has the shape of a matrix.
pub fn is_uniform(rows: &Vec<Vec<Element>>) -> (r: bool)
    ensures
        r == is_matrix(rows_view(rows@)),
{
    if rows.len() == 0 {
        return false;
    }
    all_of_width(rows, rows[0].len())
}

/// One element as a 4 x 1 array.
pub fn array_1d_from_element(e: Element) -> (r: LimbArray)
    ensures
        r.limbs@ == e.limbs@,
        r.dims@ == seq![4usize, 1usize],
{
    let limbs = vec![e.limbs[0], e.limbs[1], e.limbs[2], e.limbs[3]];
    assert(limbs@ =~= e.limbs@);
    let dims = vec![4usize, 1usize];
    LimbArray { limbs, dims }
}

/// Elements as an n x 4 array.
pub fn array_2d_from_elements(frs: &Vec<Element>) -> (r: LimbArray)
    ensures
        r.limbs@ == flatten(frs@),
        r.dims@ == seq![frs@.len() as usize, 4usize],
{
    let limbs = frs_to_u64s(frs);
    let dims = vec![frs.len(), 4usize];
    LimbArray { limbs, dims }
}

/// Rows of equal length as a rows x width x 4 array. Ragged or absent
/// rows break an invariant of the caller's constants and are excluded.
pub fn array_3d_from_rows(rows: &Vec<Vec<Element>>) -> (r: LimbArray)
    requires
        is_matrix(rows_view(rows@)),
    ensures
        r.limbs@ == flatten_rows(rows_view(rows@)),
        r.dims@ == seq![rows@.len() as usize, rows@[0]@.len() as usize, 4usize],
{
    let w = rows[0].len();
    let limbs = as_u64s(rows);
    let dims = vec![rows.len(), w, 4usize];
    LimbArray { limbs, dims }
}

} // verus!
