//! Field elements as four little-endian 64-bit limbs, and their exchange
//! with the BLS12-381 scalar field type.

use fff::{PrimeField, PrimeFieldDecodingError};
use paired::bls12_381::{Fr, FrRepr};
use vstd::prelude::*;

verus! {

/// Limbs of the BLS12-381 scalar field modulus, least significant first.
pub const MODULUS_0: u64 = 0xffffffff00000001;
pub const MODULUS_1: u64 = 0x53bda402fffe5bfe;
pub const MODULUS_2: u64 = 0x3339d80809a1d805;
pub const MODULUS_3: u64 = 0x73eda753299d7d48;

/// Whether the little-endian limbs `l` encode an integer below the modulus,
/// comparing from the most significant limb down.
pub open spec fn below_modulus(l: Seq<u64>) -> bool {
    l.len() == 4 && (l[3] < MODULUS_3 || (l[3] == MODULUS_3 && (l[2] < MODULUS_2 || (l[2]
        == MODULUS_2 && (l[1] < MODULUS_1 || (l[1] == MODULUS_1 && l[0] < MODULUS_0))))))
}

#[verifier::external_type_specification]
#[verifier::external_body]
pub struct ExFr(Fr);

#[verifier::external_type_specification]
#[verifier::external_body]
pub struct ExPrimeFieldDecodingError(PrimeFieldDecodingError);

/// The canonical limbs of a field value, as `into_repr` gives them.
pub uninterp spec fn repr_of(f: Fr) -> Seq<u64>;

/// Relies on `fff::PrimeField::from_repr` as derived for `paired`'s `Fr`: it
/// accepts a representation exactly when it is below the modulus, comparing
/// limbs from the most significant down.
#[verifier::external_body]
fn fr_from_repr(limbs: [u64; 4]) -> (r: Result<Fr, PrimeFieldDecodingError>)
    ensures
        r is Ok <==> below_modulus(limbs@),
        r matches Ok(g) ==> repr_of(g) == limbs@,
{
    Fr::from_repr(FrRepr(limbs))
}

/// Relies on `fff::PrimeField::into_repr` as derived for `paired`'s `Fr`: it
/// yields the canonical, fully reduced representation, below the modulus,
/// and gives back the limbs that `from_repr` accepted.
#[verifier::external_body]
fn fr_into_repr(f: &Fr) -> (r: [u64; 4])
    ensures
        r@ == repr_of(*f),
        below_modulus(r@),
{
    f.into_repr().0
}

/// One field element in canonical form: four 64-bit limbs, least
/// significant first.
#[derive(Clone, Copy, Debug, PartialEq, Eq)]
pub struct Element {
    pub limbs: [u64; 4],
}

impl Element {
    pub open spec fn limbs_seq(self) -> Seq<u64> {
        self.limbs@
    }

    /// Whether the limbs encode a value of the field.
    pub open spec fn is_canonical(self) -> bool {
        below_modulus(self.limbs@)
    }

    /// The element whose limbs are all zero.
    pub fn zero() -> (r: Element)
        ensures
            r.limbs@ == seq![0u64, 0u64, 0u64, 0u64],
            r.is_canonical(),
    {
        let r = Element { limbs: [0u64, 0u64, 0u64, 0u64] };
        assert(r.limbs@ =~= seq![0u64, 0u64, 0u64, 0u64]);
        r
    }

    /// The element with the given limbs, which need not be canonical.
    pub fn from_limbs(limbs: [u64; 4]) -> (r: Element)
        ensures
            r.limbs == limbs,
    {
        Element { limbs }
    }

    /// The canonical limbs of a field value.
    pub fn from_fr(f: &Fr) -> (r: Element)
        ensures
            r.limbs@ == repr_of(*f),
            r.is_canonical(),
    {
        Element { limbs: fr_into_repr(f) }
    }

    /// The field value of these limbs; fails exactly when they are not
    /// below the modulus.
    pub fn to_fr(&self) -> (r: Result<Fr, PrimeFieldDecodingError>)
        ensures
            r is Ok <==> self.is_canonical(),
            r matches Ok(g) ==> repr_of(g) == self.limbs@,
    {
        fr_from_repr(self.limbs)
    }
}

/// Reads one field value from exactly four limbs, least significant first;
/// fails exactly when they are not below the modulus.
pub fn u64s_into_fr(limbs: &[u64]) -> (r: Result<Fr, PrimeFieldDecodingError>)
    requires
        limbs@.len() == 4,
    ensures
        r is Ok <==> below_modulus(limbs@),
        r matches Ok(g) ==> repr_of(g) == limbs@,
{
    let arr: [u64; 4] = [limbs[0], limbs[1], limbs[2], limbs[3]];
    assert(arr@ =~= limbs@);
    fr_from_repr(arr)
}

} // verus!
