use vstd::prelude::*;

verus! {

/// The prime modulus of the base field, 2^64 - 2^32 + 1.
pub const MODULUS: u64 = 0xFFFF_FFFF_0000_0001;

/// An element of the base field, held as its canonical representative.
#[derive(Clone, Copy, Debug, PartialEq, Eq)]
pub struct Felt {
    value: u64,
}

impl View for Felt {
    type V = u64;

    closed spec fn view(&self) -> u64 {
        self.value
    }
}

impl Felt {
    #[verifier::type_invariant]
    spec fn reduced(self) -> bool {
        self.value < MODULUS
    }

    /// The representative is below the modulus. Every value that executable
    /// code holds is canonical; a value that a specification quantifies over
    /// need not be.
    pub open spec fn is_canonical(self) -> bool {
        self@ < MODULUS
    }

    /// The element that `value` stands for: `value` reduced by the modulus.
    pub fn new(value: u64) -> (r: Felt)
        ensures
            r@ == value % MODULUS,
            r.is_canonical(),
    {
        Felt { value: value % MODULUS }
    }

    /// The zero element.
    pub fn zero() -> (r: Felt)
        ensures
            r@ == 0,
    {
        Felt { value: 0 }
    }

    /// The canonical representative.
    pub fn as_int(&self) -> (r: u64)
        ensures
            r == self@,
            self.is_canonical(),
    {
        proof {
            use_type_invariant(self);
        }
        self.value
    }

    /// The element with a canonical representative.
    pub(crate) fn from_canonical(value: u64) -> (r: Felt)
        requires
            value < MODULUS,
        ensures
            r == felt(value),
    {
        Felt { value }
    }
}

/// The element whose representative is `value`. It is canonical if `value` is
/// below the modulus.
pub closed spec fn felt(value: u64) -> Felt {
    Felt { value }
}

/// `felt` and the view are inverse to each other.
pub broadcast proof fn lemma_felt_view(value: u64)
    ensures
        (#[trigger] felt(value))@ == value,
{
}

/// An element is the element of its representative.
pub broadcast proof fn lemma_view_felt(f: Felt)
    ensures
        felt(#[trigger] f@) == f,
{
}

pub broadcast group group_felt {
    lemma_felt_view,
    lemma_view_felt,
}

} // verus!
