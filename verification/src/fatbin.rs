use vstd::prelude::*;
use vstd::arithmetic::power2::{pow2, lemma2_to64};
use vstd::bits::{lemma_usize_shl_is_mul, lemma_usize_shr_is_div};

verus! {

/// The handle that the runtime hands out for a registered fat binary.
///
/// The handle encodes the index of the fat binary in the runtime's table:
/// the value is `(index + 1) << 4`, so that no handle is zero and the low
/// four bits stay clear.
#[derive(Debug, Clone, Copy, PartialEq, Eq, PartialOrd, Ord)]
pub struct FatBinaryHandle(pub usize);

/// The raw value of the handle for the table index `index`, where it fits.
pub open spec fn handle_value(index: nat) -> nat {
    (index + 1) * 16
}

proof fn lemma_shift_four_is_sixteen(x: usize)
    ensures
        x >> 4usize == x as nat / 16,
        x * 16 <= usize::MAX ==> (x << 4usize) == x * 16,
{
    lemma2_to64();
    lemma_usize_shr_is_div(x, 4);
    if x * 16 <= usize::MAX {
        lemma_usize_shl_is_mul(x, 4);
    }
}

impl FatBinaryHandle {
    /// The handle of the fat binary at `index` in the runtime's table.
    pub fn from_index(index: usize) -> (h: Self)
        requires
            index < usize::MAX,
        ensures
            h.0 == ((index + 1) as usize) << 4usize,
            handle_value(index as nat) <= usize::MAX ==> h.0 == handle_value(index as nat),
    {
        let v: usize = index + 1;
        proof {
            lemma_shift_four_is_sixteen(v);
        }
        FatBinaryHandle(v << 4)
    }

    /// The table index that the handle stands for.
    pub fn to_index(self) -> (index: usize)
        requires
            self.0 >= 16,
        ensures
            index == (self.0 >> 4usize) - 1,
            index == self.0 as nat / 16 - 1,
    {
        proof {
            lemma_shift_four_is_sixteen(self.0);
        }
        (self.0 >> 4) - 1
    }
}

/// Turning a table index into a handle and back gives the index again,
/// wherever the handle's value fits in a `usize`.
pub proof fn lemma_index_round_trip(index: usize)
    requires
        handle_value(index as nat) <= usize::MAX,
    ensures
        ({
            let h = (((index + 1) as usize) << 4usize);
            &&& h >= 16
            &&& (h >> 4usize) - 1 == index
        }),
{
    let v = (index + 1) as usize;
    lemma_shift_four_is_sixteen(v);
    let h = v << 4usize;
    lemma_shift_four_is_sixteen(h);
}

} // verus!
