//! Addresses of accounts and contracts.

use vstd::prelude::*;

verus! {

/// The address of an account or of a contract, held as the text of its strkey.
///
/// Two addresses are the same exactly when their strkeys are.
#[derive(Debug, Clone, Copy)]
pub struct Address {
    pub strkey: [u8; 56],
}

impl PartialEq for Address {
    fn eq(&self, other: &Self) -> (same: bool) {
        let mut i: usize = 0;
        while i < 56
            invariant
                i <= 56,
                forall|j: int| 0 <= j < i ==> self.strkey@[j] == other.strkey@[j],
            decreases 56 - i,
        {
            if self.strkey[i] != other.strkey[i] {
                return false;
            }
            i += 1;
        }
        assert(self.strkey =~= other.strkey);
        true
    }
}

impl vstd::std_specs::cmp::PartialEqSpecImpl for Address {
    open spec fn obeys_eq_spec() -> bool {
        true
    }

    open spec fn eq_spec(&self, other: &Self) -> bool {
        *self == *other
    }
}

impl Eq for Address {

}

} // verus!
