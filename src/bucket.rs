//! A reuse time and a precision, identified by the bucket they select, for
//! use as the key of a sparse, map-backed histogram.
use crate::index::{bucket_of, convert_value_to_index};
use vstd::arithmetic::power2::{lemma2_to64, lemma_pow2_strictly_increases};
use vstd::prelude::*;

verus! {

/// A raw value and the precision it is bucketed at. Two of them are equal,
/// and hash alike, exactly when their bucket indices are equal, even where
/// their precisions differ; keep one precision per key space.
pub struct Bucket(pub u64, pub u64);

impl Bucket {
    /// The bucket index that identifies this pair.
    pub open spec fn index(&self) -> nat {
        bucket_of(self.0 as nat, self.1 as nat)
    }

    /// Computes the bucket index that identifies this pair. A precision of
    /// 64 or more leaves every `u64` in the linear region, so the value
    /// itself is returned there.
    pub fn key(&self) -> (r: u64)
        ensures
            r == self.index(),
    {
        if self.1 >= 64 {
            proof {
                if self.1 > 64 {
                    lemma_pow2_strictly_increases(64, self.1 as nat);
                }
                lemma2_to64();
            }
            self.0
        } else {
            convert_value_to_index(self.0, self.1)
        }
    }
}

impl Clone for Bucket {
    fn clone(&self) -> (r: Bucket)
        ensures
            r == *self,
    {
        Bucket(self.0, self.1)
    }
}

impl PartialEq for Bucket {
    fn eq(&self, other: &Bucket) -> (r: bool) {
        self.key() == other.key()
    }
}

impl vstd::std_specs::cmp::PartialEqSpecImpl for Bucket {
    open spec fn obeys_eq_spec() -> bool {
        true
    }

    open spec fn eq_spec(&self, other: &Bucket) -> bool {
        self.index() == other.index()
    }
}

impl Eq for Bucket {

}

/// Relies on `u64`'s `Hash::hash`, which feeds the integer to the hasher;
/// nothing is claimed of the hasher's state afterwards.
pub assume_specification<H: core::hash::Hasher>[ <u64 as core::hash::Hash>::hash::<H> ](
    data: &u64,
    state: &mut H,
);

impl core::hash::Hash for Bucket {
    fn hash<H: core::hash::Hasher>(&self, state: &mut H) {
        self.key().hash(state);
    }
}

} // verus!
