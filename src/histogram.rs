//! A dense histogram with one frequency slot per bucket index.
use crate::index::{bucket_of, convert_value_to_index, lemma_bucket_monotonic};
use vstd::prelude::*;

verus! {

/// Why a histogram could not be built.
#[derive(Debug, Clone, Copy, PartialEq, Eq)]
pub enum HistogramError {
    /// The precision is 64 or more, beyond what 64-bit bucket arithmetic allows.
    InvalidParameter,
}

/// Frequencies of reuse times up to `max_reuse_time`, one slot per bucket.
pub struct Histogram {
    sublog_bits: u64,
    max_reuse_time: u64,
    values: Vec<u64>,
}

impl Histogram {
    /// Bits of sub-bucket resolution per octave.
    pub closed spec fn precision(&self) -> nat {
        self.sublog_bits as nat
    }

    /// Largest reuse time the histogram accepts.
    pub closed spec fn max_value(&self) -> nat {
        self.max_reuse_time as nat
    }

    /// The frequency slots, by bucket index.
    pub closed spec fn slots(&self) -> Seq<u64> {
        self.values@
    }

    /// The precision suits the bucket arithmetic, and there is exactly one
    /// slot, addressable by a `usize`, for each bucket up to that of the
    /// largest accepted reuse time.
    pub open spec fn wf(&self) -> bool {
        &&& self.precision() < 64
        &&& self.slots().len() == bucket_of(self.max_value(), self.precision()) + 1
        &&& self.slots().len() <= usize::MAX
    }

    /// The frequency recorded for `reuse_time`: that of its bucket, or 0
    /// above the largest accepted reuse time.
    pub open spec fn frequency(&self, reuse_time: nat) -> u64 {
        if reuse_time > self.max_value() {
            0
        } else {
            self.slots()[bucket_of(reuse_time, self.precision()) as int]
        }
    }

    /// Inserting overwrites: once `insert(reuse_time, f)` has run on an
    /// in-range reuse time, every in-range reuse time of the same bucket
    /// reads `f`, and every other reuse time reads what it read before.
    pub proof fn lemma_insert_then_frequency(
        before: Histogram,
        after: Histogram,
        reuse_time: nat,
        f: u64,
        probe: nat,
    )
        requires
            before.wf(),
            reuse_time <= before.max_value(),
            after.precision() == before.precision(),
            after.max_value() == before.max_value(),
            after.slots() == before.slots().update(
                bucket_of(reuse_time, before.precision()) as int,
                f,
            ),
        ensures
            after.frequency(probe) == if probe <= before.max_value() && bucket_of(
                probe,
                before.precision(),
            ) == bucket_of(reuse_time, before.precision()) {
                f
            } else {
                before.frequency(probe)
            },
    {
        lemma_bucket_monotonic(reuse_time, before.max_value(), before.precision());
        if probe <= before.max_value() {
            lemma_bucket_monotonic(probe, before.max_value(), before.precision());
        }
    }

    /// Builds an all-zero histogram for reuse times up to `mrt`, with `sb`
    /// bits of sub-bucket resolution; a precision of 64 or more is refused.
    pub fn new(sb: u64, mrt: u64) -> (r: Result<Histogram, HistogramError>)
        requires
            sb < 64 ==> bucket_of(mrt as nat, sb as nat) < usize::MAX,
        ensures
            r is Err <==> sb >= 64,
            r matches Err(e) ==> e == HistogramError::InvalidParameter,
            r matches Ok(h) ==> {
                &&& h.wf()
                &&& h.precision() == sb
                &&& h.max_value() == mrt
                &&& h.slots() == Seq::new(bucket_of(mrt as nat, sb as nat) + 1, |i: int| 0u64)
            },
    {
        if sb >= 64 {
            return Err(HistogramError::InvalidParameter);
        }
        let top: u64 = convert_value_to_index(mrt, sb);
        let values: Vec<u64> = vec![0; (top + 1) as usize];
        let h = Histogram { sublog_bits: sb, max_reuse_time: mrt, values };
        assert(h.slots() == Seq::new(bucket_of(mrt as nat, sb as nat) + 1, |i: int| 0u64));
        Ok(h)
    }

    /// Sets the slot of `reuse_time`'s bucket to `frequency`, replacing what
    /// was there; a reuse time above the maximum is ignored.
    pub fn insert(&mut self, reuse_time: u64, frequency: u64)
        requires
            old(self).wf(),
        ensures
            final(self).wf(),
            final(self).precision() == old(self).precision(),
            final(self).max_value() == old(self).max_value(),
            final(self).slots() == if reuse_time as nat <= old(self).max_value() {
                old(self).slots().update(
                    bucket_of(reuse_time as nat, old(self).precision()) as int,
                    frequency,
                )
            } else {
                old(self).slots()
            },
    {
        if reuse_time <= self.max_reuse_time {
            let i: u64 = convert_value_to_index(reuse_time, self.sublog_bits);
            proof {
                lemma_bucket_monotonic(
                    reuse_time as nat,
                    self.max_reuse_time as nat,
                    self.sublog_bits as nat,
                );
            }
            self.values.set(i as usize, frequency);
        }
    }

    /// The frequency recorded for `reuse_time`'s bucket, or 0 for a reuse
    /// time above the maximum.
    pub fn get(&self, reuse_time: u64) -> (r: u64)
        requires
            self.wf(),
        ensures
            r == self.frequency(reuse_time as nat),
    {
        if reuse_time > self.max_reuse_time {
            return 0;
        }
        let i: u64 = convert_value_to_index(reuse_time, self.sublog_bits);
        proof {
            lemma_bucket_monotonic(
                reuse_time as nat,
                self.max_reuse_time as nat,
                self.sublog_bits as nat,
            );
        }
        self.values[i as usize]
    }

    /// All slots, in ascending bucket order.
    pub fn get_values(&self) -> (r: &Vec<u64>)
        ensures
            r@ == self.slots(),
    {
        &self.values
    }
}

} // verus!
