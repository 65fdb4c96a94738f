//! Bucketizer core: the per-bucket aggregate model (minimum, maximum and sum
//! of squared samples) and the running accumulator that groups consecutive
//! samples into fixed-size windows.

use vstd::prelude::*;

verus! {

/// Minimum of a window, seeded at 0: the result only ever decreases from 0,
/// so a window whose samples are all non-negative reports 0 even if no sample
/// equals 0. This literal seeded-zero rule is part of the bucket contract.
pub open spec fn min_seeded(s: Seq<i32>) -> int
    decreases s.len(),
{
    if s.len() == 0 {
        0
    } else {
        let prev = min_seeded(s.drop_last());
        if s.last() < prev {
            s.last() as int
        } else {
            prev
        }
    }
}

/// Maximum of a window, seeded at 0 (symmetric to [`min_seeded`]).
pub open spec fn max_seeded(s: Seq<i32>) -> int
    decreases s.len(),
{
    if s.len() == 0 {
        0
    } else {
        let prev = max_seeded(s.drop_last());
        if s.last() > prev {
            s.last() as int
        } else {
            prev
        }
    }
}

/// Sum of the squares of the samples of a window. The RMS of the window is
/// `sqrt(sum_squares / len)`; the sum is the exact, integer part of it.
pub open spec fn sum_squares(s: Seq<i32>) -> int
    decreases s.len(),
{
    if s.len() == 0 {
        0
    } else {
        sum_squares(s.drop_last()) + s.last() * s.last()
    }
}

/// The seeded minimum only ever decreases from 0: it never exceeds 0, and it
/// never leaves the `i32` domain.
pub proof fn lemma_min_seeded_range(s: Seq<i32>)
    ensures
        -0x8000_0000 <= min_seeded(s) <= 0,
    decreases s.len(),
{
    if s.len() > 0 {
        lemma_min_seeded_range(s.drop_last());
    }
}

/// The seeded maximum only ever increases from 0, symmetric to
/// [`lemma_min_seeded_range`].
pub proof fn lemma_max_seeded_range(s: Seq<i32>)
    ensures
        0 <= max_seeded(s) <= 0x7fff_ffff,
    decreases s.len(),
{
    if s.len() > 0 {
        lemma_max_seeded_range(s.drop_last());
    }
}

/// The sum of squares is non-negative and at most `len * 2^62` (each square
/// of an `i32` is at most `2^62`).
pub proof fn lemma_sum_squares_range(s: Seq<i32>)
    ensures
        0 <= sum_squares(s) <= s.len() * 0x4000_0000_0000_0000,
    decreases s.len(),
{
    if s.len() == 0 {
    } else {
        lemma_sum_squares_range(s.drop_last());
        let x = s.last() as int;
        assert(x * x <= 0x4000_0000_0000_0000) by (nonlinear_arith)
            requires
                -0x8000_0000 <= x <= 0x7fff_ffff,
        ;
        assert(0 <= x * x) by (nonlinear_arith);
        assert((s.len() - 1) * 0x4000_0000_0000_0000 + 0x4000_0000_0000_0000 == s.len()
            * 0x4000_0000_0000_0000) by (nonlinear_arith);
    }
}

/// A bucket of all-zero samples has a zero sum of squares, hence RMS 0.
pub proof fn lemma_all_zero_sum_squares(s: Seq<i32>)
    requires
        forall|i: int| 0 <= i < s.len() ==> s[i] == 0,
    ensures
        sum_squares(s) == 0,
    decreases s.len(),
{
    if s.len() > 0 {
        lemma_all_zero_sum_squares(s.drop_last());
    }
}

/// A bucket whose samples all equal `v` has sum of squares `len * v * v`, so
/// its mean of squares is exactly `v * v` and its RMS is exactly `|v|`.
pub proof fn lemma_constant_sum_squares(s: Seq<i32>, v: i32)
    requires
        forall|i: int| 0 <= i < s.len() ==> s[i] == v,
    ensures
        sum_squares(s) == s.len() * (v as int * v as int),
    decreases s.len(),
{
    if s.len() == 0 {
    } else {
        lemma_constant_sum_squares(s.drop_last(), v);
        assert((s.len() - 1) * (v as int * v as int) + v as int * v as int == s.len() * (
        v as int * v as int)) by (nonlinear_arith);
    }
}

/// The aggregate of exactly one bucket of consecutive samples.
#[derive(Clone, Copy, Debug, PartialEq, Eq, Structural)]
pub struct OverviewRecord {
    /// Seeded-zero minimum of the bucket's samples: never above 0.
    pub min: i32,
    /// Seeded-zero maximum of the bucket's samples: never below 0.
    pub max: i32,
    /// Sum of the squared samples of the bucket; the bucket's RMS is
    /// `sqrt(sq_sum / count)`.
    pub sq_sum: u128,
    /// How many samples the bucket holds: always the configured bucket size.
    pub count: usize,
}

/// A degenerate overview holding only what the normalized RMS needs, emitted
/// by the normalized-RMS-only mode.
#[derive(Clone, Copy, Debug, PartialEq, Eq, Structural)]
pub struct RmsOnlyRecord {
    /// Sum of the squared normalized samples of the bucket.
    pub sq_sum: u128,
    /// How many samples the bucket holds.
    pub count: usize,
}

/// Every bucket record is well-formed: by the seeded-zero rule its minimum
/// never exceeds 0 and its maximum is never below 0, and for any window a
/// machine can hold the stored aggregates are the exact mathematical ones —
/// no field of [`record_of`] truncates.
pub proof fn lemma_record_of_exact(window: Seq<i32>)
    requires
        window.len() <= usize::MAX,
    ensures
        record_of(window).min == min_seeded(window),
        record_of(window).max == max_seeded(window),
        record_of(window).sq_sum == sum_squares(window),
        record_of(window).count == window.len(),
        record_of(window).min <= 0,
        record_of(window).max >= 0,
{
    lemma_min_seeded_range(window);
    lemma_max_seeded_range(window);
    lemma_sum_squares_range(window);
    assert(window.len() * 0x4000_0000_0000_0000
        < 0x1_0000_0000_0000_0000_0000_0000_0000_0000) by (nonlinear_arith)
        requires
            window.len() <= 0xffff_ffff_ffff_ffff,
    ;
}

/// The record that summarises `window`.
pub open spec fn record_of(window: Seq<i32>) -> OverviewRecord {
    OverviewRecord {
        min: min_seeded(window) as i32,
        max: max_seeded(window) as i32,
        sq_sum: sum_squares(window) as u128,
        count: window.len() as usize,
    }
}

/// Running accumulator owned by the bucketizer: mutated sample by sample and
/// reset to the zero state immediately after each completed bucket is
/// emitted.
pub struct BucketAccumulator {
    /// Number of samples accumulated since the last emitted bucket.
    pub count: usize,
    /// Seeded-zero minimum of the samples accumulated so far.
    pub min: i32,
    /// Seeded-zero maximum of the samples accumulated so far.
    pub max: i32,
    /// The samples accumulated so far, in arrival order.
    pub window: Vec<i32>,
}

impl BucketAccumulator {
    /// The redundant fields track the window exactly.
    pub open spec fn wf(self) -> bool {
        &&& self.count == self.window@.len()
        &&& self.min == min_seeded(self.window@)
        &&& self.max == max_seeded(self.window@)
    }

    /// A fresh accumulator in the zero state.
    pub fn new() -> (r: Self)
        ensures
            r.wf(),
            r.window@ =~= Seq::<i32>::empty(),
    {
        BucketAccumulator { count: 0, min: 0, max: 0, window: Vec::new() }
    }

    /// Return to the zero state, dropping any pending partial window.
    pub fn reset(&mut self)
        ensures
            final(self).wf(),
            final(self).window@ =~= Seq::<i32>::empty(),
    {
        self.count = 0;
        self.min = 0;
        self.max = 0;
        self.window = Vec::new();
    }

    /// Feed one sample. The bucket closes the instant the window reaches
    /// `bucket_size`: its record is emitted and the accumulator resets;
    /// otherwise the sample is only appended.
    pub fn push(&mut self, sample: i32, bucket_size: usize) -> (emitted: Option<OverviewRecord>)
        requires
            old(self).wf(),
            old(self).window@.len() < bucket_size,
        ensures
            final(self).wf(),
            final(self).window@.len() < bucket_size,
            ({
                let p = old(self).window@.push(sample);
                if p.len() == bucket_size {
                    emitted == Some(record_of(p)) && final(self).window@ =~= Seq::<i32>::empty()
                } else {
                    emitted == None::<OverviewRecord> && final(self).window@ =~= p
                }
            }),
    {
        let ghost p = self.window@.push(sample);
        self.window.push(sample);
        if sample < self.min {
            self.min = sample;
        }
        if sample > self.max {
            self.max = sample;
        }
        self.count = self.count + 1;
        proof {
            assert(self.window@.drop_last() =~= old(self).window@);
        }
        if self.count == bucket_size {
            let sq_sum = window_sum_squares(&self.window);
            let rec = OverviewRecord {
                min: self.min,
                max: self.max,
                sq_sum,
                count: self.count,
            };
            proof {
                assert(rec == record_of(p));
            }
            self.reset();
            Some(rec)
        } else {
            None
        }
    }
}

/// Sum of the squares of the samples of `window`, exactly.
pub fn window_sum_squares(window: &Vec<i32>) -> (r: u128)
    ensures
        r == sum_squares(window@),
{
    let mut acc: u128 = 0;
    let mut i: usize = 0;
    while i < window.len()
        invariant
            i <= window@.len(),
            acc == sum_squares(window@.take(i as int)),
            acc <= i * 0x4000_0000_0000_0000,
        decreases window@.len() - i,
    {
        let s = window[i];
        proof {
            assert(0 <= (s as int) * (s as int) <= 0x4000_0000_0000_0000) by (nonlinear_arith)
                requires
                    -0x8000_0000 <= s as int <= 0x7fff_ffff,
            ;
        }
        let sq: i64 = (s as i64) * (s as i64);
        proof {
            assert(window@.take(i + 1).drop_last() =~= window@.take(i as int));
            assert(window@.take(i + 1).last() == window@[i as int]);
            assert(i * 0x4000_0000_0000_0000 + 0x4000_0000_0000_0000 == (i + 1)
                * 0x4000_0000_0000_0000) by (nonlinear_arith);
            assert((i + 1) * 0x4000_0000_0000_0000 <= 0xffff_ffff_ffff_ffff * 0x4000_0000_0000_0000)
                by (nonlinear_arith)
                requires
                    i + 1 <= 0xffff_ffff_ffff_ffff,
            ;
        }
        acc = acc + (sq as u128);
        i = i + 1;
    }
    proof {
        assert(window@.take(window@.len() as int) =~= window@);
    }
    acc
}

} // verus!
