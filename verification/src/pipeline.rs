//! Output disciplines over the bucketizer: the fully materialized batch
//! overview, the incrementally emitted stream (whose records are proved equal
//! to the batch ones), the normalized-RMS-only mode, bucket-size resolution
//! and the batch summary.

use vstd::prelude::*;
use vstd::arithmetic::div_mod::{
    lemma_fundamental_div_mod,
    lemma_fundamental_div_mod_converse,
    lemma_mod_pos_bound,
};
use crate::bucket::{
    record_of,
    BucketAccumulator,
    OverviewRecord,
    RmsOnlyRecord,
};
use crate::normalize::{normalize_16_bit_rms, spec_normalize};

verus! {

/// Error taxonomy of the overview pipeline. Origin failures (`IOError`,
/// `FormatError`) and sink failures (`SerializationError`) are produced by
/// the unverified collaborators around the library; `DivideByZero` is the
/// library's own: bucket-size derivation yielded 0.
#[derive(Clone, Copy, Debug, PartialEq, Eq, Structural)]
pub enum OverviewError {
    /// The sample origin was unreachable or unreadable.
    IOError,
    /// The container header was malformed or the bit depth unsupported.
    FormatError,
    /// Bucket-size derivation yielded 0: the sample count is smaller than
    /// the target width.
    DivideByZero,
    /// A record could not be serialized (fatal only in batch mode).
    SerializationError,
}

/// The `i`-th window of `samples` under bucket size `b`: samples
/// `i*b .. i*b + b`.
pub open spec fn bucket_window(samples: Seq<i32>, b: int, i: int) -> Seq<i32> {
    samples.subrange(i * b, i * b + b)
}

/// The batch overview: one record per full window, in order; the trailing
/// `len % b` samples produce no record.
pub open spec fn overview_spec(samples: Seq<i32>, b: int) -> Seq<OverviewRecord> {
    Seq::new((samples.len() as int / b) as nat, |i: int| record_of(bucket_window(samples, b, i)))
}

/// The partial window still pending after feeding `samples` one by one into
/// a fresh accumulator with bucket size `b`.
pub open spec fn stream_pending(samples: Seq<i32>, b: int) -> Seq<i32>
    decreases samples.len(),
{
    if samples.len() == 0 {
        Seq::empty()
    } else {
        let p = stream_pending(samples.drop_last(), b).push(samples.last());
        if p.len() == b {
            Seq::empty()
        } else {
            p
        }
    }
}

/// The records emitted, in order, after feeding `samples` one by one into a
/// fresh accumulator with bucket size `b`: a bucket closes the instant its
/// window reaches `b`.
pub open spec fn stream_records(samples: Seq<i32>, b: int) -> Seq<OverviewRecord>
    decreases samples.len(),
{
    if samples.len() == 0 {
        Seq::empty()
    } else {
        let rs = stream_records(samples.drop_last(), b);
        let p = stream_pending(samples.drop_last(), b).push(samples.last());
        if p.len() == b {
            rs.push(record_of(p))
        } else {
            rs
        }
    }
}

/// Streaming and batch disciplines agree: feeding the samples one by one
/// emits exactly the batch records, `floor(len / b)` of them, and leaves the
/// trailing `len % b` samples pending, never emitted.
pub proof fn lemma_stream_matches_batch(samples: Seq<i32>, b: int)
    requires
        b > 0,
    ensures
        stream_records(samples, b) =~= overview_spec(samples, b),
        stream_pending(samples, b) =~= samples.subrange(
            (samples.len() as int / b) * b,
            samples.len() as int,
        ),
    decreases samples.len(),
{
    let n = samples.len() as int;
    if n == 0 {
        lemma_fundamental_div_mod_converse(0, b, 0, 0);
    } else {
        let s1 = samples.drop_last();
        let x = samples.last();
        let m = n - 1;
        lemma_stream_matches_batch(s1, b);
        lemma_fundamental_div_mod(m, b);
        lemma_mod_pos_bound(m, b);
        let q1 = m / b;
        let r1 = m % b;
        assert(b * q1 == q1 * b) by (nonlinear_arith);
        assert(q1 >= 0) by (nonlinear_arith)
            requires
                m >= 0,
                b > 0,
                0 <= r1 < b,
                m == b * q1 + r1,
        ;
        let p = stream_pending(s1, b).push(x);
        assert(stream_pending(s1, b) == s1.subrange(q1 * b, m));
        assert(p.len() == r1 + 1);
        // Windows strictly before the pending one are the same in `s1` and
        // in `samples`.
        assert forall|i: int| 0 <= i < q1 implies bucket_window(samples, b, i) == bucket_window(
            s1,
            b,
            i,
        ) by {
            assert(i * b + b <= q1 * b) by (nonlinear_arith)
                requires
                    i + 1 <= q1,
                    b > 0,
            ;
            assert(0 <= i * b) by (nonlinear_arith)
                requires
                    i >= 0,
                    b > 0,
            ;
            assert(bucket_window(samples, b, i) =~= bucket_window(s1, b, i));
        }
        if r1 + 1 == b {
            assert((q1 + 1) * b + 0 == n) by (nonlinear_arith)
                requires
                    n == b * q1 + r1 + 1,
                    r1 + 1 == b,
            ;
            lemma_fundamental_div_mod_converse(n, b, q1 + 1, 0);
            assert(n == b * (q1 + 1)) by (nonlinear_arith)
                requires
                    n == b * q1 + r1 + 1,
                    r1 + 1 == b,
            ;
            assert(n / b == q1 + 1);
            assert(p =~= bucket_window(samples, b, q1));
            assert(stream_records(samples, b) =~= overview_spec(samples, b));
            assert((q1 + 1) * b == n) by (nonlinear_arith)
                requires
                    b * (q1 + 1) == n,
            ;
            assert(stream_pending(samples, b) =~= samples.subrange((n / b) * b, n));
        } else {
            assert(q1 * b + (r1 + 1) == n) by (nonlinear_arith)
                requires
                    n == b * q1 + r1 + 1,
            ;
            lemma_fundamental_div_mod_converse(n, b, q1, r1 + 1);
            assert(n / b == q1);
            assert(stream_records(samples, b) =~= overview_spec(samples, b));
            assert(stream_pending(samples, b) =~= samples.subrange((n / b) * b, n));
        }
    }
}

/// Batch overview (full min/max/RMS mode): every full window of
/// `bucket_size` consecutive samples becomes one record; the trailing
/// partial window is discarded, never emitted.
pub fn overview_records(samples: &Vec<i32>, bucket_size: usize) -> (out: Vec<OverviewRecord>)
    requires
        bucket_size > 0,
    ensures
        out@ == overview_spec(samples@, bucket_size as int),
        out@.len() == samples@.len() as int / bucket_size as int,
{
    let ghost b = bucket_size as int;
    let mut acc = BucketAccumulator::new();
    let mut out: Vec<OverviewRecord> = Vec::new();
    let mut j: usize = 0;
    while j < samples.len()
        invariant
            bucket_size > 0,
            b == bucket_size as int,
            j <= samples@.len(),
            acc.wf(),
            acc.window@.len() < bucket_size,
            acc.window@ == stream_pending(samples@.take(j as int), b),
            out@ == stream_records(samples@.take(j as int), b),
        decreases samples@.len() - j,
    {
        let s = samples[j];
        proof {
            assert(samples@.take(j + 1).drop_last() =~= samples@.take(j as int));
            assert(samples@.take(j + 1).last() == samples@[j as int]);
        }
        let emitted = acc.push(s, bucket_size);
        if let Some(rec) = emitted {
            out.push(rec);
        }
        j = j + 1;
    }
    proof {
        assert(samples@.take(samples@.len() as int) =~= samples@);
        lemma_stream_matches_batch(samples@, b);
    }
    out
}

/// `samples` after each element went through the normalizer.
pub open spec fn normalized_seq(s: Seq<i32>) -> Seq<i32> {
    s.map_values(|x: i32| spec_normalize(x as int) as i32)
}

/// The normalized-RMS-only overview: the batch overview of the normalized
/// samples, with min/max dropped from each record.
pub open spec fn rms_only_spec(samples: Seq<i32>, b: int) -> Seq<RmsOnlyRecord> {
    overview_spec(normalized_seq(samples), b).map_values(
        |r: OverviewRecord| RmsOnlyRecord { sq_sum: r.sq_sum, count: r.count },
    )
}

/// Normalized-RMS-only mode: identical windowing and flush cadence to the
/// full overview, but each sample goes through the normalizer before it
/// enters the window, and only the RMS data is kept per bucket.
pub fn normalized_rms_records(samples: &Vec<i32>, bucket_size: usize) -> (out: Vec<RmsOnlyRecord>)
    requires
        bucket_size > 0,
    ensures
        out@ == rms_only_spec(samples@, bucket_size as int),
        out@.len() == samples@.len() as int / bucket_size as int,
{
    let mut ns: Vec<i32> = Vec::new();
    let mut j: usize = 0;
    while j < samples.len()
        invariant
            j <= samples@.len(),
            ns@.len() == j,
            forall|k: int| 0 <= k < j ==> ns@[k] == spec_normalize(samples@[k] as int) as i32,
        decreases samples@.len() - j,
    {
        ns.push(normalize_16_bit_rms(samples[j]));
        j = j + 1;
    }
    proof {
        assert(ns@ =~= normalized_seq(samples@));
    }
    let recs = overview_records(&ns, bucket_size);
    let mut out: Vec<RmsOnlyRecord> = Vec::new();
    let mut k: usize = 0;
    while k < recs.len()
        invariant
            k <= recs@.len(),
            out@.len() == k,
            forall|t: int| 0 <= t < k ==> out@[t] == (RmsOnlyRecord {
                sq_sum: recs@[t].sq_sum,
                count: recs@[t].count,
            }),
        decreases recs@.len() - k,
    {
        let rec = recs[k];
        out.push(RmsOnlyRecord { sq_sum: rec.sq_sum, count: rec.count });
        k = k + 1;
    }
    proof {
        assert(out@ =~= rms_only_spec(samples@, bucket_size as int));
    }
    out
}

/// Resolve the effective bucket size: a caller-supplied positive size is
/// taken as is; 0 asks for derivation as `floor(total_samples /
/// target_width)`; a derivation that yields 0 (or a zero width) cannot
/// proceed and is rejected as `DivideByZero`.
pub fn resolve_bucket_size(requested: usize, total_samples: usize, target_width: usize) -> (r:
    Result<usize, OverviewError>)
    ensures
        requested > 0 ==> r == Ok::<usize, OverviewError>(requested),
        requested == 0 && target_width > 0 && total_samples as int / target_width as int > 0 ==> r
            == Ok::<usize, OverviewError>((total_samples as int / target_width as int) as usize),
        requested == 0 && (target_width == 0 || total_samples as int / target_width as int == 0)
            ==> r == Err::<usize, OverviewError>(OverviewError::DivideByZero),
        r is Ok ==> r->Ok_0 > 0,
{
    if requested > 0 {
        Ok(requested)
    } else if target_width == 0 {
        Err(OverviewError::DivideByZero)
    } else {
        let derived: usize = total_samples / target_width;
        if derived == 0 {
            Err(OverviewError::DivideByZero)
        } else {
            Ok(derived)
        }
    }
}

/// The batch-mode result: the source description, the stream parameters and
/// the complete ordered record sequence. Durations are carried exactly as
/// sample counts; seconds are `samples / sample_rate`.
pub struct WavFileSummary {
    /// Where the samples came from (path or URL).
    pub source: String,
    /// Samples per second of audio.
    pub sample_rate: u32,
    /// Bits per sample of the origin.
    pub bit_depth: u16,
    /// The bucket size every record was aggregated over.
    pub bucket_size: usize,
    /// Total duration, in samples: every sample the origin yielded.
    pub total_samples: usize,
    /// Processed duration, in samples: the samples covered by emitted
    /// records (`bucket_count * bucket_size`).
    pub processed_samples: usize,
    /// Number of emitted records.
    pub bucket_count: usize,
    /// One record per full bucket, in order.
    pub records: Vec<OverviewRecord>,
}

/// Build the batch summary of `samples`.
pub fn build_summary(
    source: String,
    sample_rate: u32,
    bit_depth: u16,
    samples: &Vec<i32>,
    bucket_size: usize,
) -> (r: WavFileSummary)
    requires
        bucket_size > 0,
    ensures
        r.source@ == source@,
        r.sample_rate == sample_rate,
        r.bit_depth == bit_depth,
        r.bucket_size == bucket_size,
        r.total_samples == samples@.len(),
        r.bucket_count == samples@.len() as int / bucket_size as int,
        r.processed_samples == r.bucket_count * bucket_size,
        r.records@ == overview_spec(samples@, bucket_size as int),
{
    let total_samples = samples.len();
    let records = overview_records(samples, bucket_size);
    let bucket_count = records.len();
    proof {
        let n = samples@.len() as int;
        let b = bucket_size as int;
        lemma_fundamental_div_mod(n, b);
        lemma_mod_pos_bound(n, b);
        assert((n / b) * b <= n) by (nonlinear_arith)
            requires
                n == b * (n / b) + n % b,
                n % b >= 0,
        ;
    }
    let processed_samples = bucket_count * bucket_size;
    WavFileSummary {
        source,
        sample_rate,
        bit_depth,
        bucket_size,
        total_samples,
        processed_samples,
        bucket_count,
        records,
    }
}

} // verus!
