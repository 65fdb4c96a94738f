//! Waveform renderer: maps an ordered sequence of overview records onto
//! pixel columns of a raster canvas, via a verified integer square root of
//! the per-bucket mean of squares.

use vstd::prelude::*;
use vstd::arithmetic::div_mod::{lemma_div_by_multiple, lemma_div_is_ordered};
use crate::bucket::{record_of, OverviewRecord};

verus! {

/// `floor(sqrt(n))`: the largest `r` with `r * r <= n`.
pub open spec fn spec_isqrt(n: nat) -> nat
    decreases n,
{
    if n == 0 {
        0
    } else {
        let r = spec_isqrt((n - 1) as nat);
        if (r + 1) * (r + 1) <= n {
            r + 1
        } else {
            r
        }
    }
}

pub proof fn lemma_isqrt_bounds(n: nat)
    ensures
        spec_isqrt(n) * spec_isqrt(n) <= n,
        n < (spec_isqrt(n) + 1) * (spec_isqrt(n) + 1),
    decreases n,
{
    if n == 0 {
        assert(spec_isqrt(0) == 0);
        assert(n < (spec_isqrt(n) + 1) * (spec_isqrt(n) + 1)) by (nonlinear_arith)
            requires
                n == 0,
                spec_isqrt(n) == 0,
        ;
    } else {
        lemma_isqrt_bounds((n - 1) as nat);
        let r = spec_isqrt((n - 1) as nat);
        if (r + 1) * (r + 1) <= n {
            assert(spec_isqrt(n) == r + 1);
            assert((r + 1 + 1) * (r + 1 + 1) > n) by (nonlinear_arith)
                requires
                    n <= (r + 1) * (r + 1),
                    r >= 0,
            ;
        } else {
            assert(spec_isqrt(n) == r);
            assert(r * r <= n - 1 <= n);
        }
    }
}

pub proof fn lemma_isqrt_unique(n: nat, r: nat)
    requires
        r * r <= n,
        n < (r + 1) * (r + 1),
    ensures
        r == spec_isqrt(n),
{
    lemma_isqrt_bounds(n);
    let s = spec_isqrt(n);
    if r < s {
        assert((r + 1) * (r + 1) <= s * s) by (nonlinear_arith)
            requires
                r + 1 <= s,
                r >= 0,
        ;
    }
    if s < r {
        assert((s + 1) * (s + 1) <= r * r) by (nonlinear_arith)
            requires
                s + 1 <= r,
                s >= 0,
        ;
    }
}

/// Integer square root by bisection: returns `floor(sqrt(n))`.
pub fn isqrt_u128(n: u128) -> (r: u64)
    ensures
        r as nat == spec_isqrt(n as nat),
{
    let mut lo: u128 = 0;
    let mut hi: u128 = 0x1_0000_0000_0000_0000;
    proof {
        assert((hi as int) * (hi as int) > n as int) by (nonlinear_arith)
            requires
                hi as int == 0x1_0000_0000_0000_0000,
                (n as int) < 0x1_0000_0000_0000_0000_0000_0000_0000_0000,
        ;
    }
    while hi - lo > 1
        invariant
            lo < hi,
            hi <= 0x1_0000_0000_0000_0000,
            (lo as int) * (lo as int) <= n as int,
            (n as int) < (hi as int) * (hi as int),
        decreases hi - lo,
    {
        let mid: u128 = lo + (hi - lo) / 2;
        proof {
            assert((mid as int) * (mid as int) < 0x1_0000_0000_0000_0000_0000_0000_0000_0000)
                by (nonlinear_arith)
                requires
                    0 <= mid as int <= 0xffff_ffff_ffff_ffff,
            ;
        }
        let sq: u128 = mid * mid;
        if sq <= n {
            lo = mid;
        } else {
            hi = mid;
        }
    }
    proof {
        assert(hi == lo + 1);
        lemma_isqrt_unique(n as nat, lo as nat);
    }
    lo as u64
}

/// `floor` of the RMS of the bucket `rec` summarises:
/// `floor(sqrt(sq_sum / count))`.
pub open spec fn spec_rms_floor(rec: OverviewRecord) -> nat {
    spec_isqrt((rec.sq_sum as int / rec.count as int) as nat)
}

/// Compute the integer part of a record's RMS amplitude.
pub fn rms_floor(rec: &OverviewRecord) -> (r: u64)
    requires
        rec.count > 0,
    ensures
        r as nat == spec_rms_floor(*rec),
{
    isqrt_u128(rec.sq_sum / (rec.count as u128))
}

/// A bucket of all-zero samples has RMS exactly 0.
pub proof fn lemma_zero_bucket_rms(window: Seq<i32>)
    requires
        window.len() > 0,
        window.len() <= usize::MAX,
        forall|i: int| 0 <= i < window.len() ==> window[i] == 0,
    ensures
        record_of(window).sq_sum == 0,
        spec_rms_floor(record_of(window)) == 0,
{
    crate::bucket::lemma_all_zero_sum_squares(window);
}

/// A bucket whose samples all equal `v >= 0` has mean of squares exactly
/// `v * v`, hence RMS exactly `v`.
pub proof fn lemma_constant_bucket_rms(window: Seq<i32>, v: i32)
    requires
        window.len() > 0,
        window.len() <= usize::MAX,
        v >= 0,
        forall|i: int| 0 <= i < window.len() ==> window[i] == v,
    ensures
        record_of(window).sq_sum == window.len() * (v as int * v as int),
        spec_rms_floor(record_of(window)) == v,
{
    crate::bucket::lemma_constant_sum_squares(window, v);
    let len = window.len() as int;
    let vv = v as int * v as int;
    assert(0 <= vv <= 0x4000_0000_0000_0000) by (nonlinear_arith)
        requires
            0 <= v as int <= 0x7fff_ffff,
            vv == v as int * v as int,
    ;
    assert(len * vv < 0x1_0000_0000_0000_0000_0000_0000_0000_0000) by (nonlinear_arith)
        requires
            0 < len <= 0xffff_ffff_ffff_ffff,
            0 <= vv <= 0x4000_0000_0000_0000,
    ;
    let rec = record_of(window);
    lemma_div_by_multiple(vv, len);
    assert(vv * len == len * vv) by (nonlinear_arith);
    assert(rec.sq_sum as int / rec.count as int == vv);
    assert(vv < (v as int + 1) * (v as int + 1)) by (nonlinear_arith)
        requires
            v >= 0,
            vv == v as int * v as int,
    ;
    lemma_isqrt_unique(vv as nat, v as nat);
}

/// One drawn column of the waveform raster: a vertical accent-colored
/// segment at column `x` from `(x, low_rms_y)` to `(x, rms_y)`.
#[derive(Clone, Copy, Debug, PartialEq, Eq, Structural)]
pub struct ColumnSegment {
    /// The pixel column.
    pub x: usize,
    /// Upper end of the RMS band: `height - shifted_rms * height / 65536`.
    pub rms_y: u32,
    /// Lower end of the RMS band: `height - rms_y`.
    pub low_rms_y: u32,
}

/// A record's RMS shifted into the unsigned coordinate space `[0, 65536)`:
/// clamp to `[-32768, 32767]` (only the upper clamp can bite, RMS is never
/// negative), then shift by `+32768`.
pub open spec fn rms_shifted(rec: OverviewRecord) -> int {
    let r = spec_rms_floor(rec) as int;
    let clamped = if r > 32767 {
        32767
    } else {
        r
    };
    clamped + 32768
}

/// The vertical position of the top of the RMS band of `rec` on a canvas of
/// height `h`.
pub open spec fn rms_y_spec(rec: OverviewRecord, h: int) -> int {
    h - (rms_shifted(rec) * h) / 65536
}

/// Render the mandatory RMS band: one vertical segment per pixel column `x`
/// in `[0, width)` that has a record. When the records run out before the
/// canvas width, rendering stops there and the insufficient-samples flag is
/// raised — a non-fatal condition; the remaining columns stay background.
pub fn render_rms_columns(records: &Vec<OverviewRecord>, width: usize, height: u32) -> (out: (
    Vec<ColumnSegment>,
    bool,
))
    requires
        forall|i: int| 0 <= i < records@.len() ==> (#[trigger] records@[i]).count > 0,
    ensures
        out.0@.len() == if records@.len() < width {
            records@.len() as int
        } else {
            width as int
        },
        out.1 == (records@.len() < width),
        forall|i: int|
            0 <= i < out.0@.len() ==> {
                &&& (#[trigger] out.0@[i]).x == i
                &&& out.0@[i].rms_y == rms_y_spec(records@[i], height as int)
                &&& out.0@[i].low_rms_y == height as int - rms_y_spec(records@[i], height as int)
            },
{
    let limit: usize = if records.len() < width {
        records.len()
    } else {
        width
    };
    let insufficient = records.len() < width;
    let mut cols: Vec<ColumnSegment> = Vec::new();
    let mut x: usize = 0;
    while x < limit
        invariant
            limit <= records@.len(),
            forall|i: int| 0 <= i < records@.len() ==> (#[trigger] records@[i]).count > 0,
            x <= limit,
            cols@.len() == x,
            forall|i: int|
                0 <= i < x ==> {
                    &&& (#[trigger] cols@[i]).x == i
                    &&& cols@[i].rms_y == rms_y_spec(records@[i], height as int)
                    &&& cols@[i].low_rms_y == height as int - rms_y_spec(
                        records@[i],
                        height as int,
                    )
                },
        decreases limit - x,
    {
        let rec = records[x];
        let rms = rms_floor(&rec);
        let clamped: u64 = if rms > 32767 {
            32767
        } else {
            rms
        };
        let shifted: u64 = clamped + 32768;
        proof {
            assert(shifted as int * height as int <= 65535 * 0xffff_ffff) by (nonlinear_arith)
                requires
                    0 <= shifted as int <= 65535,
                    0 <= height as int <= 0xffff_ffff,
            ;
        }
        let prod: u64 = shifted * (height as u64);
        let banded: u64 = prod / 65536;
        proof {
            assert(shifted as int * height as int <= 65536 * height as int) by (nonlinear_arith)
                requires
                    0 <= shifted as int <= 65536,
                    0 <= height as int,
            ;
            lemma_div_is_ordered(prod as int, 65536 * height as int, 65536);
            lemma_div_by_multiple(height as int, 65536);
            assert(height as int * 65536 == 65536 * height as int) by (nonlinear_arith);
            assert(banded as int <= height as int);
        }
        let rms_y: u32 = height - (banded as u32);
        let low_rms_y: u32 = height - rms_y;
        cols.push(ColumnSegment { x, rms_y, low_rms_y });
        x = x + 1;
    }
    (cols, insufficient)
}

/// Optional range-band extension point: a record's seeded minimum clamped to
/// `[-32768, +inf)` and shifted by `+32768`.
pub open spec fn min_coord_spec(m: int) -> int {
    (if m < -32768 {
        -32768
    } else {
        m
    }) + 32768
}

/// Optional range-band extension point: a record's seeded maximum clamped to
/// `(-inf, 32767]` and shifted by `+32768`.
pub open spec fn max_coord_spec(m: int) -> int {
    (if m > 32767 {
        32767
    } else {
        m
    }) + 32768
}

/// Map a record's min/max range onto the unsigned coordinate space, for the
/// optional full range band. Seeded records always satisfy the requirement:
/// their maximum is never below 0.
pub fn range_band_coords(rec: &OverviewRecord) -> (c: (u32, u32))
    requires
        rec.max >= -32768,
    ensures
        c.0 == min_coord_spec(rec.min as int),
        c.1 == max_coord_spec(rec.max as int),
{
    let lo: i64 = if rec.min < -32768 {
        -32768
    } else {
        rec.min as i64
    };
    let hi: i64 = if rec.max > 32767 {
        32767
    } else {
        rec.max as i64
    };
    ((lo + 32768) as u32, (hi + 32768) as u32)
}

} // verus!
