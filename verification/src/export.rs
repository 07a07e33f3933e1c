use vstd::prelude::*;

use crate::mixer::MAX_MIX_LAYERS;
use crate::sample::{clip_sample, spec_clipped};

verus! {

/// Full scale of the export normalization target: 0.95, leaving headroom.
pub const EXPORT_HEADROOM: i64 = 950_000;

/// Why a mixdown could not be produced.
#[derive(Debug, Clone, Copy, PartialEq, Eq, Structural)]
pub enum ExportError {
    NoLayers,
    AllLayersEmpty,
}

/// Length of the longest buffer.
pub open spec fn spec_max_len(buffers: Seq<Seq<i32>>) -> int
    decreases buffers.len(),
{
    if buffers.len() == 0 {
        0
    } else {
        let rest = spec_max_len(buffers.drop_last());
        if buffers.last().len() > rest {
            buffers.last().len() as int
        } else {
            rest
        }
    }
}

/// The raw sum of all buffers at index `i` (shorter buffers contribute
/// nothing past their end).
pub open spec fn spec_sum_at(buffers: Seq<Seq<i32>>, i: int) -> int
    decreases buffers.len(),
{
    if buffers.len() == 0 {
        0
    } else {
        spec_sum_at(buffers.drop_last(), i) + (if 0 <= i < buffers.last().len() {
            buffers.last()[i] as int
        } else {
            0
        })
    }
}

/// The largest magnitude among the first `n` raw sums.
pub open spec fn spec_peak_sum(buffers: Seq<Seq<i32>>, n: int) -> int
    decreases n,
{
    if n <= 0 {
        0
    } else {
        let rest = spec_peak_sum(buffers, n - 1);
        let here = crate::sample::spec_abs(spec_sum_at(buffers, n - 1));
        if here > rest {
            here
        } else {
            rest
        }
    }
}

/// A raw sum scaled so the peak lands at 0.95 of full scale, truncating
/// toward zero.
pub open spec fn spec_normalized(s: int, peak: int) -> int {
    if s >= 0 {
        (s * EXPORT_HEADROOM as int) / peak
    } else {
        -(((-s) * EXPORT_HEADROOM as int) / peak)
    }
}

/// Every buffer fits inside the longest one.
pub proof fn lemma_max_len_dominates(buffers: Seq<Seq<i32>>, k: int)
    requires
        0 <= k < buffers.len(),
    ensures
        buffers[k].len() <= spec_max_len(buffers),
    decreases buffers.len(),
{
    if k < buffers.len() - 1 {
        lemma_max_len_dominates(buffers.drop_last(), k);
    }
}

/// The mix sum of `n` buffers stays within `n` full-scale samples.
pub proof fn lemma_sum_at_bound(buffers: Seq<Seq<i32>>, i: int)
    ensures
        -(buffers.len() as int) * 0x8000_0000 <= spec_sum_at(buffers, i) <= (buffers.len() as int)
            * 0x8000_0000,
    decreases buffers.len(),
{
    if buffers.len() > 0 {
        lemma_sum_at_bound(buffers.drop_last(), i);
        assert((buffers.len() as int) * 0x8000_0000 == (buffers.drop_last().len() as int)
            * 0x8000_0000 + 0x8000_0000) by (nonlinear_arith)
            requires
                buffers.len() as int == buffers.drop_last().len() as int + 1,
        ;
    }
}

/// Every raw sum's magnitude is bounded by the peak.
pub proof fn lemma_peak_dominates(buffers: Seq<Seq<i32>>, n: int, i: int)
    requires
        0 <= i < n,
    ensures
        crate::sample::spec_abs(spec_sum_at(buffers, i)) <= spec_peak_sum(buffers, n),
        spec_peak_sum(buffers, n) >= 0,
    decreases n,
{
    if i < n - 1 {
        lemma_peak_dominates(buffers, n - 1, i);
    }
}

/// The peak of `n` sums over `m` buffers is at most `m` full-scale
/// samples.
pub proof fn lemma_peak_bound(buffers: Seq<Seq<i32>>, n: int)
    ensures
        0 <= spec_peak_sum(buffers, n) <= (buffers.len() as int) * 0x8000_0000,
    decreases n,
{
    if n > 0 {
        lemma_peak_bound(buffers, n - 1);
        lemma_sum_at_bound(buffers, n - 1);
    } else {
        assert((buffers.len() as int) * 0x8000_0000 >= 0) by (nonlinear_arith);
    }
}

/// Mix layer buffers down to one normalized track: the buffers are summed
/// index-wise, the result is scaled so its peak sits at 0.95 of full
/// scale, and hard-clipped.  A silent (all-zero) mix is returned as it is.
pub fn mix_for_export(buffers: &Vec<Vec<i32>>) -> (r: Result<Vec<i32>, ExportError>)
    requires
        buffers@.len() <= MAX_MIX_LAYERS,
    ensures
        buffers@.len() == 0 <==> r == Err::<Vec<i32>, ExportError>(ExportError::NoLayers),
        buffers@.len() > 0 && spec_max_len(views_of_buffers(buffers@)) == 0 <==> r == Err::<
            Vec<i32>,
            ExportError,
        >(ExportError::AllLayersEmpty),
        r matches Ok(out) ==> {
            let bufs = views_of_buffers(buffers@);
            let n = spec_max_len(bufs);
            let peak = spec_peak_sum(bufs, n);
            &&& out@.len() == n
            &&& peak > 0 ==> forall|i: int|
                0 <= i < n ==> #[trigger] out@[i] as int == spec_clipped(
                    spec_normalized(spec_sum_at(bufs, i), peak),
                )
            &&& peak == 0 ==> forall|i: int| 0 <= i < n ==> #[trigger] out@[i] as int == 0
        },
{
    if buffers.len() == 0 {
        return Err(ExportError::NoLayers);
    }
    let ghost bufs = views_of_buffers(buffers@);

    // Longest buffer.
    let mut max_len: usize = 0;
    let mut k: usize = 0;
    while k < buffers.len()
        invariant
            k <= buffers@.len(),
            bufs == views_of_buffers(buffers@),
            max_len as int == spec_max_len(bufs.take(k as int)),
        decreases buffers.len() - k,
    {
        let len_k: usize = buffers[k].len();
        if len_k > max_len {
            max_len = len_k;
        }
        proof {
            assert(bufs.take(k as int + 1).drop_last() =~= bufs.take(k as int));
        }
        k = k + 1;
    }
    proof {
        assert(bufs.take(bufs.len() as int) =~= bufs);
    }
    if max_len == 0 {
        return Err(ExportError::AllLayersEmpty);
    }

    // Sum all buffers index-wise.
    let mut sums: Vec<i64> = Vec::new();
    let mut z: usize = 0;
    while z < max_len
        invariant
            sums@.len() == z as int,
            z <= max_len,
            forall|i: int| 0 <= i < z ==> #[trigger] sums@[i] == 0i64,
        decreases max_len - z,
    {
        sums.push(0);
        z = z + 1;
    }
    let mut k: usize = 0;
    while k < buffers.len()
        invariant
            k <= buffers@.len(),
            bufs == views_of_buffers(buffers@),
            bufs.len() <= MAX_MIX_LAYERS,
            max_len as int == spec_max_len(bufs),
            sums@.len() == max_len as int,
            forall|i: int|
                0 <= i < max_len ==> #[trigger] sums@[i] as int == spec_sum_at(
                    bufs.take(k as int),
                    i,
                ),
        decreases buffers.len() - k,
    {
        proof {
            lemma_max_len_dominates(bufs, k as int);
        }
        let blen: usize = buffers[k].len();
        let ghost mid = sums@;
        let mut i: usize = 0;
        while i < blen
            invariant
                k < buffers@.len(),
                bufs == views_of_buffers(buffers@),
                bufs.len() <= MAX_MIX_LAYERS,
                blen as int == bufs[k as int].len(),
                blen <= max_len,
                i <= blen,
                sums@.len() == max_len as int,
                mid.len() == max_len as int,
                forall|j: int|
                    0 <= j < max_len ==> #[trigger] mid[j] as int == spec_sum_at(
                        bufs.take(k as int),
                        j,
                    ),
                forall|j: int|
                    0 <= j < i ==> #[trigger] sums@[j] as int == mid[j] as int
                        + bufs[k as int][j] as int,
                forall|j: int| i <= j < max_len ==> #[trigger] sums@[j] == mid[j],
            decreases blen - i,
        {
            proof {
                lemma_sum_at_bound(bufs.take(k as int), i as int);
                assert((bufs.take(k as int).len() as int) * 0x8000_0000 <= (MAX_MIX_LAYERS as int)
                    * 0x8000_0000) by (nonlinear_arith)
                    requires
                        bufs.take(k as int).len() as int <= MAX_MIX_LAYERS as int,
                ;
            }
            let s: i64 = sums[i] + (buffers[k][i] as i64);
            sums.set(i, s);
            i = i + 1;
        }
        proof {
            assert forall|j: int| 0 <= j < max_len implies #[trigger] sums@[j] as int
                == spec_sum_at(bufs.take(k as int + 1), j) by {
                assert(bufs.take(k as int + 1).drop_last() =~= bufs.take(k as int));
            }
        }
        k = k + 1;
    }
    proof {
        assert(bufs.take(bufs.len() as int) =~= bufs);
    }

    // Peak magnitude of the raw mix.
    let mut peak: u64 = 0;
    let mut i: usize = 0;
    while i < max_len
        invariant
            i <= max_len,
            bufs == views_of_buffers(buffers@),
            bufs.len() <= MAX_MIX_LAYERS,
            sums@.len() == max_len as int,
            forall|j: int| 0 <= j < max_len ==> #[trigger] sums@[j] as int == spec_sum_at(bufs, j),
            peak as int == spec_peak_sum(bufs, i as int),
        decreases max_len - i,
    {
        proof {
            lemma_sum_at_bound(bufs, i as int);
            assert((bufs.len() as int) * 0x8000_0000 <= (MAX_MIX_LAYERS as int) * 0x8000_0000)
                by (nonlinear_arith)
                requires
                    bufs.len() as int <= MAX_MIX_LAYERS as int,
            ;
        }
        let s: i64 = sums[i];
        let mag: u64 = if s >= 0 {
            s as u64
        } else {
            (-(s as i128)) as u64
        };
        if mag > peak {
            peak = mag;
        }
        i = i + 1;
    }

    // Normalize toward 0.95 of full scale and clip.
    let mut out: Vec<i32> = Vec::new();
    let mut i: usize = 0;
    while i < max_len
        invariant
            i <= max_len,
            bufs == views_of_buffers(buffers@),
            bufs.len() <= MAX_MIX_LAYERS,
            sums@.len() == max_len as int,
            forall|j: int| 0 <= j < max_len ==> #[trigger] sums@[j] as int == spec_sum_at(bufs, j),
            peak as int == spec_peak_sum(bufs, max_len as int),
            out@.len() == i as int,
            peak > 0 ==> forall|j: int|
                0 <= j < i ==> #[trigger] out@[j] as int == spec_clipped(
                    spec_normalized(spec_sum_at(bufs, j), peak as int),
                ),
            peak == 0 ==> forall|j: int| 0 <= j < i ==> #[trigger] out@[j] as int == 0,
        decreases max_len - i,
    {
        let s: i64 = sums[i];
        if peak > 0 {
            proof {
                lemma_sum_at_bound(bufs, i as int);
                assert((bufs.len() as int) * 0x8000_0000 <= (MAX_MIX_LAYERS as int) * 0x8000_0000)
                    by (nonlinear_arith)
                    requires
                        bufs.len() as int <= MAX_MIX_LAYERS as int,
                ;
                assert((MAX_MIX_LAYERS as int) * 0x8000_0000 * (EXPORT_HEADROOM as int)
                    < u64::MAX as int) by (nonlinear_arith);
            }
            let mag: u64 = if s >= 0 {
                s as u64
            } else {
                (-(s as i128)) as u64
            };
            proof {
                assert(mag as int * (EXPORT_HEADROOM as int) <= (MAX_MIX_LAYERS as int)
                    * 0x8000_0000 * (EXPORT_HEADROOM as int)) by (nonlinear_arith)
                    requires
                        0 <= mag as int <= (MAX_MIX_LAYERS as int) * 0x8000_0000,
                ;
            }
            let scaled: u64 = (mag * (EXPORT_HEADROOM as u64)) / peak;
            proof {
                lemma_peak_dominates(bufs, max_len as int, i as int);
                assert(mag as int * (EXPORT_HEADROOM as int) <= peak as int * (
                EXPORT_HEADROOM as int)) by (nonlinear_arith)
                    requires
                        0 <= mag as int <= peak as int,
                ;
                vstd::arithmetic::div_mod::lemma_div_is_ordered(
                    mag as int * (EXPORT_HEADROOM as int),
                    peak as int * (EXPORT_HEADROOM as int),
                    peak as int,
                );
                vstd::arithmetic::div_mod::lemma_div_multiples_vanish(
                    EXPORT_HEADROOM as int,
                    peak as int,
                );
            }
            let signed: i64 = if s >= 0 {
                scaled as i64
            } else {
                -(scaled as i64)
            };
            let c: i32 = clip_sample(signed);
            out.push(c);
            proof {
                assert(signed as int == spec_normalized(s as int, peak as int));
            }
        } else {
            proof {
                lemma_peak_dominates(bufs, max_len as int, i as int);
                assert(s == 0i64);
            }
            out.push(0);
        }
        i = i + 1;
    }
    Ok(out)
}

/// The views of a sequence of buffers.
pub open spec fn views_of_buffers(bs: Seq<Vec<i32>>) -> Seq<Seq<i32>> {
    bs.map_values(|b: Vec<i32>| b@)
}

} // verus!
