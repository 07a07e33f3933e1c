use vstd::prelude::*;

use crate::sample::spec_abs;

verus! {

/// How many meter updates a detected peak is held before it starts to decay.
pub const PEAK_HOLD_FRAMES: u32 = 30;

/// At most this many leading samples of a chunk enter the RMS window.
pub const RMS_WINDOW_SIZE: usize = 2048;

/// Ballistic audio level meter: instant attack, slow release, a held peak
/// value, and a smoothed RMS level.  All levels are nonnegative fixed-point
/// amplitudes (`sample::UNIT` stands for 1.0).
pub struct PeakMeter {
    pub peak_level: u64,
    pub peak_hold: u64,
    pub rms_level: u64,
    pub peak_hold_counter: u32,
}

/// Meter color bands for display thresholds.
#[derive(Debug, Clone, Copy, PartialEq, Eq, Structural)]
pub enum MeterColor {
    Normal,
    Warn,
    Hot,
    Clip,
}

/// Largest sample magnitude in a chunk (0 for an empty chunk).
pub open spec fn spec_chunk_peak(s: Seq<i32>) -> int
    decreases s.len(),
{
    if s.len() == 0 {
        0
    } else {
        let rest = spec_chunk_peak(s.drop_last());
        let last = spec_abs(s.last() as int);
        if last > rest {
            last
        } else {
            rest
        }
    }
}

/// Sum of squared samples over the first `n` entries of a chunk.
pub open spec fn spec_sum_squares(s: Seq<i32>, n: int) -> int
    decreases n,
{
    if n <= 0 {
        0
    } else {
        spec_sum_squares(s, n - 1) + (s[n - 1] as int) * (s[n - 1] as int)
    }
}

/// The integer square root: the greatest `r` with `r * r <= n`.
pub open spec fn spec_isqrt(n: nat) -> nat
    decreases n,
{
    if n == 0 {
        0
    } else {
        let r = spec_isqrt((n - 1) as nat);
        if (r + 1) * (r + 1) <= n {
            r + 1
        } else {
            r
        }
    }
}

pub proof fn lemma_isqrt_bounds(n: nat)
    ensures
        spec_isqrt(n) * spec_isqrt(n) <= n,
        (spec_isqrt(n) + 1) * (spec_isqrt(n) + 1) > n,
        spec_isqrt(n) <= n,
    decreases n,
{
    if n == 0 {
        assert(spec_isqrt(0) == 0);
        assert((spec_isqrt(n) + 1) * (spec_isqrt(n) + 1) > n) by (nonlinear_arith)
            requires
                n == 0,
                spec_isqrt(n) == 0,
        ;
    } else {
        lemma_isqrt_bounds((n - 1) as nat);
        let r = spec_isqrt((n - 1) as nat);
        assert(r * r <= n - 1);
        assert((r + 1) * (r + 1) > n - 1);
        if (r + 1) * (r + 1) <= n {
            assert(spec_isqrt(n) == r + 1);
            assert((r + 1 + 1) * (r + 1 + 1) > n) by (nonlinear_arith)
                requires
                    (r + 1) * (r + 1) >= n,
                    r >= 0,
            ;
            assert((spec_isqrt(n) + 1) * (spec_isqrt(n) + 1) > n);
        } else {
            assert(spec_isqrt(n) == r);
            assert((spec_isqrt(n) + 1) * (spec_isqrt(n) + 1) > n);
        }
    }
}

/// Any `r` with `r * r <= n < (r + 1) * (r + 1)` is the integer square root.
pub proof fn lemma_isqrt_unique(n: nat, r: nat)
    requires
        r * r <= n,
        (r + 1) * (r + 1) > n,
    ensures
        r == spec_isqrt(n),
{
    lemma_isqrt_bounds(n);
    let q = spec_isqrt(n);
    if r < q {
        assert((r + 1) * (r + 1) <= q * q) by (nonlinear_arith)
            requires r + 1 <= q;
    }
    if q < r {
        assert((q + 1) * (q + 1) <= r * r) by (nonlinear_arith)
            requires q + 1 <= r;
    }
}

/// Integer square root by bisection.
pub fn int_sqrt(n: u64) -> (r: u64)
    ensures
        r as nat == spec_isqrt(n as nat),
{
    let mut lo: u64 = 0;
    let mut hi: u64 = 0xffff_ffff;
    proof {
        assert((hi as int + 1) * (hi as int + 1) > n as int) by (nonlinear_arith)
            requires
                hi as int == 0xffff_ffff,
                n <= u64::MAX,
        ;
    }
    while lo < hi
        invariant
            lo <= hi <= 0xffff_ffff,
            (lo as int) * (lo as int) <= n as int,
            (hi as int + 1) * (hi as int + 1) > n as int,
        decreases hi - lo,
    {
        let mid: u64 = lo + (hi - lo + 1) / 2;
        proof {
            let d = (hi - lo) as int;
            vstd::arithmetic::div_mod::lemma_div_is_ordered(d + 1, 2 * d, 2);
            vstd::arithmetic::div_mod::lemma_div_multiples_vanish(d, 2);
            vstd::arithmetic::div_mod::lemma_div_is_ordered(2, d + 1, 2);
            assert(1 <= (d + 1) / 2 <= d);
            assert(mid * mid <= 0xffff_ffff * 0xffff_ffffnat) by (nonlinear_arith)
                requires
                    mid <= 0xffff_ffff,
            ;
        }
        if mid * mid <= n {
            lo = mid;
        } else {
            hi = mid - 1;
        }
    }
    proof {
        lemma_isqrt_unique(n as nat, lo as nat);
    }
    lo
}

/// The meter state after one `update` call with the given chunk.
pub open spec fn spec_meter_after(m: PeakMeter, s: Seq<i32>) -> PeakMeter {
    if s.len() == 0 {
        m
    } else {
        let peak = spec_chunk_peak(s);
        let new_peak = if peak > m.peak_level as int {
            peak
        } else {
            ((m.peak_level as int) * 95 + peak * 5) / 100
        };
        let window = if s.len() <= RMS_WINDOW_SIZE as nat {
            s.len() as int
        } else {
            RMS_WINDOW_SIZE as int
        };
        let mean = spec_sum_squares(s, window) / window;
        let rms = spec_isqrt(mean as nat) as int;
        let new_rms = ((m.rms_level as int) * 8 + rms * 2) / 10;
        let hold_up = peak > m.peak_hold as int;
        PeakMeter {
            peak_level: new_peak as u64,
            peak_hold: if hold_up {
                peak as u64
            } else if m.peak_hold_counter > 0 {
                m.peak_hold
            } else {
                new_peak as u64
            },
            rms_level: new_rms as u64,
            peak_hold_counter: if hold_up {
                PEAK_HOLD_FRAMES
            } else if m.peak_hold_counter > 0 {
                (m.peak_hold_counter - 1) as u32
            } else {
                0
            },
        }
    }
}

/// All levels a meter can reach stay below this bound.
pub open spec fn meter_wf(m: PeakMeter) -> bool {
    &&& m.peak_level <= 0x8000_0000
    &&& m.peak_hold <= 0x8000_0000
    &&& m.rms_level <= 0x8000_0000
}

pub proof fn lemma_chunk_peak_bound(s: Seq<i32>)
    ensures
        0 <= spec_chunk_peak(s) <= 0x8000_0000,
    decreases s.len(),
{
    if s.len() > 0 {
        lemma_chunk_peak_bound(s.drop_last());
    }
}

impl PeakMeter {
    pub fn new() -> (m: PeakMeter)
        ensures
            m.peak_level == 0,
            m.peak_hold == 0,
            m.rms_level == 0,
            m.peak_hold_counter == 0,
    {
        PeakMeter { peak_level: 0, peak_hold: 0, rms_level: 0, peak_hold_counter: 0 }
    }

    /// Feed a chunk of (post-volume) samples into the meter.
    pub fn update(&mut self, samples: &Vec<i32>)
        requires
            meter_wf(*old(self)),
        ensures
            *final(self) == spec_meter_after(*old(self), samples@),
            meter_wf(*final(self)),
    {
        if samples.len() == 0 {
            return;
        }
        proof {
            lemma_chunk_peak_bound(samples@);
        }

        // Peak of the chunk.
        let mut peak: u64 = 0;
        let mut i: usize = 0;
        while i < samples.len()
            invariant
                i <= samples.len(),
                peak as int == spec_chunk_peak(samples@.take(i as int)),
                peak <= 0x8000_0000,
            decreases samples.len() - i,
        {
            let s: i32 = samples[i];
            let mag: u64 = if s >= 0 {
                s as u64
            } else {
                (-(s as i64)) as u64
            };
            if mag > peak {
                peak = mag;
            }
            proof {
                assert(samples@.take(i as int + 1).drop_last() =~= samples@.take(i as int));
                lemma_chunk_peak_bound(samples@.take(i as int + 1));
            }
            i = i + 1;
        }
        proof {
            assert(samples@.take(samples@.len() as int) =~= samples@);
        }

        // Instant attack, slow release.
        let new_peak: u64 = if peak > self.peak_level {
            peak
        } else {
            (self.peak_level * 95 + peak * 5) / 100
        };
        proof {
            assert(new_peak <= 0x8000_0000) by {
                if peak <= self.peak_level {
                    assert((self.peak_level * 95 + peak * 5) as int <= 0x8000_0000 * 100);
                    vstd::arithmetic::div_mod::lemma_div_is_ordered(
                        (self.peak_level * 95 + peak * 5) as int,
                        0x8000_0000int * 100,
                        100,
                    );
                    vstd::arithmetic::div_mod::lemma_div_by_multiple(0x8000_0000, 100);
                }
            }
        }

        // Peak hold.
        if peak > self.peak_hold {
            self.peak_hold = peak;
            self.peak_hold_counter = PEAK_HOLD_FRAMES;
        } else if self.peak_hold_counter > 0 {
            self.peak_hold_counter = self.peak_hold_counter - 1;
        } else {
            self.peak_hold = new_peak;
        }

        // RMS over the leading window, then smoothed.
        let window: usize = if samples.len() <= RMS_WINDOW_SIZE {
            samples.len()
        } else {
            RMS_WINDOW_SIZE
        };
        let mut sum_sq: u128 = 0;
        let mut j: usize = 0;
        while j < window
            invariant
                j <= window,
                window <= samples@.len(),
                window <= RMS_WINDOW_SIZE,
                sum_sq as int == spec_sum_squares(samples@, j as int),
                sum_sq <= (j as int) * 0x4000_0000_0000_0000,
            decreases window - j,
        {
            let s: i32 = samples[j];
            proof {
                assert((s as int) * (s as int) <= 0x4000_0000_0000_0000 && (s as int) * (s as int)
                    >= 0) by (nonlinear_arith)
                    requires
                        -0x8000_0000 <= s as int <= 0x7fff_ffff,
                ;
                assert((sum_sq as int + 0x4000_0000_0000_0000) <= (j as int + 1)
                    * 0x4000_0000_0000_0000) by (nonlinear_arith)
                    requires
                        sum_sq as int <= (j as int) * 0x4000_0000_0000_0000,
                ;
            }
            let sq: u64 = ((s as i64) * (s as i64)) as u64;
            sum_sq = sum_sq + (sq as u128);
            j = j + 1;
        }
        proof {
            assert(window >= 1);
            assert(sum_sq as int / (window as int) <= 0x4000_0000_0000_0000) by {
                assert(sum_sq as int <= (window as int) * 0x4000_0000_0000_0000);
                vstd::arithmetic::div_mod::lemma_div_is_ordered(
                    sum_sq as int,
                    (window as int) * 0x4000_0000_0000_0000,
                    window as int,
                );
                vstd::arithmetic::div_mod::lemma_div_multiples_vanish(
                    0x4000_0000_0000_0000,
                    window as int,
                );
            }
        }
        let mean: u64 = (sum_sq / (window as u128)) as u64;
        let rms: u64 = int_sqrt(mean);
        proof {
            lemma_isqrt_bounds(mean as nat);
            assert(spec_isqrt(mean as nat) <= 0x8000_0000) by {
                if spec_isqrt(mean as nat) > 0x8000_0000 {
                    assert(spec_isqrt(mean as nat) * spec_isqrt(mean as nat) > 0x8000_0000
                        * 0x8000_0000) by (nonlinear_arith)
                        requires spec_isqrt(mean as nat) > 0x8000_0000;
                }
            }
        }
        proof {
            assert((self.rms_level * 8 + rms * 2) as int / 10 <= 0x8000_0000) by {
                assert((self.rms_level * 8 + rms * 2) as int <= 0x8000_0000 * 10);
                vstd::arithmetic::div_mod::lemma_div_is_ordered(
                    (self.rms_level * 8 + rms * 2) as int,
                    0x8000_0000int * 10,
                    10,
                );
                vstd::arithmetic::div_mod::lemma_div_by_multiple(0x8000_0000, 10);
            }
        }
        self.rms_level = (self.rms_level * 8 + rms * 2) / 10;
        self.peak_level = new_peak;
    }

    /// Current peak level with release applied.
    pub fn get_peak(&self) -> (r: u64)
        ensures
            r == self.peak_level,
    {
        self.peak_level
    }

    /// Held peak value.
    pub fn get_peak_hold(&self) -> (r: u64)
        ensures
            r == self.peak_hold,
    {
        self.peak_hold
    }

    /// Smoothed RMS level.
    pub fn get_rms(&self) -> (r: u64)
        ensures
            r == self.rms_level,
    {
        self.rms_level
    }

    /// Display color band for a level.
    pub fn get_color(level: u64) -> (c: MeterColor)
        ensures
            c == spec_color(level),
    {
        if level >= 1_000_000 {
            MeterColor::Clip
        } else if level >= 900_000 {
            MeterColor::Hot
        } else if level >= 700_000 {
            MeterColor::Warn
        } else {
            MeterColor::Normal
        }
    }

    /// Reset all meter values.
    pub fn reset(&mut self)
        ensures
            final(self).peak_level == 0,
            final(self).peak_hold == 0,
            final(self).rms_level == 0,
            final(self).peak_hold_counter == 0,
    {
        self.peak_level = 0;
        self.peak_hold = 0;
        self.rms_level = 0;
        self.peak_hold_counter = 0;
    }
}

/// Thresholds of the meter color bands.
pub open spec fn spec_color(level: u64) -> MeterColor {
    if level >= 1_000_000 {
        MeterColor::Clip
    } else if level >= 900_000 {
        MeterColor::Hot
    } else if level >= 700_000 {
        MeterColor::Warn
    } else {
        MeterColor::Normal
    }
}

impl Default for PeakMeter {
    fn default() -> (m: PeakMeter)
        ensures
            m.peak_level == 0,
            m.peak_hold == 0,
            m.rms_level == 0,
            m.peak_hold_counter == 0,
    {
        PeakMeter::new()
    }
}

} // verus!
