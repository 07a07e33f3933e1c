use vstd::prelude::*;

verus! {

/// Lowest BPM the engine accepts, in thousandths of a beat per minute.
pub const MIN_BPM_MILLIS: u32 = 20_000;

/// Highest BPM the engine accepts, in thousandths of a beat per minute.
pub const MAX_BPM_MILLIS: u32 = 300_000;

/// Shortest tap gap accepted by tap tempo, in milliseconds (300 BPM).
pub const MIN_TAP_GAP_MS: u64 = 200;

/// Longest tap gap accepted by tap tempo, in milliseconds (20 BPM).
pub const MAX_TAP_GAP_MS: u64 = 3_000;

/// BPM tracking, tap-tempo estimation, beat and measure positions, and a
/// count-in countdown.  Tempo is held in milli-BPM (thousandths of a beat
/// per minute); positions and lengths are sample counts.
pub struct TempoEngine {
    pub bpm_millis: u32,
    pub beats_per_measure: u32,
    pub sample_rate: u32,
    pub samples_per_beat: u64,
    pub samples_per_measure: u64,
    pub global_position: u64,
    /// The last one or two tap timestamps, in milliseconds.
    pub tap_times: Vec<u64>,
    pub count_in_active: bool,
    pub count_in_remaining_beats: u32,
    pub count_in_layer: Option<usize>,
    /// Highest beat number already handled, so a crossing fires only once.
    pub last_processed_beat: u64,
}

/// The sample length of one beat: `(60 / bpm) * sample_rate`, rounded to
/// the nearest integer (in milli-BPM: `60000 * rate / bpm_millis`).
pub open spec fn spec_samples_per_beat(rate: int, bpm_millis: int) -> int {
    (60_000 * rate + bpm_millis / 2) / bpm_millis
}

/// A BPM value clamped into the accepted range.
pub open spec fn spec_clamped_bpm(bpm_millis: int) -> int {
    if bpm_millis < MIN_BPM_MILLIS as int {
        MIN_BPM_MILLIS as int
    } else if bpm_millis > MAX_BPM_MILLIS as int {
        MAX_BPM_MILLIS as int
    } else {
        bpm_millis
    }
}

/// The milli-BPM corresponding to one tap gap in milliseconds.
pub open spec fn spec_gap_bpm(gap_ms: int) -> int {
    60_000_000int / gap_ms
}

/// Tap history invariant: at most the two latest taps, in order, and kept
/// only when their gap was accepted.
pub open spec fn tap_wf(taps: Seq<u64>) -> bool {
    &&& taps.len() <= 2
    &&& taps.len() == 2 ==> taps[0] <= taps[1] && MIN_TAP_GAP_MS as int <= taps[1] - taps[0]
        <= MAX_TAP_GAP_MS as int
}

/// Internal consistency of a tempo engine value.
pub open spec fn tempo_wf(t: TempoEngine) -> bool {
    &&& MIN_BPM_MILLIS <= t.bpm_millis <= MAX_BPM_MILLIS
    &&& 1 <= t.beats_per_measure <= 1024
    &&& 8_000 <= t.sample_rate <= 1_000_000
    &&& t.samples_per_beat as int == spec_samples_per_beat(
        t.sample_rate as int,
        t.bpm_millis as int,
    )
    &&& t.samples_per_measure as int == t.samples_per_beat as int * t.beats_per_measure as int
    &&& 1_600 <= t.samples_per_beat <= 4_000_000
    &&& 1_600 <= t.samples_per_measure <= 4_096_000_000
    &&& tap_wf(t.tap_times@)
}

/// The beat length derived from any accepted rate and BPM is positive and
/// small enough for all further arithmetic.
pub proof fn lemma_samples_per_beat_bounds(rate: int, bpm_millis: int)
    requires
        8_000 <= rate <= 1_000_000,
        MIN_BPM_MILLIS as int <= bpm_millis <= MAX_BPM_MILLIS as int,
    ensures
        1_600 <= spec_samples_per_beat(rate, bpm_millis) <= 4_000_000,
{
    let x = 60_000 * rate + bpm_millis / 2;
    assert(bpm_millis / 2 >= 0 && bpm_millis / 2 <= 150_000) by {
        vstd::arithmetic::div_mod::lemma_div_is_ordered(bpm_millis, 300_000, 2);
    }
    assert(x >= 480_000_000);
    vstd::arithmetic::div_mod::lemma_div_is_ordered(480_000_000, x, bpm_millis);
    vstd::arithmetic::div_mod::lemma_div_is_ordered_by_denominator(480_000_000, bpm_millis, 300_000);
    assert(480_000_000int / 300_000 == 1_600);
    vstd::arithmetic::div_mod::lemma_div_is_ordered_by_denominator(x, 20_000, bpm_millis);
    vstd::arithmetic::div_mod::lemma_div_is_ordered(x, 60_000_150_000, 20_000);
    assert(60_000_150_000int / 20_000 == 3_000_007);
}


/// Relation: `post` is `pre` after `set_bpm(bpm_millis)`.
pub open spec fn spec_bpm_set(pre: TempoEngine, post: TempoEngine, bpm_millis: int) -> bool {
    &&& post.bpm_millis as int == spec_clamped_bpm(bpm_millis)
    &&& post.samples_per_beat as int == spec_samples_per_beat(
        pre.sample_rate as int,
        spec_clamped_bpm(bpm_millis),
    )
    &&& post.samples_per_measure as int == post.samples_per_beat as int
        * pre.beats_per_measure as int
    &&& post.beats_per_measure == pre.beats_per_measure
    &&& post.sample_rate == pre.sample_rate
    &&& post.global_position == pre.global_position
    &&& post.tap_times@ == pre.tap_times@
    &&& post.count_in_active == pre.count_in_active
    &&& post.count_in_remaining_beats == pre.count_in_remaining_beats
    &&& post.count_in_layer == pre.count_in_layer
    &&& post.last_processed_beat == pre.last_processed_beat
}

/// Relation: `post` is `pre` after a tap at `now_ms`.  A gap in the
/// accepted window sets the tempo from that gap, blended 70/30 with the
/// tempo of the previous gap when one is known; a gap outside the window
/// starts a new tapping session.
pub open spec fn spec_tap_applied(pre: TempoEngine, post: TempoEngine, now_ms: u64) -> bool {
    &&& post.beats_per_measure == pre.beats_per_measure
    &&& post.sample_rate == pre.sample_rate
    &&& post.global_position == pre.global_position
    &&& post.count_in_active == pre.count_in_active
    &&& post.count_in_remaining_beats == pre.count_in_remaining_beats
    &&& post.count_in_layer == pre.count_in_layer
    &&& post.last_processed_beat == pre.last_processed_beat
    &&& ({
        let taps = pre.tap_times@;
        if taps.len() == 0 {
            &&& post.tap_times@ == seq![now_ms]
            &&& post.bpm_millis == pre.bpm_millis
            &&& post.samples_per_beat == pre.samples_per_beat
            &&& post.samples_per_measure == pre.samples_per_measure
        } else {
            let last = taps.last();
            let gap = if now_ms >= last {
                now_ms - last
            } else {
                0
            };
            if MIN_TAP_GAP_MS as int <= gap <= MAX_TAP_GAP_MS as int {
                let fresh = spec_gap_bpm(gap);
                let blended = if taps.len() == 2 {
                    (7 * fresh + 3 * spec_gap_bpm(taps[1] - taps[0])) / 10
                } else {
                    fresh
                };
                &&& post.bpm_millis as int == spec_clamped_bpm(blended)
                &&& post.samples_per_beat as int == spec_samples_per_beat(
                    pre.sample_rate as int,
                    spec_clamped_bpm(blended),
                )
                &&& post.samples_per_measure as int
                    == post.samples_per_beat as int
                    * pre.beats_per_measure as int
                &&& post.tap_times@ == (if taps.len() == 2 {
                    seq![taps[1], now_ms]
                } else {
                    taps.push(now_ms)
                })
            } else {
                &&& post.tap_times@ == seq![now_ms]
                &&& post.bpm_millis == pre.bpm_millis
                &&& post.samples_per_beat == pre.samples_per_beat
                &&& post.samples_per_measure == pre.samples_per_measure
            }
        }
    })
}

/// Relation: `post` is `pre` after `advance(sample_count)`: the position
/// moves (saturating), and when new beats are crossed the count-in loses
/// one beat per crossing until it reaches zero and deactivates.
pub open spec fn spec_advance_applied(pre: TempoEngine, post: TempoEngine, sample_count: int) -> bool {
    &&& post.bpm_millis == pre.bpm_millis
    &&& post.beats_per_measure == pre.beats_per_measure
    &&& post.sample_rate == pre.sample_rate
    &&& post.samples_per_beat == pre.samples_per_beat
    &&& post.samples_per_measure == pre.samples_per_measure
    &&& post.tap_times@ == pre.tap_times@
    &&& post.count_in_layer == pre.count_in_layer
    &&& post.global_position as int == (if pre.global_position as int + sample_count
        <= u64::MAX as int {
        pre.global_position as int + sample_count
    } else {
        u64::MAX as int
    })
    &&& ({
        let spb = pre.samples_per_beat as int;
        let curr = post.global_position as int / spb;
        let prev = pre.global_position as int / spb;
        if curr > prev && curr > pre.last_processed_beat as int {
            let crossed = curr - pre.last_processed_beat as int;
            &&& post.last_processed_beat as int == curr
            &&& if pre.count_in_active && pre.count_in_remaining_beats > 0 {
                let d = if pre.count_in_remaining_beats as int <= crossed {
                    pre.count_in_remaining_beats as int
                } else {
                    crossed
                };
                &&& post.count_in_remaining_beats as int == pre.count_in_remaining_beats as int - d
                &&& post.count_in_active == (post.count_in_remaining_beats as int > 0)
            } else {
                &&& post.count_in_remaining_beats == pre.count_in_remaining_beats
                &&& post.count_in_active == pre.count_in_active
            }
        } else {
            &&& post.last_processed_beat == pre.last_processed_beat
            &&& post.count_in_remaining_beats == pre.count_in_remaining_beats
            &&& post.count_in_active == pre.count_in_active
        }
    })
}

impl TempoEngine {
    /// A tempo engine at sample position zero.
    pub fn new(sample_rate: u32, bpm_millis: u32, beats_per_measure: u32) -> (t: TempoEngine)
        requires
            8_000 <= sample_rate <= 1_000_000,
            1 <= beats_per_measure <= 1024,
        ensures
            tempo_wf(t),
            t.bpm_millis as int == spec_clamped_bpm(bpm_millis as int),
            t.beats_per_measure == beats_per_measure,
            t.sample_rate == sample_rate,
            t.global_position == 0,
            t.tap_times@.len() == 0,
            !t.count_in_active,
            t.count_in_remaining_beats == 0,
            t.count_in_layer is None,
            t.last_processed_beat == 0,
    {
        let bpm: u32 = if bpm_millis < MIN_BPM_MILLIS {
            MIN_BPM_MILLIS
        } else if bpm_millis > MAX_BPM_MILLIS {
            MAX_BPM_MILLIS
        } else {
            bpm_millis
        };
        proof {
            lemma_samples_per_beat_bounds(sample_rate as int, bpm as int);
        }
        let samples_per_beat: u64 = (60_000u64 * (sample_rate as u64) + (bpm as u64) / 2) / (
        bpm as u64);
        proof {
            assert(1_600 <= samples_per_beat as int * (beats_per_measure as int)
                <= 4_096_000_000) by (nonlinear_arith)
                requires
                    1_600 <= samples_per_beat as int <= 4_000_000,
                    1 <= beats_per_measure as int <= 1024,
            ;
        }
        let samples_per_measure: u64 = samples_per_beat * (beats_per_measure as u64);
        TempoEngine {
            bpm_millis: bpm,
            beats_per_measure,
            sample_rate,
            samples_per_beat,
            samples_per_measure,
            global_position: 0,
            tap_times: Vec::new(),
            count_in_active: false,
            count_in_remaining_beats: 0,
            count_in_layer: None,
            last_processed_beat: 0,
        }
    }

    /// Set the BPM (clamped into range) and rederive the beat and measure
    /// lengths.
    pub fn set_bpm(&mut self, bpm_millis: u32)
        requires
            tempo_wf(*old(self)),
        ensures
            tempo_wf(*final(self)),
            spec_bpm_set(*old(self), *final(self), bpm_millis as int),
    {
        let bpm: u32 = if bpm_millis < MIN_BPM_MILLIS {
            MIN_BPM_MILLIS
        } else if bpm_millis > MAX_BPM_MILLIS {
            MAX_BPM_MILLIS
        } else {
            bpm_millis
        };
        proof {
            lemma_samples_per_beat_bounds(self.sample_rate as int, bpm as int);
        }
        self.bpm_millis = bpm;
        self.samples_per_beat = (60_000u64 * (self.sample_rate as u64) + (bpm as u64) / 2) / (
        bpm as u64);
        proof {
            assert(1_600 <= self.samples_per_beat as int * (self.beats_per_measure as int)
                <= 4_096_000_000) by (nonlinear_arith)
                requires
                    1_600 <= self.samples_per_beat as int <= 4_000_000,
                    1 <= self.beats_per_measure as int <= 1024,
            ;
        }
        self.samples_per_measure = self.samples_per_beat * (self.beats_per_measure as u64);
    }

    /// Register a tap at `now_ms` (a monotonic millisecond clock).  A gap
    /// in the accepted window sets the tempo from that gap, blended 70/30
    /// with the tempo of the previous gap when one is known; a gap outside
    /// the window starts a new tapping session.
    pub fn tap_tempo(&mut self, now_ms: u64)
        requires
            tempo_wf(*old(self)),
        ensures
            tempo_wf(*final(self)),
            spec_tap_applied(*old(self), *final(self), now_ms),
    {
        if self.tap_times.len() == 0 {
            self.tap_times.push(now_ms);
            proof {
                assert(final(self).tap_times@ =~= seq![now_ms]);
            }
            return;
        }
        let last: u64 = self.tap_times[self.tap_times.len() - 1];
        let gap: u64 = if now_ms >= last {
            now_ms - last
        } else {
            0
        };
        if MIN_TAP_GAP_MS <= gap && gap <= MAX_TAP_GAP_MS {
            let fresh: u64 = 60_000_000 / gap;
            proof {
                vstd::arithmetic::div_mod::lemma_div_is_ordered(60_000_000, 60_000_000, gap as int);
                vstd::arithmetic::div_mod::lemma_div_is_ordered_by_denominator(
                    60_000_000,
                    200,
                    gap as int,
                );
                vstd::arithmetic::div_mod::lemma_div_is_ordered_by_denominator(
                    60_000_000,
                    gap as int,
                    3_000,
                );
                assert(60_000_000int / 200 == 300_000);
                assert(60_000_000int / 3_000 == 20_000);
            }
            let blended: u64 = if self.tap_times.len() == 2 {
                let prior_gap: u64 = self.tap_times[1] - self.tap_times[0];
                let prior: u64 = 60_000_000 / prior_gap;
                proof {
                    vstd::arithmetic::div_mod::lemma_div_is_ordered_by_denominator(
                        60_000_000,
                        200,
                        prior_gap as int,
                    );
                    vstd::arithmetic::div_mod::lemma_div_is_ordered_by_denominator(
                        60_000_000,
                        prior_gap as int,
                        3_000,
                    );
                    assert(60_000_000int / 200 == 300_000);
                    assert(60_000_000int / 3_000 == 20_000);
                }
                (7 * fresh + 3 * prior) / 10
            } else {
                fresh
            };
            self.set_bpm(blended as u32);
            if self.tap_times.len() == 2 {
                let newer: u64 = self.tap_times[1];
                self.tap_times.clear();
                self.tap_times.push(newer);
                self.tap_times.push(now_ms);
                proof {
                    assert(final(self).tap_times@ =~= seq![old(self).tap_times@[1], now_ms]);
                }
            } else {
                self.tap_times.push(now_ms);
            }
        } else {
            self.tap_times.clear();
            self.tap_times.push(now_ms);
            proof {
                assert(final(self).tap_times@ =~= seq![now_ms]);
            }
        }
    }

    /// Advance the sample position and handle beat crossings: a crossing
    /// fires only for beat numbers above the highest already processed, and
    /// each crossed beat counts one count-in beat down.
    pub fn advance(&mut self, sample_count: usize)
        requires
            tempo_wf(*old(self)),
        ensures
            tempo_wf(*final(self)),
            spec_advance_applied(*old(self), *final(self), sample_count as int),
    {
        let previous: u64 = self.global_position;
        self.global_position = self.global_position.saturating_add(sample_count as u64);
        let current_beat: u64 = self.global_position / self.samples_per_beat;
        let previous_beat: u64 = previous / self.samples_per_beat;
        if current_beat > previous_beat && current_beat > self.last_processed_beat {
            let crossed: u64 = current_beat - self.last_processed_beat;
            self.last_processed_beat = current_beat;
            if self.count_in_active && self.count_in_remaining_beats > 0 {
                let d: u32 = if (self.count_in_remaining_beats as u64) <= crossed {
                    self.count_in_remaining_beats
                } else {
                    crossed as u32
                };
                self.count_in_remaining_beats = self.count_in_remaining_beats - d;
                if self.count_in_remaining_beats == 0 {
                    self.count_in_active = false;
                }
            }
        }
    }

    /// Arm a count-in of `beats` beats bound to a layer.
    pub fn start_count_in(&mut self, layer_id: usize, beats: u32)
        ensures
            *final(self) == (TempoEngine {
                count_in_active: true,
                count_in_remaining_beats: beats,
                count_in_layer: Some(layer_id),
                ..*old(self)
            }),
    {
        self.count_in_active = true;
        self.count_in_remaining_beats = beats;
        self.count_in_layer = Some(layer_id);
    }

    /// Abort any pending count-in.
    pub fn cancel_count_in(&mut self)
        ensures
            *final(self) == (TempoEngine {
                count_in_active: false,
                count_in_remaining_beats: 0,
                count_in_layer: None,
                ..*old(self)
            }),
    {
        self.count_in_active = false;
        self.count_in_remaining_beats = 0;
        self.count_in_layer = None;
    }

    /// First sample of the next measure (saturating at the numeric limit).
    pub fn get_next_measure_start(&self) -> (r: u64)
        requires
            tempo_wf(*self),
        ensures
            ({
                let next = (self.global_position as int / self.samples_per_measure as int + 1)
                    * self.samples_per_measure as int;
                r as int == if next <= u64::MAX as int {
                    next
                } else {
                    u64::MAX as int
                }
            }),
    {
        let current_measure: u64 = self.global_position / self.samples_per_measure;
        proof {
            vstd::arithmetic::div_mod::lemma_div_pos_is_pos(
                self.global_position as int,
                self.samples_per_measure as int,
            );
            vstd::arithmetic::div_mod::lemma_div_is_ordered_by_denominator(
                self.global_position as int,
                1_600,
                self.samples_per_measure as int,
            );
            vstd::arithmetic::div_mod::lemma_div_is_ordered(
                self.global_position as int,
                u64::MAX as int,
                1_600,
            );
        }
        match (current_measure + 1).checked_mul(self.samples_per_measure) {
            Some(v) => v,
            None => u64::MAX,
        }
    }

    /// Samples left until the next measure boundary.
    pub fn get_samples_until_next_measure(&self) -> (r: u64)
        requires
            tempo_wf(*self),
        ensures
            ({
                let next = (self.global_position as int / self.samples_per_measure as int + 1)
                    * self.samples_per_measure as int;
                let clipped = if next <= u64::MAX as int {
                    next
                } else {
                    u64::MAX as int
                };
                r as int == if clipped >= self.global_position as int {
                    clipped - self.global_position as int
                } else {
                    0
                }
            }),
    {
        let next: u64 = self.get_next_measure_start();
        if next >= self.global_position {
            next - self.global_position
        } else {
            0
        }
    }

    /// The 1-indexed beat within the current measure.
    pub fn get_current_beat(&self) -> (r: u32)
        requires
            tempo_wf(*self),
        ensures
            r as int == (self.global_position as int / self.samples_per_beat as int) % (
            self.beats_per_measure as int) + 1,
    {
        let beat: u64 = self.global_position / self.samples_per_beat;
        proof {
            vstd::arithmetic::div_mod::lemma_mod_bound(
                beat as int,
                self.beats_per_measure as int,
            );
        }
        ((beat % (self.beats_per_measure as u64)) as u32) + 1
    }

    /// The 0-indexed measure number.
    pub fn get_current_measure(&self) -> (r: u64)
        requires
            tempo_wf(*self),
        ensures
            r as int == self.global_position as int / self.samples_per_measure as int,
    {
        self.global_position / self.samples_per_measure
    }

    /// Whether the position lies within `tolerance` samples of a measure
    /// boundary, on either side.
    pub fn is_on_measure_boundary(&self, tolerance: u64) -> (r: bool)
        requires
            tempo_wf(*self),
        ensures
            ({
                let in_measure = self.global_position as int % self.samples_per_measure as int;
                r == (in_measure <= tolerance as int || in_measure + tolerance as int
                    >= self.samples_per_measure as int)
            }),
    {
        let in_measure: u64 = self.global_position % self.samples_per_measure;
        proof {
            vstd::arithmetic::div_mod::lemma_mod_bound(
                self.global_position as int,
                self.samples_per_measure as int,
            );
        }
        in_measure <= tolerance || in_measure >= self.samples_per_measure.saturating_sub(tolerance)
    }

    /// Rewind to sample position zero and forget processed beats.
    pub fn reset_position(&mut self)
        ensures
            *final(self) == (TempoEngine {
                global_position: 0,
                last_processed_beat: 0,
                ..*old(self)
            }),
    {
        self.global_position = 0;
        self.last_processed_beat = 0;
    }
}

/// Advancing by exactly one beat length raises the beat number by one, so
/// the 1-indexed beat within the measure steps forward and wraps back to 1
/// after the measure's last beat.
pub proof fn lemma_one_beat_advance(t: TempoEngine)
    requires
        tempo_wf(t),
        t.global_position as int + t.samples_per_beat as int <= u64::MAX as int,
    ensures
        (t.global_position as int + t.samples_per_beat as int) / t.samples_per_beat as int
            == t.global_position as int / t.samples_per_beat as int + 1,
        ({
            let before = (t.global_position as int / t.samples_per_beat as int) % (
            t.beats_per_measure as int) + 1;
            let after = ((t.global_position as int + t.samples_per_beat as int)
                / t.samples_per_beat as int) % (t.beats_per_measure as int) + 1;
            after == if before == t.beats_per_measure as int {
                1
            } else {
                before + 1
            }
        }),
{
    let g = t.global_position as int;
    let spb = t.samples_per_beat as int;
    let b = t.beats_per_measure as int;
    vstd::arithmetic::div_mod::lemma_div_plus_one(g, spb);
    let q = g / spb;
    vstd::arithmetic::div_mod::lemma_div_pos_is_pos(g, spb);
    vstd::arithmetic::div_mod::lemma_mod_bound(q, b);
    vstd::arithmetic::div_mod::lemma_add_mod_noop(q, 1, b);
    vstd::arithmetic::div_mod::lemma_mod_bound(q + 1, b);
    if q % b == b - 1 {
        if b > 1 {
            vstd::arithmetic::div_mod::lemma_small_mod(1nat, b as nat);
        } else {
            vstd::arithmetic::div_mod::lemma_mod_self_0(b);
        }
        vstd::arithmetic::div_mod::lemma_mod_self_0(b);
        assert((q + 1) % b == 0) by {
            assert((q % b + 1int % b) % b == (q + 1) % b);
        }
    } else {
        if b > 1 {
            vstd::arithmetic::div_mod::lemma_small_mod(1nat, b as nat);
        }
        vstd::arithmetic::div_mod::lemma_small_mod((q % b + 1) as nat, b as nat);
        assert((q + 1) % b == q % b + 1) by {
            assert((q % b + 1int % b) % b == (q + 1) % b);
        }
    }
}

} // verus!
