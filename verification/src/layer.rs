use vstd::prelude::*;

use crate::peak_meter::{meter_wf, spec_meter_after, PeakMeter};
use crate::sample::{copy_samples, scaled_sample, spec_scaled, UNIT};
use crate::undo_history::{
    hist_wf, spec_can_redo, spec_can_undo, spec_redone, spec_saved, spec_undone, HistV,
    LayerSnapshot, SnapV, UndoHistory,
};

verus! {

/// One loopable audio layer: an owned sample buffer, its recording and
/// playback state machine, loop points, an undo history and a level meter.
pub struct AudioLayer {
    pub id: usize,
    pub buffer: Vec<i32>,
    pub volume: i32,
    pub is_recording: bool,
    pub is_playing: bool,
    pub is_muted: bool,
    pub is_solo: bool,
    pub playback_position: usize,
    pub loop_start: usize,
    pub loop_end: usize,
    pub undo_history: UndoHistory,
    pub meter: PeakMeter,
}

/// Mathematical value of a layer.
pub ghost struct LayerV {
    pub id: int,
    pub buffer: Seq<i32>,
    pub volume: int,
    pub is_recording: bool,
    pub is_playing: bool,
    pub is_muted: bool,
    pub is_solo: bool,
    pub playback_position: int,
    pub loop_start: int,
    pub loop_end: int,
    pub history: HistV,
    pub meter: PeakMeter,
}

impl View for AudioLayer {
    type V = LayerV;

    open spec fn view(&self) -> LayerV {
        LayerV {
            id: self.id as int,
            buffer: self.buffer@,
            volume: self.volume as int,
            is_recording: self.is_recording,
            is_playing: self.is_playing,
            is_muted: self.is_muted,
            is_solo: self.is_solo,
            playback_position: self.playback_position as int,
            loop_start: self.loop_start as int,
            loop_end: self.loop_end as int,
            history: self.undo_history@,
            meter: self.meter,
        }
    }
}

/// The snapshot a layer state would save.
pub open spec fn spec_snap_of(l: LayerV) -> SnapV {
    SnapV {
        buffer: l.buffer,
        volume: l.volume,
        loop_start: l.loop_start,
        loop_end: l.loop_end,
        playback_position: l.playback_position,
        is_muted: l.is_muted,
        is_solo: l.is_solo,
    }
}

/// A snapshot that can be restored without breaking the layer invariant.
pub open spec fn snap_wf(s: SnapV) -> bool {
    &&& 0 <= s.volume <= UNIT as int
    &&& 0 <= s.loop_start <= s.loop_end <= s.buffer.len()
    &&& 0 <= s.playback_position <= s.buffer.len()
}

/// Internal consistency of a layer value.
pub open spec fn layer_wf(l: LayerV) -> bool {
    &&& 0 <= l.volume <= UNIT as int
    &&& 0 <= l.loop_start <= l.loop_end <= l.buffer.len()
    &&& 0 <= l.playback_position <= l.buffer.len()
    &&& hist_wf(l.history)
    &&& forall|k: int| 0 <= k < l.history.entries.len() ==> snap_wf(#[trigger] l.history.entries[k])
    &&& meter_wf(l.meter)
}

/// Whether playback of this layer produces buffer content (rather than
/// silence): it must be playing, hold samples, and have a nonempty loop.
pub open spec fn spec_playback_active(l: LayerV) -> bool {
    l.is_playing && l.buffer.len() > 0 && l.loop_end != l.loop_start
}

/// The buffer index read at playback step `i`, starting from position `p0`:
/// the position wraps to `start` whenever it reaches `len`.
pub open spec fn spec_read_pos(start: int, len: int, p0: int, i: nat) -> int
    decreases i,
{
    if i == 0 {
        if p0 >= len {
            start
        } else {
            p0
        }
    } else {
        let q = spec_read_pos(start, len, p0, (i - 1) as nat) + 1;
        if q >= len {
            start
        } else {
            q
        }
    }
}

/// The playback position after `n` produced samples.
pub open spec fn spec_pos_after(start: int, len: int, p0: int, n: nat) -> int {
    if n == 0 {
        p0
    } else {
        spec_read_pos(start, len, p0, (n - 1) as nat) + 1
    }
}

/// The sample value a playing layer emits at step `i`: the buffer sample at
/// the wrapped position, scaled by the volume, or zero when muted.
pub open spec fn spec_play_sample(l: LayerV, i: nat) -> int {
    if l.is_muted {
        0
    } else {
        spec_scaled(
            l.buffer[spec_read_pos(l.loop_start, l.buffer.len() as int, l.playback_position, i)] as int,
            l.volume,
        )
    }
}

/// Read positions stay inside the buffer.
pub proof fn lemma_read_pos_in_bounds(start: int, len: int, p0: int, i: nat)
    requires
        0 <= start < len,
        0 <= p0 <= len,
    ensures
        0 <= spec_read_pos(start, len, p0, i) < len,
    decreases i,
{
    if i > 0 {
        lemma_read_pos_in_bounds(start, len, p0, (i - 1) as nat);
    }
}

/// Closed form of the read position: from a start position inside the loop
/// window, playback walks the window `[start, len)` cyclically.
pub proof fn lemma_read_pos_mod(start: int, len: int, p0: int, i: nat)
    requires
        0 <= start < len,
        start <= p0 <= len,
    ensures
        spec_read_pos(start, len, p0, i) == start + (((if p0 >= len {
            start
        } else {
            p0
        }) - start + i) % (len - start)),
    decreases i,
{
    let period = len - start;
    let j0 = (if p0 >= len {
        start
    } else {
        p0
    }) - start;
    if i == 0 {
        vstd::arithmetic::div_mod::lemma_small_mod(j0 as nat, period as nat);
    } else {
        lemma_read_pos_mod(start, len, p0, (i - 1) as nat);
        let x = j0 + i - 1;
        vstd::arithmetic::div_mod::lemma_mod_bound(x, period);
        vstd::arithmetic::div_mod::lemma_add_mod_noop(x, 1, period);
        if x % period == period - 1 {
            if period > 1 {
                vstd::arithmetic::div_mod::lemma_small_mod(1nat, period as nat);
            } else {
                vstd::arithmetic::div_mod::lemma_mod_self_0(period);
                assert(1int % period == 0);
            }
            vstd::arithmetic::div_mod::lemma_mod_self_0(period);
            vstd::arithmetic::div_mod::lemma_mod_twice(x + 1, period);
            assert((x + 1) % period == 0) by {
                assert((x % period + 1int % period) % period == (x + 1) % period);
            }
        } else {
            vstd::arithmetic::div_mod::lemma_mod_bound(x + 1, period);
            if period > 1 {
                vstd::arithmetic::div_mod::lemma_small_mod(1nat, period as nat);
            }
            vstd::arithmetic::div_mod::lemma_small_mod((x % period + 1) as nat, period as nat);
            assert((x + 1) % period == x % period + 1) by {
                assert((x % period + 1int % period) % period == (x + 1) % period);
            }
        }
    }
}

/// Playback across calls is one continuous stream: producing `n` samples
/// and then reading step `j` from the advanced position reads the same
/// buffer index as step `n + j` of the original position.
pub proof fn lemma_playback_continues(start: int, len: int, p0: int, n: nat, j: nat)
    ensures
        spec_read_pos(start, len, spec_pos_after(start, len, p0, n), j) == spec_read_pos(
            start,
            len,
            p0,
            n + j,
        ),
    decreases j,
{
    if j == 0 {
        if n > 0 {
            assert(spec_read_pos(start, len, p0, n) == spec_read_pos(
                start,
                len,
                spec_pos_after(start, len, p0, n),
                0,
            ));
        }
    } else {
        lemma_playback_continues(start, len, p0, n, (j - 1) as nat);
    }
}

/// Loop playback is periodic: with the loop window ending at the buffer end,
/// the read position and the emitted sample repeat with period
/// `loop_end - loop_start`.
pub proof fn lemma_playback_periodic(l: LayerV, i: nat)
    requires
        layer_wf(l),
        spec_playback_active(l),
        l.loop_end == l.buffer.len(),
        l.loop_start <= l.playback_position,
    ensures
        spec_read_pos(l.loop_start, l.buffer.len() as int, l.playback_position, (i + l.loop_end
            - l.loop_start) as nat) == spec_read_pos(
            l.loop_start,
            l.buffer.len() as int,
            l.playback_position,
            i,
        ),
        spec_play_sample(l, (i + l.loop_end - l.loop_start) as nat) == spec_play_sample(l, i),
{
    let start = l.loop_start;
    let len = l.buffer.len() as int;
    let p0 = l.playback_position;
    let period = len - start;
    lemma_read_pos_mod(start, len, p0, i);
    lemma_read_pos_mod(start, len, p0, i + period as nat);
    let j0 = (if p0 >= len {
        start
    } else {
        p0
    }) - start;
    vstd::arithmetic::div_mod::lemma_add_mod_noop(j0 + i, period, period);
    vstd::arithmetic::div_mod::lemma_mod_self_0(period);
    vstd::arithmetic::div_mod::lemma_mod_twice(j0 + i, period);
    assert((j0 + i + period) % period == (j0 + i) % period) by {
        assert(((j0 + i) % period + period % period) % period == (j0 + i + period) % period);
    }
}

/// The layer after `start_recording`: the prior state is saved for undo,
/// then the buffer and loop points are reset for a fresh take.
pub open spec fn spec_after_start_recording(l: LayerV) -> LayerV {
    LayerV {
        buffer: Seq::<i32>::empty(),
        is_recording: true,
        is_playing: false,
        playback_position: 0,
        loop_start: 0,
        loop_end: 0,
        history: spec_saved(l.history, spec_snap_of(l)),
        ..l
    }
}

/// Relation: `post` is `pre` after `start_recording`.
pub open spec fn spec_recording_started(pre: LayerV, post: LayerV) -> bool {
    post == spec_after_start_recording(pre)
}

/// Relation: `post` is `pre` after `append_samples(samples)`.
pub open spec fn spec_samples_appended(pre: LayerV, post: LayerV, samples: Seq<i32>) -> bool {
    post == LayerV { buffer: pre.buffer + samples, ..pre }
}

/// The layer after `stop_recording`: recording ends, and a nonempty take
/// seamlessly becomes the playing loop, saved for undo.
pub open spec fn spec_after_stop_recording(l: LayerV) -> LayerV {
    if l.buffer.len() == 0 {
        LayerV { is_recording: false, ..l }
    } else {
        LayerV {
            is_recording: false,
            is_playing: true,
            loop_end: l.buffer.len() as int,
            history: spec_saved(
                l.history,
                spec_snap_of(
                    LayerV {
                        is_recording: false,
                        is_playing: true,
                        loop_end: l.buffer.len() as int,
                        ..l
                    },
                ),
            ),
            ..l
        }
    }
}

/// Relation: `post` is `pre` after `stop_recording`.
pub open spec fn spec_recording_stopped(pre: LayerV, post: LayerV) -> bool {
    post == spec_after_stop_recording(pre)
}

/// The layer after `start_playing`: a nonempty layer starts its loop from
/// the top; an empty one is untouched.
pub open spec fn spec_after_start_playing(l: LayerV) -> LayerV {
    if l.buffer.len() > 0 {
        LayerV { is_playing: true, playback_position: l.loop_start, ..l }
    } else {
        l
    }
}

/// The layer after `stop_playing`: playback stops and rewinds to the loop
/// start.
pub open spec fn spec_after_stop_playing(l: LayerV) -> LayerV {
    LayerV { is_playing: false, playback_position: l.loop_start, ..l }
}

/// The layer after `clear`: the prior state is saved for undo, then
/// everything audible is reset.
pub open spec fn spec_after_clear(l: LayerV) -> LayerV {
    LayerV {
        buffer: Seq::<i32>::empty(),
        is_recording: false,
        is_playing: false,
        playback_position: 0,
        loop_start: 0,
        loop_end: 0,
        history: spec_saved(l.history, spec_snap_of(l)),
        meter: PeakMeter { peak_level: 0, peak_hold: 0, rms_level: 0, peak_hold_counter: 0 },
        ..l
    }
}

/// A snapshot written over a layer's audible state; an empty snapshot
/// forces the layer out of playback and recording.
pub open spec fn spec_apply_snap(l: LayerV, s: SnapV, h: HistV) -> LayerV {
    LayerV {
        buffer: s.buffer,
        volume: s.volume,
        loop_start: s.loop_start,
        loop_end: s.loop_end,
        playback_position: s.playback_position,
        is_muted: s.is_muted,
        is_solo: s.is_solo,
        is_playing: s.buffer.len() > 0 && l.is_playing,
        is_recording: s.buffer.len() > 0 && l.is_recording,
        history: h,
        ..l
    }
}

/// Relation: `post` is `pre` after a snapshot `s` was restored.
pub open spec fn spec_snapshot_applied(pre: LayerV, post: LayerV, s: SnapV, h: HistV) -> bool {
    post == spec_apply_snap(pre, s, h)
}

/// The layer after `undo`: the previous snapshot restored, or the layer
/// untouched when there is none.
pub open spec fn spec_after_undo(l: LayerV) -> LayerV {
    if spec_can_undo(l.history) {
        spec_apply_snap(l, l.history.entries[l.history.cursor - 1], spec_undone(l.history))
    } else {
        l
    }
}

/// The layer after `redo`: the next snapshot restored, or the layer
/// untouched when there is none.
pub open spec fn spec_after_redo(l: LayerV) -> LayerV {
    if spec_can_redo(l.history) {
        spec_apply_snap(l, l.history.entries[l.history.cursor + 1], spec_redone(l.history))
    } else {
        l
    }
}

/// The volume value `set_volume` stores, clamped into `[0, UNIT]`.
pub open spec fn spec_clamped_volume(v: int) -> int {
    if v < 0 {
        0
    } else if v > UNIT as int {
        UNIT as int
    } else {
        v
    }
}

/// Saving a well-formed snapshot keeps every stored snapshot well-formed.
pub proof fn lemma_saved_snaps_wf(h: HistV, s: SnapV)
    requires
        hist_wf(h),
        forall|k: int| 0 <= k < h.entries.len() ==> snap_wf(#[trigger] h.entries[k]),
        snap_wf(s),
    ensures
        forall|k: int|
            0 <= k < spec_saved(h, s).entries.len() ==> snap_wf(
                #[trigger] spec_saved(h, s).entries[k],
            ),
{
    let kept = if h.entries.len() == 0 {
        h.entries
    } else {
        h.entries.take(h.cursor + 1)
    };
    let grown = kept.push(s);
    let fin = spec_saved(h, s).entries;
    assert forall|k: int| 0 <= k < fin.len() implies snap_wf(fin[k]) by {
        if grown.len() > h.max_levels {
            assert(fin[k] == grown[k + 1]);
        } else {
            assert(fin[k] == grown[k]);
        }
    }
}

impl AudioLayer {
    /// A fresh, empty layer; its initial (empty) state is the first entry
    /// of its undo history.
    pub fn new(id: usize) -> (l: AudioLayer)
        ensures
            l@.id == id as int,
            l@.buffer.len() == 0,
            l@.volume == UNIT as int,
            !l@.is_recording,
            !l@.is_playing,
            !l@.is_muted,
            !l@.is_solo,
            l@.playback_position == 0,
            l@.loop_start == 0,
            l@.loop_end == 0,
            l@.history.entries.len() == 1,
            l@.meter == (PeakMeter { peak_level: 0, peak_hold: 0, rms_level: 0, peak_hold_counter: 0 }),
            layer_wf(l@),
    {
        let mut layer = AudioLayer {
            id,
            buffer: Vec::new(),
            volume: UNIT,
            is_recording: false,
            is_playing: false,
            is_muted: false,
            is_solo: false,
            playback_position: 0,
            loop_start: 0,
            loop_end: 0,
            undo_history: UndoHistory::new(),
            meter: PeakMeter::new(),
        };
        layer.save_state_to_history();
        layer
    }

    /// Push the current audible state onto the undo history.
    fn save_state_to_history(&mut self)
        requires
            hist_wf(old(self)@.history),
        ensures
            final(self)@ == (LayerV {
                history: spec_saved(old(self)@.history, spec_snap_of(old(self)@)),
                ..old(self)@
            }),
    {
        let snapshot = LayerSnapshot {
            buffer: copy_samples(&self.buffer),
            volume: self.volume,
            loop_start: self.loop_start,
            loop_end: self.loop_end,
            playback_position: self.playback_position,
            is_muted: self.is_muted,
            is_solo: self.is_solo,
        };
        self.undo_history.save_state(snapshot);
    }

    /// Begin recording: the current state is saved for undo, then the
    /// buffer and loop points are reset.
    pub fn start_recording(&mut self)
        requires
            layer_wf(old(self)@),
        ensures
            spec_recording_started(old(self)@, final(self)@),
            layer_wf(final(self)@),
    {
        proof {
            lemma_saved_snaps_wf(self@.history, spec_snap_of(self@));
        }
        self.is_recording = true;
        self.is_playing = false;
        proof {
            assert(spec_snap_of(LayerV { is_recording: true, is_playing: false, ..old(self)@ })
                == spec_snap_of(old(self)@));
        }
        self.save_state_to_history();
        self.buffer = Vec::new();
        self.playback_position = 0;
        self.loop_start = 0;
        self.loop_end = 0;
        proof {
            assert(final(self)@.buffer =~= Seq::<i32>::empty());
        }
    }

    /// End recording; a nonempty take becomes the playing loop and is
    /// saved for undo.
    pub fn stop_recording(&mut self)
        requires
            layer_wf(old(self)@),
        ensures
            spec_recording_stopped(old(self)@, final(self)@),
            layer_wf(final(self)@),
    {
        self.is_recording = false;
        if self.buffer.len() > 0 {
            self.loop_end = self.buffer.len();
            self.is_playing = true;
            proof {
                lemma_saved_snaps_wf(self@.history, spec_snap_of(self@));
            }
            self.save_state_to_history();
        }
    }

    /// Start playback from the loop start (a no-op on an empty layer).
    pub fn start_playing(&mut self)
        requires
            layer_wf(old(self)@),
        ensures
            final(self)@ == spec_after_start_playing(old(self)@),
            layer_wf(final(self)@),
    {
        if self.buffer.len() > 0 {
            self.is_playing = true;
            self.playback_position = self.loop_start;
        }
    }

    /// Stop playback and rewind to the loop start.
    pub fn stop_playing(&mut self)
        requires
            layer_wf(old(self)@),
        ensures
            final(self)@ == spec_after_stop_playing(old(self)@),
            layer_wf(final(self)@),
    {
        self.is_playing = false;
        self.playback_position = self.loop_start;
    }

    pub fn toggle_mute(&mut self)
        ensures
            final(self)@ == (LayerV { is_muted: !old(self)@.is_muted, ..old(self)@ }),
    {
        self.is_muted = !self.is_muted;
    }

    pub fn toggle_solo(&mut self)
        ensures
            final(self)@ == (LayerV { is_solo: !old(self)@.is_solo, ..old(self)@ }),
    {
        self.is_solo = !self.is_solo;
    }

    /// Set the volume, clamped into `[0, UNIT]`.
    pub fn set_volume(&mut self, volume: i32)
        ensures
            final(self)@ == (LayerV { volume: spec_clamped_volume(volume as int), ..old(self)@ }),
    {
        self.volume = if volume < 0 {
            0
        } else if volume > UNIT {
            UNIT
        } else {
            volume
        };
    }

    /// Append a chunk of samples to the buffer.
    pub fn append_samples(&mut self, samples: &Vec<i32>)
        requires
            layer_wf(old(self)@),
        ensures
            spec_samples_appended(old(self)@, final(self)@, samples@),
            layer_wf(final(self)@),
    {
        let mut i: usize = 0;
        while i < samples.len()
            invariant
                i <= samples.len(),
                self@ == (LayerV {
                    buffer: old(self)@.buffer + samples@.take(i as int),
                    ..old(self)@
                }),
            decreases samples.len() - i,
        {
            self.buffer.push(samples[i]);
            proof {
                assert(old(self)@.buffer + samples@.take(i as int + 1) =~= (old(self)@.buffer
                    + samples@.take(i as int)).push(samples@[i as int]));
            }
            i = i + 1;
        }
        proof {
            assert(old(self)@.buffer + samples@.take(samples@.len() as int) =~= old(self)@.buffer
                + samples@);
        }
    }

    /// Produce `count` samples of loop playback, scaled by the volume and
    /// silenced when muted; silence when the layer is not audible.  The
    /// produced chunk feeds the level meter.
    pub fn get_next_samples(&mut self, count: usize) -> (r: Vec<i32>)
        requires
            layer_wf(old(self)@),
        ensures
            layer_wf(final(self)@),
            r@.len() == count as int,
            !spec_playback_active(old(self)@) ==> final(self)@ == old(self)@ && forall|j: int|
                0 <= j < count ==> r@[j] == 0i32,
            spec_playback_active(old(self)@) ==> {
                &&& forall|j: int|
                    0 <= j < count ==> #[trigger] r@[j] as int == spec_play_sample(
                        old(self)@,
                        j as nat,
                    )
                &&& final(self)@ == (LayerV {
                    playback_position: spec_pos_after(
                        old(self)@.loop_start,
                        old(self)@.buffer.len() as int,
                        old(self)@.playback_position,
                        count as nat,
                    ),
                    meter: spec_meter_after(old(self)@.meter, r@),
                    ..old(self)@
                })
            },
    {
        let mut output: Vec<i32> = Vec::new();
        if !self.is_playing || self.buffer.len() == 0 || self.loop_end == self.loop_start {
            let mut i: usize = 0;
            while i < count
                invariant
                    i <= count,
                    output@.len() == i as int,
                    forall|j: int| 0 <= j < i ==> output@[j] == 0i32,
                decreases count - i,
            {
                output.push(0);
                i = i + 1;
            }
            return output;
        }
        let len: usize = self.buffer.len();
        let start: usize = self.loop_start;
        let mut pos: usize = self.playback_position;
        let mut i: usize = 0;
        while i < count
            invariant
                layer_wf(self@),
                self@ == old(self)@,
                spec_playback_active(self@),
                len == self@.buffer.len(),
                start == self@.loop_start,
                start < len,
                i <= count,
                pos <= len,
                pos as int == spec_pos_after(start as int, len as int, self@.playback_position, i as nat),
                output@.len() == i as int,
                forall|j: int|
                    0 <= j < i ==> #[trigger] output@[j] as int == spec_play_sample(self@, j as nat),
            decreases count - i,
        {
            if pos >= len {
                pos = start;
            }
            let s: i32 = self.buffer[pos];
            let value: i32 = if self.is_muted {
                0
            } else {
                scaled_sample(s, self.volume)
            };
            proof {
                assert(pos as int == spec_read_pos(
                    start as int,
                    len as int,
                    self@.playback_position,
                    i as nat,
                ));
            }
            output.push(value);
            pos = pos + 1;
            i = i + 1;
        }
        self.playback_position = pos;
        self.meter.update(&output);
        output
    }

    /// Like `get_next_samples`, but overwrite an existing buffer in place.
    pub fn fill_next_samples(&mut self, out: &mut Vec<i32>)
        requires
            layer_wf(old(self)@),
        ensures
            layer_wf(final(self)@),
            final(out)@.len() == old(out)@.len(),
            !spec_playback_active(old(self)@) ==> final(self)@ == old(self)@ && forall|j: int|
                0 <= j < final(out)@.len() ==> final(out)@[j] == 0i32,
            spec_playback_active(old(self)@) ==> {
                &&& forall|j: int|
                    0 <= j < final(out)@.len() ==> #[trigger] final(out)@[j] as int
                        == spec_play_sample(old(self)@, j as nat)
                &&& final(self)@ == (LayerV {
                    playback_position: spec_pos_after(
                        old(self)@.loop_start,
                        old(self)@.buffer.len() as int,
                        old(self)@.playback_position,
                        old(out)@.len() as nat,
                    ),
                    meter: spec_meter_after(old(self)@.meter, final(out)@),
                    ..old(self)@
                })
            },
    {
        let count: usize = out.len();
        if !self.is_playing || self.buffer.len() == 0 || self.loop_end == self.loop_start {
            let mut i: usize = 0;
            while i < count
                invariant
                    i <= count,
                    out@.len() == count as int,
                    forall|j: int| 0 <= j < i ==> out@[j] == 0i32,
                decreases count - i,
            {
                out.set(i, 0);
                i = i + 1;
            }
            return;
        }
        let len: usize = self.buffer.len();
        let start: usize = self.loop_start;
        let mut pos: usize = self.playback_position;
        let mut i: usize = 0;
        while i < count
            invariant
                layer_wf(self@),
                self@ == old(self)@,
                spec_playback_active(self@),
                len == self@.buffer.len(),
                start == self@.loop_start,
                start < len,
                i <= count,
                pos <= len,
                pos as int == spec_pos_after(start as int, len as int, self@.playback_position, i as nat),
                out@.len() == count as int,
                forall|j: int|
                    0 <= j < i ==> #[trigger] out@[j] as int == spec_play_sample(self@, j as nat),
            decreases count - i,
        {
            if pos >= len {
                pos = start;
            }
            let s: i32 = self.buffer[pos];
            let value: i32 = if self.is_muted {
                0
            } else {
                scaled_sample(s, self.volume)
            };
            proof {
                assert(pos as int == spec_read_pos(
                    start as int,
                    len as int,
                    self@.playback_position,
                    i as nat,
                ));
            }
            out.set(i, value);
            pos = pos + 1;
            i = i + 1;
        }
        self.playback_position = pos;
        self.meter.update(out);
    }

    /// Length of the loop window.
    pub fn get_loop_length(&self) -> (r: usize)
        requires
            layer_wf(self@),
        ensures
            r as int == self@.loop_end - self@.loop_start,
    {
        self.loop_end - self.loop_start
    }

    /// Move the loop points, clamped into the buffer and forced into a
    /// window of at least one sample whenever the buffer is nonempty.
    pub fn set_loop_points(&mut self, start: usize, end: usize)
        requires
            layer_wf(old(self)@),
        ensures
            layer_wf(final(self)@),
            ({
                let len = old(self)@.buffer.len() as int;
                let s = if start as int <= len {
                    start as int
                } else {
                    len
                };
                let e = if end as int <= len {
                    end as int
                } else {
                    len
                };
                final(self)@ == (LayerV {
                    loop_start: if s < e {
                        s
                    } else if len == 0 {
                        0
                    } else if s < len {
                        s
                    } else {
                        len - 1
                    },
                    loop_end: if s < e {
                        e
                    } else if len == 0 {
                        0
                    } else if s < len {
                        s + 1
                    } else {
                        len
                    },
                    ..old(self)@
                })
            }),
    {
        let len: usize = self.buffer.len();
        let s: usize = if start <= len {
            start
        } else {
            len
        };
        let e: usize = if end <= len {
            end
        } else {
            len
        };
        if s < e {
            self.loop_start = s;
            self.loop_end = e;
        } else if len == 0 {
            self.loop_start = 0;
            self.loop_end = 0;
        } else if s < len {
            self.loop_start = s;
            self.loop_end = s + 1;
        } else {
            self.loop_start = len - 1;
            self.loop_end = len;
        }
    }

    /// Restore the previous snapshot, if any.
    pub fn undo(&mut self) -> (r: bool)
        requires
            layer_wf(old(self)@),
        ensures
            layer_wf(final(self)@),
            r == spec_can_undo(old(self)@.history),
            final(self)@ == spec_after_undo(old(self)@),
    {
        let taken = self.undo_history.undo();
        match taken {
            Some(snapshot) => {
                self.apply_snapshot(snapshot);
                true
            },
            None => false,
        }
    }

    /// Restore the next snapshot, if any.
    pub fn redo(&mut self) -> (r: bool)
        requires
            layer_wf(old(self)@),
        ensures
            layer_wf(final(self)@),
            r == spec_can_redo(old(self)@.history),
            final(self)@ == spec_after_redo(old(self)@),
    {
        let taken = self.undo_history.redo();
        match taken {
            Some(snapshot) => {
                self.apply_snapshot(snapshot);
                true
            },
            None => false,
        }
    }

    /// Overwrite the audible state with a snapshot; an empty snapshot
    /// forces the layer out of playback and recording.
    fn apply_snapshot(&mut self, snapshot: LayerSnapshot)
        requires
            snap_wf(snapshot@),
        ensures
            spec_snapshot_applied(old(self)@, final(self)@, snapshot@, old(self)@.history),
    {
        let LayerSnapshot { buffer, volume, loop_start, loop_end, playback_position, is_muted, is_solo } =
            snapshot;
        let empty: bool = buffer.len() == 0;
        self.buffer = buffer;
        self.volume = volume;
        self.loop_start = loop_start;
        self.loop_end = loop_end;
        self.playback_position = playback_position;
        self.is_muted = is_muted;
        self.is_solo = is_solo;
        if empty {
            self.is_playing = false;
            self.is_recording = false;
        }
    }

    pub fn can_undo(&self) -> (r: bool)
        ensures
            r == spec_can_undo(self@.history),
    {
        self.undo_history.can_undo()
    }

    pub fn can_redo(&self) -> (r: bool)
        ensures
            r == spec_can_redo(self@.history),
    {
        self.undo_history.can_redo()
    }

    /// Save the state for undo, then reset to the empty layer.
    pub fn clear(&mut self)
        requires
            layer_wf(old(self)@),
        ensures
            layer_wf(final(self)@),
            final(self)@ == spec_after_clear(old(self)@),
    {
        proof {
            lemma_saved_snaps_wf(self@.history, spec_snap_of(self@));
        }
        self.save_state_to_history();
        self.buffer = Vec::new();
        self.is_recording = false;
        self.is_playing = false;
        self.playback_position = 0;
        self.loop_start = 0;
        self.loop_end = 0;
        self.meter.reset();
        proof {
            assert(final(self)@.buffer =~= Seq::<i32>::empty());
        }
    }

    pub fn is_empty(&self) -> (r: bool)
        ensures
            r == (self@.buffer.len() == 0),
    {
        self.buffer.len() == 0
    }

    pub fn get_buffer_length(&self) -> (r: usize)
        ensures
            r as int == self@.buffer.len(),
    {
        self.buffer.len()
    }
}

impl Default for AudioLayer {
    fn default() -> (l: AudioLayer)
        ensures
            l@.id == 0,
            l@.buffer.len() == 0,
            layer_wf(l@),
    {
        AudioLayer::new(0)
    }
}

/// Recording `n` samples and stopping yields a layer whose buffer and loop
/// window hold exactly those `n` samples, already playing and no longer
/// recording.
pub proof fn lemma_record_append_stop(
    l0: LayerV,
    l1: LayerV,
    l2: LayerV,
    l3: LayerV,
    samples: Seq<i32>,
)
    requires
        spec_recording_started(l0, l1),
        spec_samples_appended(l1, l2, samples),
        spec_recording_stopped(l2, l3),
        samples.len() > 0,
    ensures
        l3.buffer.len() == samples.len(),
        l3.loop_end == samples.len(),
        l3.is_playing,
        !l3.is_recording,
{
    assert(l2.buffer =~= samples);
}

} // verus!
