use vstd::prelude::*;

use crate::sample::{copy_samples, UNIT};

verus! {

/// Snapshots kept by a history made with `UndoHistory::new`.
pub const DEFAULT_MAX_LEVELS: usize = 5;

/// An immutable copy of one layer's audible state: its sample buffer,
/// volume, loop points, playback position and mute/solo flags.
pub struct LayerSnapshot {
    pub buffer: Vec<i32>,
    pub volume: i32,
    pub loop_start: usize,
    pub loop_end: usize,
    pub playback_position: usize,
    pub is_muted: bool,
    pub is_solo: bool,
}

/// Mathematical value of a snapshot.
pub ghost struct SnapV {
    pub buffer: Seq<i32>,
    pub volume: int,
    pub loop_start: int,
    pub loop_end: int,
    pub playback_position: int,
    pub is_muted: bool,
    pub is_solo: bool,
}

impl View for LayerSnapshot {
    type V = SnapV;

    open spec fn view(&self) -> SnapV {
        SnapV {
            buffer: self.buffer@,
            volume: self.volume as int,
            loop_start: self.loop_start as int,
            loop_end: self.loop_end as int,
            playback_position: self.playback_position as int,
            is_muted: self.is_muted,
            is_solo: self.is_solo,
        }
    }
}

impl LayerSnapshot {
    /// The snapshot of an empty, fresh layer.
    pub fn new() -> (s: LayerSnapshot)
        ensures
            s@.buffer.len() == 0,
            s@.volume == UNIT as int,
            s@.loop_start == 0,
            s@.loop_end == 0,
            s@.playback_position == 0,
            !s@.is_muted,
            !s@.is_solo,
    {
        LayerSnapshot {
            buffer: Vec::new(),
            volume: UNIT,
            loop_start: 0,
            loop_end: 0,
            playback_position: 0,
            is_muted: false,
            is_solo: false,
        }
    }
}

impl Clone for LayerSnapshot {
    fn clone(&self) -> (r: LayerSnapshot)
        ensures
            r@ == self@,
    {
        LayerSnapshot {
            buffer: copy_samples(&self.buffer),
            volume: self.volume,
            loop_start: self.loop_start,
            loop_end: self.loop_end,
            playback_position: self.playback_position,
            is_muted: self.is_muted,
            is_solo: self.is_solo,
        }
    }
}

impl Default for LayerSnapshot {
    fn default() -> (s: LayerSnapshot)
        ensures
            s@.buffer.len() == 0,
            s@.volume == UNIT as int,
            s@.loop_start == 0,
            s@.loop_end == 0,
            s@.playback_position == 0,
            !s@.is_muted,
            !s@.is_solo,
    {
        LayerSnapshot::new()
    }
}

/// Mathematical value of a history: the stored snapshots, the capacity,
/// and the cursor of the current snapshot.
pub ghost struct HistV {
    pub entries: Seq<SnapV>,
    pub max_levels: int,
    pub cursor: int,
}

/// Bounded snapshot stack with a cursor for undo and redo.  Writing a new
/// snapshot discards everything after the cursor, then evicts the oldest
/// snapshot if the capacity is exceeded.
pub struct UndoHistory {
    history: Vec<LayerSnapshot>,
    max_levels: usize,
    cursor: usize,
}

impl View for UndoHistory {
    type V = HistV;

    closed spec fn view(&self) -> HistV {
        HistV {
            entries: self.history@.map_values(|s: LayerSnapshot| s@),
            max_levels: self.max_levels as int,
            cursor: self.cursor as int,
        }
    }
}

/// Internal consistency of a history value.
pub open spec fn hist_wf(h: HistV) -> bool {
    &&& h.max_levels >= 1
    &&& h.entries.len() <= h.max_levels
    &&& h.entries.len() == 0 ==> h.cursor == 0
    &&& h.entries.len() > 0 ==> 0 <= h.cursor < h.entries.len()
}

/// The history after a snapshot is saved: the redo branch is discarded,
/// the snapshot appended, the oldest entry evicted when over capacity,
/// and the cursor set to the new snapshot.
pub open spec fn spec_saved(h: HistV, s: SnapV) -> HistV {
    let kept = if h.entries.len() == 0 {
        h.entries
    } else {
        h.entries.take(h.cursor + 1)
    };
    let grown = kept.push(s);
    let entries = if grown.len() > h.max_levels {
        grown.subrange(1, grown.len() as int)
    } else {
        grown
    };
    HistV { entries, max_levels: h.max_levels, cursor: entries.len() - 1 }
}

/// Whether a step back is available.
pub open spec fn spec_can_undo(h: HistV) -> bool {
    h.cursor > 0
}

/// Whether a step forward is available.
pub open spec fn spec_can_redo(h: HistV) -> bool {
    h.entries.len() > 0 && h.cursor + 1 < h.entries.len()
}

/// The history after one undo step.
pub open spec fn spec_undone(h: HistV) -> HistV {
    HistV { entries: h.entries, max_levels: h.max_levels, cursor: h.cursor - 1 }
}

/// The history after one redo step.
pub open spec fn spec_redone(h: HistV) -> HistV {
    HistV { entries: h.entries, max_levels: h.max_levels, cursor: h.cursor + 1 }
}

impl UndoHistory {
    pub fn new() -> (h: UndoHistory)
        ensures
            h@.entries.len() == 0,
            h@.cursor == 0,
            h@.max_levels == DEFAULT_MAX_LEVELS as int,
            hist_wf(h@),
    {
        UndoHistory { history: Vec::new(), max_levels: DEFAULT_MAX_LEVELS, cursor: 0 }
    }

    pub fn new_with_levels(max_levels: usize) -> (h: UndoHistory)
        requires
            max_levels >= 1,
        ensures
            h@.entries.len() == 0,
            h@.cursor == 0,
            h@.max_levels == max_levels as int,
            hist_wf(h@),
    {
        UndoHistory { history: Vec::new(), max_levels, cursor: 0 }
    }

    /// Save a snapshot as the new current state.
    pub fn save_state(&mut self, snapshot: LayerSnapshot)
        requires
            hist_wf(old(self)@),
        ensures
            final(self)@ == spec_saved(old(self)@, snapshot@),
            hist_wf(final(self)@),
    {
        let ghost target = spec_saved(self@, snapshot@);
        if self.history.len() > 0 {
            let keep: usize = self.cursor + 1;
            if keep < self.history.len() {
                self.history.truncate(keep);
            }
            proof {
                assert(self.history@.map_values(|s: LayerSnapshot| s@) =~= if old(
                    self,
                )@.entries.len() == 0 {
                    old(self)@.entries
                } else {
                    old(self)@.entries.take(old(self)@.cursor + 1)
                });
            }
        }
        self.history.push(snapshot);
        if self.history.len() > self.max_levels {
            self.history.remove(0);
        }
        self.cursor = self.history.len() - 1;
        proof {
            assert(final(self)@.entries =~= target.entries);
        }
    }

    /// Step back and return the snapshot the cursor lands on.
    pub fn undo(&mut self) -> (r: Option<LayerSnapshot>)
        requires
            hist_wf(old(self)@),
        ensures
            hist_wf(final(self)@),
            spec_can_undo(old(self)@) ==> {
                &&& final(self)@ == spec_undone(old(self)@)
                &&& r matches Some(s) && s@ == old(self)@.entries[old(self)@.cursor - 1]
            },
            !spec_can_undo(old(self)@) ==> final(self)@ == old(self)@ && r is None,
    {
        if self.cursor > 0 {
            self.cursor = self.cursor - 1;
            Some(self.history[self.cursor].clone())
        } else {
            None
        }
    }

    /// Step forward and return the snapshot the cursor lands on.
    pub fn redo(&mut self) -> (r: Option<LayerSnapshot>)
        requires
            hist_wf(old(self)@),
        ensures
            hist_wf(final(self)@),
            spec_can_redo(old(self)@) ==> {
                &&& final(self)@ == spec_redone(old(self)@)
                &&& r matches Some(s) && s@ == old(self)@.entries[old(self)@.cursor + 1]
            },
            !spec_can_redo(old(self)@) ==> final(self)@ == old(self)@ && r is None,
    {
        if self.history.len() > 0 && self.cursor + 1 < self.history.len() {
            self.cursor = self.cursor + 1;
            Some(self.history[self.cursor].clone())
        } else {
            None
        }
    }

    pub fn can_undo(&self) -> (r: bool)
        ensures
            r == spec_can_undo(self@),
    {
        self.cursor > 0
    }

    pub fn can_redo(&self) -> (r: bool)
        ensures
            r == spec_can_redo(self@),
    {
        self.history.len() > 0 && self.cursor < self.history.len() - 1
    }

    /// The current snapshot, without moving the cursor.
    pub fn get_current(&self) -> (r: Option<LayerSnapshot>)
        requires
            hist_wf(self@),
        ensures
            self@.entries.len() > 0 ==> (r matches Some(s) && s@ == self@.entries[self@.cursor]),
            self@.entries.len() == 0 ==> r is None,
    {
        if self.history.len() > 0 {
            Some(self.history[self.cursor].clone())
        } else {
            None
        }
    }

    /// Drop all snapshots.
    pub fn clear(&mut self)
        ensures
            final(self)@.entries.len() == 0,
            final(self)@.cursor == 0,
            final(self)@.max_levels == old(self)@.max_levels,
            hist_wf(old(self)@) ==> hist_wf(final(self)@),
    {
        self.history.clear();
        self.cursor = 0;
    }

    /// How many undo steps are available.
    pub fn undo_levels(&self) -> (r: usize)
        ensures
            r as int == self@.cursor,
    {
        self.cursor
    }

    /// How many redo steps are available.
    pub fn redo_levels(&self) -> (r: usize)
        requires
            hist_wf(self@),
        ensures
            self@.entries.len() > 0 ==> r as int == self@.entries.len() - 1 - self@.cursor,
            self@.entries.len() == 0 ==> r == 0,
    {
        if self.history.len() > 0 {
            (self.history.len() - 1) - self.cursor
        } else {
            0
        }
    }

    pub fn history_size(&self) -> (r: usize)
        ensures
            r as int == self@.entries.len(),
    {
        self.history.len()
    }

    pub fn is_empty(&self) -> (r: bool)
        ensures
            r == (self@.entries.len() == 0),
    {
        self.history.len() == 0
    }
}

impl Default for UndoHistory {
    fn default() -> (h: UndoHistory)
        ensures
            h@.entries.len() == 0,
            h@.cursor == 0,
            h@.max_levels == DEFAULT_MAX_LEVELS as int,
            hist_wf(h@),
    {
        UndoHistory::new()
    }
}

/// Saving snapshots `a` then `b` makes `undo` surface `a` again and `redo`
/// surface `b`; saving a new snapshot after an undo discards the redo
/// branch.  This needs room for at least two snapshots.
pub proof fn lemma_undo_redo_round_trip(h: HistV, a: SnapV, b: SnapV, c: SnapV)
    requires
        hist_wf(h),
        h.max_levels >= 2,
    ensures
        ({
            let h2 = spec_saved(spec_saved(h, a), b);
            &&& spec_can_undo(h2)
            &&& h2.entries[h2.cursor - 1] == a
            &&& spec_can_redo(spec_undone(h2))
            &&& spec_undone(h2).entries[spec_undone(h2).cursor + 1] == b
            &&& !spec_can_redo(spec_saved(spec_undone(h2), c))
        }),
{
    let h1 = spec_saved(h, a);
    let h2 = spec_saved(h1, b);
    assert(h1.entries.len() >= 1);
    assert(h1.entries.last() == a);
    assert(h1.cursor == h1.entries.len() - 1);
    assert(h1.entries.take(h1.cursor + 1) =~= h1.entries);
    assert(h2.entries.len() >= 2);
    assert(h2.entries[h2.entries.len() - 2] == a);
    assert(h2.entries.last() == b);
    assert(h2.cursor == h2.entries.len() - 1);
    let hu = spec_undone(h2);
    let h3 = spec_saved(hu, c);
    assert(h3.cursor == h3.entries.len() - 1);
}

} // verus!
