use vstd::prelude::*;

use crate::channel::{try_recv_command, try_send_event};
use crate::control::{AudioConfig, AudioEvent, IoRequest, LayerCommand, LooperError};
use crate::layer::{
    layer_wf, spec_after_clear, spec_after_redo, spec_after_start_playing,
    spec_after_start_recording, spec_after_stop_playing, spec_after_stop_recording,
    spec_after_undo, spec_clamped_volume, AudioLayer, LayerV,
};
use crate::mixer::{layer_at, SimdMixer, MAX_MIX_LAYERS};
use crate::ring::LockFreeAudioBuffer;
use crate::sample::{spec_clipped, UNIT};
use crate::tempo::{spec_bpm_set, spec_tap_applied, tempo_wf, TempoEngine};

verus! {

/// Most queued commands one callback drains; keeps the drain bounded in
/// the real-time path.
pub const MAX_COMMANDS_PER_CALLBACK: usize = 1024;

/// The looper: a fixed pool of layers, the tempo engine, the mixer, the
/// pending beat-synchronized actions, and the command/event channels.
/// `process_audio` is the single real-time entry point, invoked once per
/// hardware buffer.
pub struct LooperEngine {
    pub layers: Vec<AudioLayer>,
    pub config: AudioConfig,
    /// Loop length of the first finished recording, the implicit loop
    /// reference of the whole composition.
    pub master_loop_length: Option<usize>,
    pub input_buffer: LockFreeAudioBuffer,
    /// The one layer currently recording, if any; `is_recording()` is
    /// derived from it.
    pub recording_layer: Option<usize>,
    pub command_receiver: Option<crossbeam::channel::Receiver<LayerCommand>>,
    pub event_sender: Option<crossbeam::channel::Sender<AudioEvent>>,
    pub debug_mode: bool,
    pub tempo: TempoEngine,
    pub beat_sync_enabled: bool,
    pub pending_play: Vec<usize>,
    pub pending_stop: Vec<usize>,
    pub pending_record: Option<usize>,
    pub metronome_enabled: bool,
    pub metronome_sample: Vec<i32>,
    pub metronome_playhead: Option<usize>,
    pub count_in_mode: bool,
    pub mixer: SimdMixer,
    pub recording_scratch: Vec<i32>,
    /// File work for the surroundings to perform off the audio thread.
    pub io_requests: Vec<IoRequest>,
}

/// Internal consistency of the engine.
pub open spec fn engine_wf(e: LooperEngine) -> bool {
    &&& e.layers@.len() == e.config.max_layers
    &&& 1 <= e.config.max_layers <= MAX_MIX_LAYERS
    &&& 8_000 <= e.config.sample_rate <= 1_000_000
    &&& forall|k: int| 0 <= k < e.layers@.len() ==> layer_wf(#[trigger] e.layers@[k]@)
    &&& tempo_wf(e.tempo)
    &&& e.input_buffer.wf()
    &&& (e.recording_layer matches Some(id) ==> id < e.config.max_layers)
    &&& (e.pending_record matches Some(id) ==> id < e.config.max_layers)
    &&& (e.tempo.count_in_layer matches Some(id) ==> id < e.config.max_layers)
    &&& forall|i: int|
        0 <= i < e.pending_play@.len() ==> #[trigger] e.pending_play@[i] < e.config.max_layers
    &&& forall|i: int|
        0 <= i < e.pending_stop@.len() ==> #[trigger] e.pending_stop@[i] < e.config.max_layers
}

/// The layer pool unchanged except at one index, which now holds `l`.
pub open spec fn spec_layers_updated_one(
    pre: Seq<AudioLayer>,
    post: Seq<AudioLayer>,
    id: int,
    l: LayerV,
) -> bool {
    &&& post.len() == pre.len()
    &&& post[id]@ == l
    &&& forall|j: int| 0 <= j < pre.len() && j != id ==> post[j] == pre[j]
}

/// Every layer of the pool stepped through the same transition.
pub open spec fn spec_layers_mapped(
    pre: Seq<AudioLayer>,
    post: Seq<AudioLayer>,
    f: spec_fn(LayerV) -> LayerV,
) -> bool {
    &&& post.len() == pre.len()
    &&& forall|j: int| 0 <= j < pre.len() ==> #[trigger] post[j]@ == f(pre[j]@)
}

/// The count-in beat total `StartCountIn` derives from a measure count.
pub open spec fn spec_count_in_beats(measures: u32, beats_per_measure: u32) -> int {
    if measures as int * beats_per_measure as int <= u32::MAX as int {
        measures as int * beats_per_measure as int
    } else {
        u32::MAX as int
    }
}

/// What `send_command` does to the engine, command by command.  Every
/// command carrying a layer index outside the pool is rejected without
/// touching any state.
pub open spec fn spec_command_applied(
    pre: LooperEngine,
    post: LooperEngine,
    cmd: LayerCommand,
    r: Result<(), LooperError>,
) -> bool {
    match cmd {
        LayerCommand::Record(id) => if id < pre.config.max_layers {
            &&& r is Ok
            &&& post == (LooperEngine {
                layers: post.layers,
                recording_layer: Some(id),
                ..pre
            })
            &&& match pre.recording_layer {
                Some(cur) => if cur == id {
                    spec_layers_updated_one(
                        pre.layers@,
                        post.layers@,
                        id as int,
                        spec_after_start_recording(
                            spec_after_stop_recording(pre.layers@[id as int]@),
                        ),
                    )
                } else {
                    &&& post.layers@.len() == pre.layers@.len()
                    &&& post.layers@[cur as int]@ == spec_after_stop_recording(
                        pre.layers@[cur as int]@,
                    )
                    &&& post.layers@[id as int]@ == spec_after_start_recording(
                        pre.layers@[id as int]@,
                    )
                    &&& forall|j: int|
                        0 <= j < pre.layers@.len() && j != id && j != cur
                            ==> post.layers@[j] == pre.layers@[j]
                },
                None => spec_layers_updated_one(
                    pre.layers@,
                    post.layers@,
                    id as int,
                    spec_after_start_recording(pre.layers@[id as int]@),
                ),
            }
        } else {
            r == Err::<(), LooperError>(LooperError::LayerIndexOutOfRange) && post == pre
        },
        LayerCommand::StopRecording(id) => if id < pre.config.max_layers {
            &&& r is Ok
            &&& post == (LooperEngine {
                layers: post.layers,
                recording_layer: if pre.recording_layer == Some(id) {
                    None
                } else {
                    pre.recording_layer
                },
                ..pre
            })
            &&& spec_layers_updated_one(
                pre.layers@,
                post.layers@,
                id as int,
                spec_after_stop_recording(pre.layers@[id as int]@),
            )
        } else {
            r == Err::<(), LooperError>(LooperError::LayerIndexOutOfRange) && post == pre
        },
        LayerCommand::StopPlaying(id) => if id < pre.config.max_layers {
            &&& r is Ok
            &&& post == (LooperEngine { layers: post.layers, ..pre })
            &&& spec_layers_updated_one(
                pre.layers@,
                post.layers@,
                id as int,
                spec_after_stop_playing(pre.layers@[id as int]@),
            )
        } else {
            r == Err::<(), LooperError>(LooperError::LayerIndexOutOfRange) && post == pre
        },
        LayerCommand::Play(id) => if id < pre.config.max_layers {
            &&& r is Ok
            &&& post == (LooperEngine { layers: post.layers, ..pre })
            &&& spec_layers_updated_one(
                pre.layers@,
                post.layers@,
                id as int,
                spec_after_start_playing(pre.layers@[id as int]@),
            )
        } else {
            r == Err::<(), LooperError>(LooperError::LayerIndexOutOfRange) && post == pre
        },
        LayerCommand::Mute(id) => if id < pre.config.max_layers {
            &&& r is Ok
            &&& post == (LooperEngine { layers: post.layers, ..pre })
            &&& spec_layers_updated_one(
                pre.layers@,
                post.layers@,
                id as int,
                (LayerV { is_muted: !pre.layers@[id as int]@.is_muted, ..pre.layers@[id as int]@ }),
            )
        } else {
            r == Err::<(), LooperError>(LooperError::LayerIndexOutOfRange) && post == pre
        },
        LayerCommand::Solo(id) => if id < pre.config.max_layers {
            &&& r is Ok
            &&& post == (LooperEngine { layers: post.layers, ..pre })
            &&& spec_layers_updated_one(
                pre.layers@,
                post.layers@,
                id as int,
                (LayerV { is_solo: !pre.layers@[id as int]@.is_solo, ..pre.layers@[id as int]@ }),
            )
        } else {
            r == Err::<(), LooperError>(LooperError::LayerIndexOutOfRange) && post == pre
        },
        LayerCommand::SetVolume(id, volume) => if id < pre.config.max_layers {
            &&& r is Ok
            &&& post == (LooperEngine { layers: post.layers, ..pre })
            &&& spec_layers_updated_one(
                pre.layers@,
                post.layers@,
                id as int,
                (LayerV {
                    volume: spec_clamped_volume(volume as int),
                    ..pre.layers@[id as int]@
                }),
            )
        } else {
            r == Err::<(), LooperError>(LooperError::LayerIndexOutOfRange) && post == pre
        },
        LayerCommand::StopAll => {
            &&& r is Ok
            &&& post == (LooperEngine { layers: post.layers, recording_layer: None, ..pre })
            &&& spec_layers_mapped(
                pre.layers@,
                post.layers@,
                |l: LayerV| spec_after_stop_playing(spec_after_stop_recording(l)),
            )
        },
        LayerCommand::Clear(id) => if id < pre.config.max_layers {
            &&& r is Ok
            &&& post == (LooperEngine {
                layers: post.layers,
                recording_layer: if pre.recording_layer == Some(id) {
                    None
                } else {
                    pre.recording_layer
                },
                ..pre
            })
            &&& spec_layers_updated_one(
                pre.layers@,
                post.layers@,
                id as int,
                spec_after_clear(pre.layers@[id as int]@),
            )
        } else {
            r == Err::<(), LooperError>(LooperError::LayerIndexOutOfRange) && post == pre
        },
        LayerCommand::ClearAll => {
            &&& r is Ok
            &&& post == (LooperEngine { layers: post.layers, recording_layer: None, ..pre })
            &&& spec_layers_mapped(pre.layers@, post.layers@, |l: LayerV| spec_after_clear(l))
        },
        LayerCommand::Undo(id) => if id < pre.config.max_layers {
            &&& r is Ok
            &&& post == (LooperEngine { layers: post.layers, ..pre })
            &&& spec_layers_updated_one(
                pre.layers@,
                post.layers@,
                id as int,
                spec_after_undo(pre.layers@[id as int]@),
            )
        } else {
            r == Err::<(), LooperError>(LooperError::LayerIndexOutOfRange) && post == pre
        },
        LayerCommand::Redo(id) => if id < pre.config.max_layers {
            &&& r is Ok
            &&& post == (LooperEngine { layers: post.layers, ..pre })
            &&& spec_layers_updated_one(
                pre.layers@,
                post.layers@,
                id as int,
                spec_after_redo(pre.layers@[id as int]@),
            )
        } else {
            r == Err::<(), LooperError>(LooperError::LayerIndexOutOfRange) && post == pre
        },
        LayerCommand::PlayAll => {
            &&& r is Ok
            &&& post == (LooperEngine { layers: post.layers, ..pre })
            &&& spec_layers_mapped(
                pre.layers@,
                post.layers@,
                |l: LayerV| spec_after_start_playing(l),
            )
        },
        LayerCommand::ImportWav(id, path) => if id < pre.config.max_layers {
            &&& r is Ok
            &&& post == (LooperEngine { io_requests: post.io_requests, ..pre })
            &&& post.io_requests@ == pre.io_requests@.push(
                IoRequest::ImportWav { layer_id: id, path },
            )
        } else {
            r == Err::<(), LooperError>(LooperError::LayerIndexOutOfRange) && post == pre
        },
        LayerCommand::ExportWav(path) => {
            &&& r is Ok
            &&& post == (LooperEngine { io_requests: post.io_requests, ..pre })
            &&& post.io_requests@ == pre.io_requests@.push(IoRequest::ExportWav { path })
        },
        LayerCommand::SwitchInputDevice(_) => r is Ok && post == pre,
        LayerCommand::SwitchOutputDevice(_) => r is Ok && post == pre,
        LayerCommand::TapTempo(now_ms) => {
            &&& r is Ok
            &&& post == (LooperEngine { tempo: post.tempo, ..pre })
            &&& spec_tap_applied(pre.tempo, post.tempo, now_ms)
        },
        LayerCommand::SetBpm(bpm) => {
            &&& r is Ok
            &&& post == (LooperEngine { tempo: post.tempo, ..pre })
            &&& spec_bpm_set(pre.tempo, post.tempo, bpm as int)
        },
        LayerCommand::ToggleBeatSync(enabled) => r is Ok && post == (LooperEngine {
            beat_sync_enabled: enabled,
            ..pre
        }),
        LayerCommand::ToggleCountInMode(enabled) => r is Ok && post == (LooperEngine {
            count_in_mode: enabled,
            ..pre
        }),
        LayerCommand::StartCountIn { layer_id, measures } => if layer_id < pre.config.max_layers {
            &&& r is Ok
            &&& post == (LooperEngine { tempo: post.tempo, ..pre })
            &&& post.tempo == (TempoEngine {
                count_in_active: true,
                count_in_remaining_beats: spec_count_in_beats(
                    measures,
                    pre.tempo.beats_per_measure,
                ) as u32,
                count_in_layer: Some(layer_id),
                ..pre.tempo
            })
        } else {
            r == Err::<(), LooperError>(LooperError::LayerIndexOutOfRange) && post == pre
        },
        LayerCommand::SyncPlay(id) => if id < pre.config.max_layers {
            &&& r is Ok
            &&& if pre.beat_sync_enabled {
                &&& post == (LooperEngine { pending_play: post.pending_play, ..pre })
                &&& post.pending_play@ == pre.pending_play@.push(id)
            } else {
                &&& post == (LooperEngine { layers: post.layers, ..pre })
                &&& spec_layers_updated_one(
                    pre.layers@,
                    post.layers@,
                    id as int,
                    spec_after_start_playing(pre.layers@[id as int]@),
                )
            }
        } else {
            r == Err::<(), LooperError>(LooperError::LayerIndexOutOfRange) && post == pre
        },
        LayerCommand::SyncStop(id) => if id < pre.config.max_layers {
            &&& r is Ok
            &&& if pre.beat_sync_enabled {
                &&& post == (LooperEngine { pending_stop: post.pending_stop, ..pre })
                &&& post.pending_stop@ == pre.pending_stop@.push(id)
            } else {
                &&& post == (LooperEngine { layers: post.layers, ..pre })
                &&& spec_layers_updated_one(
                    pre.layers@,
                    post.layers@,
                    id as int,
                    spec_after_stop_playing(pre.layers@[id as int]@),
                )
            }
        } else {
            r == Err::<(), LooperError>(LooperError::LayerIndexOutOfRange) && post == pre
        },
        LayerCommand::SyncRecord(id) => if id < pre.config.max_layers {
            &&& r is Ok
            &&& if pre.beat_sync_enabled {
                if pre.count_in_mode {
                    if !pre.tempo.count_in_active {
                        &&& post == (LooperEngine { tempo: post.tempo, ..pre })
                        &&& post.tempo == (TempoEngine {
                            count_in_active: true,
                            count_in_remaining_beats: pre.tempo.beats_per_measure,
                            count_in_layer: Some(id),
                            ..pre.tempo
                        })
                    } else {
                        post == pre
                    }
                } else {
                    post == (LooperEngine { pending_record: Some(id), ..pre })
                }
            } else {
                &&& post == (LooperEngine {
                    layers: post.layers,
                    recording_layer: Some(id),
                    ..pre
                })
                &&& spec_layers_updated_one(
                    pre.layers@,
                    post.layers@,
                    id as int,
                    spec_after_start_recording(pre.layers@[id as int]@),
                )
            }
        } else {
            r == Err::<(), LooperError>(LooperError::LayerIndexOutOfRange) && post == pre
        },
        LayerCommand::ToggleMetronome(enabled) => r is Ok && post == (LooperEngine {
            metronome_enabled: enabled,
            ..pre
        }),
    }
}

/// The layer a zero-count count-in is bound to, if one just finished.
pub open spec fn spec_fired_count_in(e: LooperEngine) -> Option<usize> {
    if !e.tempo.count_in_active && e.tempo.count_in_remaining_beats == 0 {
        e.tempo.count_in_layer
    } else {
        None
    }
}

/// One layer's state after a measure boundary ran the scheduled actions:
/// first a finished count-in may start recording (`rec0`), then pending
/// plays and stops are applied, then a pending beat-synced recording
/// (`rec1`) starts.
pub open spec fn spec_sched_layer(
    l: LayerV,
    j: usize,
    rec0: Option<usize>,
    plays: Seq<usize>,
    stops: Seq<usize>,
    rec1: Option<usize>,
) -> LayerV {
    let l1 = if rec0 == Some(j) {
        spec_after_start_recording(l)
    } else {
        l
    };
    let l2 = if plays.contains(j) {
        spec_after_start_playing(l1)
    } else {
        l1
    };
    let l3 = if stops.contains(j) {
        spec_after_stop_playing(l2)
    } else {
        l2
    };
    if rec1 == Some(j) {
        spec_after_start_recording(l3)
    } else {
        l3
    }
}

/// Starting playback twice is the same as starting it once.
proof fn lemma_start_playing_idempotent(l: LayerV)
    ensures
        spec_after_start_playing(spec_after_start_playing(l)) == spec_after_start_playing(l),
{
}

/// Stopping playback twice is the same as stopping it once.
proof fn lemma_stop_playing_idempotent(l: LayerV)
    ensures
        spec_after_stop_playing(spec_after_stop_playing(l)) == spec_after_stop_playing(l),
{
}

impl LooperEngine {
    /// An engine with `config.max_layers` fresh layers, a 120 BPM 4/4
    /// tempo grid, beat sync enabled, and an input ring holding four
    /// hardware buffers.
    pub fn new(config: AudioConfig) -> (e: LooperEngine)
        requires
            8_000 <= config.sample_rate <= 1_000_000,
            1 <= config.max_layers <= MAX_MIX_LAYERS,
            1 <= config.buffer_size <= 1_000_000,
        ensures
            engine_wf(e),
            e.config == config,
            e.layers@.len() == config.max_layers,
            forall|k: int|
                0 <= k < e.layers@.len() ==> (#[trigger] e.layers@[k]@).buffer.len() == 0
                    && e.layers@[k]@.id == k,
            e.master_loop_length is None,
            e.recording_layer is None,
            e.beat_sync_enabled,
            !e.metronome_enabled,
            !e.count_in_mode,
            e.pending_play@.len() == 0,
            e.pending_stop@.len() == 0,
            e.pending_record is None,
            e.io_requests@.len() == 0,
            e.tempo.bpm_millis == 120_000,
            e.tempo.beats_per_measure == 4,
            e.tempo.global_position == 0,
            e.input_buffer.contents().len() == 0,
    {
        let mut layers: Vec<AudioLayer> = Vec::new();
        let mut i: usize = 0;
        while i < config.max_layers
            invariant
                i <= config.max_layers,
                layers@.len() == i as int,
                forall|k: int|
                    0 <= k < i ==> layer_wf(#[trigger] layers@[k]@) && layers@[k]@.buffer.len()
                        == 0 && layers@[k]@.id == k,
            decreases config.max_layers - i,
        {
            layers.push(AudioLayer::new(i));
            i = i + 1;
        }
        LooperEngine {
            layers,
            config,
            master_loop_length: None,
            input_buffer: LockFreeAudioBuffer::new(config.buffer_size * 4),
            recording_layer: None,
            command_receiver: None,
            event_sender: None,
            debug_mode: false,
            tempo: TempoEngine::new(config.sample_rate, 120_000, 4),
            beat_sync_enabled: true,
            pending_play: Vec::new(),
            pending_stop: Vec::new(),
            pending_record: None,
            metronome_enabled: false,
            metronome_sample: Vec::new(),
            metronome_playhead: None,
            count_in_mode: false,
            mixer: SimdMixer::new(config.buffer_size * 2),
            recording_scratch: Vec::new(),
            io_requests: Vec::new(),
        }
    }

    /// Install the click played on each beat.
    pub fn set_metronome_sample(&mut self, samples: Vec<i32>)
        ensures
            *final(self) == (LooperEngine { metronome_sample: samples, ..*old(self) }),
    {
        self.metronome_sample = samples;
    }

    /// Attach the queue commands arrive on.
    pub fn set_command_channel(&mut self, receiver: crossbeam::channel::Receiver<LayerCommand>)
        ensures
            *final(self) == (LooperEngine { command_receiver: Some(receiver), ..*old(self) }),
    {
        self.command_receiver = Some(receiver);
    }

    /// Attach the queue events are reported on.
    pub fn set_event_sender(&mut self, sender: crossbeam::channel::Sender<AudioEvent>)
        ensures
            *final(self) == (LooperEngine { event_sender: Some(sender), ..*old(self) }),
    {
        self.event_sender = Some(sender);
    }

    /// Toggle verbose reporting in the surroundings.
    pub fn set_debug_mode(&mut self, debug_mode: bool)
        ensures
            *final(self) == (LooperEngine { debug_mode, ..*old(self) }),
    {
        self.debug_mode = debug_mode;
    }

    /// Report an event without blocking; a full or absent queue drops it.
    fn send_event(&self, event: AudioEvent) {
        match &self.event_sender {
            Some(tx) => {
                let _ = try_send_event(tx, event);
            },
            None => {},
        }
    }

    /// Apply one command to the engine, reporting events as a side
    /// effect.  A command naming a layer outside the pool is rejected
    /// without touching any state.
    pub fn send_command(&mut self, command: LayerCommand) -> (r: Result<(), LooperError>)
        requires
            engine_wf(*old(self)),
        ensures
            engine_wf(*final(self)),
            spec_command_applied(*old(self), *final(self), command, r),
    {
        match command {
            LayerCommand::Record(id) => {
                if id >= self.config.max_layers {
                    return Err(LooperError::LayerIndexOutOfRange);
                }
                match self.recording_layer {
                    Some(cur) => {
                        let layer = layer_at(&mut self.layers, cur);
                        layer.stop_recording();
                    },
                    None => {},
                }
                let layer = layer_at(&mut self.layers, id);
                layer.start_recording();
                self.recording_layer = Some(id);
                self.send_event(AudioEvent::LayerRecording(id));
                Ok(())
            },
            LayerCommand::StopRecording(id) => {
                if id >= self.config.max_layers {
                    return Err(LooperError::LayerIndexOutOfRange);
                }
                let layer = layer_at(&mut self.layers, id);
                layer.stop_recording();
                self.send_event(AudioEvent::LayerStopped(id));
                match self.recording_layer {
                    Some(cur) => {
                        if cur == id {
                            self.recording_layer = None;
                        }
                    },
                    None => {},
                }
                Ok(())
            },
            LayerCommand::StopPlaying(id) => {
                if id >= self.config.max_layers {
                    return Err(LooperError::LayerIndexOutOfRange);
                }
                let layer = layer_at(&mut self.layers, id);
                layer.stop_playing();
                self.send_event(AudioEvent::LayerStopped(id));
                Ok(())
            },
            LayerCommand::Play(id) => {
                if id >= self.config.max_layers {
                    return Err(LooperError::LayerIndexOutOfRange);
                }
                let layer = layer_at(&mut self.layers, id);
                layer.start_playing();
                self.send_event(AudioEvent::LayerPlaying(id));
                Ok(())
            },
            LayerCommand::Mute(id) => {
                if id >= self.config.max_layers {
                    return Err(LooperError::LayerIndexOutOfRange);
                }
                let layer = layer_at(&mut self.layers, id);
                layer.toggle_mute();
                let muted = layer.is_muted;
                if muted {
                    self.send_event(AudioEvent::LayerMuted(id));
                } else {
                    self.send_event(AudioEvent::LayerUnmuted(id));
                }
                Ok(())
            },
            LayerCommand::Solo(id) => {
                if id >= self.config.max_layers {
                    return Err(LooperError::LayerIndexOutOfRange);
                }
                let layer = layer_at(&mut self.layers, id);
                layer.toggle_solo();
                let soloed = layer.is_solo;
                if soloed {
                    self.send_event(AudioEvent::LayerSoloed(id));
                } else {
                    self.send_event(AudioEvent::LayerUnsoloed(id));
                }
                Ok(())
            },
            LayerCommand::SetVolume(id, volume) => {
                if id >= self.config.max_layers {
                    return Err(LooperError::LayerIndexOutOfRange);
                }
                let layer = layer_at(&mut self.layers, id);
                layer.set_volume(volume);
                self.send_event(AudioEvent::VolumeChanged(id, volume));
                Ok(())
            },
            LayerCommand::StopAll => {
                let mut k: usize = 0;
                while k < self.layers.len()
                    invariant
                        engine_wf(*old(self)),
                        k <= self.layers@.len(),
                        self.layers@.len() == old(self).layers@.len(),
                        *self == (LooperEngine { layers: self.layers, ..*old(self) }),
                        forall|j: int| 0 <= j < self.layers@.len() ==> layer_wf(#[trigger] self.layers@[j]@),
                        forall|j: int|
                            k <= j < self.layers@.len() ==> #[trigger] self.layers@[j] == old(self).layers@[j],
                        forall|j: int|
                            0 <= j < k ==> #[trigger] self.layers@[j]@ == spec_after_stop_playing(
                                spec_after_stop_recording(old(self).layers@[j]@),
                            ),
                    decreases self.layers.len() - k,
                {
                    let layer = layer_at(&mut self.layers, k);
                    layer.stop_recording();
                    layer.stop_playing();
                    k = k + 1;
                }
                self.recording_layer = None;
                self.send_event(AudioEvent::AllStopped);
                Ok(())
            },
            LayerCommand::Clear(id) => {
                if id >= self.config.max_layers {
                    return Err(LooperError::LayerIndexOutOfRange);
                }
                let layer = layer_at(&mut self.layers, id);
                layer.clear();
                self.send_event(AudioEvent::LayerCleared(id));
                match self.recording_layer {
                    Some(cur) => {
                        if cur == id {
                            self.recording_layer = None;
                        }
                    },
                    None => {},
                }
                Ok(())
            },
            LayerCommand::ClearAll => {
                let mut k: usize = 0;
                while k < self.layers.len()
                    invariant
                        engine_wf(*old(self)),
                        k <= self.layers@.len(),
                        self.layers@.len() == old(self).layers@.len(),
                        *self == (LooperEngine { layers: self.layers, ..*old(self) }),
                        forall|j: int| 0 <= j < self.layers@.len() ==> layer_wf(#[trigger] self.layers@[j]@),
                        forall|j: int|
                            k <= j < self.layers@.len() ==> #[trigger] self.layers@[j] == old(self).layers@[j],
                        forall|j: int|
                            0 <= j < k ==> #[trigger] self.layers@[j]@ == spec_after_clear(
                                old(self).layers@[j]@,
                            ),
                    decreases self.layers.len() - k,
                {
                    let layer = layer_at(&mut self.layers, k);
                    layer.clear();
                    k = k + 1;
                }
                self.recording_layer = None;
                self.send_event(AudioEvent::AllCleared);
                Ok(())
            },
            LayerCommand::Undo(id) => {
                if id >= self.config.max_layers {
                    return Err(LooperError::LayerIndexOutOfRange);
                }
                let layer = layer_at(&mut self.layers, id);
                let changed = layer.undo();
                if changed {
                    self.send_event(AudioEvent::LayerUpdated(id));
                }
                Ok(())
            },
            LayerCommand::Redo(id) => {
                if id >= self.config.max_layers {
                    return Err(LooperError::LayerIndexOutOfRange);
                }
                let layer = layer_at(&mut self.layers, id);
                let changed = layer.redo();
                if changed {
                    self.send_event(AudioEvent::LayerUpdated(id));
                }
                Ok(())
            },
            LayerCommand::PlayAll => {
                let mut k: usize = 0;
                while k < self.layers.len()
                    invariant
                        engine_wf(*old(self)),
                        k <= self.layers@.len(),
                        self.layers@.len() == old(self).layers@.len(),
                        *self == (LooperEngine { layers: self.layers, ..*old(self) }),
                        forall|j: int| 0 <= j < self.layers@.len() ==> layer_wf(#[trigger] self.layers@[j]@),
                        forall|j: int|
                            k <= j < self.layers@.len() ==> #[trigger] self.layers@[j] == old(self).layers@[j],
                        forall|j: int|
                            0 <= j < k ==> #[trigger] self.layers@[j]@ == spec_after_start_playing(
                                old(self).layers@[j]@,
                            ),
                    decreases self.layers.len() - k,
                {
                    let layer = layer_at(&mut self.layers, k);
                    layer.start_playing();
                    k = k + 1;
                }
                self.send_event(AudioEvent::AllPlaying);
                Ok(())
            },
            LayerCommand::ImportWav(id, path) => {
                if id >= self.config.max_layers {
                    return Err(LooperError::LayerIndexOutOfRange);
                }
                self.io_requests.push(IoRequest::ImportWav { layer_id: id, path });
                Ok(())
            },
            LayerCommand::ExportWav(path) => {
                self.io_requests.push(IoRequest::ExportWav { path });
                Ok(())
            },
            LayerCommand::SwitchInputDevice(_name) => {
                self.send_event(AudioEvent::DeviceSwitchRequested);
                Ok(())
            },
            LayerCommand::SwitchOutputDevice(_name) => {
                self.send_event(AudioEvent::DeviceSwitchRequested);
                Ok(())
            },
            LayerCommand::TapTempo(now_ms) => {
                self.tempo.tap_tempo(now_ms);
                let bpm = self.tempo.bpm_millis;
                self.send_event(AudioEvent::BpmChanged(bpm));
                Ok(())
            },
            LayerCommand::SetBpm(bpm) => {
                self.tempo.set_bpm(bpm);
                let applied = self.tempo.bpm_millis;
                self.send_event(AudioEvent::BpmChanged(applied));
                Ok(())
            },
            LayerCommand::ToggleBeatSync(enabled) => {
                self.beat_sync_enabled = enabled;
                Ok(())
            },
            LayerCommand::ToggleCountInMode(enabled) => {
                self.count_in_mode = enabled;
                self.send_event(AudioEvent::CountInModeToggled(enabled));
                Ok(())
            },
            LayerCommand::StartCountIn { layer_id, measures } => {
                if layer_id >= self.config.max_layers {
                    return Err(LooperError::LayerIndexOutOfRange);
                }
                let beats: u32 = match measures.checked_mul(self.tempo.beats_per_measure) {
                    Some(v) => v,
                    None => u32::MAX,
                };
                self.tempo.start_count_in(layer_id, beats);
                self.send_event(AudioEvent::CountInStarted { layer_id, beats });
                Ok(())
            },
            LayerCommand::SyncPlay(id) => {
                if id >= self.config.max_layers {
                    return Err(LooperError::LayerIndexOutOfRange);
                }
                if self.beat_sync_enabled {
                    self.pending_play.push(id);
                } else {
                    let layer = layer_at(&mut self.layers, id);
                    layer.start_playing();
                    self.send_event(AudioEvent::LayerPlaying(id));
                }
                Ok(())
            },
            LayerCommand::SyncStop(id) => {
                if id >= self.config.max_layers {
                    return Err(LooperError::LayerIndexOutOfRange);
                }
                if self.beat_sync_enabled {
                    self.pending_stop.push(id);
                } else {
                    let layer = layer_at(&mut self.layers, id);
                    layer.stop_playing();
                    self.send_event(AudioEvent::LayerStopped(id));
                }
                Ok(())
            },
            LayerCommand::SyncRecord(id) => {
                if id >= self.config.max_layers {
                    return Err(LooperError::LayerIndexOutOfRange);
                }
                if self.beat_sync_enabled {
                    if self.count_in_mode {
                        if !self.tempo.count_in_active {
                            let beats: u32 = self.tempo.beats_per_measure;
                            self.tempo.start_count_in(id, beats);
                            self.send_event(AudioEvent::CountInStarted { layer_id: id, beats });
                        }
                    } else {
                        self.pending_record = Some(id);
                    }
                } else {
                    let layer = layer_at(&mut self.layers, id);
                    layer.start_recording();
                    self.recording_layer = Some(id);
                    self.send_event(AudioEvent::LayerRecording(id));
                }
                Ok(())
            },
            LayerCommand::ToggleMetronome(enabled) => {
                self.metronome_enabled = enabled;
                self.send_event(AudioEvent::MetronomeToggled(enabled));
                Ok(())
            },
        }
    }

    /// Drain queued commands without blocking, up to a fixed bound per
    /// callback, applying each in arrival order.
    fn process_commands(&mut self)
        requires
            engine_wf(*old(self)),
        ensures
            engine_wf(*final(self)),
            final(self).config == old(self).config,
            final(self).command_receiver == old(self).command_receiver,
            final(self).event_sender == old(self).event_sender,
            final(self).debug_mode == old(self).debug_mode,
    {
        let mut i: usize = 0;
        while i < MAX_COMMANDS_PER_CALLBACK
            invariant
                engine_wf(*self),
                self.config == old(self).config,
                self.command_receiver == old(self).command_receiver,
                self.event_sender == old(self).event_sender,
                self.debug_mode == old(self).debug_mode,
            decreases MAX_COMMANDS_PER_CALLBACK - i,
        {
            let received: Option<LayerCommand> = match &self.command_receiver {
                Some(rx) => try_recv_command(rx),
                None => None,
            };
            match received {
                Some(command) => {
                    let _ = self.send_command(command);
                },
                None => {
                    return ;
                },
            }
            i = i + 1;
        }
    }

    /// Arm the metronome click from the top.
    fn trigger_metronome_click(&mut self)
        ensures
            *final(self) == (LooperEngine {
                metronome_playhead: if old(self).metronome_enabled {
                    Some(0usize)
                } else {
                    old(self).metronome_playhead
                },
                ..*old(self)
            }),
    {
        if self.metronome_enabled {
            self.metronome_playhead = Some(0);
        }
    }

    /// Lay the armed metronome click over the mixed output, clamping each
    /// touched sample; the playhead advances and disarms at the end of
    /// the click.
    fn mix_metronome(&mut self, output: &mut Vec<i32>)
        ensures
            final(output)@.len() == old(output)@.len(),
            *final(self) == (LooperEngine {
                metronome_playhead: final(self).metronome_playhead,
                ..*old(self)
            }),
            ({
                let enabled = old(self).metronome_enabled;
                let sample = old(self).metronome_sample@;
                match old(self).metronome_playhead {
                    Some(ph) => if enabled && (ph as int) < sample.len() {
                        let to_mix = if sample.len() - ph <= old(output)@.len() {
                            sample.len() - ph as int
                        } else {
                            old(output)@.len() as int
                        };
                        &&& forall|i: int|
                            0 <= i < to_mix ==> #[trigger] final(output)@[i] as int == spec_clipped(
                                old(output)@[i] as int + sample[ph + i] as int,
                            )
                        &&& forall|i: int|
                            to_mix <= i < old(output)@.len() ==> #[trigger] final(output)@[i]
                                == old(output)@[i]
                        &&& final(self).metronome_playhead == (if ph as int + to_mix
                            >= sample.len() {
                            None::<usize>
                        } else {
                            Some((ph + to_mix) as usize)
                        })
                    } else {
                        &&& final(output)@ == old(output)@
                        &&& (enabled ==> final(self).metronome_playhead is None)
                        &&& (!enabled ==> final(self).metronome_playhead == old(self).metronome_playhead)
                    },
                    None => {
                        &&& final(output)@ == old(output)@
                        &&& final(self).metronome_playhead is None
                    },
                }
            }),
    {
        if !self.metronome_enabled {
            return ;
        }
        let playhead: usize = match self.metronome_playhead {
            Some(ph) => ph,
            None => {
                return ;
            },
        };
        if playhead >= self.metronome_sample.len() {
            self.metronome_playhead = None;
            return ;
        }
        let remaining: usize = self.metronome_sample.len() - playhead;
        let to_mix: usize = if remaining <= output.len() {
            remaining
        } else {
            output.len()
        };
        let sample_len: usize = self.metronome_sample.len();
        let mut i: usize = 0;
        while i < to_mix
            invariant
                i <= to_mix,
                to_mix <= output@.len(),
                output@.len() == old(output)@.len(),
                sample_len as int == self.metronome_sample@.len(),
                playhead + to_mix <= sample_len,
                *self == *old(self),
                forall|j: int|
                    0 <= j < i ==> #[trigger] output@[j] as int == spec_clipped(
                        old(output)@[j] as int + old(self).metronome_sample@[playhead + j] as int,
                    ),
                forall|j: int| i <= j < output@.len() ==> #[trigger] output@[j] == old(output)@[j],
            decreases to_mix - i,
        {
            let mixed: i64 = (output[i] as i64) + (self.metronome_sample[playhead + i] as i64);
            let c: i32 = crate::sample::clip_sample(mixed);
            output.set(i, c);
            i = i + 1;
        }
        if playhead + to_mix >= self.metronome_sample.len() {
            self.metronome_playhead = None;
        } else {
            self.metronome_playhead = Some(playhead + to_mix);
        }
    }

    /// Run the actions scheduled for a measure boundary: complete a
    /// finished count-in (starting its recording when count-in mode is
    /// on), start pending plays, stop pending stops, and start a pending
    /// beat-synced recording.
    fn run_scheduled_actions(&mut self)
        requires
            engine_wf(*old(self)),
        ensures
            engine_wf(*final(self)),
            ({
                let fired = spec_fired_count_in(*old(self));
                let rec0 = if old(self).count_in_mode {
                    fired
                } else {
                    None::<usize>
                };
                &&& *final(self) == (LooperEngine {
                    layers: final(self).layers,
                    tempo: final(self).tempo,
                    recording_layer: final(self).recording_layer,
                    pending_play: final(self).pending_play,
                    pending_stop: final(self).pending_stop,
                    pending_record: None,
                    ..*old(self)
                })
                &&& final(self).tempo == (TempoEngine {
                    count_in_layer: if fired is Some {
                        None
                    } else {
                        old(self).tempo.count_in_layer
                    },
                    ..old(self).tempo
                })
                &&& final(self).pending_play@.len() == 0
                &&& final(self).pending_stop@.len() == 0
                &&& final(self).recording_layer == (if old(self).pending_record is Some {
                    old(self).pending_record
                } else if rec0 is Some {
                    rec0
                } else {
                    old(self).recording_layer
                })
                &&& final(self).layers@.len() == old(self).layers@.len()
                &&& forall|j: int|
                    0 <= j < old(self).layers@.len() ==> #[trigger] final(self).layers@[j]@
                        == spec_sched_layer(
                        old(self).layers@[j]@,
                        j as usize,
                        rec0,
                        old(self).pending_play@,
                        old(self).pending_stop@,
                        old(self).pending_record,
                    )
            }),
    {
        let ghost pre = *old(self);
        // A count-in that has counted down to zero fires now.
        let fired: Option<usize> = if !self.tempo.count_in_active
            && self.tempo.count_in_remaining_beats == 0 {
            self.tempo.count_in_layer
        } else {
            None
        };
        match fired {
            Some(layer_id) => {
                self.tempo.count_in_layer = None;
                self.send_event(AudioEvent::CountInFinished { layer_id });
                if self.count_in_mode {
                    let layer = layer_at(&mut self.layers, layer_id);
                    layer.start_recording();
                    self.recording_layer = Some(layer_id);
                    self.send_event(AudioEvent::LayerRecording(layer_id));
                }
            },
            None => {},
        }
        let ghost rec0: Option<usize> = if pre.count_in_mode {
            fired
        } else {
            None
        };
        let ghost mid1 = *self;
        let ghost base = self.layers@;
        let ghost plays = self.pending_play@;

        // Start everything waiting for this measure boundary.
        while self.pending_play.len() > 0
            invariant
                engine_wf(*self),
                engine_wf(mid1),
                self.layers@.len() == base.len(),
                base == mid1.layers@,
                plays == mid1.pending_play@,
                self.pending_play@.len() <= plays.len(),
                self.pending_play@ == plays.take(self.pending_play@.len() as int),
                *self == (LooperEngine {
                    layers: self.layers,
                    pending_play: self.pending_play,
                    ..mid1
                }),
                forall|j: int|
                    0 <= j < base.len() ==> #[trigger] self.layers@[j]@ == (if plays.skip(
                        self.pending_play@.len() as int,
                    ).contains(j as usize) {
                        spec_after_start_playing(base[j]@)
                    } else {
                        base[j]@
                    }),
            decreases self.pending_play.len(),
        {
            let taken = self.pending_play.pop();
            match taken {
                Some(layer_id) => {
                    proof {
                        assert(self.pending_play@ =~= plays.take(
                            self.pending_play@.len() as int,
                        ));
                        assert(plays[self.pending_play@.len() as int] == layer_id);
                        assert(layer_id < self.config.max_layers);
                    }
                    let layer = layer_at(&mut self.layers, layer_id);
                    let had_content = !layer.is_empty();
                    layer.start_playing();
                    if had_content {
                        self.send_event(AudioEvent::LayerPlaying(layer_id));
                    }
                    proof {
                        lemma_start_playing_idempotent(base[layer_id as int]@);
                        let rest = plays.skip(self.pending_play@.len() as int);
                        let prev_rest = plays.skip(self.pending_play@.len() as int + 1);
                        assert(rest[0] == layer_id);
                        assert forall|j: int| 0 <= j < base.len() implies #[trigger] self
                            .layers@[j]@ == (if rest.contains(j as usize) {
                            spec_after_start_playing(base[j]@)
                        } else {
                            base[j]@
                        }) by {
                            if j == layer_id {
                                assert(rest.contains(j as usize));
                            } else {
                                assert(rest.contains(j as usize) == prev_rest.contains(
                                    j as usize,
                                )) by {
                                    if prev_rest.contains(j as usize) {
                                        let w = choose|w: int|
                                            0 <= w < prev_rest.len() && prev_rest[w] == j as usize;
                                        assert(rest[w + 1] == j as usize);
                                    }
                                    if rest.contains(j as usize) {
                                        let w = choose|w: int|
                                            0 <= w < rest.len() && rest[w] == j as usize;
                                        assert(w != 0);
                                        assert(prev_rest[w - 1] == j as usize);
                                    }
                                }
                            }
                        }
                    }
                },
                None => {},
            }
        }
        proof {
            assert(plays.skip(0) =~= plays);
        }
        let ghost mid2 = *self;
        let ghost base2 = self.layers@;
        let ghost stops = self.pending_stop@;

        // Stop everything waiting for this measure boundary.
        while self.pending_stop.len() > 0
            invariant
                engine_wf(*self),
                engine_wf(mid2),
                self.layers@.len() == base2.len(),
                base2 == mid2.layers@,
                stops == mid2.pending_stop@,
                self.pending_stop@.len() <= stops.len(),
                self.pending_stop@ == stops.take(self.pending_stop@.len() as int),
                *self == (LooperEngine {
                    layers: self.layers,
                    pending_stop: self.pending_stop,
                    ..mid2
                }),
                forall|j: int|
                    0 <= j < base2.len() ==> #[trigger] self.layers@[j]@ == (if stops.skip(
                        self.pending_stop@.len() as int,
                    ).contains(j as usize) {
                        spec_after_stop_playing(base2[j]@)
                    } else {
                        base2[j]@
                    }),
            decreases self.pending_stop.len(),
        {
            let taken = self.pending_stop.pop();
            match taken {
                Some(layer_id) => {
                    proof {
                        assert(self.pending_stop@ =~= stops.take(
                            self.pending_stop@.len() as int,
                        ));
                        assert(stops[self.pending_stop@.len() as int] == layer_id);
                        assert(layer_id < self.config.max_layers);
                    }
                    let layer = layer_at(&mut self.layers, layer_id);
                    layer.stop_playing();
                    self.send_event(AudioEvent::LayerStopped(layer_id));
                    proof {
                        lemma_stop_playing_idempotent(base2[layer_id as int]@);
                        let rest = stops.skip(self.pending_stop@.len() as int);
                        let prev_rest = stops.skip(self.pending_stop@.len() as int + 1);
                        assert(rest[0] == layer_id);
                        assert forall|j: int| 0 <= j < base2.len() implies #[trigger] self
                            .layers@[j]@ == (if rest.contains(j as usize) {
                            spec_after_stop_playing(base2[j]@)
                        } else {
                            base2[j]@
                        }) by {
                            if j == layer_id {
                                assert(rest.contains(j as usize));
                            } else {
                                assert(rest.contains(j as usize) == prev_rest.contains(
                                    j as usize,
                                )) by {
                                    if prev_rest.contains(j as usize) {
                                        let w = choose|w: int|
                                            0 <= w < prev_rest.len() && prev_rest[w] == j as usize;
                                        assert(rest[w + 1] == j as usize);
                                    }
                                    if rest.contains(j as usize) {
                                        let w = choose|w: int|
                                            0 <= w < rest.len() && rest[w] == j as usize;
                                        assert(w != 0);
                                        assert(prev_rest[w - 1] == j as usize);
                                    }
                                }
                            }
                        }
                    }
                },
                None => {},
            }
        }
        proof {
            assert(stops.skip(0) =~= stops);
        }

        // A beat-synced recording scheduled without count-in starts now.
        let pending: Option<usize> = self.pending_record;
        self.pending_record = None;
        match pending {
            Some(layer_id) => {
                let layer = layer_at(&mut self.layers, layer_id);
                layer.start_recording();
                self.recording_layer = Some(layer_id);
                self.send_event(AudioEvent::LayerRecording(layer_id));
            },
            None => {},
        }
        proof {
            assert forall|j: int| 0 <= j < pre.layers@.len() implies #[trigger] self.layers@[j]@
                == spec_sched_layer(
                pre.layers@[j]@,
                j as usize,
                rec0,
                pre.pending_play@,
                pre.pending_stop@,
                pre.pending_record,
            ) by {
                assert(base[j]@ == (if rec0 == Some(j as usize) {
                    spec_after_start_recording(pre.layers@[j]@)
                } else {
                    pre.layers@[j]@
                }));
            }
        }
    }

    /// The real-time entry point, run once per hardware buffer: feed the
    /// input ring, drain commands, record, mix, lay the metronome on top,
    /// and advance the tempo grid.  Every output sample is clipped into
    /// `[-UNIT, UNIT]`.
    pub fn process_audio(&mut self, input: &Vec<i32>, output: &mut Vec<i32>)
        requires
            engine_wf(*old(self)),
        ensures
            engine_wf(*final(self)),
            final(self).config == old(self).config,
            final(self).command_receiver == old(self).command_receiver,
            final(self).event_sender == old(self).event_sender,
            final(output)@.len() == old(output)@.len(),
            forall|i: int|
                0 <= i < final(output)@.len() ==> -(UNIT as int) <= #[trigger] final(output)@[i] as int <= UNIT as int,
    {
        // Feed the input ring; a full ring flags an overrun and drops the
        // tail rather than blocking.
        let _ = self.input_buffer.write(input);

        // Apply whatever the control thread has queued.
        self.process_commands();

        // While a layer is recording, move ring samples into its buffer.
        let rec: Option<usize> = self.recording_layer;
        match rec {
            Some(layer_id) => {
                crate::mixer::resize_samples(&mut self.recording_scratch, input.len());
                let count: usize = self.input_buffer.read(&mut self.recording_scratch);
                self.recording_scratch.truncate(count);
                let recording = self.layers[layer_id].is_recording;
                if recording && count > 0 {
                    let scratch = &self.recording_scratch;
                    let layer = layer_at(&mut self.layers, layer_id);
                    layer.append_samples(scratch);
                }
            },
            None => {},
        }

        // Mix the audible layers, then the metronome on top.
        self.mixer.mix_layers(&mut self.layers, output);
        proof {
            assert forall|i: int| 0 <= i < output@.len() implies -(UNIT as int)
                <= #[trigger] output@[i] as int <= UNIT as int by {}
        }
        self.mix_metronome(output);

        // Advance the tempo grid and fire boundary actions.
        if self.beat_sync_enabled || self.metronome_enabled {
            let prev_measure: u64 = self.tempo.get_current_measure();
            let prev_beat: u32 = self.tempo.get_current_beat();
            self.tempo.advance(input.len());
            let curr_measure: u64 = self.tempo.get_current_measure();
            let curr_beat: u32 = self.tempo.get_current_beat();
            let count_in_data: Option<(usize, u32)> = if self.tempo.count_in_active
                && self.tempo.count_in_remaining_beats > 0 {
                match self.tempo.count_in_layer {
                    Some(layer_id) => Some((layer_id, self.tempo.count_in_remaining_beats)),
                    None => None,
                }
            } else {
                None
            };
            if curr_measure != prev_measure {
                self.run_scheduled_actions();
            }
            if curr_beat != prev_beat {
                self.trigger_metronome_click();
                self.send_event(AudioEvent::Beat(curr_beat, curr_measure));
                match count_in_data {
                    Some((layer_id, remaining_beats)) => {
                        self.send_event(AudioEvent::CountInTick { layer_id, remaining_beats });
                    },
                    None => {},
                }
            }
        }

        // The first content a recording layer produces fixes the master
        // loop length.
        let rec2: Option<usize> = self.recording_layer;
        match rec2 {
            Some(layer_id) => {
                let has_master = self.master_loop_length.is_some();
                if self.layers[layer_id].is_recording && !has_master {
                    let len: usize = self.layers[layer_id].buffer.len();
                    if len > 0 {
                        self.master_loop_length = Some(len);
                    }
                }
            },
            None => {},
        }
    }

    /// The layer at `id`, if it exists.
    pub fn get_layer(&self, id: usize) -> (r: Option<&AudioLayer>)
        ensures
            (id as int) < self.layers@.len() ==> (r matches Some(l) && *l == self.layers@[id as int]),
            (id as int) >= self.layers@.len() ==> r is None,
    {
        if id < self.layers.len() {
            Some(&self.layers[id])
        } else {
            None
        }
    }

    /// All layers.
    pub fn get_layers(&self) -> (r: &Vec<AudioLayer>)
        ensures
            r == &self.layers,
    {
        &self.layers
    }

    pub fn get_master_loop_length(&self) -> (r: Option<usize>)
        ensures
            r == self.master_loop_length,
    {
        self.master_loop_length
    }

    /// Whether any layer is recording; derived from the recording layer.
    pub fn is_recording(&self) -> (r: bool)
        ensures
            r == self.recording_layer is Some,
    {
        self.recording_layer.is_some()
    }

    pub fn get_recording_layer(&self) -> (r: Option<usize>)
        ensures
            r == self.recording_layer,
    {
        self.recording_layer
    }

    pub fn get_config(&self) -> (r: &AudioConfig)
        ensures
            r == &self.config,
    {
        &self.config
    }

    /// Feed captured samples into the input ring: everything that fits is
    /// appended; an overflowing tail is dropped and flags an overrun.
    pub fn store_input_samples(&mut self, samples: &Vec<i32>)
        requires
            engine_wf(*old(self)),
        ensures
            engine_wf(*final(self)),
            *final(self) == (LooperEngine { input_buffer: final(self).input_buffer, ..*old(self) }),
            ({
                let free = old(self).input_buffer.capacity_spec() as int - old(
                    self,
                ).input_buffer.contents().len() as int;
                if samples@.len() <= free {
                    final(self).input_buffer.contents() == old(self).input_buffer.contents()
                        + samples@
                } else {
                    final(self).input_buffer.contents() == old(self).input_buffer.contents()
                        + samples@.take(free) && final(self).input_buffer.overrun_flagged()
                }
            }),
    {
        let _ = self.input_buffer.write(samples);
    }

    /// Take up to 1024 samples out of the input ring.
    pub fn get_input_samples(&mut self) -> (r: Vec<i32>)
        requires
            engine_wf(*old(self)),
        ensures
            engine_wf(*final(self)),
            *final(self) == (LooperEngine { input_buffer: final(self).input_buffer, ..*old(self) }),
            r@.len() as int == (if old(self).input_buffer.contents().len() <= 1024 {
                old(self).input_buffer.contents().len() as int
            } else {
                1024int
            }),
            forall|j: int|
                0 <= j < r@.len() ==> #[trigger] r@[j] == old(self).input_buffer.contents()[j],
            final(self).input_buffer.contents() == old(self).input_buffer.contents().skip(
                r@.len() as int,
            ),
    {
        let mut buffer: Vec<i32> = Vec::new();
        crate::mixer::resize_samples(&mut buffer, 1024);
        let count: usize = self.input_buffer.read(&mut buffer);
        buffer.truncate(count);
        buffer
    }

    /// Put imported samples into a layer as its new playing loop, and fix
    /// the master loop length if this is the first content.
    pub fn load_audio_to_layer(&mut self, layer_id: usize, samples: Vec<i32>) -> (r: Result<
        (),
        LooperError,
    >)
        requires
            engine_wf(*old(self)),
        ensures
            engine_wf(*final(self)),
            layer_id < old(self).config.max_layers ==> {
                &&& r is Ok
                &&& *final(self) == (LooperEngine {
                    layers: final(self).layers,
                    master_loop_length: final(self).master_loop_length,
                    ..*old(self)
                })
                &&& spec_layers_updated_one(
                    old(self).layers@,
                    final(self).layers@,
                    layer_id as int,
                    (LayerV {
                        buffer: samples@,
                        loop_start: 0,
                        loop_end: samples@.len() as int,
                        playback_position: 0,
                        ..old(self).layers@[layer_id as int]@
                    }),
                )
                &&& final(self).master_loop_length == (if old(self).master_loop_length is None
                    && samples@.len() > 0 {
                    Some(samples@.len() as usize)
                } else {
                    old(self).master_loop_length
                })
            },
            layer_id >= old(self).config.max_layers ==> r == Err::<(), LooperError>(
                LooperError::LayerIndexOutOfRange,
            ) && *final(self) == *old(self),
    {
        if layer_id >= self.config.max_layers {
            return Err(LooperError::LayerIndexOutOfRange);
        }
        let len: usize = samples.len();
        let layer = layer_at(&mut self.layers, layer_id);
        layer.buffer = samples;
        layer.loop_start = 0;
        layer.loop_end = len;
        layer.playback_position = 0;
        let has_master = self.master_loop_length.is_some();
        if !has_master && len > 0 {
            self.master_loop_length = Some(len);
        }
        Ok(())
    }

    /// Hand out the file work queued by commands; the queue is left
    /// empty.
    pub fn take_io_requests(&mut self) -> (r: Vec<IoRequest>)
        ensures
            r@ == old(self).io_requests@,
            *final(self) == (LooperEngine { io_requests: final(self).io_requests, ..*old(self) }),
            final(self).io_requests@.len() == 0,
    {
        let mut taken: Vec<IoRequest> = Vec::new();
        core::mem::swap(&mut self.io_requests, &mut taken);
        taken
    }
}

} // verus!
