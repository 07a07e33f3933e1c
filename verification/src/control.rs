use vstd::prelude::*;

verus! {

/// Engine construction parameters.  The sample rate is reconciled with the
/// actual device rate before the engine is built.
#[derive(Debug, Clone, Copy)]
pub struct AudioConfig {
    pub sample_rate: u32,
    pub buffer_size: usize,
    pub max_layers: usize,
}

impl Default for AudioConfig {
    fn default() -> (c: AudioConfig)
        ensures
            c.sample_rate == 44100,
            c.buffer_size == 512,
            c.max_layers == 16,
    {
        AudioConfig { sample_rate: 44100, buffer_size: 512, max_layers: 16 }
    }
}

/// One user action, sent from the control thread to the engine.  Volumes
/// are fixed-point (`sample::UNIT` is 1.0), tempo is milli-BPM, and a tap
/// carries the millisecond timestamp at which it happened.
#[derive(Debug, Clone, PartialEq)]
pub enum LayerCommand {
    Record(usize),
    StopRecording(usize),
    StopPlaying(usize),
    Play(usize),
    Mute(usize),
    Solo(usize),
    SetVolume(usize, i32),
    StopAll,
    Clear(usize),
    ClearAll,
    Undo(usize),
    Redo(usize),
    PlayAll,
    ImportWav(usize, String),
    ExportWav(String),
    SwitchInputDevice(String),
    SwitchOutputDevice(String),
    TapTempo(u64),
    SetBpm(u32),
    ToggleBeatSync(bool),
    ToggleCountInMode(bool),
    StartCountIn { layer_id: usize, measures: u32 },
    SyncPlay(usize),
    SyncStop(usize),
    SyncRecord(usize),
    ToggleMetronome(bool),
}

/// One notification from the engine back to the control thread.
#[derive(Debug, Clone, PartialEq)]
pub enum AudioEvent {
    LayerRecording(usize),
    LayerStopped(usize),
    LayerPlaying(usize),
    LayerMuted(usize),
    LayerUnmuted(usize),
    LayerSoloed(usize),
    LayerUnsoloed(usize),
    LayerUpdated(usize),
    VolumeChanged(usize, i32),
    AllStopped,
    LayerCleared(usize),
    AllCleared,
    AllPlaying,
    WavImported(usize, String),
    WavExported(String),
    Error(String),
    DevicesUpdated(Option<String>, Option<String>),
    DeviceSwitchRequested,
    DeviceSwitchComplete,
    DeviceSwitchFailed(String),
    BpmChanged(u32),
    Beat(u32, u64),
    CountInStarted { layer_id: usize, beats: u32 },
    CountInFinished { layer_id: usize },
    CountInTick { layer_id: usize, remaining_beats: u32 },
    CountInModeToggled(bool),
    MetronomeToggled(bool),
}

/// Why the engine rejected a command.
#[derive(Debug, Clone, Copy, PartialEq, Eq, Structural)]
pub enum LooperError {
    LayerIndexOutOfRange,
}

/// File work the engine asks its surroundings to perform off the audio
/// thread; results come back through `load_audio_to_layer` and events.
#[derive(Debug, Clone, PartialEq)]
pub enum IoRequest {
    ImportWav { layer_id: usize, path: String },
    ExportWav { path: String },
}

} // verus!
