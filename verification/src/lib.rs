//! A multi-layer audio looper core: layer state machines, loop playback,
//! tempo tracking, mixing, a bounded undo history, and the lock-free
//! sample transport between an audio callback and a control thread.
//!
//! Audio samples and volumes are fixed-point values throughout: the
//! constant [`sample::UNIT`] stands for an amplitude of 1.0.

pub mod channel;
pub mod control;
pub mod export;
pub mod layer;
pub mod looper;
pub mod mixer;
pub mod peak_meter;
pub mod ring;
pub mod sample;
pub mod tempo;
pub mod undo_history;

pub use crate::control::{AudioConfig, AudioEvent, IoRequest, LayerCommand, LooperError};
pub use crate::layer::AudioLayer;
pub use crate::looper::LooperEngine;
pub use crate::mixer::{ScalarMixer, SimdMixer};
pub use crate::peak_meter::{MeterColor, PeakMeter};
pub use crate::ring::LockFreeAudioBuffer;
pub use crate::tempo::TempoEngine;
pub use crate::undo_history::{LayerSnapshot, UndoHistory};
