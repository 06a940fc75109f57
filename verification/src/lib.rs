//! Timing core of an interactive rhythm game.
//!
//! The library keeps a musical clock synchronized with an audio playback
//! stream, schedules upcoming rhythmic targets ahead of the listener, scores
//! player key-presses against those targets by musical-bar alignment, and
//! retires targets whose time has passed. Everything here is integer
//! millisecond arithmetic, verified; device I/O (audio output, window,
//! input polling) lives outside the library and hands in plain values.

pub mod clock;
pub mod detector;
pub mod grid;
pub mod hit;
pub mod lifecycle;
pub mod position;
pub mod render;
pub mod scheduler;
pub mod store;

pub use clock::AudioClock;
pub use detector::InputEvent;
pub use detector::InputEvents;
pub use detector::KeyBindings;
pub use detector::TickFlags;
pub use grid::AudioContext;
pub use grid::TargetBarTime;
pub use hit::Judgment;
pub use hit::JudgmentThresholds;
pub use render::ClearColor;
pub use render::Color;
pub use scheduler::LaneDef;
pub use store::BarIndex;
pub use store::HitResult;
pub use store::RhythmCombo;
pub use store::TargetEntity;
pub use store::TargetStore;
