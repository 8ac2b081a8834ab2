//! Bass-guitar note drilling: the musical model, the drill state machine,
//! audio-configuration choices and the text layout of the staff and tab views.

pub mod music;
pub mod config;
pub mod audio;
pub mod app;
pub mod ui;
pub mod pitch;
pub mod lookup;
pub mod ring;
