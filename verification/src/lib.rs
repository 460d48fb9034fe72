//! Core logic of the open soundpad: command parsing and replies, device
//! choice, the sound catalogue, clip playback and the decisions of the
//! resampling pipeline, each verified against its contract.

pub mod commands;
pub mod devices;
pub mod ids;
pub mod playback;
pub mod resample;
pub mod settings;
pub mod sounds;
pub mod storage;
pub mod text;
pub mod ui;
