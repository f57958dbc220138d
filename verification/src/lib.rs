//! The logic of a player for flat, stereo, 180° and 360° videos on a VR headset.

pub mod app;
pub mod audio;
pub mod cli;
pub mod entry;
pub mod input;
pub mod ipc;
pub mod net;
pub mod number;
pub mod order;
pub mod path;
pub mod player;
pub mod renderer;
pub mod source;
pub mod text;
pub mod ui;
pub mod video;
pub mod video_layer;
pub mod video_meta;
pub mod video_renderer;
pub mod volumes;
pub mod vr;
