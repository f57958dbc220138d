//! The panels shown in the headset.

pub mod browser;
pub mod cache;
pub mod control_bar;
pub mod fonts;
pub mod panel;
pub mod settings;
pub mod speed;
