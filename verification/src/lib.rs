//! Verified logic of a tray monitor and controller for a Clash / Mihomo
//! external controller.
pub mod clash;
pub mod commands;
pub mod country;
pub mod events;
pub mod notify;
pub mod poll;
pub mod settings;
pub mod state;
pub mod text;
pub mod tray;
