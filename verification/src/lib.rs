//! Browse: the verified core of a minimal Radicle repository viewer.

pub mod app_state;
pub mod args;
pub mod clipboard;
pub mod components;
pub mod desktop;
pub mod gleam_bridge;
pub mod gleam_guest;
pub mod keyboard;
pub mod layout;
pub mod linkify;
pub mod markdown;
pub mod order;
pub mod rad;
pub mod recent;
pub mod smoke;
pub mod tab_prefs;
pub mod text;
pub mod view_api;
