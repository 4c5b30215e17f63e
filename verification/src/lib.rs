//! Verified core of a waybar window-list module for the niri compositor.
pub mod clicks;
pub mod colors;
pub mod drag;
pub mod keyed;
pub mod media;
pub mod notify;
pub mod patterns;
pub mod process;
pub mod settings;
pub mod snapshot;
pub mod strmap;
pub mod text;
pub mod titles;
pub mod tracker;
pub mod window_list;
pub mod windows;
