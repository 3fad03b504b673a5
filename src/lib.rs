//! Settings for running the Gala window manager inside an XFCE session.
//!
//! The library decides which window manager the XFCE session file names,
//! rewrites that file to switch between `xfwm4` and `gala`, works out where
//! the per-user copy of the file lives, and reads and writes the three Gala
//! preferences kept in dconf.
pub mod config;
pub mod settings;
pub mod text;
pub mod window_manager;
