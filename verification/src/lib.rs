//! Formatting logic of a KDE Connect module for Waybar: format strings with
//! fields, rendered from the battery, device information and notifications of
//! a device, and the D-Bus property maps those come from.
pub mod config;
pub mod formatter;
pub mod text;
pub mod wrapper;
