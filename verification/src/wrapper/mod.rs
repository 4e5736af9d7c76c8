//! The data that KDE Connect publishes over D-Bus about a device, its paths
//! and interfaces, and how its property maps are read.
pub mod client;
pub mod device;
pub mod error;
pub mod notifications;
pub mod parsing;
