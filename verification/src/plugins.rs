//! The logic of the plugins shipped with the launcher: parsing the output of
//! the system tools they drive, and building the items they contribute.

pub mod clipboard;
pub mod demo;
pub mod desktop;
pub mod emoji;
pub mod files;
pub mod kdeconnect;
pub mod network;
pub mod systemd;
pub mod web;
pub mod windows;
