//! Jabra headset control: the GNP protocol, HID key reports, device settings
//! and the text the tray shows.
pub mod gnp;
pub mod textual;
pub mod rfcomm;
pub mod table;
pub mod config;
pub mod i18n;
pub mod bluetooth;
pub mod daemon;
pub mod hid;
pub mod display;
pub mod mpris;
pub mod tray;
pub mod audio;
pub mod dialog;
pub mod link;
