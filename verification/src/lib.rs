//! The logic of a ChatMix daemon for SteelSeries Arctis headsets.
pub mod audio;
pub mod audio_laws;
pub mod catalog;
pub mod catalog_laws;
pub mod cli;
pub mod daemon;
pub mod daemon_facts;
pub mod daemon_laws;
pub mod device_laws;
pub mod devices;
pub mod hid;
pub mod hid_laws;
pub mod json;
pub mod label_laws;
pub mod labels;
pub mod module_laws;
pub mod modules;
pub mod plumbing;
pub mod session;
pub mod session_facts;
pub mod session_laws;
pub mod status;
pub mod status_facts;
pub mod text;
pub mod text_laws;
