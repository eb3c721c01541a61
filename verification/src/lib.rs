//! LinkSwitch: choosing between Ethernet and Wi-Fi without unplugging the cable.
pub mod apply;
pub mod cli;
pub mod command_line;
pub mod config;
pub mod elevate;
pub mod encoding;
pub mod install;
pub mod install_laws;
pub mod laws;
pub mod log;
pub mod net;
pub mod single_instance;
pub mod status;
pub mod status_laws;
pub mod task_laws;
pub mod tasks;
pub mod text;
pub mod text_laws;
pub mod ui;
