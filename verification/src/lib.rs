//! The logic of the COSMIC desktop portal backend.

pub mod access;
pub mod app;
pub mod app_chooser;
pub mod background;
pub mod cgroup;
mod clock;
pub mod color_picker;
pub mod config;
pub mod desktop_entries;
pub mod dict;
pub mod file_chooser;
pub mod input_capture;
pub mod label;
pub mod portal;
pub mod print;
pub mod print_dialog;
pub mod remote_desktop;
pub mod restore;
pub mod rounding;
pub mod screencast;
pub mod screenshot;
pub mod seqs;
pub mod subscription;
pub mod systemd;
pub mod text;
pub mod value;
pub mod wayland;
pub mod widget;
