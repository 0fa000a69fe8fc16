//! A software keyboard-and-mouse switch: the decisions behind sharing one set of input devices
//! across the machines of a local network.

pub mod clipboard;
pub mod commands;
pub mod config;
pub mod connection;
pub mod diag;
pub mod discovery;
pub mod engine;
pub mod files;
pub mod hotkey;
pub mod input;
pub mod media;
pub mod paths;
pub mod protocol;
pub mod runtime;
pub mod scale;
pub mod screen;
pub mod session;
pub mod table;
pub mod text;
pub mod tls;
pub mod tray;
