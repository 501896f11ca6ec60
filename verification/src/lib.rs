//! A terminal client's core: credential vault, configuration, host keys, error classes,
//! resumable file transfers and the state machines behind the panels.

pub mod text;
pub mod error;
pub mod app;
pub mod boot;
pub mod bridge;
pub mod config;
pub mod connect;
pub mod connection;
pub mod crypto;
pub mod files;
pub mod font;
pub mod host_key;
pub mod hostkey;
pub mod i18n;
pub mod icons;
pub mod id_set;
pub mod layout;
pub mod local_path;
pub mod masterpw;
pub mod model;
pub mod session;
pub mod settings;
pub mod sftp;
pub mod tabs;
pub mod tasks;
pub mod text_set;
pub mod transfer;
pub mod updates;
pub mod window;
