//! HFS-RS core library: the virtual file system, HTTP request logic,
//! configuration rules and the user-interface string table, each with its
//! contract proved by Verus.

pub mod text;
pub mod pattern;
pub mod i18n;
pub mod theme;
pub mod config;
pub mod http;
pub mod server;
pub mod actions;
pub mod editing;
pub mod input;
pub mod outside;
pub mod vfs;
