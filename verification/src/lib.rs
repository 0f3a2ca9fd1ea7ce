//! Control of Wi-Fi LED strip controllers: the command language, the wire
//! protocol spoken with a strip, the configuration of known controllers and
//! the macros and events built on top of them.

pub mod text;
pub mod commands;
pub mod config_utils;
pub mod db;
pub mod macros;
pub mod rest_api;
pub mod lifecycle;
