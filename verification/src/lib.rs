//! Clipboard history: the capture and write-back pipeline around one shared
//! duplicate filter, and the ordered, durable store of what was captured.

pub mod board;
pub mod clipboard;
pub mod config;
pub mod display;
pub mod i18n;
pub mod paths;
pub mod repository;
pub mod text;
