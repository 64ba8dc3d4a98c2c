//! Small web and text utilities: a dotted-key template engine, request and
//! session helpers for HTTP handlers, and a few line-oriented text tools.

pub mod text;
pub mod keys;
pub mod assoc;
pub mod nano;
pub mod placeholder;
pub mod template_value;
pub mod clock;
pub mod hello_service;
pub mod iron_service;
pub mod line_reader;
pub mod proxy_config;
pub mod base_rune;
pub mod tasks;
pub mod downcast;
pub mod random_entry;
pub mod markdown_page;
pub mod config_lines;
