//! Plugin scripting runtime bridge for a text editor.
//!
//! The crate turns typed plugin source trees into flat, interpreter-ready
//! script text (transpiler and bundler), hosts an embedded interpreter with a
//! curated API surface (scripting host), and tracks asynchronous host calls by
//! request identifier (protocol layer).

pub mod api;
pub mod bundle;
pub mod composite;
pub mod host;
pub mod input;
pub mod language;
pub mod lsp_overlay;
pub mod mapping;
pub mod menu;
pub mod protocol;
pub mod registry;
pub mod script;
pub mod selection;
pub mod snapshot;
pub mod styled;
pub mod text;
pub mod transpile;
