//! The decisions behind a pixi project: where its files live, which of its environments an edit
//! touches, how package names are mapped, and in what order a dependency update is carried out.

pub mod consts;
pub mod text;
pub mod text_map;
pub mod manifest;
pub mod affected;
pub mod channel;
pub mod mapping;
pub mod lock;
pub mod constraints;
pub mod pending;
pub mod update;
pub mod update_laws;
pub mod environment_vars;
pub mod path;
pub mod config;
pub mod discovery;
pub mod detached;
pub mod project;
